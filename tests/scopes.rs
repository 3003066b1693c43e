use miniboss::scope::{check_scopes, contains, oidc_scopes, parse_scopes};

fn strings(v: &[&str]) -> Vec<String> {
    v.iter().map(|s| s.to_string()).collect()
}

#[test]
fn parse_scopes_splits_on_spaces_and_collapses_duplicates() {
    let v = parse_scopes("openid profile openid custom:scope");
    assert_eq!(v, strings(&["openid", "profile", "custom:scope"]));
}

#[test]
fn parse_scopes_keeps_empty_tokens() {
    assert_eq!(parse_scopes(""), strings(&[""]));
    assert_eq!(parse_scopes("a  b"), strings(&["a", "", "b"]));
}

#[test]
fn oidc_scopes_are_the_three_baseline_scopes() {
    assert_eq!(oidc_scopes(), strings(&["openid", "profile", "email"]));
}

#[test]
fn contains_finds_equal_strings_only() {
    let v = strings(&["a", "bc"]);
    assert!(contains(&v, &"bc".to_string()));
    assert!(!contains(&v, &"b".to_string()));
}

#[test]
fn admin_bypasses_the_allowlist() {
    assert!(check_scopes(&strings(&["anything"]), &vec![], true));
}

#[test]
fn non_admin_may_request_oidc_and_permitted_scopes() {
    let requested = strings(&["openid", "profile", "custom:scope"]);
    assert!(check_scopes(&requested, &strings(&["custom:scope"]), false));
}

#[test]
fn one_disallowed_scope_refuses_the_request() {
    let requested = strings(&["openid", "profile", "custom:scope"]);
    assert!(!check_scopes(&requested, &vec![], false));
    assert!(!check_scopes(&requested, &strings(&["other"]), false));
}
