use miniboss::directory::Database;
use miniboss::error::ErrorKind;
use miniboss::model::User;

const NOW: i64 = 1_700_000_000;

#[test]
fn insert_user_reports_taken_email_before_taken_id() {
    let mut db = Database::new();
    let u = User::insert_user(&mut db, "id-1".to_string(), "Ann", "ann@example.com", true).unwrap();
    assert_eq!(u.user_id, "id-1");
    assert!(u.is_admin);
    let e = User::insert_user(&mut db, "id-1".to_string(), "Ann", "ann@example.com", false).unwrap_err();
    assert_eq!(e, ErrorKind::Conflict);
    let e = User::insert_user(&mut db, "id-1".to_string(), "Bob", "bob@example.com", false).unwrap_err();
    assert_eq!(e, ErrorKind::Storage);
    assert_eq!(User::list(&db).len(), 1);
}

#[test]
fn drawn_ids_that_are_taken_are_storage_errors() {
    let mut db = Database::new();
    db.add_client("c", "https://c/cb", false).unwrap();
    let u = User::insert_user(&mut db, "uid".to_string(), "Ann", "ann@example.com", true).unwrap();
    u.set_password("pw", "pep", &mut db).unwrap();

    let p = db.start_authorization_with_id("p1".to_string(), "c", "https://c/cb", Some("openid"), Some("s"), NOW).unwrap();
    assert_eq!(p, "p1");
    let e = db.start_authorization_with_id("p1".to_string(), "c", "https://c/cb", None, Some("s"), NOW).unwrap_err();
    assert_eq!(e.kind, ErrorKind::Storage);
    assert_eq!(e.state, Some("s".to_string()));
    db.start_authorization_with_id("p2".to_string(), "c", "https://c/cb", None, None, NOW).unwrap();

    db.bind_user("p1", "ann@example.com", "pw", "pep", NOW).unwrap();
    db.bind_user("p2", "ann@example.com", "pw", "pep", NOW).unwrap();
    let code = db.issue_code_with("p1", "code-1".to_string(), NOW).unwrap();
    assert_eq!(code.code, "code-1");
    let e = db.issue_code_with("p2", "code-1".to_string(), NOW).unwrap_err();
    assert_eq!(e.kind, ErrorKind::Storage);
    assert_eq!(db.pending.len(), 1);

    let t = db.exchange_with_token("code-1", "https://c/cb", "c", "tok-1".to_string(), NOW).unwrap();
    assert_eq!(t.token, "tok-1");
    assert_eq!(t.scopes, vec!["openid".to_string()]);
    db.issue_code_with("p2", "code-2".to_string(), NOW).unwrap();
    let e = db.exchange_with_token("code-2", "https://c/cb", "c", "tok-1".to_string(), NOW).unwrap_err();
    assert_eq!(e, ErrorKind::Storage);
    assert!(!db.codes[1].used);
}

#[test]
fn stored_salt_is_sixteen_characters() {
    let mut db = Database::new();
    let u = User::insert_user(&mut db, "uid".to_string(), "Ann", "ann@example.com", true).unwrap();
    u.set_password("pw", "pep", &mut db).unwrap();
    assert_eq!(db.credentials[0].salt.len(), 16);
    assert_eq!(miniboss::hash::hash("pw", &db.credentials[0].salt, "pep").unwrap(), db.credentials[0].password);
}
