use miniboss::api::login::{login, Request};
use miniboss::api::register::{register, Request as RegisterRequest};
use miniboss::auth::{get_authorization_token, require_scope, Auth};
use miniboss::directory::Database;
use miniboss::error::ErrorKind;
use miniboss::grant::{CODE_TTL, PENDING_TTL, TOKEN_TTL};
use miniboss::model::User;

const PEPPER: &str = "pepper";
const NOW: i64 = 1_700_000_000;
const CLIENT: &str = "client-c";
const REDIRECT: &str = "https://client.example/cb";

fn reg(db: &mut Database, name: &str, email: &str, password: &str) -> Result<User, ErrorKind> {
    let req = RegisterRequest { name: name.to_string(), email: email.to_string(), password: password.to_string() };
    let resp = register(db, PEPPER, &req)?;
    Ok(User::get_by_id(db, &resp.id).unwrap())
}

/// A datastore with client C, an admin, and a non-admin user `user@example.com`.
fn setup(grant_custom: bool) -> (Database, User) {
    let mut db = Database::new();
    db.add_client(CLIENT, REDIRECT, false).unwrap();
    reg(&mut db, "Admin", "admin@example.com", "admin-pw").unwrap();
    let user = reg(&mut db, "User", "user@example.com", "user-pw").unwrap();
    assert!(!user.is_admin);
    if grant_custom {
        user.grant_permitted_scope(&mut db, "custom:scope");
    }
    (db, user)
}

fn start(db: &mut Database) -> String {
    db.start_authorization(CLIENT, REDIRECT, Some("openid profile custom:scope"), Some("xyz"), NOW).unwrap()
}

#[test]
fn grant_flow_end_to_end() {
    let (mut db, user) = setup(true);
    let pending = start(&mut db);
    assert_eq!(db.pending[0].expires_at, NOW + PENDING_TTL);
    db.bind_user(&pending, "user@example.com", "user-pw", PEPPER, NOW + 1).unwrap();
    let issued = db.issue_code(&pending, NOW + 2).unwrap();
    assert_eq!(issued.redirect_uri, REDIRECT);
    assert_eq!(issued.state, Some("xyz".to_string()));
    assert!(db.pending.is_empty());
    assert_eq!(db.codes[0].expires_at, NOW + 2 + CODE_TTL);
    let token = db.exchange(&issued.code, REDIRECT, CLIENT, NOW + 3).unwrap();
    let mut scopes = token.scopes.clone();
    scopes.sort();
    assert_eq!(scopes, vec!["custom:scope".to_string(), "openid".to_string(), "profile".to_string()]);
    assert_eq!(token.user_id, user.user_id);
    assert_eq!(token.client_id, CLIENT);
    assert_eq!(token.expires_at, NOW + 3 + TOKEN_TTL);
    let info = db.introspect(&token.token, NOW + 4).unwrap();
    assert_eq!(info.user_id, user.user_id);
}

#[test]
fn binding_without_permitted_scope_is_forbidden_with_state() {
    let (mut db, _) = setup(false);
    let pending = start(&mut db);
    let err = db.bind_user(&pending, "user@example.com", "user-pw", PEPPER, NOW + 1).unwrap_err();
    assert_eq!(err.kind, ErrorKind::Forbidden);
    assert_eq!(err.state, Some("xyz".to_string()));
    assert_eq!(err.redirect_uri, Some(REDIRECT.to_string()));
    assert!(db.pending[0].user_id.is_none());
}

#[test]
fn scope_check_comes_before_the_bound_check() {
    let (mut db, _) = setup(false);
    let pending = start(&mut db);
    db.bind_user(&pending, "admin@example.com", "admin-pw", PEPPER, NOW + 1).unwrap();
    let err = db.bind_user(&pending, "user@example.com", "user-pw", PEPPER, NOW + 2).unwrap_err();
    assert_eq!(err.kind, ErrorKind::Forbidden);
    let err = db.bind_user(&pending, "user@example.com", "wrong", PEPPER, NOW + 2).unwrap_err();
    assert_eq!(err.kind, ErrorKind::Unauthorized);
    let err = db.bind_user(&pending, "admin@example.com", "admin-pw", PEPPER, NOW + 2).unwrap_err();
    assert_eq!(err.kind, ErrorKind::Conflict);
}

#[test]
fn admin_binds_any_scope() {
    let (mut db, _) = setup(false);
    let pending = start(&mut db);
    db.bind_user(&pending, "admin@example.com", "admin-pw", PEPPER, NOW + 1).unwrap();
    assert!(db.pending[0].user_id.is_some());
}

#[test]
fn bad_credentials_are_unauthorized_alike() {
    let (mut db, _) = setup(true);
    let pending = start(&mut db);
    let wrong_pw = db.bind_user(&pending, "user@example.com", "nope", PEPPER, NOW + 1).unwrap_err();
    let no_user = db.bind_user(&pending, "ghost@example.com", "user-pw", PEPPER, NOW + 1).unwrap_err();
    assert_eq!(wrong_pw.kind, ErrorKind::Unauthorized);
    assert_eq!(no_user.kind, ErrorKind::Unauthorized);
    assert_eq!(wrong_pw.state, no_user.state);
}

#[test]
fn unknown_or_expired_pending_is_not_found() {
    let (mut db, _) = setup(true);
    let pending = start(&mut db);
    let err = db.bind_user("unknown", "user@example.com", "user-pw", PEPPER, NOW).unwrap_err();
    assert_eq!(err.kind, ErrorKind::NotFound);
    assert_eq!(err.state, None);
    assert_eq!(err.redirect_uri, None);
    let err = db.bind_user(&pending, "user@example.com", "user-pw", PEPPER, NOW + PENDING_TTL).unwrap_err();
    assert_eq!(err.kind, ErrorKind::NotFound);
}

#[test]
fn rebinding_is_conflict_for_same_or_other_user() {
    let (mut db, _) = setup(true);
    let pending = start(&mut db);
    db.bind_user(&pending, "user@example.com", "user-pw", PEPPER, NOW + 1).unwrap();
    let same = db.bind_user(&pending, "user@example.com", "user-pw", PEPPER, NOW + 2).unwrap_err();
    let other = db.bind_user(&pending, "admin@example.com", "admin-pw", PEPPER, NOW + 2).unwrap_err();
    assert_eq!(same.kind, ErrorKind::Conflict);
    assert_eq!(other.kind, ErrorKind::Conflict);
    assert_eq!(other.state, Some("xyz".to_string()));
}

#[test]
fn login_handler_binds() {
    let (mut db, user) = setup(true);
    let pending = start(&mut db);
    let req = Request { authorization: pending, username: "user@example.com".to_string(), password: "user-pw".to_string() };
    assert!(login(&mut db, PEPPER, &req, NOW + 1).unwrap().status);
    assert_eq!(db.pending[0].user_id, Some(user.user_id));
}

#[test]
fn start_authorization_checks_client_and_redirect() {
    let (mut db, _) = setup(true);
    let err = db.start_authorization("nope", REDIRECT, None, Some("s"), NOW).unwrap_err();
    assert_eq!(err.kind, ErrorKind::NotFound);
    assert_eq!(err.state, Some("s".to_string()));
    let err = db.start_authorization(CLIENT, "https://evil/cb", None, None, NOW).unwrap_err();
    assert_eq!(err.kind, ErrorKind::InvalidRequest);
    assert!(db.pending.is_empty());
}

#[test]
fn code_needs_a_bound_user() {
    let (mut db, _) = setup(true);
    let pending = start(&mut db);
    let err = db.issue_code(&pending, NOW + 1).unwrap_err();
    assert_eq!(err.kind, ErrorKind::Unauthorized);
    assert_eq!(err.state, Some("xyz".to_string()));
    assert_eq!(db.issue_code("unknown", NOW).unwrap_err().kind, ErrorKind::NotFound);
}

#[test]
fn pending_without_scope_gives_empty_scope_set() {
    let (mut db, _) = setup(false);
    let pending = db.start_authorization(CLIENT, REDIRECT, None, None, NOW).unwrap();
    db.bind_user(&pending, "user@example.com", "user-pw", PEPPER, NOW).unwrap();
    let issued = db.issue_code(&pending, NOW).unwrap();
    assert!(db.codes[0].scopes.is_empty());
    assert_eq!(issued.state, None);
}

fn issued_code(db: &mut Database) -> String {
    let pending = start(db);
    db.bind_user(&pending, "user@example.com", "user-pw", PEPPER, NOW + 1).unwrap();
    db.issue_code(&pending, NOW + 2).unwrap().code
}

#[test]
fn code_exchanges_once() {
    let (mut db, _) = setup(true);
    let code = issued_code(&mut db);
    assert!(db.exchange(&code, REDIRECT, CLIENT, NOW + 3).is_ok());
    assert_eq!(db.exchange(&code, REDIRECT, CLIENT, NOW + 4).unwrap_err(), ErrorKind::InvalidGrant);
    assert_eq!(db.tokens.len(), 1);
    assert!(db.codes[0].used);
}

#[test]
fn exchange_requires_exact_redirect_and_client() {
    let (mut db, _) = setup(true);
    let code = issued_code(&mut db);
    assert_eq!(db.exchange(&code, "https://client.example/cb/", CLIENT, NOW + 3).unwrap_err(), ErrorKind::InvalidGrant);
    assert_eq!(db.exchange(&code, REDIRECT, "client-d", NOW + 3).unwrap_err(), ErrorKind::InvalidGrant);
    assert_eq!(db.exchange("unknown", REDIRECT, CLIENT, NOW + 3).unwrap_err(), ErrorKind::InvalidGrant);
    assert!(db.exchange(&code, REDIRECT, CLIENT, NOW + 3).is_ok());
}

#[test]
fn expired_code_is_invalid_grant() {
    let (mut db, _) = setup(true);
    let code = issued_code(&mut db);
    assert_eq!(db.exchange(&code, REDIRECT, CLIENT, NOW + 2 + CODE_TTL).unwrap_err(), ErrorKind::InvalidGrant);
}

#[test]
fn expired_token_introspects_like_unknown() {
    let (mut db, _) = setup(true);
    let code = issued_code(&mut db);
    let token = db.exchange(&code, REDIRECT, CLIENT, NOW + 3).unwrap();
    let expired = db.introspect(&token.token, token.expires_at);
    let unknown = db.introspect("never-issued", NOW);
    assert!(expired.is_none());
    assert!(unknown.is_none());
    assert!(db.introspect(&token.token, token.expires_at - 1).is_some());
}

#[test]
fn bearer_token_from_header_then_cookie() {
    assert_eq!(get_authorization_token(Some("Bearer abc"), Some("Bearer def")), Some("abc".to_string()));
    assert_eq!(get_authorization_token(Some("Basic abc"), Some("Bearer def")), Some("def".to_string()));
    assert_eq!(get_authorization_token(None, Some("Bearer def")), Some("def".to_string()));
    assert_eq!(get_authorization_token(Some("bearer abc"), None), None);
    assert_eq!(get_authorization_token(None, None), None);
}

#[test]
fn auth_from_token_and_scopes() {
    let (mut db, user) = setup(true);
    let code = issued_code(&mut db);
    let token = db.exchange(&code, REDIRECT, CLIENT, NOW + 3).unwrap();
    let auth = Auth::from_token(&db, &token.token, NOW + 4).unwrap();
    assert_eq!(auth.user.user_id, user.user_id);
    assert!(auth.has_scope("custom:scope"));
    assert!(!auth.has_scope("email"));
    assert_eq!(auth.scopes().len(), 3);
    assert!(require_scope(&db, &token.token, "openid", NOW + 4));
    assert!(!require_scope(&db, &token.token, "openid", token.expires_at));
    assert_eq!(Auth::from_token(&db, &token.token, token.expires_at).unwrap_err(), ErrorKind::Unauthorized);
    assert_eq!(Auth::from_token(&db, "nope", NOW).unwrap_err(), ErrorKind::Unauthorized);
}
