use miniboss::api::clients::internal;
use miniboss::api::register::{register, Request};
use miniboss::directory::Database;
use miniboss::error::ErrorKind;
use miniboss::model::User;

const PEPPER: &str = "pepper";

fn reg(db: &mut Database, name: &str, email: &str, password: &str) -> Result<User, ErrorKind> {
    let req = Request { name: name.to_string(), email: email.to_string(), password: password.to_string() };
    let resp = register(db, PEPPER, &req)?;
    Ok(User::get_by_id(db, &resp.id).unwrap())
}

#[test]
fn first_registrant_is_admin_later_ones_are_not() {
    let mut db = Database::new();
    let a = reg(&mut db, "Ann", "ann@example.com", "pw-a").unwrap();
    let b = reg(&mut db, "Bob", "bob@example.com", "pw-b").unwrap();
    assert!(a.is_admin);
    assert!(!b.is_admin);
    assert_eq!(a.user_id.len(), 32);
    assert_ne!(a.user_id, b.user_id);
}

#[test]
fn duplicate_email_is_conflict_and_keeps_one_record() {
    let mut db = Database::new();
    reg(&mut db, "Ann", "ann@example.com", "pw").unwrap();
    let second = reg(&mut db, "Other Ann", "ann@example.com", "pw2");
    assert_eq!(second.unwrap_err(), ErrorKind::Conflict);
    let users = User::list(&db);
    assert_eq!(users.iter().filter(|u| u.email == "ann@example.com").count(), 1);
    assert_eq!(users[0].name, "Ann");
}

#[test]
fn email_match_is_case_sensitive() {
    let mut db = Database::new();
    reg(&mut db, "Ann", "ann@example.com", "pw").unwrap();
    assert!(reg(&mut db, "Ann", "Ann@example.com", "pw").is_ok());
    assert_eq!(User::list(&db).len(), 2);
}

#[test]
fn register_handler_returns_the_new_id() {
    let mut db = Database::new();
    let req = Request { name: "Ann".to_string(), email: "ann@example.com".to_string(), password: "pw".to_string() };
    let resp = register(&mut db, PEPPER, &req).unwrap();
    assert_eq!(User::get_by_email(&db, "ann@example.com").unwrap().user_id, resp.id);
    assert_eq!(register(&mut db, PEPPER, &req).err(), Some(ErrorKind::Conflict));
}

#[test]
fn lookups_by_id_and_email() {
    let mut db = Database::new();
    let a = reg(&mut db, "Ann", "ann@example.com", "pw").unwrap();
    assert_eq!(User::get_by_id(&db, &a.user_id).unwrap().email, "ann@example.com");
    assert_eq!(User::get_by_email(&db, "ann@example.com").unwrap().user_id, a.user_id);
    assert!(User::get_by_email(&db, "nobody@example.com").is_none());
    assert!(User::get_by_id(&db, "nope").is_none());
}

#[test]
fn password_verification() {
    let mut db = Database::new();
    let a = reg(&mut db, "Ann", "ann@example.com", "secret").unwrap();
    assert!(a.verify_password("secret", PEPPER, &db).unwrap());
    assert!(!a.verify_password("wrong", PEPPER, &db).unwrap());
    a.set_password("changed", PEPPER, &mut db).unwrap();
    assert!(a.verify_password("changed", PEPPER, &db).unwrap());
    assert!(!a.verify_password("secret", PEPPER, &db).unwrap());
    assert_eq!(db.credentials.len(), 1);
}

#[test]
fn user_without_credential_does_not_verify() {
    let mut db = Database::new();
    let u = User::new(&mut db, "Ann", "ann@example.com", false).unwrap();
    assert!(!u.verify_password("", PEPPER, &db).unwrap());
    assert_eq!(User::new(&mut db, "Ann", "ann@example.com", false).unwrap_err(), ErrorKind::Conflict);
}

#[test]
fn permitted_scopes_grant_and_revoke_are_idempotent() {
    let mut db = Database::new();
    let a = reg(&mut db, "Ann", "ann@example.com", "pw").unwrap();
    a.grant_permitted_scope(&mut db, "custom:scope");
    a.grant_permitted_scope(&mut db, "custom:scope");
    a.grant_permitted_scope(&mut db, "other");
    let mut scopes = a.list_permitted_scopes(&db);
    scopes.sort();
    assert_eq!(scopes, vec!["custom:scope".to_string(), "other".to_string()]);
    a.remove_permitted_scope(&mut db, "custom:scope");
    a.remove_permitted_scope(&mut db, "custom:scope");
    assert_eq!(a.list_permitted_scopes(&db), vec!["other".to_string()]);
}

#[test]
fn internal_client_must_be_unique() {
    let mut db = Database::new();
    assert_eq!(db.lookup_internal_client().unwrap_err(), ErrorKind::InvariantViolation);
    db.add_client("web", "https://web/cb", false).unwrap();
    db.add_client("ui", "https://ui/cb", true).unwrap();
    let c = db.lookup_internal_client().unwrap();
    assert_eq!(c.client_id, "ui");
    let resp = internal(&db).unwrap();
    assert_eq!(resp.redirect_uri, "https://ui/cb");
    db.add_client("ui2", "https://ui2/cb", true).unwrap();
    assert_eq!(db.lookup_internal_client().unwrap_err(), ErrorKind::InvariantViolation);
    assert_eq!(db.add_client("ui", "https://x", false).unwrap_err(), ErrorKind::Storage);
    assert_eq!(db.client_by_id("web").unwrap().redirect_uri, "https://web/cb");
    assert!(db.client_by_id("none").is_none());
}
