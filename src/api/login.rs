use vstd::prelude::*;
use crate::directory::Database;
use crate::error::{ErrorKind, Rejection};
use crate::hash::{verify_result, HashingError};
use crate::model::opt_view;

verus! {

/// A login against a pending authorization.
#[derive(Debug)]
pub struct Request {
    pub authorization: String,
    pub username: String,
    pub password: String,
}

/// The answer to a successful login.
#[derive(Debug)]
pub struct Response {
    pub status: bool,
}

/// Logs the user in and binds them to the pending authorization. An unknown or expired
/// pending authorization is `NotFound`; an unknown email, a user without a password and
/// a wrong password are `Unauthorized`; with the right password, a scope the user may
/// not be granted is `Forbidden`, and then an authorization that is bound already is a
/// `Conflict`.
pub fn login(db: &mut Database, pepper: &str, payload: &Request, now: i64) -> (r: Result<Response, Rejection>)
    requires
        old(db).wf(),
    ensures
        r is Ok ==> r->Ok_0.status,
        final(db).wf(),
        r is Err ==> *final(db) == *old(db),
        !old(db).has_live(payload.authorization@, now) ==> (r is Err && r->Err_0.kind == ErrorKind::NotFound
            && r->Err_0.state is None && r->Err_0.redirect_uri is None),
        forall|i: int| #[trigger] old(db).live(i, payload.authorization@, now) && r is Err
            ==> opt_view(r->Err_0.state) == old(db).pending@[i]@.state
                && opt_view(r->Err_0.redirect_uri) == Some(old(db).pending@[i]@.redirect_uri),
        old(db).has_live(payload.authorization@, now) && !old(db).has_email(payload.username@)
            ==> (r is Err && r->Err_0.kind == ErrorKind::Unauthorized),
        forall|j: int| 0 <= j < old(db).users@.len() && old(db).users@[j].email@ == payload.username@
            && old(db).has_live(payload.authorization@, now) && !old(db).has_credential(#[trigger] old(db).users@[j].user_id@)
            ==> (r is Err && r->Err_0.kind == ErrorKind::Unauthorized),
        forall|i: int, j: int| #![trigger old(db).live(i, payload.authorization@, now), old(db).users@[j]]
            old(db).live(i, payload.authorization@, now) && 0 <= j < old(db).users@.len()
            && old(db).users@[j].email@ == payload.username@
            && old(db).password_matches(old(db).users@[j].user_id@, payload.password@, pepper@)
            ==> match old(db).bind_result(i, old(db).users@[j]@) {
                Some(k) => r is Err && r->Err_0.kind == k,
                None => r is Ok && final(db).bound_to(old(db), i, old(db).users@[j].user_id@),
            },
        forall|i: int, j: int, c: int|
            #![trigger old(db).live(i, payload.authorization@, now), old(db).users@[j], old(db).credentials@[c]]
            old(db).live(i, payload.authorization@, now) && 0 <= j < old(db).users@.len()
            && old(db).users@[j].email@ == payload.username@
            && 0 <= c < old(db).credentials@.len()
            && old(db).credentials@[c].user_id@ == old(db).users@[j].user_id@
            ==> match verify_result(old(db).credentials@[c].password@, payload.password@, pepper@) {
                Ok(true) => match old(db).bind_result(i, old(db).users@[j]@) {
                    Some(k) => r is Err && r->Err_0.kind == k,
                    None => r is Ok && final(db).bound_to(old(db), i, old(db).users@[j].user_id@),
                },
                Ok(false) => r is Err && r->Err_0.kind == ErrorKind::Unauthorized,
                Err(_) => r is Err && r->Err_0.kind == ErrorKind::Hashing,
            },
        r is Ok ==> exists|i: int, j: int, c: int|
            #![trigger old(db).live(i, payload.authorization@, now), old(db).users@[j], old(db).credentials@[c]]
            old(db).live(i, payload.authorization@, now) && 0 <= j < old(db).users@.len()
            && old(db).users@[j].email@ == payload.username@
            && 0 <= c < old(db).credentials@.len()
            && old(db).credentials@[c].user_id@ == old(db).users@[j].user_id@
            && verify_result(old(db).credentials@[c].password@, payload.password@, pepper@) == Ok::<bool, HashingError>(true)
            && old(db).bind_result(i, old(db).users@[j]@) is None
            && final(db).bound_to(old(db), i, old(db).users@[j].user_id@),
{
    match db.bind_user(payload.authorization.as_str(), payload.username.as_str(), payload.password.as_str(), pepper, now) {
        Ok(()) => Ok(Response { status: true }),
        Err(e) => Err(e),
    }
}

} // verus!
