use vstd::prelude::*;
use crate::directory::Database;
use crate::error::ErrorKind;
use crate::model::User;

verus! {

/// A registration.
#[derive(Debug)]
pub struct Request {
    pub name: String,
    pub email: String,
    pub password: String,
}

/// The id of the registered user.
#[derive(Debug)]
pub struct Response {
    pub id: String,
}

/// Registers a user with a password. The first user ever registered is an admin;
/// every later one is not. A taken email is a `Conflict` and changes nothing.
pub fn register(db: &mut Database, pepper: &str, payload: &Request) -> (r: Result<Response, ErrorKind>)
    requires
        old(db).wf(),
    ensures
        final(db).wf(),
        old(db).has_email(payload.email@) <==> r == Err::<Response, ErrorKind>(ErrorKind::Conflict),
        !old(db).has_email(payload.email@) && old(db).users@.len() == 0 ==> r is Ok,
        r is Err ==> *final(db) == *old(db),
        r is Err ==> r->Err_0 == ErrorKind::Conflict || r->Err_0 == ErrorKind::Storage,
        r is Ok ==> {
            &&& forall|i: int| 0 <= i < old(db).users@.len() ==> final(db).users@[i] == old(db).users@[i]
            &&& final(db).users@.last()@.name == payload.name@
            &&& final(db).users@.len() == old(db).users@.len() + 1
            &&& final(db).users@.last()@.user_id == r->Ok_0.id@
            &&& !old(db).has_user_id(r->Ok_0.id@)
            &&& final(db).users@.last()@.email == payload.email@
            &&& final(db).users@.last()@.is_admin == (old(db).users@.len() == 0)
            &&& final(db).password_matches(r->Ok_0.id@, payload.password@, pepper@)
            &&& final(db).grants_unchanged(old(db))
        },
{
    if User::get_by_email(db, payload.email.as_str()).is_some() {
        return Err(ErrorKind::Conflict);
    }
    let total_user_count = User::list(db).len();
    let user = match User::new(db, payload.name.as_str(), payload.email.as_str(), total_user_count == 0) {
        Ok(u) => u,
        Err(e) => return Err(e),
    };
    let _ = user.set_password(payload.password.as_str(), pepper, db);
    Ok(Response { id: user.user_id })
}

} // verus!
