use vstd::prelude::*;
use crate::directory::Database;
use crate::error::ErrorKind;

verus! {

/// The first-party client that the login UI uses.
#[derive(Debug)]
pub struct Response {
    pub client_id: String,
    pub redirect_uri: String,
}

/// The internal client: see `Database::lookup_internal_client`.
pub fn internal(db: &Database) -> (r: Result<Response, ErrorKind>)
    ensures
        r is Ok <==> exists|i: int| db.sole_internal(i),
        r is Ok ==> exists|i: int| db.sole_internal(i) && db.clients@[i].client_id@ == r->Ok_0.client_id@
            && db.clients@[i].redirect_uri@ == r->Ok_0.redirect_uri@,
        r is Err ==> r->Err_0 == ErrorKind::InvariantViolation,
{
    match db.lookup_internal_client() {
        Ok(c) => Ok(Response { client_id: c.client_id, redirect_uri: c.redirect_uri }),
        Err(e) => Err(e),
    }
}

} // verus!
