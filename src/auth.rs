use vstd::prelude::*;
use crate::directory::{lemma_distinct_keys, Database};
use crate::error::ErrorKind;
use crate::model::{copy_strings, AccessToken, TokenView, User, UserView};
use crate::scope::{contains, views};

verus! {

/// The token of a bearer credential: what follows the `Bearer ` prefix, if it has it.
pub open spec fn bearer_of(s: Seq<char>) -> Option<Seq<char>> {
    if "Bearer "@.is_prefix_of(s) {
        Some(s.skip(7))
    } else {
        None
    }
}

/// Relies on `str::strip_prefix`: the rest of `s` when `s` starts with `prefix`.
#[verifier::external_body]
fn strip_prefix<'a>(s: &'a str, prefix: &str) -> (r: Option<&'a str>)
    ensures
        r is Some <==> prefix@.is_prefix_of(s@),
        r is Some ==> r->0@ == s@.skip(prefix@.len() as int),
{
    s.strip_prefix(prefix)
}

/// The bearer token of a request: from its `Authorization` header when that holds a
/// bearer credential, else from its `Authorization` cookie when that does.
pub fn get_authorization_token(header: Option<&str>, cookie: Option<&str>) -> (r: Option<String>)
    ensures
        ({
            let from_header = match header {
                Some(h) => bearer_of(h@),
                None => None,
            };
            let from_cookie = match cookie {
                Some(c) => bearer_of(c@),
                None => None,
            };
            match from_header {
                Some(t) => r is Some && r->0@ == t,
                None => match from_cookie {
                    Some(t) => r is Some && r->0@ == t,
                    None => r is None,
                },
            }
        }),
{
    proof {
        reveal_strlit("Bearer ");
    }
    if let Some(h) = header {
        if let Some(t) = strip_prefix(h, "Bearer ") {
            return Some(t.to_owned());
        }
    }
    if let Some(c) = cookie {
        if let Some(t) = strip_prefix(c, "Bearer ") {
            return Some(t.to_owned());
        }
    }
    None
}

/// An authenticated request: the user that an active access token stands for.
#[derive(Debug)]
pub struct Auth {
    pub user: User,
    token: AccessToken,
}

impl Auth {
    /// The access token this authentication rests on.
    pub closed spec fn token_view(&self) -> TokenView {
        self.token@
    }

    /// The authenticated user.
    pub closed spec fn user_view(&self) -> UserView {
        self.user@
    }

    /// Authenticates a bearer token at `now`: it must be active and its user must exist.
    /// Anything else is `Unauthorized`, whether the token is unknown or expired.
    pub fn from_token(db: &Database, token: &str, now: i64) -> (r: Result<Auth, ErrorKind>)
        requires
            db.wf(),
        ensures
            r is Ok <==> exists|t: int| db.active(t, token@, now) && db.has_user_id(db.tokens@[t].user_id@),
            r is Err ==> r->Err_0 == ErrorKind::Unauthorized,
            r is Ok ==> exists|t: int| db.active(t, token@, now) && r->Ok_0.token_view() == db.tokens@[t]@,
            r is Ok ==> exists|i: int| 0 <= i < db.users@.len() && db.users@[i]@ == r->Ok_0.user_view()
                && db.users@[i].user_id@ == r->Ok_0.token_view().user_id,
    {
        let t = match db.introspect(token, now) {
            Some(t) => t,
            None => {
                return Err(ErrorKind::Unauthorized);
            },
        };
        proof {
            let k = choose|k: int| db.active(k, token@, now) && db.tokens@[k]@ == t@;
            assert forall|m: int| db.active(m, token@, now) implies m == k by {
                lemma_distinct_keys(db.tokens@, |r: AccessToken| r.token@, m, k);
            }
        }
        match User::get_by_id(db, t.user_id.as_str()) {
            Some(user) => Ok(Auth { user, token: t }),
            None => Err(ErrorKind::Unauthorized),
        }
    }

    /// Whether the token grants `scope`.
    pub fn has_scope(&self, scope: &str) -> (r: bool)
        ensures
            r == self.token_view().scopes.contains(scope@),
    {
        contains(&self.token.scopes, &scope.to_owned())
    }

    /// The scopes the token grants.
    pub fn scopes(&self) -> (r: Vec<String>)
        ensures
            views(r@) == self.token_view().scopes,
    {
        copy_strings(&self.token.scopes)
    }
}

/// Whether the bearer token `token` is active at `now` and grants `scope`.
pub fn require_scope(db: &Database, token: &str, scope: &str, now: i64) -> (r: bool)
    requires
        db.wf(),
    ensures
        r == exists|t: int| db.active(t, token@, now) && db.tokens@[t]@.scopes.contains(scope@),
{
    match db.introspect(token, now) {
        Some(t) => {
            proof {
                let k = choose|k: int| db.active(k, token@, now) && db.tokens@[k]@ == t@;
                assert forall|m: int| db.active(m, token@, now) implies m == k by {
                    lemma_distinct_keys(db.tokens@, |r: AccessToken| r.token@, m, k);
                }
            }
            contains(&t.scopes, &scope.to_owned())
        },
        None => false,
    }
}

} // verus!
