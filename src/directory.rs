use vstd::prelude::*;
use vstd::utf8::{encode_utf8, is_ascii_chars};
use vstd::string::StringSliceAdditionalSpecFns;
use rand::Rng;
use crate::error::ErrorKind;
use crate::hash::{derived, hash, hash_made, hash_matches, verify, verify_result, HashingError};
use crate::model::{
    AccessToken, AuthorizationCode, Client, ClientView, Credential, UserView, PendingAuthorization, PermittedScope, User,
};
use crate::scope::views;

verus! {

/// Relies on rand's `thread_rng` sampled with the `Alphanumeric` distribution:
/// `len` characters, each an ASCII letter or digit.
#[verifier::external_body]
pub(crate) fn generate_string(len: usize) -> (r: String)
    ensures
        r@.len() == len,
        is_ascii_chars(r@),
{
    rand::thread_rng().sample_iter(rand::distributions::Alphanumeric).take(len).map(char::from).collect()
}

/// In a sequence whose keys are pairwise distinct, two positions with the same key are one.
pub proof fn lemma_distinct_keys<A>(s: Seq<A>, key: spec_fn(A) -> Seq<char>, i: int, k: int)
    requires
        forall|a: int, b: int| 0 <= a < b < s.len() ==> key(s[a]) != key(s[b]),
        0 <= i < s.len(),
        0 <= k < s.len(),
        key(s[i]) == key(s[k]),
    ensures
        i == k,
{
    if i < k {
        assert(key(s[i]) != key(s[k]));
    } else if k < i {
        assert(key(s[k]) != key(s[i]));
    }
}

/// One of the first `n` rows of `rows` permits scope `s` to user `u`.
pub open spec fn holds(rows: Seq<PermittedScope>, n: int, u: Seq<char>, s: Seq<char>) -> bool {
    exists|k: int| 0 <= k < n && rows[k].user_id@ == u && #[trigger] rows[k].scope@ == s
}

proof fn lemma_holds_push(rows: Seq<PermittedScope>, e: PermittedScope)
    ensures
        forall|u: Seq<char>, s: Seq<char>| #[trigger] holds(rows.push(e), rows.len() as int + 1, u, s)
            <==> (holds(rows, rows.len() as int, u, s) || (e.user_id@ == u && e.scope@ == s)),
{
    let r2 = rows.push(e);
    assert forall|u: Seq<char>, s: Seq<char>| #[trigger] holds(r2, rows.len() as int + 1, u, s)
        <==> (holds(rows, rows.len() as int, u, s) || (e.user_id@ == u && e.scope@ == s)) by {
        if holds(rows, rows.len() as int, u, s) {
            let k = choose|k: int| 0 <= k < rows.len() && rows[k].user_id@ == u && #[trigger] rows[k].scope@ == s;
            assert(r2[k].scope@ == s);
        }
        if e.user_id@ == u && e.scope@ == s {
            assert(r2[rows.len() as int].scope@ == s);
        }
        if holds(r2, rows.len() as int + 1, u, s) {
            let k = choose|k: int| 0 <= k < rows.len() + 1 && r2[k].user_id@ == u && #[trigger] r2[k].scope@ == s;
            if k < rows.len() {
                assert(rows[k].scope@ == s);
            }
        }
    }
}

proof fn lemma_holds_step(rows: Seq<PermittedScope>, j: int)
    requires
        0 <= j < rows.len(),
    ensures
        forall|u: Seq<char>, s: Seq<char>| #[trigger] holds(rows, j + 1, u, s)
            <==> (holds(rows, j, u, s) || (rows[j].user_id@ == u && rows[j].scope@ == s)),
{
    assert forall|u: Seq<char>, s: Seq<char>| #[trigger] holds(rows, j + 1, u, s)
        <==> (holds(rows, j, u, s) || (rows[j].user_id@ == u && rows[j].scope@ == s)) by {
        if holds(rows, j + 1, u, s) {
            let k = choose|k: int| 0 <= k < j + 1 && rows[k].user_id@ == u && #[trigger] rows[k].scope@ == s;
        }
        if rows[j].user_id@ == u && rows[j].scope@ == s {
            assert(rows[j].scope@ == s);
        }
    }
}

/// The datastore: every table that the authorization server reads and writes.
pub struct Database {
    pub users: Vec<User>,
    pub credentials: Vec<Credential>,
    pub permitted: Vec<PermittedScope>,
    pub clients: Vec<Client>,
    pub pending: Vec<PendingAuthorization>,
    pub codes: Vec<AuthorizationCode>,
    pub tokens: Vec<AccessToken>,
}

impl Database {
    /// Emails and user ids are unique among users; so are the keys of every other table.
    pub open spec fn wf(&self) -> bool {
        &&& forall|i: int, j: int| 0 <= i < j < self.users@.len() ==>
            self.users@[i].email@ != self.users@[j].email@ && self.users@[i].user_id@ != self.users@[j].user_id@
        &&& forall|i: int, j: int| 0 <= i < j < self.credentials@.len() ==>
            self.credentials@[i].user_id@ != self.credentials@[j].user_id@
        &&& forall|i: int, j: int| 0 <= i < j < self.clients@.len() ==>
            self.clients@[i].client_id@ != self.clients@[j].client_id@
        &&& forall|i: int, j: int| 0 <= i < j < self.pending@.len() ==>
            self.pending@[i].id@ != self.pending@[j].id@
        &&& forall|i: int, j: int| 0 <= i < j < self.codes@.len() ==>
            self.codes@[i].code@ != self.codes@[j].code@
        &&& forall|i: int, j: int| 0 <= i < j < self.tokens@.len() ==>
            self.tokens@[i].token@ != self.tokens@[j].token@
    }

    pub open spec fn has_email(&self, email: Seq<char>) -> bool {
        exists|i: int| 0 <= i < self.users@.len() && self.users@[i].email@ == email
    }

    pub open spec fn has_user_id(&self, id: Seq<char>) -> bool {
        exists|i: int| 0 <= i < self.users@.len() && self.users@[i].user_id@ == id
    }

    pub open spec fn has_credential(&self, user_id: Seq<char>) -> bool {
        exists|j: int| 0 <= j < self.credentials@.len() && self.credentials@[j].user_id@ == user_id
    }

    /// The stored hash of `user_id` verifies `password` with `pepper`.
    pub open spec fn password_matches(&self, user_id: Seq<char>, password: Seq<char>, pepper: Seq<char>) -> bool {
        exists|j: int| 0 <= j < self.credentials@.len() && self.credentials@[j].user_id@ == user_id
            && hash_matches(self.credentials@[j].password@, password, pepper)
    }

    /// The scopes that `user_id` may be granted besides the OpenID Connect ones.
    pub open spec fn permitted_set(&self, user_id: Seq<char>) -> Set<Seq<char>> {
        Set::new(|s: Seq<char>| holds(self.permitted@, self.permitted@.len() as int, user_id, s))
    }

    /// `self` is `old` with the new user `u` appended, whose email and id were free.
    pub open spec fn user_added(&self, old: &Database, u: UserView) -> bool {
        &&& !old.has_email(u.email)
        &&& !old.has_user_id(u.user_id)
        &&& self.users@.len() == old.users@.len() + 1
        &&& forall|i: int| 0 <= i < old.users@.len() ==> self.users@[i] == old.users@[i]
        &&& self.users@.last()@ == u
        &&& self.credentials@ == old.credentials@
        &&& self.grants_unchanged(old)
    }

    /// The tables other than users and credentials are as in `old`.
    pub open spec fn grants_unchanged(&self, old: &Database) -> bool {
        &&& self.permitted@ == old.permitted@
        &&& self.clients@ == old.clients@
        &&& self.pending@ == old.pending@
        &&& self.codes@ == old.codes@
        &&& self.tokens@ == old.tokens@
    }

    /// An empty datastore.
    pub fn new() -> (r: Database)
        ensures
            r.wf(),
            r.users@.len() == 0,
            r.credentials@.len() == 0,
            r.permitted@.len() == 0,
            r.clients@.len() == 0,
            r.pending@.len() == 0,
            r.codes@.len() == 0,
            r.tokens@.len() == 0,
    {
        Database {
            users: Vec::new(),
            credentials: Vec::new(),
            permitted: Vec::new(),
            clients: Vec::new(),
            pending: Vec::new(),
            codes: Vec::new(),
            tokens: Vec::new(),
        }
    }

    fn find_email(&self, email: &String) -> (r: Option<usize>)
        ensures
            match r {
                Some(i) => i < self.users@.len() && self.users@[i as int].email@ == email@,
                None => !self.has_email(email@),
            },
    {
        let mut i: usize = 0;
        while i < self.users.len()
            invariant
                i <= self.users@.len(),
                forall|k: int| 0 <= k < i ==> self.users@[k].email@ != email@,
            decreases self.users.len() - i,
        {
            if self.users[i].email == *email {
                return Some(i);
            }
            i = i + 1;
        }
        None
    }

    fn find_user_id(&self, id: &String) -> (r: Option<usize>)
        ensures
            match r {
                Some(i) => i < self.users@.len() && self.users@[i as int].user_id@ == id@,
                None => !self.has_user_id(id@),
            },
    {
        let mut i: usize = 0;
        while i < self.users.len()
            invariant
                i <= self.users@.len(),
                forall|k: int| 0 <= k < i ==> self.users@[k].user_id@ != id@,
            decreases self.users.len() - i,
        {
            if self.users[i].user_id == *id {
                return Some(i);
            }
            i = i + 1;
        }
        None
    }

    fn find_credential(&self, user_id: &String) -> (r: Option<usize>)
        ensures
            match r {
                Some(j) => j < self.credentials@.len() && self.credentials@[j as int].user_id@ == user_id@,
                None => !self.has_credential(user_id@),
            },
    {
        let mut j: usize = 0;
        while j < self.credentials.len()
            invariant
                j <= self.credentials@.len(),
                forall|k: int| 0 <= k < j ==> self.credentials@[k].user_id@ != user_id@,
            decreases self.credentials.len() - j,
        {
            if self.credentials[j].user_id == *user_id {
                return Some(j);
            }
            j = j + 1;
        }
        None
    }

    /// The row that permits `scope` to `user_id`, if any.
    fn find_permitted(&self, user_id: &String, scope: &String) -> (r: Option<usize>)
        ensures
            match r {
                Some(j) => j < self.permitted@.len() && self.permitted@[j as int].user_id@ == user_id@
                    && self.permitted@[j as int].scope@ == scope@,
                None => !self.permitted_set(user_id@).contains(scope@),
            },
    {
        let mut j: usize = 0;
        while j < self.permitted.len()
            invariant
                j <= self.permitted@.len(),
                forall|k: int| 0 <= k < j ==> !(self.permitted@[k].user_id@ == user_id@
                    && self.permitted@[k].scope@ == scope@),
            decreases self.permitted.len() - j,
        {
            if self.permitted[j].user_id == *user_id && self.permitted[j].scope == *scope {
                return Some(j);
            }
            j = j + 1;
        }
        None
    }

    /// Adds a client record. An id that is taken is a `Storage` error and changes nothing.
    pub fn add_client(&mut self, client_id: &str, redirect_uri: &str, is_internal: bool) -> (r: Result<(), ErrorKind>)
        requires
            old(self).wf(),
        ensures
            final(self).wf(),
            r is Err <==> exists|i: int| 0 <= i < old(self).clients@.len() && old(self).clients@[i].client_id@ == client_id@,
            r is Err ==> r->Err_0 == ErrorKind::Storage && *final(self) == *old(self),
            r is Ok ==> final(self).clients@.len() == old(self).clients@.len() + 1,
            r is Ok ==> forall|i: int| 0 <= i < old(self).clients@.len() ==> final(self).clients@[i] == old(self).clients@[i],
            r is Ok ==> final(self).clients@.last()@ == (ClientView { client_id: client_id@, redirect_uri: redirect_uri@, is_internal }),
            final(self).users@ == old(self).users@,
            final(self).credentials@ == old(self).credentials@,
            final(self).permitted@ == old(self).permitted@,
            final(self).pending@ == old(self).pending@,
            final(self).codes@ == old(self).codes@,
            final(self).tokens@ == old(self).tokens@,
    {
        let id = client_id.to_owned();
        match self.find_client(&id) {
            Some(_) => Err(ErrorKind::Storage),
            None => {
                self.clients.push(Client { client_id: id, redirect_uri: redirect_uri.to_owned(), is_internal });
                Ok(())
            },
        }
    }

    pub open spec fn has_client(&self, client_id: Seq<char>) -> bool {
        exists|i: int| 0 <= i < self.clients@.len() && self.clients@[i].client_id@ == client_id
    }

    fn find_client(&self, client_id: &String) -> (r: Option<usize>)
        ensures
            match r {
                Some(i) => i < self.clients@.len() && self.clients@[i as int].client_id@ == client_id@,
                None => !self.has_client(client_id@),
            },
    {
        let mut i: usize = 0;
        while i < self.clients.len()
            invariant
                i <= self.clients@.len(),
                forall|k: int| 0 <= k < i ==> self.clients@[k].client_id@ != client_id@,
            decreases self.clients.len() - i,
        {
            if self.clients[i].client_id == *client_id {
                return Some(i);
            }
            i = i + 1;
        }
        None
    }

    /// The client with id `client_id`, if any.
    pub fn client_by_id(&self, client_id: &str) -> (r: Option<Client>)
        ensures
            r is Some <==> self.has_client(client_id@),
            r is Some ==> exists|i: int| 0 <= i < self.clients@.len() && self.clients@[i]@ == r->0@
                && self.clients@[i].client_id@ == client_id@,
    {
        match self.find_client(&client_id.to_owned()) {
            Some(i) => Some(self.clients[i].copy()),
            None => None,
        }
    }

    /// Client `i` is the one and only client with the internal flag.
    pub open spec fn sole_internal(&self, i: int) -> bool {
        &&& 0 <= i < self.clients@.len()
        &&& self.clients@[i].is_internal
        &&& forall|j: int| 0 <= j < self.clients@.len() && #[trigger] self.clients@[j].is_internal ==> j == i
    }

    /// The first-party client of the login UI. Zero or several clients with the
    /// internal flag is an `InvariantViolation`: the deployment is misconfigured.
    pub fn lookup_internal_client(&self) -> (r: Result<Client, ErrorKind>)
        ensures
            r is Ok <==> exists|i: int| self.sole_internal(i),
            r is Ok ==> exists|i: int| self.sole_internal(i) && self.clients@[i]@ == r->Ok_0@,
            r is Err ==> r->Err_0 == ErrorKind::InvariantViolation,
    {
        let mut found: Option<usize> = None;
        let mut i: usize = 0;
        while i < self.clients.len()
            invariant
                i <= self.clients@.len(),
                match found {
                    Some(f) => f < i && self.clients@[f as int].is_internal
                        && forall|j: int| 0 <= j < i && #[trigger] self.clients@[j].is_internal ==> j == f,
                    None => forall|j: int| 0 <= j < i ==> !#[trigger] self.clients@[j].is_internal,
                },
            decreases self.clients.len() - i,
        {
            if self.clients[i].is_internal {
                match found {
                    Some(f) => {
                        proof {
                            assert forall|k: int| !self.sole_internal(k) by {
                                if self.sole_internal(k) {
                                    assert(self.clients@[f as int].is_internal);
                                    assert(self.clients@[i as int].is_internal);
                                }
                            }
                        }
                        return Err(ErrorKind::InvariantViolation);
                    },
                    None => {
                        found = Some(i);
                    },
                }
            }
            i = i + 1;
        }
        match found {
            Some(f) => {
                assert(self.sole_internal(f as int));
                Ok(self.clients[f].copy())
            },
            None => {
                proof {
                    assert forall|k: int| !self.sole_internal(k) by {
                        if self.sole_internal(k) {
                            assert(self.clients@[k].is_internal);
                        }
                    }
                }
                Err(ErrorKind::InvariantViolation)
            },
        }
    }
}

impl User {
    /// The user with id `id`, if any.
    pub fn get_by_id(db: &Database, id: &str) -> (r: Option<User>)
        ensures
            r is Some <==> db.has_user_id(id@),
            r is Some ==> exists|i: int| 0 <= i < db.users@.len() && db.users@[i]@ == r->0@
                && db.users@[i].user_id@ == id@,
    {
        match db.find_user_id(&id.to_owned()) {
            Some(i) => Some(db.users[i].copy()),
            None => None,
        }
    }

    /// The user registered under `email`, if any.
    pub fn get_by_email(db: &Database, email: &str) -> (r: Option<User>)
        ensures
            r is Some <==> db.has_email(email@),
            r is Some ==> exists|i: int| 0 <= i < db.users@.len() && db.users@[i]@ == r->0@
                && db.users@[i].email@ == email@,
    {
        match db.find_email(&email.to_owned()) {
            Some(i) => Some(db.users[i].copy()),
            None => None,
        }
    }

    /// Every user, in order of registration.
    pub fn list(db: &Database) -> (r: Vec<User>)
        ensures
            r@.len() == db.users@.len(),
            forall|i: int| 0 <= i < r@.len() ==> r@[i]@ == db.users@[i]@,
    {
        let mut r: Vec<User> = Vec::new();
        let mut i: usize = 0;
        while i < db.users.len()
            invariant
                i <= db.users@.len(),
                r@.len() == i,
                forall|k: int| 0 <= k < i ==> r@[k]@ == db.users@[k]@,
            decreases db.users.len() - i,
        {
            r.push(db.users[i].copy());
            i = i + 1;
        }
        r
    }

    /// Stores a fresh hash of `password` for this user, under a new random 16-character
    /// salt: it replaces the stored credential, or is the first one.
    pub fn set_password(&self, password: &str, pepper: &str, db: &mut Database) -> (r: Result<(), HashingError>)
        requires
            old(db).wf(),
        ensures
            final(db).wf(),
            r is Ok,
            final(db).users@ == old(db).users@,
            final(db).grants_unchanged(old(db)),
            final(db).password_matches(self.user_id@, password@, pepper@),
            exists|j: int| 0 <= j < final(db).credentials@.len() && #[trigger] final(db).credentials@[j].user_id@ == self.user_id@
                && final(db).credentials@[j].salt@.len() == 16
                && encode_utf8(final(db).credentials@[j].salt@).len() == 16
                && final(db).credentials@[j].password@ == derived(password@, encode_utf8(final(db).credentials@[j].salt@), pepper@),
            final(db).credentials@.len() >= old(db).credentials@.len(),
            forall|k: int| 0 <= k < old(db).credentials@.len() && old(db).credentials@[k].user_id@ != self.user_id@
                ==> final(db).credentials@[k] == old(db).credentials@[k],
            forall|k: int| old(db).credentials@.len() <= k < final(db).credentials@.len()
                ==> final(db).credentials@[k].user_id@ == self.user_id@,
    {
        let salt = generate_string(16);
        let salt_str: &str = salt.as_str();
        proof {
            vstd::utf8::is_ascii_chars_encode_utf8(salt_str@);
        }
        let hashed = match hash(password, salt_str, pepper) {
            Ok(h) => h,
            Err(e) => return Err(e),
        };
        let ghost salt_bytes = salt_str.spec_bytes();
        let cred = Credential { user_id: self.user_id.clone(), password: hashed, salt };
        match db.find_credential(&self.user_id) {
            Some(j) => {
                db.credentials.set(j, cred);
                assert(db.credentials@[j as int].user_id@ == self.user_id@);
                assert(hash_matches(db.credentials@[j as int].password@, password@, pepper@)) by {
                    assert(salt_bytes.len() == 16);
                }
            },
            None => {
                db.credentials.push(cred);
                let ghost j = db.credentials@.len() - 1;
                assert(db.credentials@[j].user_id@ == self.user_id@);
                assert(hash_matches(db.credentials@[j].password@, password@, pepper@)) by {
                    assert(salt_bytes.len() == 16);
                }
            },
        }
        Ok(())
    }

    /// Whether `password` with `pepper` is the password of this user: never when the user
    /// has no credential yet.
    pub fn verify_password(&self, password: &str, pepper: &str, db: &Database) -> (r: Result<bool, HashingError>)
        requires
            db.wf(),
        ensures
            !db.has_credential(self.user_id@) ==> (r is Ok && !r->Ok_0),
            db.password_matches(self.user_id@, password@, pepper@) ==> (r is Ok && r->Ok_0),
            forall|j: int| 0 <= j < db.credentials@.len() && #[trigger] db.credentials@[j].user_id@ == self.user_id@
                ==> r == verify_result(db.credentials@[j].password@, password@, pepper@),
            forall|j: int| 0 <= j < db.credentials@.len() && #[trigger] db.credentials@[j].user_id@ == self.user_id@
                && hash_made(db.credentials@[j].password@) ==> r is Ok,
    {
        match db.find_credential(&self.user_id) {
            None => Ok(false),
            Some(j) => {
                let stored: &str = db.credentials[j].password.as_str();
                proof {
                    assert forall|k: int| 0 <= k < db.credentials@.len() && #[trigger] db.credentials@[k].user_id@ == self.user_id@
                        implies k == j by {
                        lemma_distinct_keys(db.credentials@, |r: Credential| r.user_id@, k, j as int);
                    }
                }
                verify(stored, password, pepper)
            },
        }
    }

    /// The scopes that this user may be granted besides the OpenID Connect ones.
    pub fn list_permitted_scopes(&self, db: &Database) -> (r: Vec<String>)
        ensures
            views(r@).to_set() == db.permitted_set(self.user_id@),
    {
        let mut r: Vec<String> = Vec::new();
        let mut j: usize = 0;
        while j < db.permitted.len()
            invariant
                j <= db.permitted@.len(),
                forall|s: Seq<char>| views(r@).to_set().contains(s) <==> exists|k: int| 0 <= k < j
                    && db.permitted@[k].user_id@ == self.user_id@ && #[trigger] db.permitted@[k].scope@ == s,
            decreases db.permitted.len() - j,
        {
            if db.permitted[j].user_id == self.user_id {
                let ghost before = views(r@);
                r.push(db.permitted[j].scope.clone());
                proof {
                    assert(views(r@) == before.push(db.permitted@[j as int].scope@));
                    before.lemma_push_to_set_commute(db.permitted@[j as int].scope@);
                    assert forall|s: Seq<char>| views(r@).to_set().contains(s) <==> exists|k: int| 0 <= k < j + 1
                        && db.permitted@[k].user_id@ == self.user_id@ && #[trigger] db.permitted@[k].scope@ == s by {
                        if s == db.permitted@[j as int].scope@ {
                            assert(db.permitted@[j as int].scope@ == s);
                        }
                    }
                }
            } else {
                proof {
                    assert forall|s: Seq<char>| views(r@).to_set().contains(s) <==> exists|k: int| 0 <= k < j + 1
                        && db.permitted@[k].user_id@ == self.user_id@ && #[trigger] db.permitted@[k].scope@ == s by {
                        if exists|k: int| 0 <= k < j + 1
                            && db.permitted@[k].user_id@ == self.user_id@ && #[trigger] db.permitted@[k].scope@ == s {
                            let k = choose|k: int| 0 <= k < j + 1
                                && db.permitted@[k].user_id@ == self.user_id@ && #[trigger] db.permitted@[k].scope@ == s;
                            assert(k < j);
                        }
                    }
                }
            }
            j = j + 1;
        }
        proof {
            assert(views(r@).to_set() =~= db.permitted_set(self.user_id@));
        }
        r
    }

    /// Permits `scope` for this user; granting a scope that is already permitted changes nothing.
    pub fn grant_permitted_scope(&self, db: &mut Database, scope: &str)
        requires
            old(db).wf(),
        ensures
            final(db).wf(),
            final(db).permitted_set(self.user_id@) == old(db).permitted_set(self.user_id@).insert(scope@),
            forall|u: Seq<char>| u != self.user_id@ ==> final(db).permitted_set(u) == old(db).permitted_set(u),
            final(db).users@ == old(db).users@,
            final(db).credentials@ == old(db).credentials@,
            final(db).clients@ == old(db).clients@,
            final(db).pending@ == old(db).pending@,
            final(db).codes@ == old(db).codes@,
            final(db).tokens@ == old(db).tokens@,
    {
        let scope_s = scope.to_owned();
        match db.find_permitted(&self.user_id, &scope_s) {
            Some(j) => {
                proof {
                    assert(holds(db.permitted@, db.permitted@.len() as int, self.user_id@, scope@)) by {
                        assert(db.permitted@[j as int].scope@ == scope@);
                    }
                    assert(old(db).permitted_set(self.user_id@).insert(scope@) =~= old(db).permitted_set(self.user_id@));
                }
            },
            None => {
                let ghost old_p = db.permitted@;
                db.permitted.push(PermittedScope { user_id: self.user_id.clone(), scope: scope_s });
                proof {
                    lemma_holds_push(old_p, db.permitted@.last());
                    assert(db.permitted@ == old_p.push(db.permitted@.last()));
                    assert(db.permitted_set(self.user_id@) =~= old(db).permitted_set(self.user_id@).insert(scope@));
                    assert forall|u: Seq<char>| u != self.user_id@ implies db.permitted_set(u) == old(db).permitted_set(u) by {
                        assert(db.permitted_set(u) =~= old(db).permitted_set(u));
                    }
                }
            },
        }
    }

    /// Withdraws `scope` from this user; withdrawing a scope that is not permitted changes nothing.
    pub fn remove_permitted_scope(&self, db: &mut Database, scope: &str)
        requires
            old(db).wf(),
        ensures
            final(db).wf(),
            final(db).permitted_set(self.user_id@) == old(db).permitted_set(self.user_id@).remove(scope@),
            forall|u: Seq<char>| u != self.user_id@ ==> final(db).permitted_set(u) == old(db).permitted_set(u),
            final(db).users@ == old(db).users@,
            final(db).credentials@ == old(db).credentials@,
            final(db).clients@ == old(db).clients@,
            final(db).pending@ == old(db).pending@,
            final(db).codes@ == old(db).codes@,
            final(db).tokens@ == old(db).tokens@,
    {
        let scope_s = scope.to_owned();
        let mut kept: Vec<PermittedScope> = Vec::new();
        let ghost old_p = db.permitted@;
        let ghost uid = self.user_id@;
        let mut j: usize = 0;
        while j < db.permitted.len()
            invariant
                j <= db.permitted@.len(),
                db.permitted@ == old_p,
                uid == self.user_id@,
                scope_s@ == scope@,
                forall|u: Seq<char>, s: Seq<char>| #[trigger] holds(kept@, kept@.len() as int, u, s)
                    <==> (holds(old_p, j as int, u, s) && !(u == uid && s == scope@)),
            decreases db.permitted.len() - j,
        {
            proof {
                lemma_holds_step(old_p, j as int);
            }
            if !(db.permitted[j].user_id == self.user_id && db.permitted[j].scope == scope_s) {
                let e = PermittedScope { user_id: db.permitted[j].user_id.clone(), scope: db.permitted[j].scope.clone() };
                let ghost before = kept@;
                kept.push(e);
                proof {
                    lemma_holds_push(before, kept@.last());
                    assert(kept@ == before.push(kept@.last()));
                }
            }
            j = j + 1;
        }
        db.permitted = kept;
        proof {
            assert(db.permitted_set(uid) =~= old(db).permitted_set(uid).remove(scope@));
            assert forall|u: Seq<char>| u != uid implies db.permitted_set(u) == old(db).permitted_set(u) by {
                assert(db.permitted_set(u) =~= old(db).permitted_set(u));
            }
        }
    }

    /// Adds a user with the id `user_id`. An email that is taken is a `Conflict`; an id
    /// that is taken is a `Storage` error. Either leaves the datastore unchanged.
    pub fn insert_user(db: &mut Database, user_id: String, name: &str, email: &str, is_admin: bool) -> (r: Result<User, ErrorKind>)
        requires
            old(db).wf(),
        ensures
            final(db).wf(),
            r is Err <==> old(db).has_email(email@) || old(db).has_user_id(user_id@),
            r is Err ==> r->Err_0 == (if old(db).has_email(email@) { ErrorKind::Conflict } else { ErrorKind::Storage }),
            r is Err ==> *final(db) == *old(db),
            r is Ok ==> r->Ok_0@ == (UserView { user_id: user_id@, name: name@, email: email@, is_admin })
                && final(db).user_added(old(db), r->Ok_0@),
    {
        let email_s = email.to_owned();
        if db.find_email(&email_s).is_some() {
            return Err(ErrorKind::Conflict);
        }
        if db.find_user_id(&user_id).is_some() {
            return Err(ErrorKind::Storage);
        }
        let record = User { user_id, name: name.to_owned(), email: email_s, is_admin };
        let out = record.copy();
        db.users.push(record);
        Ok(out)
    }

    /// Adds a user with a fresh random 32-character id. An email that is taken is a
    /// `Conflict`; a fresh id that happens to be taken already is a `Storage` error.
    /// In a directory without users, a new email always succeeds.
    pub fn new(db: &mut Database, name: &str, email: &str, is_admin: bool) -> (r: Result<User, ErrorKind>)
        requires
            old(db).wf(),
        ensures
            final(db).wf(),
            old(db).has_email(email@) <==> r == Err::<User, ErrorKind>(ErrorKind::Conflict),
            !old(db).has_email(email@) && old(db).users@.len() == 0 ==> r is Ok,
            r is Err ==> *final(db) == *old(db),
            r is Err ==> r->Err_0 == ErrorKind::Conflict || r->Err_0 == ErrorKind::Storage,
            r is Ok ==> {
                &&& r->Ok_0@.name == name@
                &&& r->Ok_0@.email == email@
                &&& r->Ok_0@.is_admin == is_admin
                &&& r->Ok_0@.user_id.len() == 32
                &&& final(db).user_added(old(db), r->Ok_0@)
            },
    {
        let user_id = generate_string(32);
        User::insert_user(db, user_id, name, email, is_admin)
    }
}

} // verus!

verus! {

/// Emails are unique: a registered email belongs to exactly one user.
pub proof fn lemma_one_user_per_email(db: Database, email: Seq<char>)
    requires
        db.wf(),
        db.has_email(email),
    ensures
        exists|i: int| 0 <= i < db.users@.len() && db.users@[i].email@ == email
            && forall|j: int| 0 <= j < db.users@.len() && #[trigger] db.users@[j].email@ == email ==> j == i,
{
    let i = choose|i: int| 0 <= i < db.users@.len() && db.users@[i].email@ == email;
    assert forall|j: int| 0 <= j < db.users@.len() && #[trigger] db.users@[j].email@ == email implies j == i by {
        lemma_distinct_keys(db.users@, |r: User| r.email@, j, i);
    }
}

} // verus!
