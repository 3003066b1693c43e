use vstd::prelude::*;
use crate::directory::{generate_string, lemma_distinct_keys, Database};
use crate::error::{ErrorKind, Rejection};
use crate::hash::{verify_result, HashingError};
use crate::model::{copy_opt, copy_strings, opt_view, AccessToken, Client, AuthorizationCode, CodeView, TokenView, PendingAuthorization, PendingView, User, UserView};
use crate::scope::{check_scopes, parse_scopes, scope_set, scopes_permitted, views};

verus! {

/// Seconds that a pending authorization waits for its user to log in.
pub const PENDING_TTL: i64 = 600;

/// Seconds within which an authorization code must be exchanged.
pub const CODE_TTL: i64 = 60;

/// Seconds that an access token stays valid.
pub const TOKEN_TTL: i64 = 3600;

/// A freshly issued code, with where to send it and the client's state.
#[derive(Debug)]
pub struct IssuedCode {
    pub code: String,
    pub redirect_uri: String,
    pub state: Option<String>,
}

/// The character view of an optional string slice.
pub open spec fn opt_str_view(o: Option<&str>) -> Option<Seq<char>> {
    match o {
        Some(s) => Some(s@),
        None => None,
    }
}

/// The scopes that a pending authorization requests; none when it names no scope.
pub open spec fn requested_scopes(p: PendingView) -> Set<Seq<char>> {
    match p.scope {
        Some(s) => scope_set(s),
        None => Set::empty(),
    }
}

impl Database {
    /// Pending authorization `i` has id `id` and has not expired at `now`.
    pub open spec fn live(&self, i: int, id: Seq<char>, now: i64) -> bool {
        0 <= i < self.pending@.len() && self.pending@[i].id@ == id && self.pending@[i].expires_at > now
    }

    /// `client_id` is registered with exactly the redirect URI `redirect_uri`.
    pub open spec fn client_accepts(&self, client_id: Seq<char>, redirect_uri: Seq<char>) -> bool {
        exists|i: int| 0 <= i < self.clients@.len() && self.clients@[i].client_id@ == client_id
            && self.clients@[i].redirect_uri@ == redirect_uri
    }

    pub open spec fn has_live(&self, id: Seq<char>, now: i64) -> bool {
        exists|i: int| self.live(i, id, now)
    }

    /// `user` may be granted every scope that `p` requests.
    pub open spec fn may_grant(&self, p: PendingView, user: UserView) -> bool {
        scopes_permitted(requested_scopes(p), self.permitted_set(user.user_id), user.is_admin)
    }

    /// The tables other than pending authorizations are as in `old`.
    pub open spec fn all_but_pending_unchanged(&self, old: &Database) -> bool {
        &&& self.users@ == old.users@
        &&& self.credentials@ == old.credentials@
        &&& self.permitted@ == old.permitted@
        &&& self.clients@ == old.clients@
        &&& self.codes@ == old.codes@
        &&& self.tokens@ == old.tokens@
    }

    fn find_pending(&self, id: &String, now: i64) -> (r: Option<usize>)
        requires
            self.wf(),
        ensures
            match r {
                Some(i) => self.live(i as int, id@, now),
                None => !self.has_live(id@, now),
            },
    {
        let mut i: usize = 0;
        while i < self.pending.len()
            invariant
                i <= self.pending@.len(),
                forall|k: int| 0 <= k < i ==> !self.live(k, id@, now),
            decreases self.pending.len() - i,
        {
            if self.pending[i].id == *id && self.pending[i].expires_at > now {
                return Some(i);
            }
            i = i + 1;
        }
        None
    }

    fn pending_id_taken(&self, id: &String) -> (r: bool)
        ensures
            r == exists|k: int| 0 <= k < self.pending@.len() && self.pending@[k].id@ == id@,
    {
        let mut i: usize = 0;
        while i < self.pending.len()
            invariant
                i <= self.pending@.len(),
                forall|k: int| 0 <= k < i ==> self.pending@[k].id@ != id@,
            decreases self.pending.len() - i,
        {
            if self.pending[i].id == *id {
                return true;
            }
            i = i + 1;
        }
        false
    }

    /// Starts a grant for `client_id`: a pending authorization with the id
    /// `id` that expires `PENDING_TTL` seconds from `now`, and has no user yet. An unknown
    /// client is `NotFound`; a redirect URI other than the client's is `InvalidRequest`.
    /// An id that is taken already is a `Storage` error. Every rejection carries `state` back.
    pub fn start_authorization_with_id(
        &mut self,
        id: String,
        client_id: &str,
        redirect_uri: &str,
        scope: Option<&str>,
        state: Option<&str>,
        now: i64,
    ) -> (r: Result<String, Rejection>)
        requires
            old(self).wf(),
            now <= i64::MAX - PENDING_TTL,
        ensures
            final(self).wf(),
            r is Err ==> *final(self) == *old(self),
            r is Err ==> opt_view(r->Err_0.state) == opt_str_view(state),
            r is Err ==> (r->Err_0.redirect_uri is None <==> !old(self).has_client(client_id@)),
            r is Err && r->Err_0.redirect_uri is Some ==> exists|i: int| 0 <= i < old(self).clients@.len()
                && old(self).clients@[i].client_id@ == client_id@
                && old(self).clients@[i].redirect_uri@ == r->Err_0.redirect_uri->0@,
            !old(self).has_client(client_id@) <==> (r is Err && r->Err_0.kind == ErrorKind::NotFound),
            (r is Err && r->Err_0.kind == ErrorKind::InvalidRequest) <==> exists|i: int|
                0 <= i < old(self).clients@.len() && old(self).clients@[i].client_id@ == client_id@
                && old(self).clients@[i].redirect_uri@ != redirect_uri@,
            (r is Err && r->Err_0.kind == ErrorKind::Storage) <==> old(self).client_accepts(client_id@, redirect_uri@)
                && exists|k: int| 0 <= k < old(self).pending@.len() && old(self).pending@[k].id@ == id@,
            r is Err ==> r->Err_0.kind == ErrorKind::NotFound || r->Err_0.kind == ErrorKind::InvalidRequest
                || r->Err_0.kind == ErrorKind::Storage,
            r is Ok ==> {
                &&& final(self).pending@.len() == old(self).pending@.len() + 1
                &&& forall|i: int| 0 <= i < old(self).pending@.len() ==> final(self).pending@[i] == old(self).pending@[i]
                &&& final(self).pending@.last()@ == (PendingView {
                    id: r->Ok_0@,
                    client_id: client_id@,
                    redirect_uri: redirect_uri@,
                    scope: opt_str_view(scope),
                    state: opt_str_view(state),
                    user_id: None,
                    expires_at: (now + PENDING_TTL) as i64,
                })
                &&& r->Ok_0@ == id@
                &&& final(self).all_but_pending_unchanged(old(self))
            },
    {
        let st: Option<String> = match state {
            Some(s) => Some(s.to_owned()),
            None => None,
        };
        let client = match self.client_by_id(client_id) {
            Some(c) => c,
            None => {
                return Err(Rejection { kind: ErrorKind::NotFound, redirect_uri: None, state: st });
            },
        };
        let want = redirect_uri.to_owned();
        if client.redirect_uri != want {
            proof {
                let i = choose|i: int| 0 <= i < self.clients@.len() && self.clients@[i]@ == client@
                    && self.clients@[i].client_id@ == client_id@;
            }
            return Err(Rejection { kind: ErrorKind::InvalidRequest, redirect_uri: Some(client.redirect_uri.clone()), state: st });
        }
        proof {
            assert forall|i: int| 0 <= i < self.clients@.len() && self.clients@[i].client_id@ == client_id@
                implies self.clients@[i].redirect_uri@ == redirect_uri@ by {
                let k = choose|k: int| 0 <= k < self.clients@.len() && self.clients@[k]@ == client@
                    && self.clients@[k].client_id@ == client_id@;
                lemma_distinct_keys(self.clients@, |r: Client| r.client_id@, i, k);
            }
        }
        if self.pending_id_taken(&id) {
            return Err(Rejection { kind: ErrorKind::Storage, redirect_uri: Some(client.redirect_uri.clone()), state: st });
        }
        let sc: Option<String> = match scope {
            Some(s) => Some(s.to_owned()),
            None => None,
        };
        let out = id.clone();
        self.pending.push(PendingAuthorization {
            id,
            client_id: client_id.to_owned(),
            redirect_uri: want,
            scope: sc,
            state: st,
            user_id: None,
            expires_at: now + PENDING_TTL,
        });
        Ok(out)
    }

    /// Starts a grant for `client_id`: a pending authorization with a fresh 32-character
    /// id that expires `PENDING_TTL` seconds from `now`, and has no user yet. An unknown
    /// client is `NotFound`; a redirect URI other than the client's is `InvalidRequest`.
    /// A fresh id that happens to be taken already is a `Storage` error; with no pending
    /// authorization stored, a known client with its own redirect URI always succeeds.
    /// Every rejection carries `state` back.
    pub fn start_authorization(
        &mut self,
        client_id: &str,
        redirect_uri: &str,
        scope: Option<&str>,
        state: Option<&str>,
        now: i64,
    ) -> (r: Result<String, Rejection>)
        requires
            old(self).wf(),
            now <= i64::MAX - PENDING_TTL,
        ensures
            final(self).wf(),
            r is Err ==> *final(self) == *old(self),
            r is Err ==> opt_view(r->Err_0.state) == opt_str_view(state),
            r is Err ==> (r->Err_0.redirect_uri is None <==> !old(self).has_client(client_id@)),
            r is Err && r->Err_0.redirect_uri is Some ==> exists|i: int| 0 <= i < old(self).clients@.len()
                && old(self).clients@[i].client_id@ == client_id@
                && old(self).clients@[i].redirect_uri@ == r->Err_0.redirect_uri->0@,
            !old(self).has_client(client_id@) <==> (r is Err && r->Err_0.kind == ErrorKind::NotFound),
            (r is Err && r->Err_0.kind == ErrorKind::InvalidRequest) <==> exists|i: int|
                0 <= i < old(self).clients@.len() && old(self).clients@[i].client_id@ == client_id@
                && old(self).clients@[i].redirect_uri@ != redirect_uri@,
            old(self).client_accepts(client_id@, redirect_uri@) && old(self).pending@.len() == 0 ==> r is Ok,
            r is Err ==> r->Err_0.kind == ErrorKind::NotFound || r->Err_0.kind == ErrorKind::InvalidRequest
                || r->Err_0.kind == ErrorKind::Storage,
            r is Ok ==> {
                &&& final(self).pending@.len() == old(self).pending@.len() + 1
                &&& forall|i: int| 0 <= i < old(self).pending@.len() ==> final(self).pending@[i] == old(self).pending@[i]
                &&& final(self).pending@.last()@ == (PendingView {
                    id: r->Ok_0@,
                    client_id: client_id@,
                    redirect_uri: redirect_uri@,
                    scope: opt_str_view(scope),
                    state: opt_str_view(state),
                    user_id: None,
                    expires_at: (now + PENDING_TTL) as i64,
                })
                &&& r->Ok_0@.len() == 32
                &&& final(self).all_but_pending_unchanged(old(self))
            },
    {
        let id = generate_string(32);
        self.start_authorization_with_id(id, client_id, redirect_uri, scope, state, now)
    }
    /// What binding `user` to pending authorization `i` gives: `Forbidden` when `user`
    /// may not be granted every requested scope; else `Conflict` once a user is bound to
    /// it, whoever asks; else success (`None`).
    pub open spec fn bind_result(&self, i: int, user: UserView) -> Option<ErrorKind> {
        let p = self.pending@[i]@;
        if !self.may_grant(p, user) {
            Some(ErrorKind::Forbidden)
        } else if p.user_id is Some {
            Some(ErrorKind::Conflict)
        } else {
            None
        }
    }

    /// `self` is `old` with user `user_id` bound to pending authorization `i`, and nothing else changed.
    pub open spec fn bound_to(&self, old: &Database, i: int, user_id: Seq<char>) -> bool {
        &&& self.pending@.len() == old.pending@.len()
        &&& forall|k: int| 0 <= k < old.pending@.len() && k != i ==> self.pending@[k] == old.pending@[k]
        &&& self.pending@[i]@ == (PendingView { user_id: Some(user_id), ..old.pending@[i]@ })
        &&& self.all_but_pending_unchanged(old)
    }

    /// Binds an authenticated `user` to the pending authorization `pending_id`, once.
    /// An unknown or expired pending authorization is `NotFound`; otherwise the outcome
    /// is `bind_result`, and a rejection carries the authorization's `state` back.
    pub fn bind_authenticated(&mut self, pending_id: &str, user: &User, now: i64) -> (r: Result<(), Rejection>)
        requires
            old(self).wf(),
        ensures
            final(self).wf(),
            r is Err ==> *final(self) == *old(self),
            !old(self).has_live(pending_id@, now) ==> (r is Err && r->Err_0.kind == ErrorKind::NotFound
                && r->Err_0.state is None && r->Err_0.redirect_uri is None),
            forall|i: int| old(self).live(i, pending_id@, now) ==> match #[trigger] old(self).bind_result(i, user@) {
                Some(k) => r is Err && r->Err_0.kind == k && opt_view(r->Err_0.state) == old(self).pending@[i]@.state
                    && opt_view(r->Err_0.redirect_uri) == Some(old(self).pending@[i]@.redirect_uri),
                None => r is Ok && final(self).bound_to(old(self), i, user.user_id@),
            },
    {
        let i = match self.find_pending(&pending_id.to_owned(), now) {
            Some(i) => i,
            None => {
                return Err(Rejection { kind: ErrorKind::NotFound, redirect_uri: None, state: None });
            },
        };
        proof {
            assert forall|k: int| self.live(k, pending_id@, now) implies k == i by {
                lemma_distinct_keys(self.pending@, |r: PendingAuthorization| r.id@, k, i as int);
            }
        }
        let st = copy_opt(&self.pending[i].state);
        let requested: Vec<String> = match &self.pending[i].scope {
            Some(s) => parse_scopes(s.as_str()),
            None => {
                let v: Vec<String> = Vec::new();
                assert(views(v@).to_set() =~= Set::<Seq<char>>::empty());
                v
            },
        };
        let permitted = user.list_permitted_scopes(self);
        if !check_scopes(&requested, &permitted, user.is_admin) {
            return Err(Rejection { kind: ErrorKind::Forbidden, redirect_uri: Some(self.pending[i].redirect_uri.clone()), state: st });
        }
        if self.pending[i].user_id.is_some() {
            return Err(Rejection { kind: ErrorKind::Conflict, redirect_uri: Some(self.pending[i].redirect_uri.clone()), state: st });
        }
        let p = PendingAuthorization {
            id: self.pending[i].id.clone(),
            client_id: self.pending[i].client_id.clone(),
            redirect_uri: self.pending[i].redirect_uri.clone(),
            scope: copy_opt(&self.pending[i].scope),
            state: st,
            user_id: Some(user.user_id.clone()),
            expires_at: self.pending[i].expires_at,
        };
        self.pending.set(i, p);
        proof {
            assert(self.bound_to(old(self), i as int, user.user_id@));
        }
        Ok(())
    }

    /// Logs the user with `email` and `password` in to the pending authorization
    /// `pending_id` and binds them to it. An unknown or expired pending authorization is
    /// `NotFound`; an unknown email and a wrong password are the same `Unauthorized`;
    /// with the right password the outcome is `bind_result`.
    pub fn bind_user(&mut self, pending_id: &str, email: &str, password: &str, pepper: &str, now: i64) -> (r: Result<(), Rejection>)
        requires
            old(self).wf(),
        ensures
            final(self).wf(),
            r is Err ==> *final(self) == *old(self),
            !old(self).has_live(pending_id@, now) ==> (r is Err && r->Err_0.kind == ErrorKind::NotFound
                && r->Err_0.state is None && r->Err_0.redirect_uri is None),
            forall|i: int| #[trigger] old(self).live(i, pending_id@, now) && r is Err
                ==> opt_view(r->Err_0.state) == old(self).pending@[i]@.state
                    && opt_view(r->Err_0.redirect_uri) == Some(old(self).pending@[i]@.redirect_uri),
            old(self).has_live(pending_id@, now) && !old(self).has_email(email@)
                ==> (r is Err && r->Err_0.kind == ErrorKind::Unauthorized),
            forall|j: int| 0 <= j < old(self).users@.len() && old(self).users@[j].email@ == email@
                && old(self).has_live(pending_id@, now) && !old(self).has_credential(#[trigger] old(self).users@[j].user_id@)
                ==> (r is Err && r->Err_0.kind == ErrorKind::Unauthorized),
            forall|i: int, j: int| #![trigger old(self).live(i, pending_id@, now), old(self).users@[j]]
                old(self).live(i, pending_id@, now) && 0 <= j < old(self).users@.len()
                && old(self).users@[j].email@ == email@
                && old(self).password_matches(old(self).users@[j].user_id@, password@, pepper@)
                ==> match old(self).bind_result(i, old(self).users@[j]@) {
                    Some(k) => r is Err && r->Err_0.kind == k,
                    None => r is Ok && final(self).bound_to(old(self), i, old(self).users@[j].user_id@),
                },
            forall|i: int, j: int, c: int|
                #![trigger old(self).live(i, pending_id@, now), old(self).users@[j], old(self).credentials@[c]]
                old(self).live(i, pending_id@, now) && 0 <= j < old(self).users@.len()
                && old(self).users@[j].email@ == email@
                && 0 <= c < old(self).credentials@.len()
                && old(self).credentials@[c].user_id@ == old(self).users@[j].user_id@
                ==> match verify_result(old(self).credentials@[c].password@, password@, pepper@) {
                    Ok(true) => match old(self).bind_result(i, old(self).users@[j]@) {
                        Some(k) => r is Err && r->Err_0.kind == k,
                        None => r is Ok && final(self).bound_to(old(self), i, old(self).users@[j].user_id@),
                    },
                    Ok(false) => r is Err && r->Err_0.kind == ErrorKind::Unauthorized,
                    Err(_) => r is Err && r->Err_0.kind == ErrorKind::Hashing,
                },
            r is Ok ==> exists|i: int, j: int, c: int|
                #![trigger old(self).live(i, pending_id@, now), old(self).users@[j], old(self).credentials@[c]]
                old(self).live(i, pending_id@, now) && 0 <= j < old(self).users@.len()
                && old(self).users@[j].email@ == email@
                && 0 <= c < old(self).credentials@.len()
                && old(self).credentials@[c].user_id@ == old(self).users@[j].user_id@
                && verify_result(old(self).credentials@[c].password@, password@, pepper@) == Ok::<bool, HashingError>(true)
                && old(self).bind_result(i, old(self).users@[j]@) is None
                && final(self).bound_to(old(self), i, old(self).users@[j].user_id@),
    {
        let i = match self.find_pending(&pending_id.to_owned(), now) {
            Some(i) => i,
            None => {
                return Err(Rejection { kind: ErrorKind::NotFound, redirect_uri: None, state: None });
            },
        };
        proof {
            assert forall|k: int| self.live(k, pending_id@, now) implies k == i by {
                lemma_distinct_keys(self.pending@, |r: PendingAuthorization| r.id@, k, i as int);
            }
        }
        let st = copy_opt(&self.pending[i].state);
        let user = match User::get_by_email(self, email) {
            Some(u) => u,
            None => {
                return Err(Rejection { kind: ErrorKind::Unauthorized, redirect_uri: Some(self.pending[i].redirect_uri.clone()), state: st });
            },
        };
        proof {
            let j0 = choose|j: int| 0 <= j < self.users@.len() && self.users@[j]@ == user@ && self.users@[j].email@ == email@;
            assert forall|j: int| 0 <= j < self.users@.len() && self.users@[j].email@ == email@ implies j == j0 by {
                lemma_distinct_keys(self.users@, |r: User| r.email@, j, j0);
            }
        }
        let verified = user.verify_password(password, pepper, self);
        proof {
            if verified == Ok::<bool, HashingError>(true) {
                assert(self.has_credential(user.user_id@));
                let c = choose|c: int| 0 <= c < self.credentials@.len() && self.credentials@[c].user_id@ == user.user_id@;
                assert(verified == verify_result(self.credentials@[c].password@, password@, pepper@));
            }
        }
        match verified {
            Ok(true) => {},
            Ok(false) => {
                return Err(Rejection { kind: ErrorKind::Unauthorized, redirect_uri: Some(self.pending[i].redirect_uri.clone()), state: st });
            },
            Err(_) => {
                return Err(Rejection { kind: ErrorKind::Hashing, redirect_uri: Some(self.pending[i].redirect_uri.clone()), state: st });
            },
        }
        let ghost before = *self;
        let r = self.bind_authenticated(pending_id, &user, now);
        proof {
            let _ = before.bind_result(i as int, user@);
        }
        r
    }

    pub open spec fn has_code(&self, code: Seq<char>) -> bool {
        exists|k: int| 0 <= k < self.codes@.len() && self.codes@[k].code@ == code
    }

    pub open spec fn has_token(&self, token: Seq<char>) -> bool {
        exists|k: int| 0 <= k < self.tokens@.len() && self.tokens@[k].token@ == token
    }

    fn code_taken(&self, code: &String) -> (r: bool)
        ensures
            r == self.has_code(code@),
    {
        let mut i: usize = 0;
        while i < self.codes.len()
            invariant
                i <= self.codes@.len(),
                forall|k: int| 0 <= k < i ==> self.codes@[k].code@ != code@,
            decreases self.codes.len() - i,
        {
            if self.codes[i].code == *code {
                return true;
            }
            i = i + 1;
        }
        false
    }

    fn find_code(&self, code: &String) -> (r: Option<usize>)
        ensures
            match r {
                Some(k) => k < self.codes@.len() && self.codes@[k as int].code@ == code@,
                None => forall|k: int| 0 <= k < self.codes@.len() ==> self.codes@[k].code@ != code@,
            },
    {
        let mut i: usize = 0;
        while i < self.codes.len()
            invariant
                i <= self.codes@.len(),
                forall|k: int| 0 <= k < i ==> self.codes@[k].code@ != code@,
            decreases self.codes.len() - i,
        {
            if self.codes[i].code == *code {
                return Some(i);
            }
            i = i + 1;
        }
        None
    }

    fn token_taken(&self, token: &String) -> (r: bool)
        ensures
            r == self.has_token(token@),
    {
        let mut i: usize = 0;
        while i < self.tokens.len()
            invariant
                i <= self.tokens@.len(),
                forall|k: int| 0 <= k < i ==> self.tokens@[k].token@ != token@,
            decreases self.tokens.len() - i,
        {
            if self.tokens[i].token == *token {
                return true;
            }
            i = i + 1;
        }
        false
    }

    /// Issues the single-use code `code` for the pending authorization `pending_id`, which is
    /// consumed. The code expires `CODE_TTL` seconds from `now` and carries the client,
    /// the bound user, the redirect URI and the requested scopes. An unknown or expired
    /// pending authorization is `NotFound`; one without a bound user is `Unauthorized`; a code that is
    /// taken already is a `Storage` error.
    pub fn issue_code_with(&mut self, pending_id: &str, code: String, now: i64) -> (r: Result<IssuedCode, Rejection>)
        requires
            old(self).wf(),
            now <= i64::MAX - CODE_TTL,
        ensures
            final(self).wf(),
            r is Err ==> *final(self) == *old(self),
            !old(self).has_live(pending_id@, now) ==> (r is Err && r->Err_0.kind == ErrorKind::NotFound
                && r->Err_0.state is None && r->Err_0.redirect_uri is None),
            forall|i: int| #[trigger] old(self).live(i, pending_id@, now) ==> {
                let p = old(self).pending@[i]@;
                &&& r is Err ==> opt_view(r->Err_0.state) == p.state
                    && opt_view(r->Err_0.redirect_uri) == Some(p.redirect_uri)
                &&& p.user_id is None ==> r is Err && r->Err_0.kind == ErrorKind::Unauthorized
                &&& p.user_id is Some ==> (r is Ok <==> !old(self).has_code(code@))
                &&& p.user_id is Some && r is Err ==> r->Err_0.kind == ErrorKind::Storage
                &&& r is Ok ==> {
                    &&& final(self).pending@ == old(self).pending@.remove(i)
                    &&& final(self).codes@.len() == old(self).codes@.len() + 1
                    &&& forall|k: int| 0 <= k < old(self).codes@.len() ==> final(self).codes@[k] == old(self).codes@[k]
                    &&& final(self).codes@.last()@.code == r->Ok_0.code@
                    &&& final(self).codes@.last()@.client_id == p.client_id
                    &&& final(self).codes@.last()@.user_id == p.user_id->0
                    &&& final(self).codes@.last()@.redirect_uri == p.redirect_uri
                    &&& final(self).codes@.last()@.scopes.to_set() == requested_scopes(p)
                    &&& final(self).codes@.last()@.scopes.no_duplicates()
                    &&& final(self).codes@.last()@.expires_at == now + CODE_TTL
                    &&& !final(self).codes@.last()@.used
                    &&& r->Ok_0.code@ == code@
                    &&& r->Ok_0.redirect_uri@ == p.redirect_uri
                    &&& opt_view(r->Ok_0.state) == p.state
                }
            },
            r is Ok ==> old(self).has_live(pending_id@, now),
            final(self).users@ == old(self).users@,
            final(self).credentials@ == old(self).credentials@,
            final(self).permitted@ == old(self).permitted@,
            final(self).clients@ == old(self).clients@,
            final(self).tokens@ == old(self).tokens@,
    {
        let i = match self.find_pending(&pending_id.to_owned(), now) {
            Some(i) => i,
            None => {
                return Err(Rejection { kind: ErrorKind::NotFound, redirect_uri: None, state: None });
            },
        };
        proof {
            assert forall|k: int| self.live(k, pending_id@, now) implies k == i by {
                lemma_distinct_keys(self.pending@, |r: PendingAuthorization| r.id@, k, i as int);
            }
        }
        if self.pending[i].user_id.is_none() {
            return Err(Rejection {
                kind: ErrorKind::Unauthorized,
                redirect_uri: Some(self.pending[i].redirect_uri.clone()),
                state: copy_opt(&self.pending[i].state),
            });
        }
        if self.code_taken(&code) {
            return Err(Rejection {
                kind: ErrorKind::Storage,
                redirect_uri: Some(self.pending[i].redirect_uri.clone()),
                state: copy_opt(&self.pending[i].state),
            });
        }
        let ghost old_pending = self.pending@;
        let p = self.pending.remove(i);
        proof {
            assert forall|a: int, b: int| 0 <= a < b < self.pending@.len() implies
                self.pending@[a].id@ != self.pending@[b].id@ by {
                let a2 = if a < i { a } else { a + 1 };
                let b2 = if b < i { b } else { b + 1 };
                assert(self.pending@[a] == old_pending[a2]);
                assert(self.pending@[b] == old_pending[b2]);
            }
        }
        let scopes: Vec<String> = match &p.scope {
            Some(s) => parse_scopes(s.as_str()),
            None => {
                let v: Vec<String> = Vec::new();
                assert(views(v@).to_set() =~= Set::<Seq<char>>::empty());
                v
            },
        };
        let user_id = match p.user_id {
            Some(u) => u,
            None => {
                return Err(Rejection { kind: ErrorKind::Unauthorized, redirect_uri: Some(p.redirect_uri), state: p.state });
            },
        };
        let out = IssuedCode { code: code.clone(), redirect_uri: p.redirect_uri.clone(), state: copy_opt(&p.state) };
        self.codes.push(AuthorizationCode {
            code,
            client_id: p.client_id,
            user_id,
            redirect_uri: p.redirect_uri,
            scopes,
            expires_at: now + CODE_TTL,
            used: false,
        });
        Ok(out)
    }

    /// Issues a single-use code for the pending authorization `pending_id`, which is
    /// consumed. The code expires `CODE_TTL` seconds from `now` and carries the client,
    /// the bound user, the redirect URI and the requested scopes. An unknown or expired
    /// pending authorization is `NotFound`; one without a bound user is `Unauthorized`. A fresh code
    /// that happens to be taken already is a `Storage` error; while no code is stored,
    /// a bound pending authorization always gets its code.
    pub fn issue_code(&mut self, pending_id: &str, now: i64) -> (r: Result<IssuedCode, Rejection>)
        requires
            old(self).wf(),
            now <= i64::MAX - CODE_TTL,
        ensures
            final(self).wf(),
            r is Err ==> *final(self) == *old(self),
            !old(self).has_live(pending_id@, now) ==> (r is Err && r->Err_0.kind == ErrorKind::NotFound
                && r->Err_0.state is None && r->Err_0.redirect_uri is None),
            forall|i: int| #[trigger] old(self).live(i, pending_id@, now) ==> {
                let p = old(self).pending@[i]@;
                &&& r is Err ==> opt_view(r->Err_0.state) == p.state
                    && opt_view(r->Err_0.redirect_uri) == Some(p.redirect_uri)
                &&& p.user_id is None ==> r is Err && r->Err_0.kind == ErrorKind::Unauthorized
                &&& p.user_id is Some ==> r is Ok || r->Err_0.kind == ErrorKind::Storage
                &&& p.user_id is Some && old(self).codes@.len() == 0 ==> r is Ok
                &&& r is Ok ==> {
                    &&& final(self).pending@ == old(self).pending@.remove(i)
                    &&& final(self).codes@.len() == old(self).codes@.len() + 1
                    &&& forall|k: int| 0 <= k < old(self).codes@.len() ==> final(self).codes@[k] == old(self).codes@[k]
                    &&& final(self).codes@.last()@.code == r->Ok_0.code@
                    &&& final(self).codes@.last()@.client_id == p.client_id
                    &&& final(self).codes@.last()@.user_id == p.user_id->0
                    &&& final(self).codes@.last()@.redirect_uri == p.redirect_uri
                    &&& final(self).codes@.last()@.scopes.to_set() == requested_scopes(p)
                    &&& final(self).codes@.last()@.scopes.no_duplicates()
                    &&& final(self).codes@.last()@.expires_at == now + CODE_TTL
                    &&& !final(self).codes@.last()@.used
                    &&& r->Ok_0.code@.len() == 32
                    &&& r->Ok_0.redirect_uri@ == p.redirect_uri
                    &&& opt_view(r->Ok_0.state) == p.state
                }
            },
            r is Ok ==> old(self).has_live(pending_id@, now),
            final(self).users@ == old(self).users@,
            final(self).credentials@ == old(self).credentials@,
            final(self).permitted@ == old(self).permitted@,
            final(self).clients@ == old(self).clients@,
            final(self).tokens@ == old(self).tokens@,
    {
        let code = generate_string(32);
        self.issue_code_with(pending_id, code, now)
    }
    /// Code `k` can be exchanged now by `client_id` for `redirect_uri`: it is `code`,
    /// unused, unexpired, and was issued to that client for that redirect URI exactly.
    pub open spec fn redeemable(&self, k: int, code: Seq<char>, redirect_uri: Seq<char>, client_id: Seq<char>, now: i64) -> bool {
        &&& 0 <= k < self.codes@.len()
        &&& self.codes@[k].code@ == code
        &&& !self.codes@[k].used
        &&& self.codes@[k].expires_at > now
        &&& self.codes@[k].redirect_uri@ == redirect_uri
        &&& self.codes@[k].client_id@ == client_id
    }

    pub open spec fn has_redeemable(&self, code: Seq<char>, redirect_uri: Seq<char>, client_id: Seq<char>, now: i64) -> bool {
        exists|k: int| self.redeemable(k, code, redirect_uri, client_id, now)
    }

    /// Exchanges a code for the access token `token`, which expires `TOKEN_TTL` seconds from `now`
    /// and carries the code's user, client and scopes. The code is marked used in the
    /// same step. A code that cannot be redeemed (unknown, used, expired, or presented
    /// with another redirect URI or client) is `InvalidGrant`; a token that is taken
    /// already is a `Storage` error.
    pub fn exchange_with_token(&mut self, code: &str, redirect_uri: &str, client_id: &str, token: String, now: i64) -> (r: Result<AccessToken, ErrorKind>)
        requires
            old(self).wf(),
            now <= i64::MAX - TOKEN_TTL,
        ensures
            final(self).wf(),
            r is Err ==> *final(self) == *old(self),
            !old(self).has_redeemable(code@, redirect_uri@, client_id@, now) <==> r == Err::<AccessToken, ErrorKind>(ErrorKind::InvalidGrant),
            r is Err ==> r->Err_0 == ErrorKind::InvalidGrant || r->Err_0 == ErrorKind::Storage,
            r == Err::<AccessToken, ErrorKind>(ErrorKind::Storage) <==> old(self).has_redeemable(code@, redirect_uri@, client_id@, now)
                && old(self).has_token(token@),
            r is Ok ==> exists|k: int| {
                &&& #[trigger] old(self).redeemable(k, code@, redirect_uri@, client_id@, now)
                &&& final(self).codes@.len() == old(self).codes@.len()
                &&& forall|m: int| 0 <= m < old(self).codes@.len() && m != k ==> final(self).codes@[m] == old(self).codes@[m]
                &&& final(self).codes@[k]@ == (CodeView { used: true, ..old(self).codes@[k]@ })
                &&& r->Ok_0@ == (TokenView {
                    token: r->Ok_0@.token,
                    user_id: old(self).codes@[k]@.user_id,
                    client_id: old(self).codes@[k]@.client_id,
                    scopes: old(self).codes@[k]@.scopes,
                    expires_at: (now + TOKEN_TTL) as i64,
                })
            },
            r is Ok ==> r->Ok_0@.token == token@,
            r is Ok ==> final(self).tokens@.len() == old(self).tokens@.len() + 1,
            r is Ok ==> forall|m: int| 0 <= m < old(self).tokens@.len() ==> final(self).tokens@[m] == old(self).tokens@[m],
            r is Ok ==> final(self).tokens@.last()@ == r->Ok_0@,
            final(self).users@ == old(self).users@,
            final(self).credentials@ == old(self).credentials@,
            final(self).permitted@ == old(self).permitted@,
            final(self).clients@ == old(self).clients@,
            final(self).pending@ == old(self).pending@,
    {
        let code_s = code.to_owned();
        let redirect_s = redirect_uri.to_owned();
        let client_s = client_id.to_owned();
        let k = match self.find_code(&code_s) {
            Some(k) => k,
            None => {
                return Err(ErrorKind::InvalidGrant);
            },
        };
        proof {
            assert forall|m: int| self.redeemable(m, code@, redirect_uri@, client_id@, now) implies m == k by {
                lemma_distinct_keys(self.codes@, |r: AuthorizationCode| r.code@, m, k as int);
            }
        }
        if self.codes[k].used || self.codes[k].expires_at <= now || self.codes[k].redirect_uri != redirect_s
            || self.codes[k].client_id != client_s {
            return Err(ErrorKind::InvalidGrant);
        }
        assert(self.redeemable(k as int, code@, redirect_uri@, client_id@, now));
        if self.token_taken(&token) {
            return Err(ErrorKind::Storage);
        }
        let ghost old_codes = self.codes@;
        let c = self.codes.remove(k);
        let t = AccessToken {
            token,
            user_id: c.user_id.clone(),
            client_id: c.client_id.clone(),
            scopes: copy_strings(&c.scopes),
            expires_at: now + TOKEN_TTL,
        };
        let out = t.copy();
        self.codes.insert(k, AuthorizationCode {
            code: c.code,
            client_id: c.client_id,
            user_id: c.user_id,
            redirect_uri: c.redirect_uri,
            scopes: c.scopes,
            expires_at: c.expires_at,
            used: true,
        });
        proof {
            assert forall|m: int| 0 <= m < old_codes.len() && m != k implies self.codes@[m] == old_codes[m] by {}
            assert forall|a: int, b: int| 0 <= a < b < self.codes@.len() implies
                self.codes@[a].code@ != self.codes@[b].code@ by {
                assert(self.codes@[a].code@ == old_codes[a].code@);
                assert(self.codes@[b].code@ == old_codes[b].code@);
            }
        }
        self.tokens.push(t);
        proof {
            assert(self.codes@[k as int]@ == (CodeView { used: true, ..old(self).codes@[k as int]@ }));
            assert(old(self).redeemable(k as int, code@, redirect_uri@, client_id@, now));
        }
        Ok(out)
    }

    /// Exchanges a code for an access token that expires `TOKEN_TTL` seconds from `now`
    /// and carries the code's user, client and scopes. The code is marked used in the
    /// same step. A code that cannot be redeemed (unknown, used, expired, or presented
    /// with another redirect URI or client) is `InvalidGrant`. A fresh token that happens
    /// to be taken already is a `Storage` error; while no token is stored, a redeemable
    /// code is always exchanged.
    pub fn exchange(&mut self, code: &str, redirect_uri: &str, client_id: &str, now: i64) -> (r: Result<AccessToken, ErrorKind>)
        requires
            old(self).wf(),
            now <= i64::MAX - TOKEN_TTL,
        ensures
            final(self).wf(),
            r is Err ==> *final(self) == *old(self),
            !old(self).has_redeemable(code@, redirect_uri@, client_id@, now) <==> r == Err::<AccessToken, ErrorKind>(ErrorKind::InvalidGrant),
            r is Err ==> r->Err_0 == ErrorKind::InvalidGrant || r->Err_0 == ErrorKind::Storage,
            old(self).has_redeemable(code@, redirect_uri@, client_id@, now) && old(self).tokens@.len() == 0 ==> r is Ok,
            r is Ok ==> exists|k: int| {
                &&& #[trigger] old(self).redeemable(k, code@, redirect_uri@, client_id@, now)
                &&& final(self).codes@.len() == old(self).codes@.len()
                &&& forall|m: int| 0 <= m < old(self).codes@.len() && m != k ==> final(self).codes@[m] == old(self).codes@[m]
                &&& final(self).codes@[k]@ == (CodeView { used: true, ..old(self).codes@[k]@ })
                &&& r->Ok_0@ == (TokenView {
                    token: r->Ok_0@.token,
                    user_id: old(self).codes@[k]@.user_id,
                    client_id: old(self).codes@[k]@.client_id,
                    scopes: old(self).codes@[k]@.scopes,
                    expires_at: (now + TOKEN_TTL) as i64,
                })
            },
            r is Ok ==> r->Ok_0@.token.len() == 32,
            r is Ok ==> final(self).tokens@.len() == old(self).tokens@.len() + 1,
            r is Ok ==> forall|m: int| 0 <= m < old(self).tokens@.len() ==> final(self).tokens@[m] == old(self).tokens@[m],
            r is Ok ==> final(self).tokens@.last()@ == r->Ok_0@,
            final(self).users@ == old(self).users@,
            final(self).credentials@ == old(self).credentials@,
            final(self).permitted@ == old(self).permitted@,
            final(self).clients@ == old(self).clients@,
            final(self).pending@ == old(self).pending@,
    {
        let token = generate_string(32);
        self.exchange_with_token(code, redirect_uri, client_id, token, now)
    }

    /// Token `t` is `token` and has not expired at `now`.
    pub open spec fn active(&self, t: int, token: Seq<char>, now: i64) -> bool {
        0 <= t < self.tokens@.len() && self.tokens@[t].token@ == token && self.tokens@[t].expires_at > now
    }

    pub open spec fn has_active(&self, token: Seq<char>, now: i64) -> bool {
        exists|t: int| self.active(t, token, now)
    }

    /// What an access token stands for, if it is known and has not expired at `now`.
    /// An expired token and an unknown one give the same `None`.
    pub fn introspect(&self, token: &str, now: i64) -> (r: Option<AccessToken>)
        requires
            self.wf(),
        ensures
            r is Some <==> self.has_active(token@, now),
            r is Some ==> exists|t: int| self.active(t, token@, now) && self.tokens@[t]@ == r->0@,
    {
        let token_s = token.to_owned();
        let mut t: usize = 0;
        while t < self.tokens.len()
            invariant
                t <= self.tokens@.len(),
                token_s@ == token@,
                forall|m: int| 0 <= m < t ==> !self.active(m, token@, now),
            decreases self.tokens.len() - t,
        {
            if self.tokens[t].token == token_s && self.tokens[t].expires_at > now {
                assert(self.active(t as int, token@, now));
                return Some(self.tokens[t].copy());
            }
            t = t + 1;
        }
        None
    }
}

} // verus!

verus! {

/// A user, once bound to a pending authorization, stays its only user: binding it
/// again never succeeds, for the same user or any other, and for a user who may be
/// granted the requested scopes it is a `Conflict`.
pub proof fn lemma_rebind_conflicts(db: Database, i: int, user: UserView)
    requires
        0 <= i < db.pending@.len(),
        db.pending@[i].user_id is Some,
    ensures
        db.bind_result(i, user) is Some,
        db.may_grant(db.pending@[i]@, user) ==> db.bind_result(i, user) == Some(ErrorKind::Conflict),
{
}

/// A code is redeemed at most once: after an exchange has marked it used, no later
/// exchange of it can succeed, whatever redirect URI, client or time it names.
pub proof fn lemma_used_code_not_redeemable(db: Database, k: int, redirect_uri: Seq<char>, client_id: Seq<char>, now: i64)
    requires
        db.wf(),
        0 <= k < db.codes@.len(),
        db.codes@[k].used,
    ensures
        !db.has_redeemable(db.codes@[k].code@, redirect_uri, client_id, now),
{
    assert forall|m: int| !db.redeemable(m, db.codes@[k].code@, redirect_uri, client_id, now) by {
        if db.redeemable(m, db.codes@[k].code@, redirect_uri, client_id, now) {
            lemma_distinct_keys(db.codes@, |r: AuthorizationCode| r.code@, m, k);
        }
    }
}

/// An expired token introspects exactly as a token that was never issued: neither is active.
pub proof fn lemma_expired_token_inactive(db: Database, t: int, now: i64)
    requires
        db.wf(),
        0 <= t < db.tokens@.len(),
        db.tokens@[t].expires_at <= now,
    ensures
        !db.has_active(db.tokens@[t].token@, now),
{
    assert forall|m: int| !db.active(m, db.tokens@[t].token@, now) by {
        if db.active(m, db.tokens@[t].token@, now) {
            lemma_distinct_keys(db.tokens@, |r: AccessToken| r.token@, m, t);
        }
    }
}

} // verus!
