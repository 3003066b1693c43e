use vstd::prelude::*;
use crate::scope::views;

verus! {

/// A registered user.
#[derive(Debug)]
pub struct User {
    pub user_id: String,
    pub name: String,
    pub email: String,
    pub is_admin: bool,
}

pub struct UserView {
    pub user_id: Seq<char>,
    pub name: Seq<char>,
    pub email: Seq<char>,
    pub is_admin: bool,
}

impl View for User {
    type V = UserView;

    open spec fn view(&self) -> UserView {
        UserView { user_id: self.user_id@, name: self.name@, email: self.email@, is_admin: self.is_admin }
    }
}

impl User {
    /// A copy of this record.
    pub fn copy(&self) -> (r: User)
        ensures
            r@ == self@,
    {
        User {
            user_id: self.user_id.clone(),
            name: self.name.clone(),
            email: self.email.clone(),
            is_admin: self.is_admin,
        }
    }
}

/// The stored password hash of one user, with the salt it was derived under.
#[derive(Debug)]
pub struct Credential {
    pub user_id: String,
    pub password: String,
    pub salt: String,
}

/// One scope that one user may be granted.
#[derive(Debug)]
pub struct PermittedScope {
    pub user_id: String,
    pub scope: String,
}

/// A registered OAuth2 client.
#[derive(Debug)]
pub struct Client {
    pub client_id: String,
    pub redirect_uri: String,
    pub is_internal: bool,
}

pub struct ClientView {
    pub client_id: Seq<char>,
    pub redirect_uri: Seq<char>,
    pub is_internal: bool,
}

impl View for Client {
    type V = ClientView;

    open spec fn view(&self) -> ClientView {
        ClientView { client_id: self.client_id@, redirect_uri: self.redirect_uri@, is_internal: self.is_internal }
    }
}

impl Client {
    /// A copy of this record.
    pub fn copy(&self) -> (r: Client)
        ensures
            r@ == self@,
    {
        Client { client_id: self.client_id.clone(), redirect_uri: self.redirect_uri.clone(), is_internal: self.is_internal }
    }
}

/// A grant attempt that waits for its user to log in.
#[derive(Debug)]
pub struct PendingAuthorization {
    pub id: String,
    pub client_id: String,
    pub redirect_uri: String,
    pub scope: Option<String>,
    pub state: Option<String>,
    pub user_id: Option<String>,
    pub expires_at: i64,
}

/// The character view of an optional string.
pub open spec fn opt_view(o: Option<String>) -> Option<Seq<char>> {
    match o {
        Some(s) => Some(s@),
        None => None,
    }
}

/// A copy of an optional string.
pub fn copy_opt(o: &Option<String>) -> (r: Option<String>)
    ensures
        opt_view(r) == opt_view(*o),
{
    match o {
        Some(s) => Some(s.clone()),
        None => None,
    }
}

/// A copy of a list of strings.
pub fn copy_strings(v: &Vec<String>) -> (r: Vec<String>)
    ensures
        views(r@) == views(v@),
{
    let mut r: Vec<String> = Vec::new();
    let mut i: usize = 0;
    while i < v.len()
        invariant
            i <= v.len(),
            views(r@) == views(v@).take(i as int),
        decreases v.len() - i,
    {
        r.push(v[i].clone());
        proof {
            assert(views(v@).take(i + 1) == views(v@).take(i as int).push(v@[i as int]@));
        }
        i = i + 1;
    }
    proof {
        assert(views(v@).take(v@.len() as int) == views(v@));
    }
    r
}

pub struct PendingView {
    pub id: Seq<char>,
    pub client_id: Seq<char>,
    pub redirect_uri: Seq<char>,
    pub scope: Option<Seq<char>>,
    pub state: Option<Seq<char>>,
    pub user_id: Option<Seq<char>>,
    pub expires_at: i64,
}

impl View for PendingAuthorization {
    type V = PendingView;

    open spec fn view(&self) -> PendingView {
        PendingView {
            id: self.id@,
            client_id: self.client_id@,
            redirect_uri: self.redirect_uri@,
            scope: opt_view(self.scope),
            state: opt_view(self.state),
            user_id: opt_view(self.user_id),
            expires_at: self.expires_at,
        }
    }
}

/// A single-use code that stands for a completed authorization.
#[derive(Debug)]
pub struct AuthorizationCode {
    pub code: String,
    pub client_id: String,
    pub user_id: String,
    pub redirect_uri: String,
    pub scopes: Vec<String>,
    pub expires_at: i64,
    pub used: bool,
}

pub struct CodeView {
    pub code: Seq<char>,
    pub client_id: Seq<char>,
    pub user_id: Seq<char>,
    pub redirect_uri: Seq<char>,
    pub scopes: Seq<Seq<char>>,
    pub expires_at: i64,
    pub used: bool,
}

impl View for AuthorizationCode {
    type V = CodeView;

    open spec fn view(&self) -> CodeView {
        CodeView {
            code: self.code@,
            client_id: self.client_id@,
            user_id: self.user_id@,
            redirect_uri: self.redirect_uri@,
            scopes: views(self.scopes@),
            expires_at: self.expires_at,
            used: self.used,
        }
    }
}

/// A bearer token issued to a client on behalf of a user.
#[derive(Debug)]
pub struct AccessToken {
    pub token: String,
    pub user_id: String,
    pub client_id: String,
    pub scopes: Vec<String>,
    pub expires_at: i64,
}

pub struct TokenView {
    pub token: Seq<char>,
    pub user_id: Seq<char>,
    pub client_id: Seq<char>,
    pub scopes: Seq<Seq<char>>,
    pub expires_at: i64,
}

impl View for AccessToken {
    type V = TokenView;

    open spec fn view(&self) -> TokenView {
        TokenView {
            token: self.token@,
            user_id: self.user_id@,
            client_id: self.client_id@,
            scopes: views(self.scopes@),
            expires_at: self.expires_at,
        }
    }
}

impl AccessToken {
    /// A copy of this record.
    pub fn copy(&self) -> (r: AccessToken)
        ensures
            r@ == self@,
    {
        AccessToken {
            token: self.token.clone(),
            user_id: self.user_id.clone(),
            client_id: self.client_id.clone(),
            scopes: copy_strings(&self.scopes),
            expires_at: self.expires_at,
        }
    }

    /// The set of scopes this token grants.
    pub open spec fn scope_set(&self) -> Set<Seq<char>> {
        views(self.scopes@).to_set()
    }
}

} // verus!
