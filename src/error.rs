use vstd::prelude::*;

verus! {

/// The error kinds that the grant operations report.
#[derive(Debug, Clone, Copy, PartialEq, Eq, Structural)]
pub enum ErrorKind {
    /// Unknown pending authorization, code or user.
    NotFound,
    /// A request whose parameters do not match the client's registration.
    InvalidRequest,
    /// Bad credentials, or a missing, expired or unknown token.
    Unauthorized,
    /// A requested scope is not permitted for the authenticated user.
    Forbidden,
    /// A code that was reused, expired, or presented with the wrong redirect or client.
    InvalidGrant,
    /// A malformed scope request.
    InvalidScope,
    /// A duplicate email, or a pending authorization that is already bound.
    Conflict,
    /// Zero or several internal clients: the deployment is misconfigured.
    InvariantViolation,
    /// The datastore refused a write (a unique key was already taken).
    Storage,
    /// The hashing library refused its input.
    Hashing,
}

/// A rejected grant operation: its kind, where to send the client when that is known,
/// and the client's `state` carried back unchanged.
#[derive(Debug)]
pub struct Rejection {
    pub kind: ErrorKind,
    pub redirect_uri: Option<String>,
    pub state: Option<String>,
}

/// The error codes of the OAuth2 protocol.
#[derive(Debug, Clone, Copy, PartialEq, Eq, Structural)]
pub enum OAuth2ErrorKind {
    InvalidRequest,
    UnauthorizedClient,
    AccessDenied,
    UnsupportedResponseType,
    InvalidScope,
    ServerError,
    InvalidGrant,
    UnsupportedGrantType,
}

pub open spec fn oauth2_code(k: OAuth2ErrorKind) -> Seq<char> {
    match k {
        OAuth2ErrorKind::InvalidRequest => "invalid_request"@,
        OAuth2ErrorKind::UnauthorizedClient => "unauthorized_client"@,
        OAuth2ErrorKind::AccessDenied => "access_denied"@,
        OAuth2ErrorKind::UnsupportedResponseType => "unsupported_response_type"@,
        OAuth2ErrorKind::InvalidScope => "invalid_scope"@,
        OAuth2ErrorKind::ServerError => "server_error"@,
        OAuth2ErrorKind::InvalidGrant => "invalid_grant"@,
        OAuth2ErrorKind::UnsupportedGrantType => "unsupported_grant_type"@,
    }
}

impl OAuth2ErrorKind {
    /// The protocol's error code, as sent in an `error` parameter.
    pub fn as_str(&self) -> (r: &'static str)
        ensures
            r@ == oauth2_code(*self),
    {
        match self {
            OAuth2ErrorKind::InvalidRequest => "invalid_request",
            OAuth2ErrorKind::UnauthorizedClient => "unauthorized_client",
            OAuth2ErrorKind::AccessDenied => "access_denied",
            OAuth2ErrorKind::UnsupportedResponseType => "unsupported_response_type",
            OAuth2ErrorKind::InvalidScope => "invalid_scope",
            OAuth2ErrorKind::ServerError => "server_error",
            OAuth2ErrorKind::InvalidGrant => "invalid_grant",
            OAuth2ErrorKind::UnsupportedGrantType => "unsupported_grant_type",
        }
    }

    /// The protocol's error code as an owned string.
    pub fn to_string(&self) -> (r: String)
        ensures
            r@ == oauth2_code(*self),
    {
        self.as_str().to_owned()
    }
}

impl ErrorKind {
    /// The protocol error under which a rejection of this kind is reported to a client.
    pub fn oauth2_kind(&self) -> (r: OAuth2ErrorKind)
        ensures
            r == oauth2_kind_of(*self),
    {
        match self {
            ErrorKind::NotFound => OAuth2ErrorKind::InvalidRequest,
            ErrorKind::InvalidRequest => OAuth2ErrorKind::InvalidRequest,
            ErrorKind::Unauthorized => OAuth2ErrorKind::AccessDenied,
            ErrorKind::Forbidden => OAuth2ErrorKind::AccessDenied,
            ErrorKind::InvalidGrant => OAuth2ErrorKind::InvalidGrant,
            ErrorKind::InvalidScope => OAuth2ErrorKind::InvalidScope,
            ErrorKind::Conflict => OAuth2ErrorKind::InvalidRequest,
            ErrorKind::InvariantViolation => OAuth2ErrorKind::ServerError,
            ErrorKind::Storage => OAuth2ErrorKind::ServerError,
            ErrorKind::Hashing => OAuth2ErrorKind::ServerError,
        }
    }
}

pub open spec fn oauth2_kind_of(k: ErrorKind) -> OAuth2ErrorKind {
    match k {
        ErrorKind::NotFound => OAuth2ErrorKind::InvalidRequest,
        ErrorKind::InvalidRequest => OAuth2ErrorKind::InvalidRequest,
        ErrorKind::Unauthorized => OAuth2ErrorKind::AccessDenied,
        ErrorKind::Forbidden => OAuth2ErrorKind::AccessDenied,
        ErrorKind::InvalidGrant => OAuth2ErrorKind::InvalidGrant,
        ErrorKind::InvalidScope => OAuth2ErrorKind::InvalidScope,
        ErrorKind::Conflict => OAuth2ErrorKind::InvalidRequest,
        ErrorKind::InvariantViolation => OAuth2ErrorKind::ServerError,
        ErrorKind::Storage => OAuth2ErrorKind::ServerError,
        ErrorKind::Hashing => OAuth2ErrorKind::ServerError,
    }
}

/// A protocol error addressed to a client: where to redirect, and the state to hand back.
pub struct OAuth2Error {
    pub kind: OAuth2ErrorKind,
    pub redirect_uri: String,
    pub state: Option<String>,
}

impl OAuth2Error {
    pub fn new(kind: OAuth2ErrorKind, redirect_uri: &str, state: Option<&str>) -> (r: OAuth2Error)
        ensures
            r.kind == kind,
            r.redirect_uri@ == redirect_uri@,
            r.state is Some <==> state is Some,
            state is Some ==> r.state->0@ == state->0@,
    {
        let st = match state {
            Some(s) => Some(s.to_owned()),
            None => None,
        };
        OAuth2Error { kind, redirect_uri: redirect_uri.to_owned(), state: st }
    }

    /// The protocol error for a rejection, addressed to `redirect_uri`.
    pub fn from_rejection(rej: &Rejection, redirect_uri: &str) -> (r: OAuth2Error)
        ensures
            r.kind == oauth2_kind_of(rej.kind),
            r.redirect_uri@ == redirect_uri@,
            r.state is Some <==> rej.state is Some,
            rej.state is Some ==> r.state->0@ == rej.state->0@,
    {
        let st = match &rej.state {
            Some(s) => Some(s.clone()),
            None => None,
        };
        OAuth2Error { kind: rej.kind.oauth2_kind(), redirect_uri: redirect_uri.to_owned(), state: st }
    }
}

} // verus!
