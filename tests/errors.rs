use miniboss::error::{ErrorKind, OAuth2Error, OAuth2ErrorKind, Rejection};

#[test]
fn oauth2_error_codes() {
    assert_eq!(OAuth2ErrorKind::InvalidRequest.as_str(), "invalid_request");
    assert_eq!(OAuth2ErrorKind::UnauthorizedClient.as_str(), "unauthorized_client");
    assert_eq!(OAuth2ErrorKind::AccessDenied.as_str(), "access_denied");
    assert_eq!(OAuth2ErrorKind::UnsupportedResponseType.as_str(), "unsupported_response_type");
    assert_eq!(OAuth2ErrorKind::InvalidScope.as_str(), "invalid_scope");
    assert_eq!(OAuth2ErrorKind::ServerError.as_str(), "server_error");
    assert_eq!(OAuth2ErrorKind::InvalidGrant.as_str(), "invalid_grant");
    assert_eq!(OAuth2ErrorKind::UnsupportedGrantType.to_string(), "unsupported_grant_type");
}

#[test]
fn oauth2_error_new_keeps_redirect_and_state() {
    let e = OAuth2Error::new(OAuth2ErrorKind::AccessDenied, "https://c/cb", Some("xyz"));
    assert_eq!(e.kind, OAuth2ErrorKind::AccessDenied);
    assert_eq!(e.redirect_uri, "https://c/cb");
    assert_eq!(e.state, Some("xyz".to_string()));
    let e = OAuth2Error::new(OAuth2ErrorKind::ServerError, "https://c/cb", None);
    assert_eq!(e.state, None);
}

#[test]
fn rejection_maps_to_protocol_error() {
    let rej = Rejection { kind: ErrorKind::Forbidden, redirect_uri: Some("https://c/cb".to_string()), state: Some("xyz".to_string()) };
    let e = OAuth2Error::from_rejection(&rej, "https://c/cb");
    assert_eq!(e.kind, OAuth2ErrorKind::AccessDenied);
    assert_eq!(e.state, Some("xyz".to_string()));
    assert_eq!(ErrorKind::InvalidGrant.oauth2_kind(), OAuth2ErrorKind::InvalidGrant);
    assert_eq!(ErrorKind::InvariantViolation.oauth2_kind(), OAuth2ErrorKind::ServerError);
}
