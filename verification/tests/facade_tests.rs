use tinkervoice::facade::{build_auth_headers, triage_status, AuthScheme, Credential, RequestError};

#[test]
fn missing_credential_fails_before_any_request() {
    let cred = Credential::absent();
    let r = build_auth_headers(&AuthScheme::Bearer, &cred);
    assert_eq!(r.unwrap_err(), RequestError::MissingCredential);
}

#[test]
fn bearer_scheme_builds_the_authorization_header() {
    let cred = Credential::new(Some("SECRET-REDACTED".to_string()));
    let hs = build_auth_headers(&AuthScheme::Bearer, &cred).unwrap();
    assert_eq!(hs, vec![("Authorization".to_string(), "Bearer SECRET-REDACTED".to_string())]);
}

#[test]
fn header_scheme_uses_the_vendor_name() {
    let cred = Credential::new(Some("k1".to_string()));
    let hs = build_auth_headers(&AuthScheme::Header("xi-api-key".to_string()), &cred).unwrap();
    assert_eq!(hs, vec![("xi-api-key".to_string(), "k1".to_string())]);
}

#[test]
fn dual_header_scheme_stamps_the_version() {
    let cred = Credential::new(Some("k2".to_string()));
    let scheme = AuthScheme::HeaderWithVersion {
        key_header: "x-api-key".to_string(),
        version_header: "anthropic-version".to_string(),
        version: "2023-06-01".to_string(),
    };
    let hs = build_auth_headers(&scheme, &cred).unwrap();
    assert_eq!(
        hs,
        vec![
            ("x-api-key".to_string(), "k2".to_string()),
            ("anthropic-version".to_string(), "2023-06-01".to_string()),
        ]
    );
}

#[test]
fn credential_can_be_set_after_construction() {
    let mut cred = Credential::absent();
    assert!(!cred.is_configured());
    cred.set("later".to_string());
    assert!(cred.is_configured());
    let hs = build_auth_headers(&AuthScheme::Bearer, &cred).unwrap();
    assert_eq!(hs[0].1, "Bearer later");
}

#[test]
fn triage_passes_success_bodies_through() {
    assert_eq!(triage_status(200, "body".to_string(), "/r"), Ok("body".to_string()));
    assert_eq!(triage_status(204, String::new(), "/r"), Ok(String::new()));
    assert_eq!(triage_status(299, "edge".to_string(), "/r"), Ok("edge".to_string()));
}

#[test]
fn triage_maps_each_error_class() {
    assert_eq!(triage_status(401, "b".to_string(), "/r").unwrap_err(), RequestError::Unauthorized);
    assert_eq!(triage_status(403, "b".to_string(), "/r").unwrap_err(), RequestError::Unauthorized);
    assert_eq!(
        triage_status(404, "b".to_string(), "run-7").unwrap_err(),
        RequestError::NotFound("run-7".to_string())
    );
    assert_eq!(triage_status(429, "b".to_string(), "/r").unwrap_err(), RequestError::RateLimited);
    assert_eq!(
        triage_status(500, "oops".to_string(), "/r").unwrap_err(),
        RequestError::RemoteError(500, "oops".to_string())
    );
    assert_eq!(
        triage_status(300, "redirect".to_string(), "/r").unwrap_err(),
        RequestError::RemoteError(300, "redirect".to_string())
    );
}

#[test]
fn rate_limit_triage_ignores_the_body() {
    let a = triage_status(429, "anything".to_string(), "/r");
    let b = triage_status(429, "something else".to_string(), "/r");
    assert_eq!(a.unwrap_err(), b.unwrap_err());
}

#[test]
fn error_messages_render_their_detail() {
    assert_eq!(RequestError::MissingCredential.message(), "API key not configured");
    assert_eq!(RequestError::RateLimited.message(), "rate limited");
    assert_eq!(RequestError::NotFound("x".to_string()).message(), "not found: x");
    assert_eq!(
        RequestError::RemoteError(503, "b".to_string()).message(),
        "remote error, status 503"
    );
    assert_eq!(
        RequestError::TransportFailure("refused".to_string()).message(),
        "request failed: refused"
    );
}
