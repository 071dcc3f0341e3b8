//! The shape every vendor call follows: check the credential, build the
//! authenticated headers, send (outside this library), triage the HTTP
//! status, then decode the body. Only the sending itself lives elsewhere.

use vstd::prelude::*;

use crate::text::dec_digits;

verus! {

/// The error taxonomy of the request layer.
#[derive(Debug, Clone, PartialEq, Eq)]
pub enum RequestError {
    /// No credential is configured for the service; nothing was sent.
    MissingCredential,
    /// The transport itself failed before an HTTP status was obtained.
    TransportFailure(String),
    /// The service rejected the credential.
    Unauthorized,
    /// The addressed resource does not exist; carries its identifier.
    NotFound(String),
    /// The service throttled the call.
    RateLimited,
    /// Any other non-success status, with the response body.
    RemoteError(u16, String),
    /// The body of a successful response did not match the expected schema.
    InvalidResponse(String),
}

impl RequestError {
    /// A short description of the error, for rendering by the caller.
    pub fn message(&self) -> (r: String)
        ensures
            self is MissingCredential ==> r@ == "API key not configured"@,
            self matches RequestError::TransportFailure(e) ==> r@ == "request failed: "@ + e@,
            self is Unauthorized ==> r@ == "unauthorized"@,
            self matches RequestError::NotFound(id) ==> r@ == "not found: "@ + id@,
            self is RateLimited ==> r@ == "rate limited"@,
            self matches RequestError::RemoteError(st, _) ==> r@ == "remote error, status "@
                + dec_digits(*st as nat),
            self matches RequestError::InvalidResponse(e) ==> r@ == "invalid response: "@ + e@,
    {
        match self {
            RequestError::MissingCredential => "API key not configured".to_owned(),
            RequestError::TransportFailure(e) => "request failed: ".to_owned().concat(
                e.as_str(),
            ),
            RequestError::Unauthorized => "unauthorized".to_owned(),
            RequestError::NotFound(id) => "not found: ".to_owned().concat(id.as_str()),
            RequestError::RateLimited => "rate limited".to_owned(),
            RequestError::RemoteError(st, _) => "remote error, status ".to_owned().concat(
                crate::text::u64_to_string(*st as u64).as_str(),
            ),
            RequestError::InvalidResponse(e) => "invalid response: ".to_owned().concat(
                e.as_str(),
            ),
        }
    }
}

/// A secret associated with one external service: present or absent,
/// settable at runtime, read when a request is prepared.
#[derive(Debug, Clone)]
pub struct Credential {
    pub key: Option<String>,
}

impl Credential {
    /// A credential holding `key`, or none.
    pub fn new(key: Option<String>) -> (r: Credential)
        ensures
            r.key == key,
    {
        Credential { key }
    }

    /// An absent credential.
    pub fn absent() -> (r: Credential)
        ensures
            r.key is None,
    {
        Credential { key: None }
    }

    /// Replaces the secret.
    pub fn set(&mut self, key: String)
        ensures
            final(self).key == Some(key),
    {
        self.key = Some(key);
    }

    /// Whether a secret is configured.
    pub fn is_configured(&self) -> (r: bool)
        ensures
            r == (self.key is Some),
    {
        self.key.is_some()
    }
}

/// How a vendor expects its credential on the wire.
#[derive(Debug, Clone)]
pub enum AuthScheme {
    /// An `Authorization: Bearer <key>` header.
    Bearer,
    /// A single vendor-named header holding the bare key.
    Header(String),
    /// A key header plus a fixed version-stamp header.
    HeaderWithVersion { key_header: String, version_header: String, version: String },
}

/// The header list a scheme produces for a given key.
pub open spec fn auth_headers_spec(scheme: AuthScheme, key: Seq<char>) -> Seq<
    (Seq<char>, Seq<char>),
> {
    match scheme {
        AuthScheme::Bearer => seq![("Authorization"@, "Bearer "@ + key)],
        AuthScheme::Header(h) => seq![(h@, key)],
        AuthScheme::HeaderWithVersion { key_header, version_header, version } => seq![
            (key_header@, key),
            (version_header@, version@),
        ],
    }
}

/// The character-level view of an exec header list.
pub open spec fn headers_view(hs: Seq<(String, String)>) -> Seq<(Seq<char>, Seq<char>)> {
    hs.map_values(|p: (String, String)| (p.0@, p.1@))
}

/// Builds the authenticated headers for one request, failing fast with
/// `MissingCredential` when no secret is configured — in that case no
/// request is to be sent at all.
pub fn build_auth_headers(scheme: &AuthScheme, cred: &Credential) -> (r: Result<
    Vec<(String, String)>,
    RequestError,
>)
    ensures
        r is Err <==> cred.key is None,
        r is Err ==> r == Err::<Vec<(String, String)>, RequestError>(
            RequestError::MissingCredential,
        ),
        r matches Ok(hs) ==> headers_view(hs@) == auth_headers_spec(
            *scheme,
            cred.key->Some_0@,
        ),
{
    let key = match &cred.key {
        Some(k) => k,
        None => {
            return Err(RequestError::MissingCredential);
        },
    };
    let mut hs: Vec<(String, String)> = Vec::new();
    match scheme {
        AuthScheme::Bearer => {
            hs.push(("Authorization".to_owned(), "Bearer ".to_owned().concat(key.as_str())));
        },
        AuthScheme::Header(h) => {
            hs.push((h.clone(), key.clone()));
        },
        AuthScheme::HeaderWithVersion { key_header, version_header, version } => {
            hs.push((key_header.clone(), key.clone()));
            hs.push((version_header.clone(), version.clone()));
        },
    }
    proof {
        assert(headers_view(hs@) =~= auth_headers_spec(*scheme, cred.key->Some_0@));
    }
    Ok(hs)
}

/// Maps one HTTP response to the request outcome: 2xx passes the body on,
/// 401 and 403 mean `Unauthorized`, 404 means `NotFound` of the addressed
/// resource, 429 means `RateLimited` whatever the body holds, and any other
/// status is a `RemoteError` carrying status and body.
pub fn triage_status(status: u16, body: String, resource: &str) -> (r: Result<
    String,
    RequestError,
>)
    ensures
        200 <= status <= 299 <==> r is Ok,
        r matches Ok(b) ==> b == body,
        (status == 401 || status == 403) <==> r == Err::<String, RequestError>(
            RequestError::Unauthorized,
        ),
        status == 404 ==> (r matches Err(e) && e matches RequestError::NotFound(id)
            && id@ == resource@),
        status == 429 <==> r == Err::<String, RequestError>(RequestError::RateLimited),
        !(200 <= status <= 299) && !(status == 401 || status == 403) && status != 404 && status
            != 429 ==> r == Err::<String, RequestError>(RequestError::RemoteError(status, body)),
{
    if 200 <= status && status <= 299 {
        Ok(body)
    } else if status == 401 || status == 403 {
        Err(RequestError::Unauthorized)
    } else if status == 404 {
        Err(RequestError::NotFound(resource.to_owned()))
    } else if status == 429 {
        Err(RequestError::RateLimited)
    } else {
        Err(RequestError::RemoteError(status, body))
    }
}

} // verus!
