//! Credential management across the five external services.

use vstd::prelude::*;

use crate::facade::Credential;
use crate::text::{lower_of, lowercase, str_eq};

verus! {

/// The five external services a credential can belong to.
#[derive(Debug, Clone, Copy, PartialEq, Eq, Structural)]
pub enum ApiService {
    Elevenlabs,
    Anthropic,
    Tonic,
    Yutori,
    Tinker,
}

/// The service a lowered name denotes.
pub open spec fn service_of(low: Seq<char>) -> Option<ApiService> {
    if low == "elevenlabs"@ {
        Some(ApiService::Elevenlabs)
    } else if low == "anthropic"@ {
        Some(ApiService::Anthropic)
    } else if low == "tonic"@ {
        Some(ApiService::Tonic)
    } else if low == "yutori"@ {
        Some(ApiService::Yutori)
    } else if low == "tinker"@ {
        Some(ApiService::Tinker)
    } else {
        None
    }
}

/// Parses a service name, matching its lowered text; the message of the
/// failure carries the name as given.
pub fn parse_service(s: &str) -> (r: Result<ApiService, String>)
    ensures
        r is Ok <==> service_of(lower_of(s@)) is Some,
        r matches Ok(svc) ==> service_of(lower_of(s@)) == Some(svc),
        r matches Err(e) ==> e@ == "Unknown service: "@ + s@,
{
    let low = lowercase(s);
    if str_eq(low.as_str(), "elevenlabs") {
        Ok(ApiService::Elevenlabs)
    } else if str_eq(low.as_str(), "anthropic") {
        Ok(ApiService::Anthropic)
    } else if str_eq(low.as_str(), "tonic") {
        Ok(ApiService::Tonic)
    } else if str_eq(low.as_str(), "yutori") {
        Ok(ApiService::Yutori)
    } else if str_eq(low.as_str(), "tinker") {
        Ok(ApiService::Tinker)
    } else {
        Err("Unknown service: ".to_owned().concat(s))
    }
}

/// The credentials of all five services.
#[derive(Debug, Clone)]
pub struct ServiceKeys {
    pub elevenlabs: Credential,
    pub anthropic: Credential,
    pub tonic: Credential,
    pub yutori: Credential,
    pub tinker: Credential,
}

/// The credential of one service in a key set.
pub open spec fn key_of(keys: ServiceKeys, svc: ApiService) -> Credential {
    match svc {
        ApiService::Elevenlabs => keys.elevenlabs,
        ApiService::Anthropic => keys.anthropic,
        ApiService::Tonic => keys.tonic,
        ApiService::Yutori => keys.yutori,
        ApiService::Tinker => keys.tinker,
    }
}

impl ServiceKeys {
    /// A key set from five optional secrets.
    pub fn new(
        elevenlabs: Option<String>,
        anthropic: Option<String>,
        tonic: Option<String>,
        yutori: Option<String>,
        tinker: Option<String>,
    ) -> (r: ServiceKeys)
        ensures
            r.elevenlabs.key == elevenlabs,
            r.anthropic.key == anthropic,
            r.tonic.key == tonic,
            r.yutori.key == yutori,
            r.tinker.key == tinker,
    {
        ServiceKeys {
            elevenlabs: Credential::new(elevenlabs),
            anthropic: Credential::new(anthropic),
            tonic: Credential::new(tonic),
            yutori: Credential::new(yutori),
            tinker: Credential::new(tinker),
        }
    }

    /// Replaces one service's secret, leaving the others untouched.
    pub fn set_key(&mut self, svc: ApiService, key: String)
        ensures
            key_of(*final(self), svc).key == Some(key),
            forall|other: ApiService| other != svc ==> key_of(*final(self), other) == key_of(
                *old(self),
                other,
            ),
    {
        match svc {
            ApiService::Elevenlabs => self.elevenlabs.set(key),
            ApiService::Anthropic => self.anthropic.set(key),
            ApiService::Tonic => self.tonic.set(key),
            ApiService::Yutori => self.yutori.set(key),
            ApiService::Tinker => self.tinker.set(key),
        }
    }

    /// Whether one service has a secret configured.
    pub fn has_key(&self, svc: ApiService) -> (r: bool)
        ensures
            r == (key_of(*self, svc).key is Some),
    {
        match svc {
            ApiService::Elevenlabs => self.elevenlabs.is_configured(),
            ApiService::Anthropic => self.anthropic.is_configured(),
            ApiService::Tonic => self.tonic.is_configured(),
            ApiService::Yutori => self.yutori.is_configured(),
            ApiService::Tinker => self.tinker.is_configured(),
        }
    }
}

/// Whether one service's key is configured, and what the last check said.
#[derive(Debug, Clone)]
pub struct ApiKeyStatus {
    pub is_configured: bool,
    pub is_valid: Option<bool>,
    pub last_checked: Option<String>,
}

/// The configuration state of all five services.
#[derive(Debug, Clone)]
pub struct ApiKeysStatus {
    pub elevenlabs: ApiKeyStatus,
    pub anthropic: ApiKeyStatus,
    pub tonic: ApiKeyStatus,
    pub yutori: ApiKeyStatus,
    pub tinker: ApiKeyStatus,
}

/// Reports which services have a key configured; no validity check is
/// performed, so validity and check time are unknown throughout.
pub fn keys_status(keys: &ServiceKeys) -> (r: ApiKeysStatus)
    ensures
        r.elevenlabs.is_configured == (keys.elevenlabs.key is Some),
        r.anthropic.is_configured == (keys.anthropic.key is Some),
        r.tonic.is_configured == (keys.tonic.key is Some),
        r.yutori.is_configured == (keys.yutori.key is Some),
        r.tinker.is_configured == (keys.tinker.key is Some),
        r.elevenlabs.is_valid is None && r.elevenlabs.last_checked is None,
        r.anthropic.is_valid is None && r.anthropic.last_checked is None,
        r.tonic.is_valid is None && r.tonic.last_checked is None,
        r.yutori.is_valid is None && r.yutori.last_checked is None,
        r.tinker.is_valid is None && r.tinker.last_checked is None,
{
    ApiKeysStatus {
        elevenlabs: ApiKeyStatus {
            is_configured: keys.elevenlabs.is_configured(),
            is_valid: None,
            last_checked: None,
        },
        anthropic: ApiKeyStatus {
            is_configured: keys.anthropic.is_configured(),
            is_valid: None,
            last_checked: None,
        },
        tonic: ApiKeyStatus {
            is_configured: keys.tonic.is_configured(),
            is_valid: None,
            last_checked: None,
        },
        yutori: ApiKeyStatus {
            is_configured: keys.yutori.is_configured(),
            is_valid: None,
            last_checked: None,
        },
        tinker: ApiKeyStatus {
            is_configured: keys.tinker.is_configured(),
            is_valid: None,
            last_checked: None,
        },
    }
}

} // verus!
