//! External authorization of a request: its providers, failure policy,
//! decisions and the header changes it asks for.
use vstd::prelude::*;

use crate::errors::proxy::ProxyError;
use crate::time::TimeSpan;

verus! {

#[derive(Debug, Clone, Copy, PartialEq, Eq, Structural)]
pub enum ExternalAuthProviderKind {
    Http,
    Oidc,
}

/// How a failed or timed-out authorization is configured to end.
#[derive(Debug, Clone, Copy, PartialEq, Eq, Structural)]
pub enum RuntimeExternalAuthFailureMode {
    FailOpen,
    FailClosed,
}

/// Whether a request goes on when its authorization fails or times out.
#[derive(Debug, Clone, Copy, PartialEq, Eq, Structural)]
pub enum ExternalAuthFailureDisposition {
    FailOpen,
    FailClosed,
}

impl ExternalAuthFailureDisposition {
    pub fn from_failure_mode(mode: RuntimeExternalAuthFailureMode) -> (d: Self)
        ensures
            (mode == RuntimeExternalAuthFailureMode::FailOpen) == (d
                == ExternalAuthFailureDisposition::FailOpen),
    {
        match mode {
            RuntimeExternalAuthFailureMode::FailOpen => ExternalAuthFailureDisposition::FailOpen,
            RuntimeExternalAuthFailureMode::FailClosed => ExternalAuthFailureDisposition::FailClosed,
        }
    }

    /// Whether the request is let through.
    pub fn fail_open(self) -> (b: bool)
        ensures
            b == (self == ExternalAuthFailureDisposition::FailOpen),
    {
        match self {
            ExternalAuthFailureDisposition::FailOpen => true,
            ExternalAuthFailureDisposition::FailClosed => false,
        }
    }
}

/// How long an authorization may take and what a failure means.
#[derive(Debug, Clone, Copy, PartialEq, Eq, Structural)]
pub struct ExternalAuthExecutionPolicy {
    pub timeout: TimeSpan,
    pub failure_mode: RuntimeExternalAuthFailureMode,
}

impl ExternalAuthExecutionPolicy {
    pub fn disposition(self) -> (d: ExternalAuthFailureDisposition)
        ensures
            (self.failure_mode == RuntimeExternalAuthFailureMode::FailOpen) == (d
                == ExternalAuthFailureDisposition::FailOpen),
    {
        ExternalAuthFailureDisposition::from_failure_mode(self.failure_mode)
    }
}

/// An upstream's configured external authorization, over the type `H` of
/// its request-header rules: an HTTP check endpoint or an OIDC provider,
/// each with the headers it forwards, the response headers it may copy
/// back, its timeout and its failure mode.
#[derive(Debug, Clone)]
pub enum RuntimeExternalAuth<H> {
    Http {
        endpoint: String,
        request_headers: Vec<H>,
        response_header_allowlist: Vec<String>,
        timeout: TimeSpan,
        failure_mode: RuntimeExternalAuthFailureMode,
    },
    Oidc {
        discovery_url: Option<String>,
        issuer_url: Option<String>,
        client_id: String,
        client_secret: Option<String>,
        audience: Option<String>,
        scopes: Vec<String>,
        request_headers: Vec<H>,
        response_header_allowlist: Vec<String>,
        timeout: TimeSpan,
        failure_mode: RuntimeExternalAuthFailureMode,
    },
}

/// What an authorization provider is built from, borrowed from the
/// configuration.
#[derive(Debug, Clone)]
pub enum ExternalAuthProviderInput<'a, H> {
    Http {
        endpoint: &'a str,
        request_headers: &'a [H],
        response_header_allowlist: &'a [String],
    },
    Oidc {
        discovery_url: Option<&'a str>,
        issuer_url: Option<&'a str>,
        client_id: &'a str,
        client_secret: Option<&'a str>,
        audience: Option<&'a str>,
        scopes: &'a [String],
        request_headers: &'a [H],
        response_header_allowlist: &'a [String],
    },
}

/// A borrowed optional string that reads as the owned one.
pub open spec fn borrows_opt(r: Option<&str>, o: Option<String>) -> bool {
    match (r, o) {
        (Some(a), Some(b)) => a@ == b@,
        (None, None) => true,
        _ => false,
    }
}

fn borrow_opt(o: &Option<String>) -> (r: Option<&str>)
    ensures
        borrows_opt(r, *o),
{
    match o {
        Some(s) => Some(s.as_str()),
        None => None,
    }
}

/// The provider input reads the configuration as it is, field by field.
pub open spec fn provider_input_of<'a, H>(
    r: ExternalAuthProviderInput<'a, H>,
    value: RuntimeExternalAuth<H>,
) -> bool {
    match (r, value) {
        (
            ExternalAuthProviderInput::Http { endpoint, request_headers, response_header_allowlist },
            RuntimeExternalAuth::Http {
                endpoint: e,
                request_headers: h,
                response_header_allowlist: a,
                ..
            },
        ) => endpoint@ == e@ && request_headers@ == h@ && response_header_allowlist@ == a@,
        (
            ExternalAuthProviderInput::Oidc {
                discovery_url,
                issuer_url,
                client_id,
                client_secret,
                audience,
                scopes,
                request_headers,
                response_header_allowlist,
            },
            RuntimeExternalAuth::Oidc {
                discovery_url: d,
                issuer_url: i,
                client_id: c,
                client_secret: cs,
                audience: au,
                scopes: sc,
                request_headers: h,
                response_header_allowlist: a,
                ..
            },
        ) => {
            &&& borrows_opt(discovery_url, d)
            &&& borrows_opt(issuer_url, i)
            &&& client_id@ == c@
            &&& borrows_opt(client_secret, cs)
            &&& borrows_opt(audience, au)
            &&& scopes@ == sc@
            &&& request_headers@ == h@
            &&& response_header_allowlist@ == a@
        },
        _ => false,
    }
}

impl<'a, H> ExternalAuthProviderInput<'a, H> {
    pub fn kind(&self) -> (k: ExternalAuthProviderKind)
        ensures
            k == match self {
                ExternalAuthProviderInput::Http { .. } => ExternalAuthProviderKind::Http,
                ExternalAuthProviderInput::Oidc { .. } => ExternalAuthProviderKind::Oidc,
            },
    {
        match self {
            ExternalAuthProviderInput::Http { .. } => ExternalAuthProviderKind::Http,
            ExternalAuthProviderInput::Oidc { .. } => ExternalAuthProviderKind::Oidc,
        }
    }

    /// The request headers the provider is sent.
    pub fn request_headers(&self) -> (h: &'a [H])
        ensures
            h@ == match self {
                ExternalAuthProviderInput::Http { request_headers, .. } => request_headers@,
                ExternalAuthProviderInput::Oidc { request_headers, .. } => request_headers@,
            },
    {
        match self {
            ExternalAuthProviderInput::Http { request_headers, .. } => request_headers,
            ExternalAuthProviderInput::Oidc { request_headers, .. } => request_headers,
        }
    }

    /// The response headers the provider may copy onto the request.
    pub fn response_header_allowlist(&self) -> (a: &'a [String])
        ensures
            a@ == match self {
                ExternalAuthProviderInput::Http { response_header_allowlist, .. } => response_header_allowlist@,
                ExternalAuthProviderInput::Oidc { response_header_allowlist, .. } => response_header_allowlist@,
            },
    {
        match self {
            ExternalAuthProviderInput::Http { response_header_allowlist, .. } => response_header_allowlist,
            ExternalAuthProviderInput::Oidc { response_header_allowlist, .. } => response_header_allowlist,
        }
    }

    /// The provider input of a configured external authorization: the same
    /// kind, with each field it needs borrowed.
    pub fn from(value: &'a RuntimeExternalAuth<H>) -> (r: Self)
        ensures
            provider_input_of(r, *value),
    {
        match value {
            RuntimeExternalAuth::Http { endpoint, request_headers, response_header_allowlist, .. } => {
                ExternalAuthProviderInput::Http {
                    endpoint: endpoint.as_str(),
                    request_headers: request_headers.as_slice(),
                    response_header_allowlist: response_header_allowlist.as_slice(),
                }
            },
            RuntimeExternalAuth::Oidc {
                discovery_url,
                issuer_url,
                client_id,
                client_secret,
                audience,
                scopes,
                request_headers,
                response_header_allowlist,
                ..
            } => ExternalAuthProviderInput::Oidc {
                discovery_url: borrow_opt(discovery_url),
                issuer_url: borrow_opt(issuer_url),
                client_id: client_id.as_str(),
                client_secret: borrow_opt(client_secret),
                audience: borrow_opt(audience),
                scopes: scopes.as_slice(),
                request_headers: request_headers.as_slice(),
                response_header_allowlist: response_header_allowlist.as_slice(),
            },
        }
    }
}

/// The request that an authorization is asked about.
#[derive(Debug, Clone, Copy, PartialEq, Eq)]
pub struct ExternalAuthRequestContext<'a> {
    pub method: &'a str,
    pub path: &'a str,
    pub authority: Option<&'a str>,
    pub upstream_name: &'a str,
    pub backend_addr: &'a str,
}

/// The answer of an authorization service: its status, its headers as
/// (lowercase name, value bytes) pairs, and its body.
#[derive(Debug)]
pub struct ExternalAuthResponseMetadata<'a> {
    pub status: u16,
    pub headers: &'a Vec<(String, Vec<u8>)>,
    pub body: &'a [u8],
}

/// A change to the request's headers that an authorization asks for.
#[derive(Debug, Clone, PartialEq, Eq)]
pub enum ExternalAuthMutationIntent {
    Upsert { name: Vec<u8>, value: Vec<u8> },
    Remove { name: Vec<u8> },
}

/// A header change waiting to be applied to the forwarded request.
#[derive(Debug, Clone, PartialEq, Eq)]
pub enum PendingHeaderMutation {
    Upsert { name: Vec<u8>, value: Vec<u8> },
    Remove { name: Vec<u8> },
}

impl PendingHeaderMutation {
    /// The pending change for an intent, with the same name and value.
    pub fn from(value: ExternalAuthMutationIntent) -> (m: Self)
        ensures
            match value {
                ExternalAuthMutationIntent::Upsert { name, value } => m
                    == PendingHeaderMutation::Upsert { name, value },
                ExternalAuthMutationIntent::Remove { name } => m == PendingHeaderMutation::Remove {
                    name,
                },
            },
    {
        match value {
            ExternalAuthMutationIntent::Upsert { name, value } => PendingHeaderMutation::Upsert {
                name,
                value,
            },
            ExternalAuthMutationIntent::Remove { name } => PendingHeaderMutation::Remove { name },
        }
    }
}

impl ExternalAuthMutationIntent {
    /// The intent of a pending change, with the same name and value.
    pub fn from(value: PendingHeaderMutation) -> (m: Self)
        ensures
            match value {
                PendingHeaderMutation::Upsert { name, value } => m
                    == ExternalAuthMutationIntent::Upsert { name, value },
                PendingHeaderMutation::Remove { name } => m == ExternalAuthMutationIntent::Remove {
                    name,
                },
            },
    {
        match value {
            PendingHeaderMutation::Upsert { name, value } => ExternalAuthMutationIntent::Upsert {
                name,
                value,
            },
            PendingHeaderMutation::Remove { name } => ExternalAuthMutationIntent::Remove { name },
        }
    }
}

/// A refusal, answered with this status, headers and body.
#[derive(Debug, Clone, PartialEq, Eq)]
pub struct ExternalAuthDenyResponse {
    pub status: u16,
    pub headers: Vec<(String, String)>,
    pub body: Vec<u8>,
}

/// A redirect to `location`.
#[derive(Debug, Clone, PartialEq, Eq)]
pub struct ExternalAuthRedirectResponse {
    pub status: u16,
    pub headers: Vec<(String, String)>,
    pub location: String,
}

/// A challenge for credentials.
#[derive(Debug, Clone, PartialEq, Eq)]
pub struct ExternalAuthChallengeResponse {
    pub status: u16,
    pub headers: Vec<(String, String)>,
    pub www_authenticate: String,
    pub body: Vec<u8>,
}

/// What an authorization decided.
#[derive(Debug, Clone, PartialEq, Eq)]
pub enum ExternalAuthDecision {
    Allow { request_header_mutations: Vec<PendingHeaderMutation> },
    Deny(ExternalAuthDenyResponse),
    Redirect(ExternalAuthRedirectResponse),
    Challenge(ExternalAuthChallengeResponse),
}

/// How an authorization ended, including a timeout or a failure.
#[derive(Debug)]
pub enum ExternalAuthDecisionOutcome {
    Allow { request_header_mutations: Vec<ExternalAuthMutationIntent> },
    Deny(ExternalAuthDenyResponse),
    Redirect(ExternalAuthRedirectResponse),
    Challenge(ExternalAuthChallengeResponse),
    Timeout { disposition: ExternalAuthFailureDisposition },
    Error { disposition: ExternalAuthFailureDisposition, error: ProxyError },
}

} // verus!
