use vstd::prelude::*;

verus! {

#[derive(Clone, Debug, PartialEq, Eq)]
pub struct UpstreamErrorDetails {
    pub detail: String,
    pub is_connect: bool,
}

impl UpstreamErrorDetails {
    pub fn new(detail: String, is_connect: bool) -> (r: Self)
        ensures
            r.detail == detail,
            r.is_connect == is_connect,
    {
        Self { detail, is_connect }
    }
}

#[derive(Clone, Copy, Debug, PartialEq, Eq, Structural)]
pub enum UpstreamErrorCategory {
    Timeout,
    Transport,
    Tls,
    Protocol,
    Internal,
}

#[derive(Clone, Copy, Debug, PartialEq, Eq, Structural)]
pub enum UpstreamTlsReason {
    UnknownIssuer,
    ExpiredCertificate,
    HostnameMismatch,
    Alpn,
    Handshake,
}

/// The category of an upstream failure; only TLS failures carry a reason.
#[derive(Clone, Copy, Debug, PartialEq, Eq, Structural)]
pub struct UpstreamErrorClassification {
    pub category: UpstreamErrorCategory,
    pub tls_reason: Option<UpstreamTlsReason>,
}

impl UpstreamErrorClassification {
    pub fn timeout() -> (r: Self)
        ensures
            r == (Self { category: UpstreamErrorCategory::Timeout, tls_reason: None }),
    {
        Self { category: UpstreamErrorCategory::Timeout, tls_reason: None }
    }

    pub fn transport() -> (r: Self)
        ensures
            r == (Self { category: UpstreamErrorCategory::Transport, tls_reason: None }),
    {
        Self { category: UpstreamErrorCategory::Transport, tls_reason: None }
    }

    pub fn tls(reason: UpstreamTlsReason) -> (r: Self)
        ensures
            r == (Self { category: UpstreamErrorCategory::Tls, tls_reason: Some(reason) }),
    {
        Self { category: UpstreamErrorCategory::Tls, tls_reason: Some(reason) }
    }

    pub fn protocol() -> (r: Self)
        ensures
            r == (Self { category: UpstreamErrorCategory::Protocol, tls_reason: None }),
    {
        Self { category: UpstreamErrorCategory::Protocol, tls_reason: None }
    }

    pub fn internal() -> (r: Self)
        ensures
            r == (Self { category: UpstreamErrorCategory::Internal, tls_reason: None }),
    {
        Self { category: UpstreamErrorCategory::Internal, tls_reason: None }
    }
}

} // verus!
