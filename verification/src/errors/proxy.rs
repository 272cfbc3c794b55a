use vstd::prelude::*;

verus! {

/// `http::Error`, carried by a failed request build.
#[verifier::external_type_specification]
#[verifier::external_body]
pub struct ExHttpError(http::Error);

/// Failures while translating a request for the upstream.
#[derive(Debug)]
pub enum BridgeError {
    InvalidMethod,
    InvalidUri,
    InvalidHeader,
    Build(http::Error),
}

/// The text of an `http::Error`, as its `Display` writes it.
#[verifier::external_body]
fn http_error_text(e: &http::Error) -> String {
    format!("{}", e)
}

impl BridgeError {
    /// The message that the error displays as.
    pub fn message(&self) -> (s: String)
        ensures
            match self {
                BridgeError::InvalidMethod => s@ == "invalid HTTP method"@,
                BridgeError::InvalidUri => s@ == "invalid URI"@,
                BridgeError::InvalidHeader => s@ == "invalid header"@,
                BridgeError::Build(_) => "failed to build request: "@.is_prefix_of(s@),
            },
    {
        match self {
            BridgeError::InvalidMethod => "invalid HTTP method".to_owned(),
            BridgeError::InvalidUri => "invalid URI".to_owned(),
            BridgeError::InvalidHeader => "invalid header".to_owned(),
            BridgeError::Build(e) => {
                let mut s = "failed to build request: ".to_owned();
                let detail = http_error_text(e);
                s.append(detail.as_str());
                s
            },
        }
    }
}

/// Failures of the upstream connection pool.
#[derive(Debug, Clone, PartialEq, Eq)]
pub enum PoolError {
    /// The request could not be handed to an established connection.
    Send(String),
    /// No connection could be obtained from the pool.
    Unavailable(String),
}

/// Failures while proxying a request to an upstream.
#[derive(Debug)]
pub enum ProxyError {
    Transport(String),
    Timeout,
    Pool(PoolError),
    Tls(String),
    Protocol(String),
    Bridge(BridgeError),
}

} // verus!
