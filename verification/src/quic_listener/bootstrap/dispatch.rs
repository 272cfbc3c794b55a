//! What a failed dispatch to the upstream is answered with.
use vstd::prelude::*;

use crate::errors::proxy::{PoolError, ProxyError};

verus! {

/// Why a bootstrap request could not be sent upstream.
#[derive(Debug, Clone, PartialEq, Eq)]
pub enum BootstrapDispatchFailure {
    /// The transport pool could not send it.
    Pool(PoolError),
    /// The backend did not answer within the backend timeout.
    Timeout,
}

/// The status, body and recorded error of a failed dispatch: 502 for a
/// pool failure, 504 for a timeout.
pub fn bootstrap_dispatch_failure_response(failure: BootstrapDispatchFailure) -> (r: (
    u16,
    &'static str,
    ProxyError,
))
    ensures
        match failure {
            BootstrapDispatchFailure::Pool(e) => r.0 == 502 && r.1@ == "upstream error\n"@ && r.2
                == ProxyError::Pool(e),
            BootstrapDispatchFailure::Timeout => r.0 == 504 && r.1@ == "upstream timeout\n"@ && r.2
                == ProxyError::Timeout,
        },
{
    match failure {
        BootstrapDispatchFailure::Pool(e) => (502, "upstream error\n", ProxyError::Pool(e)),
        BootstrapDispatchFailure::Timeout => (504, "upstream timeout\n", ProxyError::Timeout),
    }
}

} // verus!
