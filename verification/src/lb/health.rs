use vstd::prelude::*;

verus! {

/// Why a backend was judged unhealthy.
#[derive(Clone, Copy, Debug, PartialEq, Eq, Structural)]
pub enum HealthFailureReason {
    HttpStatus5xx,
    Timeout,
    Transport,
    Tls,
    CircuitOpen,
}

} // verus!
