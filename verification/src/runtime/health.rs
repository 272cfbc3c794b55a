//! How an upstream response counts toward a backend's health.
use vstd::prelude::*;

verus! {

#[derive(Debug, Clone, Copy, PartialEq, Eq, Structural)]
pub enum HealthClassification {
    /// 2xx and 3xx responses.
    Success,
    /// 5xx responses; transport, pool and timeout errors.
    Failure,
    /// 4xx responses; bridge and TLS errors.
    Neutral,
}

/// The health outcome of a response status: server errors (500-599) are
/// failures, client errors (400-499) neutral, anything else a success.
pub fn outcome_from_status(status: u16) -> (c: HealthClassification)
    ensures
        500 <= status < 600 ==> c == HealthClassification::Failure,
        400 <= status < 500 ==> c == HealthClassification::Neutral,
        !(400 <= status < 600) ==> c == HealthClassification::Success,
{
    if 500 <= status && status < 600 {
        HealthClassification::Failure
    } else if 400 <= status && status < 500 {
        HealthClassification::Neutral
    } else {
        HealthClassification::Success
    }
}

} // verus!
