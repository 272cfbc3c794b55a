//! Upstream failure classification and the retry policy.
pub mod proxy;
pub mod retry;
pub mod upstream;
