//! Decisions of the QUIC listener: the control API, the watchdog, request
//! admission, and route and backend resolution.
pub mod admission;
pub mod backend_resolution;
pub mod bootstrap;
pub mod control_api;
pub mod forwarding;
pub mod watchdog;
