//! Forwarding decisions: the load-balancing key of a request, and how
//! route and backend resolution failures are reported.
pub mod lb_key;
pub mod resolve;
