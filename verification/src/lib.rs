//! Verified core of the spooky edge proxy: routing, load balancing, retry,
//! guardrail and admission policies, runtime configuration normalization,
//! backend lifecycle and DNS refresh decisions, response header
//! normalization, CONNECT authorities, and the control API's and the
//! watchdog's decisions.
pub mod bench;
pub mod bridge;
pub mod config;
pub mod errors;
pub mod guardrails;
pub mod hash;
pub mod lb;
pub mod quic_listener;
pub mod resilience;
pub mod routing;
pub mod runtime;
pub mod text;
pub mod text_num;
pub mod time;
