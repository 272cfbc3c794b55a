//! Per-connection and per-stream state.
pub mod auth;
pub mod response;
pub mod stream;
