//! Runtime state of the proxy: backend lifecycle, health classification,
//! connection bookkeeping and shared state.
pub mod backend;
pub mod connection;
pub mod health;
pub mod shared_state;
