//! Policies for CONNECT tunnels.
pub mod connect;
