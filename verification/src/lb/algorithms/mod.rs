//! Stand-alone algorithm modules.
pub mod least_connections;
