//! The lifecycle of a backend: its identity, DNS resolution, health and
//! membership, and the events that change them.
pub mod event;
pub mod lifecycle;
pub mod resolution;
pub mod state;
pub mod update;
