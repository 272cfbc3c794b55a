//! The parts of a backend's lifecycle state.
use vstd::prelude::*;

use crate::hash::SocketAddress;
use crate::runtime::backend::resolution::{
    copy_addrs, RuntimeBackendAddressKind, RuntimeBackendResolution,
};
use crate::time::TimeSpan;

verus! {

/// A backend, named by its configured address.
#[derive(Debug, Clone, PartialEq, Eq)]
pub struct BackendIdentity {
    pub backend_addr: String,
}

impl BackendIdentity {
    pub fn new(backend_addr: String) -> (r: Self)
        ensures
            r.backend_addr@ == backend_addr@,
    {
        BackendIdentity { backend_addr }
    }

    /// The identity of a resolved backend.
    pub fn from_resolution(resolution: &RuntimeBackendResolution) -> (r: Self)
        ensures
            r.backend_addr@ == resolution.backend_addr@,
    {
        BackendIdentity { backend_addr: resolution.backend_addr.clone() }
    }
}

/// The resolution part of a backend's state.
#[derive(Debug, Clone, PartialEq, Eq)]
pub struct BackendResolutionState {
    pub authority_host: String,
    pub authority_port: u16,
    pub address_kind: RuntimeBackendAddressKind,
    pub resolved_addrs: Vec<SocketAddress>,
    pub last_refresh_success_at: Option<TimeSpan>,
    pub refresh_generation: u64,
}

/// The resolution state carries what the resolution holds, but for the
/// backend's address.
pub open spec fn resolution_state_of(
    s: BackendResolutionState,
    r: RuntimeBackendResolution,
) -> bool {
    &&& s.authority_host@ == r.authority_host@
    &&& s.authority_port == r.authority_port
    &&& s.address_kind == r.address_kind
    &&& s.resolved_addrs@ == r.resolved_addrs@
    &&& s.last_refresh_success_at == r.last_refresh_success_at
    &&& s.refresh_generation == r.refresh_generation
}

/// Two resolution states that hold the same values.
pub open spec fn same_resolution_state(a: BackendResolutionState, b: BackendResolutionState) -> bool {
    &&& a.authority_host@ == b.authority_host@
    &&& a.authority_port == b.authority_port
    &&& a.address_kind == b.address_kind
    &&& a.resolved_addrs@ == b.resolved_addrs@
    &&& a.last_refresh_success_at == b.last_refresh_success_at
    &&& a.refresh_generation == b.refresh_generation
}

impl BackendResolutionState {
    pub fn from_resolution(resolution: &RuntimeBackendResolution) -> (s: Self)
        ensures
            resolution_state_of(s, *resolution),
    {
        BackendResolutionState {
            authority_host: resolution.authority_host.clone(),
            authority_port: resolution.authority_port,
            address_kind: resolution.address_kind,
            resolved_addrs: copy_addrs(&resolution.resolved_addrs),
            last_refresh_success_at: resolution.last_refresh_success_at,
            refresh_generation: resolution.refresh_generation,
        }
    }

    /// Whether the backend is resolved from a hostname.
    pub fn is_hostname(&self) -> (b: bool)
        ensures
            b == (self.address_kind == RuntimeBackendAddressKind::Hostname),
    {
        self.address_kind == RuntimeBackendAddressKind::Hostname
    }

    /// A copy of the state.
    pub fn duplicate(&self) -> (s: Self)
        ensures
            same_resolution_state(s, *self),
    {
        BackendResolutionState {
            authority_host: self.authority_host.clone(),
            authority_port: self.authority_port,
            address_kind: self.address_kind,
            resolved_addrs: copy_addrs(&self.resolved_addrs),
            last_refresh_success_at: self.last_refresh_success_at,
            refresh_generation: self.refresh_generation,
        }
    }
}

/// What is known of a backend's health.
#[derive(Debug, Clone, Copy, PartialEq, Eq, Structural)]
pub enum BackendHealthState {
    Unknown,
    Healthy,
    Unhealthy,
}

/// Whether a backend takes part in load balancing.
#[derive(Debug, Clone, Copy, PartialEq, Eq, Structural)]
pub enum BackendMembershipState {
    Active,
    Draining,
    Removed,
}

/// A published view of a backend's lifecycle state.
#[derive(Debug, Clone, PartialEq, Eq)]
pub struct BackendLifecycleSnapshot {
    pub identity: BackendIdentity,
    pub resolution: BackendResolutionState,
    pub health: BackendHealthState,
    pub membership: BackendMembershipState,
}

} // verus!
