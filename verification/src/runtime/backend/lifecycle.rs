//! The lifecycle state that the runtime keeps for each backend.
use vstd::prelude::*;

use crate::runtime::backend::resolution::RuntimeBackendResolution;
use crate::runtime::backend::state::{
    resolution_state_of, same_resolution_state, BackendHealthState, BackendIdentity,
    BackendLifecycleSnapshot, BackendMembershipState, BackendResolutionState,
};

verus! {

#[derive(Debug, Clone, PartialEq, Eq)]
pub struct RuntimeBackendLifecycleState {
    pub identity: BackendIdentity,
    pub resolution: BackendResolutionState,
    pub health: BackendHealthState,
    pub membership: BackendMembershipState,
}

impl RuntimeBackendLifecycleState {
    pub fn new(
        identity: BackendIdentity,
        resolution: BackendResolutionState,
        health: BackendHealthState,
        membership: BackendMembershipState,
    ) -> (s: Self)
        ensures
            s.identity == identity,
            s.resolution == resolution,
            s.health == health,
            s.membership == membership,
    {
        RuntimeBackendLifecycleState { identity, resolution, health, membership }
    }

    /// The state of a backend first seen through its resolution: its health
    /// is not known yet and it is an active member.
    pub fn from_resolution_seed(resolution: &RuntimeBackendResolution) -> (s: Self)
        ensures
            s.identity.backend_addr@ == resolution.backend_addr@,
            resolution_state_of(s.resolution, *resolution),
            s.health == BackendHealthState::Unknown,
            s.membership == BackendMembershipState::Active,
    {
        RuntimeBackendLifecycleState {
            identity: BackendIdentity::from_resolution(resolution),
            resolution: BackendResolutionState::from_resolution(resolution),
            health: BackendHealthState::Unknown,
            membership: BackendMembershipState::Active,
        }
    }

    /// A snapshot of the current state.
    pub fn snapshot(&self) -> (s: BackendLifecycleSnapshot)
        ensures
            snapshot_of(s, *self),
    {
        BackendLifecycleSnapshot {
            identity: BackendIdentity::new(self.identity.backend_addr.clone()),
            resolution: self.resolution.duplicate(),
            health: self.health,
            membership: self.membership,
        }
    }
}


/// A snapshot of `v`: the same identity, resolution, health and membership
/// (the resolution's address list the same as a sequence).
pub open spec fn snapshot_of(s: BackendLifecycleSnapshot, v: RuntimeBackendLifecycleState) -> bool {
    &&& s.identity.backend_addr@ == v.identity.backend_addr@
    &&& same_resolution_state(s.resolution, v.resolution)
    &&& s.health == v.health
    &&& s.membership == v.membership
}

/// Two snapshots of one state agree on every field: the conversion from a
/// state and `snapshot` give the same identity, resolution (address list
/// as a sequence), health and membership.
pub proof fn lemma_snapshots_agree(
    a: BackendLifecycleSnapshot,
    b: BackendLifecycleSnapshot,
    v: RuntimeBackendLifecycleState,
)
    requires
        snapshot_of(a, v),
        snapshot_of(b, v),
    ensures
        a.identity.backend_addr@ == b.identity.backend_addr@,
        same_resolution_state(a.resolution, b.resolution),
        a.health == b.health,
        a.membership == b.membership,
{
}

/// A lifecycle state seeded from `r`: its identity and resolution, health
/// not known yet, an active member.
pub open spec fn seeded_from(s: RuntimeBackendLifecycleState, r: RuntimeBackendResolution) -> bool {
    &&& s.identity.backend_addr@ == r.backend_addr@
    &&& resolution_state_of(s.resolution, r)
    &&& s.health == BackendHealthState::Unknown
    &&& s.membership == BackendMembershipState::Active
}

/// The conversion is `snapshot`. Its result is described by the `ensures`
/// of `from` rather than by `from_spec`: the copied address list equals the
/// original as a sequence, and nothing here makes two lists with equal
/// contents the same value, so no single value can be named in advance.
impl<'a> vstd::std_specs::convert::FromSpecImpl<&'a RuntimeBackendLifecycleState> for BackendLifecycleSnapshot {
    open spec fn obeys_from_spec() -> bool {
        false
    }

    open spec fn from_spec(v: &'a RuntimeBackendLifecycleState) -> BackendLifecycleSnapshot {
        BackendLifecycleSnapshot {
            identity: v.identity,
            resolution: v.resolution,
            health: v.health,
            membership: v.membership,
        }
    }
}

impl<'a> From<&'a RuntimeBackendLifecycleState> for BackendLifecycleSnapshot {
    fn from(value: &'a RuntimeBackendLifecycleState) -> (s: Self)
        ensures
            snapshot_of(s, *value),
    {
        value.snapshot()
    }
}

/// The conversion is `from_resolution_seed`; as above, its result is
/// described by the `ensures` of `from`.
impl<'a> vstd::std_specs::convert::FromSpecImpl<&'a RuntimeBackendResolution> for RuntimeBackendLifecycleState {
    open spec fn obeys_from_spec() -> bool {
        false
    }

    open spec fn from_spec(v: &'a RuntimeBackendResolution) -> RuntimeBackendLifecycleState {
        RuntimeBackendLifecycleState {
            identity: BackendIdentity { backend_addr: v.backend_addr },
            resolution: BackendResolutionState {
                authority_host: v.authority_host,
                authority_port: v.authority_port,
                address_kind: v.address_kind,
                resolved_addrs: v.resolved_addrs,
                last_refresh_success_at: v.last_refresh_success_at,
                refresh_generation: v.refresh_generation,
            },
            health: BackendHealthState::Unknown,
            membership: BackendMembershipState::Active,
        }
    }
}

impl<'a> From<&'a RuntimeBackendResolution> for RuntimeBackendLifecycleState {
    fn from(value: &'a RuntimeBackendResolution) -> (s: Self)
        ensures
            seeded_from(s, *value),
    {
        RuntimeBackendLifecycleState::from_resolution_seed(value)
    }
}

} // verus!
