//! Events that change a backend's lifecycle state.
use vstd::prelude::*;

use crate::hash::SocketAddress;
use crate::lb::health::HealthFailureReason;
use crate::runtime::backend::resolution::{addrs_equal, copy_addrs};
use crate::runtime::backend::state::{
    BackendHealthState, BackendIdentity, BackendLifecycleSnapshot, BackendMembershipState,
    BackendResolutionState,
};
use crate::runtime::backend::update::RuntimeBackendResolutionUpdate;
use crate::time::TimeSpan;

verus! {

#[derive(Debug, Clone, PartialEq, Eq)]
pub enum BackendLifecycleEvent {
    Refresh(BackendRefreshResult),
    HealthObservation(BackendHealthObservation),
    RequestFeedback(BackendRequestFeedback),
    Mutation(BackendLifecycleMutation),
}

#[derive(Debug, Clone, PartialEq, Eq)]
pub enum BackendLifecycleMutation {
    ResolutionUpdated {
        identity: BackendIdentity,
        state: BackendResolutionState,
        result: BackendRefreshResult,
    },
    HealthUpdated { identity: BackendIdentity, state: BackendHealthState },
    MembershipUpdated { identity: BackendIdentity, state: BackendMembershipState },
    SnapshotPublished(BackendLifecycleSnapshot),
    Noop { identity: BackendIdentity, reason: &'static str },
}

/// The result of refreshing a backend's resolution.
#[derive(Debug, Clone, PartialEq, Eq)]
pub struct BackendRefreshResult {
    pub identity: BackendIdentity,
    pub outcome: BackendRefreshOutcome,
}

#[derive(Debug, Clone, PartialEq, Eq)]
pub enum BackendRefreshOutcome {
    Updated {
        previous_addrs: Vec<SocketAddress>,
        current_addrs: Vec<SocketAddress>,
        refreshed_at: Option<TimeSpan>,
        refresh_generation: u64,
    },
    Unchanged {
        current_addrs: Vec<SocketAddress>,
        refreshed_at: Option<TimeSpan>,
        refresh_generation: u64,
    },
    EmptyAnswerRetained { retained_addrs: Vec<SocketAddress> },
    LookupFailed { retained_addrs: Vec<SocketAddress>, error: String },
}

/// The refresh result of an update: `Updated` when the addresses changed,
/// `Unchanged` otherwise, with the update's addresses, time and generation.
pub open spec fn refresh_result_of(r: BackendRefreshResult, u: RuntimeBackendResolutionUpdate) -> bool {
    &&& r.identity.backend_addr@ == u.backend_addr@
    &&& if u.previous_addrs@ != u.current_addrs@ {
        r.outcome matches BackendRefreshOutcome::Updated {
            previous_addrs,
            current_addrs,
            refreshed_at,
            refresh_generation,
        } && previous_addrs@ == u.previous_addrs@ && current_addrs@ == u.current_addrs@
            && refreshed_at == u.last_refresh_success_at && refresh_generation
            == u.refresh_generation
    } else {
        r.outcome matches BackendRefreshOutcome::Unchanged {
            current_addrs,
            refreshed_at,
            refresh_generation,
        } && current_addrs@ == u.current_addrs@ && refreshed_at == u.last_refresh_success_at
            && refresh_generation == u.refresh_generation
    }
}

impl BackendRefreshResult {
    /// The refresh result that an update reports.
    pub fn from(value: &RuntimeBackendResolutionUpdate) -> (r: Self)
        ensures
            refresh_result_of(r, *value),
    {
        let outcome = if !addrs_equal(&value.previous_addrs, &value.current_addrs) {
            BackendRefreshOutcome::Updated {
                previous_addrs: copy_addrs(&value.previous_addrs),
                current_addrs: copy_addrs(&value.current_addrs),
                refreshed_at: value.last_refresh_success_at,
                refresh_generation: value.refresh_generation,
            }
        } else {
            BackendRefreshOutcome::Unchanged {
                current_addrs: copy_addrs(&value.current_addrs),
                refreshed_at: value.last_refresh_success_at,
                refresh_generation: value.refresh_generation,
            }
        };
        BackendRefreshResult {
            identity: BackendIdentity::new(value.backend_addr.clone()),
            outcome,
        }
    }
}

#[derive(Debug, Clone, PartialEq, Eq)]
pub struct BackendHealthObservation {
    pub identity: BackendIdentity,
    pub source: BackendHealthObservationSource,
    pub outcome: BackendHealthObservationOutcome,
    pub reason: Option<HealthFailureReason>,
}

#[derive(Debug, Clone, Copy, PartialEq, Eq, Structural)]
pub enum BackendHealthObservationSource {
    ActiveCheck,
    PassiveRequest,
    RequestCompletion,
    ControlPlane,
}

#[derive(Debug, Clone, Copy, PartialEq, Eq, Structural)]
pub enum BackendHealthObservationOutcome {
    Success,
    Failure,
    Neutral,
}

/// What a finished request tells of its backend; `elapsed` is the request's
/// duration and `status` the response status, if there was one.
#[derive(Debug, Clone, PartialEq, Eq)]
pub struct BackendRequestFeedback {
    pub identity: BackendIdentity,
    pub elapsed: TimeSpan,
    pub status: Option<u16>,
    pub outcome: BackendRequestFeedbackOutcome,
}

#[derive(Debug, Clone, PartialEq, Eq)]
pub enum BackendRequestFeedbackOutcome {
    Success,
    Neutral,
    Failure { reason: Option<HealthFailureReason> },
}

} // verus!
