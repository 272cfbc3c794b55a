//! A refresh of a hostname backend's resolution.
use vstd::prelude::*;

use crate::hash::SocketAddress;
use crate::runtime::backend::event::{refresh_result_of, BackendRefreshResult};
use crate::runtime::backend::resolution::{addrs_equal, copy_addrs, RuntimeBackendAddressKind};
use crate::runtime::backend::state::{BackendIdentity, BackendResolutionState};
use crate::time::TimeSpan;

verus! {

/// The addresses of a backend before and after a DNS refresh.
#[derive(Debug, Clone, PartialEq, Eq)]
pub struct RuntimeBackendResolutionUpdate {
    pub backend_addr: String,
    pub authority_host: String,
    pub authority_port: u16,
    pub address_kind: RuntimeBackendAddressKind,
    pub previous_addrs: Vec<SocketAddress>,
    pub current_addrs: Vec<SocketAddress>,
    pub last_refresh_success_at: Option<TimeSpan>,
    pub refresh_generation: u64,
}

impl RuntimeBackendResolutionUpdate {
    /// Whether the refresh changed the addresses or their order.
    pub fn changed(&self) -> (b: bool)
        ensures
            b == (self.previous_addrs@ != self.current_addrs@),
    {
        !addrs_equal(&self.previous_addrs, &self.current_addrs)
    }

    /// Whether the refresh left no address.
    pub fn cleared(&self) -> (b: bool)
        ensures
            b == (self.current_addrs@.len() == 0),
    {
        self.current_addrs.len() == 0
    }

    pub fn identity(&self) -> (i: BackendIdentity)
        ensures
            i.backend_addr@ == self.backend_addr@,
    {
        BackendIdentity::new(self.backend_addr.clone())
    }

    /// The resolution state after the refresh.
    pub fn resolution_state(&self) -> (s: BackendResolutionState)
        ensures
            s.authority_host@ == self.authority_host@,
            s.authority_port == self.authority_port,
            s.address_kind == self.address_kind,
            s.resolved_addrs@ == self.current_addrs@,
            s.last_refresh_success_at == self.last_refresh_success_at,
            s.refresh_generation == self.refresh_generation,
    {
        BackendResolutionState {
            authority_host: self.authority_host.clone(),
            authority_port: self.authority_port,
            address_kind: self.address_kind,
            resolved_addrs: copy_addrs(&self.current_addrs),
            last_refresh_success_at: self.last_refresh_success_at,
            refresh_generation: self.refresh_generation,
        }
    }

    pub fn refresh_result(&self) -> (r: BackendRefreshResult)
        ensures
            refresh_result_of(r, *self),
    {
        BackendRefreshResult::from(self)
    }
}

} // verus!
