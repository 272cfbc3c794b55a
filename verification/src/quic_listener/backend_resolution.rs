//! Decisions of the periodic DNS refresh of hostname backends.
use vstd::prelude::*;

use crate::hash::SocketAddress;

verus! {

/// An address with another port, as `SocketAddr::new(addr.ip(), port)`
/// builds it (an IPv6 address loses its flow label and scope id).
pub open spec fn set_port(addr: SocketAddress, port: u16) -> SocketAddress {
    match addr {
        SocketAddress::V4 { ip, .. } => SocketAddress::V4 { ip, port },
        SocketAddress::V6 { ip, .. } => SocketAddress::V6 { ip, port, flowinfo: 0, scope_id: 0 },
    }
}

pub fn with_port(addrs: &Vec<SocketAddress>, port: u16) -> (r: Vec<SocketAddress>)
    ensures
        r@ == addrs@.map_values(|a: SocketAddress| set_port(a, port)),
{
    let mut r: Vec<SocketAddress> = Vec::new();
    let mut i: usize = 0;
    while i < addrs.len()
        invariant
            0 <= i <= addrs.len(),
            r@ == addrs@.take(i as int).map_values(|a: SocketAddress| set_port(a, port)),
        decreases addrs.len() - i,
    {
        let moved = match addrs[i] {
            SocketAddress::V4 { ip, .. } => SocketAddress::V4 { ip, port },
            SocketAddress::V6 { ip, .. } => SocketAddress::V6 { ip, port, flowinfo: 0, scope_id: 0 },
        };
        r.push(moved);
        proof {
            assert(addrs@.take(i + 1).map_values(|a: SocketAddress| set_port(a, port)) =~= addrs@.take(
                i as int,
            ).map_values(|a: SocketAddress| set_port(a, port)).push(set_port(addrs@[i as int], port)));
        }
        i += 1;
    }
    proof {
        assert(addrs@.take(addrs.len() as int) =~= addrs@);
    }
    r
}

/// What one refresh of one backend does.
#[derive(Debug, Clone, PartialEq, Eq)]
pub enum DnsRefreshStep {
    /// The lookup failed: the last known addresses are kept.
    KeepAfterLookupFailure,
    /// The lookup found nothing: the last known addresses are kept.
    KeepAfterEmptyAnswer,
    /// Record these backend addresses (with the backend's port), and give
    /// the resolver these addresses (without a port).
    Apply { backend_addrs: Vec<SocketAddress>, resolver_addrs: Vec<SocketAddress> },
}

/// `answer` is what the lookup returned, absent when it failed.
pub fn plan_dns_refresh(answer: Option<&Vec<SocketAddress>>, authority_port: u16) -> (step: DnsRefreshStep)
    ensures
        match answer {
            None => step == DnsRefreshStep::KeepAfterLookupFailure,
            Some(a) => if a@.len() == 0 {
                step == DnsRefreshStep::KeepAfterEmptyAnswer
            } else {
                step matches DnsRefreshStep::Apply { backend_addrs, resolver_addrs } && backend_addrs@
                    == a@.map_values(|x: SocketAddress| set_port(x, authority_port))
                    && resolver_addrs@ == a@.map_values(|x: SocketAddress| set_port(x, 0))
            },
        },
{
    match answer {
        None => DnsRefreshStep::KeepAfterLookupFailure,
        Some(a) => {
            if a.len() == 0 {
                DnsRefreshStep::KeepAfterEmptyAnswer
            } else {
                DnsRefreshStep::Apply {
                    backend_addrs: with_port(a, authority_port),
                    resolver_addrs: with_port(a, 0),
                }
            }
        },
    }
}

/// The refresh runs only when it is enabled and some backend is named by
/// a hostname.
pub fn dns_refresh_should_run(enabled: bool, hostname_backends: usize) -> (b: bool)
    ensures
        b == (enabled && hostname_backends > 0),
{
    enabled && hostname_backends > 0
}

/// The refresh period in milliseconds: at least 1.
pub fn dns_refresh_interval_ms(configured_ms: u64) -> (ms: u64)
    ensures
        ms == (if configured_ms == 0 {
            1
        } else {
            configured_ms
        }),
{
    if configured_ms == 0 {
        1
    } else {
        configured_ms
    }
}

} // verus!
