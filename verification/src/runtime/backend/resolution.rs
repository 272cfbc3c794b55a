//! How a backend address is resolved to socket addresses.
use vstd::prelude::*;

use crate::hash::SocketAddress;
use crate::time::TimeSpan;

verus! {

/// Whether a backend names a host to resolve or a literal IP address.
#[derive(Debug, Clone, Copy, PartialEq, Eq, Structural)]
pub enum RuntimeBackendAddressKind {
    Hostname,
    IpLiteral,
}

/// The resolution of one backend: its configured address, the authority it
/// resolves, and the addresses last resolved. Times are spans since the
/// UNIX epoch.
#[derive(Debug, Clone, PartialEq, Eq)]
pub struct RuntimeBackendResolution {
    pub backend_addr: String,
    pub authority_host: String,
    pub authority_port: u16,
    pub address_kind: RuntimeBackendAddressKind,
    pub resolved_addrs: Vec<SocketAddress>,
    pub last_refresh_success_at: Option<TimeSpan>,
    pub refresh_generation: u64,
}

impl RuntimeBackendResolution {
    /// A hostname backend that has not been resolved yet.
    pub fn hostname(backend_addr: String, authority_host: String, authority_port: u16) -> (r: Self)
        ensures
            r.backend_addr@ == backend_addr@,
            r.authority_host@ == authority_host@,
            r.authority_port == authority_port,
            r.address_kind == RuntimeBackendAddressKind::Hostname,
            r.resolved_addrs@.len() == 0,
            r.last_refresh_success_at is None,
            r.refresh_generation == 0,
    {
        RuntimeBackendResolution {
            backend_addr,
            authority_host,
            authority_port,
            address_kind: RuntimeBackendAddressKind::Hostname,
            resolved_addrs: Vec::new(),
            last_refresh_success_at: None,
            refresh_generation: 0,
        }
    }
}

/// A copy of a list of socket addresses.
pub fn copy_addrs(addrs: &Vec<SocketAddress>) -> (r: Vec<SocketAddress>)
    ensures
        r@ == addrs@,
{
    let mut r: Vec<SocketAddress> = Vec::new();
    let mut i: usize = 0;
    while i < addrs.len()
        invariant
            0 <= i <= addrs.len(),
            r@ == addrs@.take(i as int),
        decreases addrs.len() - i,
    {
        r.push(addrs[i]);
        proof {
            assert(addrs@.take(i + 1) =~= addrs@.take(i as int).push(addrs@[i as int]));
        }
        i += 1;
    }
    proof {
        assert(addrs@.take(addrs.len() as int) =~= addrs@);
    }
    r
}

fn octets_equal(a: &[u8], b: &[u8]) -> (r: bool)
    ensures
        r == (a@ == b@),
{
    if a.len() != b.len() {
        return false;
    }
    let mut i: usize = 0;
    while i < a.len()
        invariant
            0 <= i <= a.len(),
            a.len() == b.len(),
            forall|j: int| 0 <= j < i ==> a@[j] == b@[j],
        decreases a.len() - i,
    {
        if a[i] != b[i] {
            return false;
        }
        i += 1;
    }
    proof {
        assert(a@ =~= b@);
    }
    true
}

/// Whether two socket addresses are the same address.
pub fn socket_addr_eq(a: &SocketAddress, b: &SocketAddress) -> (r: bool)
    ensures
        r == (*a == *b),
{
    match (a, b) {
        (SocketAddress::V4 { ip: ia, port: pa }, SocketAddress::V4 { ip: ib, port: pb }) => {
            let same = octets_equal(ia.as_slice(), ib.as_slice()) && *pa == *pb;
            proof {
                if ia@ == ib@ {
                    assert(ia == ib);
                }
            }
            same
        },
        (
            SocketAddress::V6 { ip: ia, port: pa, flowinfo: fa, scope_id: ca },
            SocketAddress::V6 { ip: ib, port: pb, flowinfo: fb, scope_id: cb },
        ) => {
            let same = octets_equal(ia.as_slice(), ib.as_slice()) && *pa == *pb && *fa == *fb
                && *ca == *cb;
            proof {
                if ia@ == ib@ {
                    assert(ia == ib);
                }
            }
            same
        },
        _ => false,
    }
}

/// Whether two lists hold the same addresses in the same order.
pub fn addrs_equal(a: &Vec<SocketAddress>, b: &Vec<SocketAddress>) -> (r: bool)
    ensures
        r == (a@ == b@),
{
    if a.len() != b.len() {
        return false;
    }
    let mut i: usize = 0;
    while i < a.len()
        invariant
            0 <= i <= a.len(),
            a.len() == b.len(),
            forall|j: int| 0 <= j < i ==> a@[j] == b@[j],
        decreases a.len() - i,
    {
        if !socket_addr_eq(&a[i], &b[i]) {
            return false;
        }
        i += 1;
    }
    proof {
        assert(a@ =~= b@);
    }
    true
}

} // verus!
