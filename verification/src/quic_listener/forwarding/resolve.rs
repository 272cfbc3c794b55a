//! How a failure to resolve a request's route or backend is classified
//! and answered.
use vstd::prelude::*;

use crate::errors::proxy::ProxyError;
use crate::lb::pool::BackendPool;
use crate::routing::decision::{RouteDecision, RouteDecisionReason};
use crate::text::{chars_of, eq_str, starts_with_str};

verus! {

/// What a request needs to be routed and balanced; `header_lookup` holds
/// the request's headers when they can be looked up.
pub struct RouteResolutionRequest<'a> {
    pub method: &'a str,
    pub path: &'a str,
    pub authority: Option<&'a str>,
    pub cid_key: Option<&'a str>,
    pub header_lookup: Option<&'a Vec<(String, String)>>,
}

impl<'a> RouteResolutionRequest<'a> {
    pub fn new(
        method: &'a str,
        path: &'a str,
        authority: Option<&'a str>,
        cid_key: Option<&'a str>,
        header_lookup: Option<&'a Vec<(String, String)>>,
    ) -> (r: Self)
        ensures
            r.method == method,
            r.path == path,
            r.authority == authority,
            r.cid_key == cid_key,
            r.header_lookup == header_lookup,
    {
        RouteResolutionRequest { method, path, authority, cid_key, header_lookup }
    }
}

/// Why a route or backend could not be resolved.
#[derive(Clone, Copy, Debug, Eq, PartialEq, Structural)]
pub enum RouteResolutionFailureKind {
    NoRoute,
    MissingPool,
    PoolLockPoisoned,
    NoServers,
    NoHealthyServers,
    InvalidServerAddress,
    OtherTransport,
    Other,
}

/// The kind of a transport failure, by its message.
pub open spec fn spec_classify_transport_reason(reason: Seq<char>) -> RouteResolutionFailureKind {
    if "no route for "@.len() <= reason.len() && reason.take("no route for "@.len() as int)
        == "no route for "@ {
        RouteResolutionFailureKind::NoRoute
    } else if "pool not found:"@.len() <= reason.len() && reason.take(
        "pool not found:"@.len() as int,
    ) == "pool not found:"@ {
        RouteResolutionFailureKind::MissingPool
    } else if reason == "upstream pool lock poisoned"@ {
        RouteResolutionFailureKind::PoolLockPoisoned
    } else if reason == "no servers in upstream"@ {
        RouteResolutionFailureKind::NoServers
    } else if reason == "no healthy servers"@ {
        RouteResolutionFailureKind::NoHealthyServers
    } else if reason == "invalid server address"@ {
        RouteResolutionFailureKind::InvalidServerAddress
    } else {
        RouteResolutionFailureKind::OtherTransport
    }
}

pub fn classify_route_resolution_transport_reason(reason: &str) -> (k: RouteResolutionFailureKind)
    ensures
        k == spec_classify_transport_reason(reason@),
{
    let r = chars_of(reason);
    let rs = r.as_slice();
    if starts_with_str(rs, "no route for ") {
        return RouteResolutionFailureKind::NoRoute;
    }
    if starts_with_str(rs, "pool not found:") {
        return RouteResolutionFailureKind::MissingPool;
    }
    if eq_str(rs, "upstream pool lock poisoned") {
        return RouteResolutionFailureKind::PoolLockPoisoned;
    }
    if eq_str(rs, "no servers in upstream") {
        return RouteResolutionFailureKind::NoServers;
    }
    if eq_str(rs, "no healthy servers") {
        return RouteResolutionFailureKind::NoHealthyServers;
    }
    if eq_str(rs, "invalid server address") {
        return RouteResolutionFailureKind::InvalidServerAddress;
    }
    RouteResolutionFailureKind::OtherTransport
}

/// Transport failures are classified by message; any other failure is
/// `Other`.
pub open spec fn spec_classify_failure(err: ProxyError) -> RouteResolutionFailureKind {
    match err {
        ProxyError::Transport(reason) => spec_classify_transport_reason(reason@),
        _ => RouteResolutionFailureKind::Other,
    }
}

pub fn classify_route_resolution_failure(err: &ProxyError) -> (k: RouteResolutionFailureKind)
    ensures
        k == spec_classify_failure(*err),
{
    match err {
        ProxyError::Transport(reason) => classify_route_resolution_transport_reason(reason.as_str()),
        _ => RouteResolutionFailureKind::Other,
    }
}

/// The status and body that answer a request whose route or backend could
/// not be resolved: 502 when no route or pool could be used, 503 when the
/// upstream has no usable backend.
pub open spec fn spec_route_resolution_error_response(kind: RouteResolutionFailureKind) -> (u16, Seq<char>) {
    match kind {
        RouteResolutionFailureKind::NoRoute => (502, "no route\n"@),
        RouteResolutionFailureKind::MissingPool => (502, "no pool\n"@),
        RouteResolutionFailureKind::PoolLockPoisoned => (502, "pool error\n"@),
        RouteResolutionFailureKind::NoServers => (503, "no backends\n"@),
        RouteResolutionFailureKind::InvalidServerAddress => (503, "no backends\n"@),
        RouteResolutionFailureKind::NoHealthyServers => (503, "no healthy backends\n"@),
        RouteResolutionFailureKind::OtherTransport => (502, "route/backend resolution failed\n"@),
        RouteResolutionFailureKind::Other => (502, "route/backend resolution failed\n"@),
    }
}

pub fn bootstrap_route_resolution_error_response(err: &ProxyError) -> (r: (u16, &'static str))
    ensures
        r.0 == spec_route_resolution_error_response(spec_classify_failure(*err)).0,
        r.1@ == spec_route_resolution_error_response(spec_classify_failure(*err)).1,
{
    match classify_route_resolution_failure(err) {
        RouteResolutionFailureKind::NoRoute => (502, "no route\n"),
        RouteResolutionFailureKind::MissingPool => (502, "no pool\n"),
        RouteResolutionFailureKind::PoolLockPoisoned => (502, "pool error\n"),
        RouteResolutionFailureKind::NoServers => (503, "no backends\n"),
        RouteResolutionFailureKind::InvalidServerAddress => (503, "no backends\n"),
        RouteResolutionFailureKind::NoHealthyServers => (503, "no healthy backends\n"),
        RouteResolutionFailureKind::OtherTransport => (502, "route/backend resolution failed\n"),
        RouteResolutionFailureKind::Other => (502, "route/backend resolution failed\n"),
    }
}

/// The failure of a request with an empty method or path.
pub fn empty_method_or_path_error() -> (e: ProxyError)
    ensures
        e matches ProxyError::Transport(m) && m@ == "empty method or path"@,
{
    ProxyError::Transport("empty method or path".to_owned())
}

/// The failure of a request that no route matches.
pub fn no_route_error(path: &str) -> (e: ProxyError)
    ensures
        e matches ProxyError::Transport(m) && m@ == "no route for "@ + path@,
{
    let mut m = "no route for ".to_owned();
    m.append(path);
    ProxyError::Transport(m)
}

/// The failure of a route whose upstream has no pool.
pub fn pool_not_found_error(upstream_name: &str) -> (e: ProxyError)
    ensures
        e matches ProxyError::Transport(m) && m@ == "pool not found: "@ + upstream_name@,
{
    let mut m = "pool not found: ".to_owned();
    m.append(upstream_name);
    ProxyError::Transport(m)
}

pub fn pool_lock_poisoned_error() -> (e: ProxyError)
    ensures
        e matches ProxyError::Transport(m) && m@ == "upstream pool lock poisoned"@,
{
    ProxyError::Transport("upstream pool lock poisoned".to_owned())
}

pub fn no_servers_in_upstream_error() -> (e: ProxyError)
    ensures
        e matches ProxyError::Transport(m) && m@ == "no servers in upstream"@,
{
    ProxyError::Transport("no servers in upstream".to_owned())
}

pub fn no_healthy_servers_error() -> (e: ProxyError)
    ensures
        e matches ProxyError::Transport(m) && m@ == "no healthy servers"@,
{
    ProxyError::Transport("no healthy servers".to_owned())
}

pub fn invalid_server_address_error() -> (e: ProxyError)
    ensures
        e matches ProxyError::Transport(m) && m@ == "invalid server address"@,
{
    ProxyError::Transport("invalid server address".to_owned())
}

proof fn lemma_not_prefix(s: Seq<char>, pre: Seq<char>, i: int)
    requires
        0 <= i < pre.len(),
        i < s.len(),
        s[i] != pre[i],
    ensures
        !(pre.len() <= s.len() && s.take(pre.len() as int) == pre),
{
    if pre.len() <= s.len() && s.take(pre.len() as int) == pre {
        assert(s.take(pre.len() as int)[i] == s[i]);
    }
}

/// Each failure that route and backend resolution raises is classified as
/// the kind it stands for, whatever path or upstream it names.
pub proof fn lemma_resolution_errors_classified(path: Seq<char>, upstream_name: Seq<char>)
    ensures
        spec_classify_transport_reason("no route for "@ + path) == RouteResolutionFailureKind::NoRoute,
        spec_classify_transport_reason("pool not found: "@ + upstream_name)
            == RouteResolutionFailureKind::MissingPool,
        spec_classify_transport_reason("upstream pool lock poisoned"@)
            == RouteResolutionFailureKind::PoolLockPoisoned,
        spec_classify_transport_reason("no servers in upstream"@)
            == RouteResolutionFailureKind::NoServers,
        spec_classify_transport_reason("no healthy servers"@)
            == RouteResolutionFailureKind::NoHealthyServers,
        spec_classify_transport_reason("invalid server address"@)
            == RouteResolutionFailureKind::InvalidServerAddress,
        spec_classify_transport_reason("empty method or path"@)
            == RouteResolutionFailureKind::OtherTransport,
{
    reveal_strlit("no route for ");
    reveal_strlit("pool not found:");
    reveal_strlit("pool not found: ");
    reveal_strlit("upstream pool lock poisoned");
    reveal_strlit("no servers in upstream");
    reveal_strlit("no healthy servers");
    reveal_strlit("invalid server address");
    reveal_strlit("empty method or path");
    assert(("no route for "@ + path).take("no route for "@.len() as int) =~= "no route for "@);
    let p = "pool not found: "@ + upstream_name;
    assert(p.take("pool not found:"@.len() as int) =~= "pool not found:"@);
    lemma_not_prefix("upstream pool lock poisoned"@, "no route for "@, 0);
    lemma_not_prefix("upstream pool lock poisoned"@, "pool not found:"@, 0);
    lemma_not_prefix("no servers in upstream"@, "no route for "@, 3);
    lemma_not_prefix("no servers in upstream"@, "pool not found:"@, 0);
    lemma_not_prefix("no healthy servers"@, "no route for "@, 3);
    lemma_not_prefix("no healthy servers"@, "pool not found:"@, 0);
    lemma_not_prefix("invalid server address"@, "no route for "@, 0);
    lemma_not_prefix("invalid server address"@, "pool not found:"@, 0);
    lemma_not_prefix("empty method or path"@, "no route for "@, 0);
    lemma_not_prefix("empty method or path"@, "pool not found:"@, 0);
    assert("no healthy servers"@[0] != "upstream pool lock poisoned"@[0]);
    assert("no healthy servers"@[3] != "no servers in upstream"@[3]);
    assert("invalid server address"@[0] != "upstream pool lock poisoned"@[0]);
    assert("invalid server address"@[0] != "no servers in upstream"@[0]);
    assert("invalid server address"@[0] != "no healthy servers"@[0]);
    assert("empty method or path"@[0] != "upstream pool lock poisoned"@[0]);
    assert("empty method or path"@[0] != "no servers in upstream"@[0]);
    assert("empty method or path"@[0] != "no healthy servers"@[0]);
    assert("empty method or path"@[0] != "invalid server address"@[0]);
    assert("no servers in upstream"@[0] != "upstream pool lock poisoned"@[0]);
    assert(!("no route for "@.len() <= p.len() && p.take("no route for "@.len() as int)
        == "no route for "@)) by {
        assert(p[0] != "no route for "@[0]);
        if "no route for "@.len() <= p.len() {
            assert(p.take("no route for "@.len() as int)[0] == p[0]);
        }
    }
}

/// The route resolved for a request: the upstream it goes to and how the
/// route matched.
#[derive(Debug, Clone, PartialEq, Eq)]
pub struct ResolvedRoute {
    pub upstream_name: String,
    pub route_path_len: usize,
    pub route_host_specific: bool,
    pub route_reason: RouteDecisionReason,
}

/// The backend chosen for a request: its address, its index in the pool
/// and the balancing strategy that chose it.
#[derive(Debug, Clone, PartialEq, Eq)]
pub struct SelectedBackend {
    pub backend_addr: String,
    pub backend_index: usize,
    pub backend_lb: String,
}

/// `r` is a transport failure with message `m`.
pub open spec fn transport_failure<T>(r: Result<T, ProxyError>, m: Seq<char>) -> bool {
    r matches Err(ProxyError::Transport(e)) && e@ == m
}

/// Some upstream among `names` is called `upstream`.
pub open spec fn names_upstream(names: Seq<String>, upstream: Seq<char>) -> bool {
    exists|i: int| 0 <= i < names.len() && (#[trigger] names[i])@ == upstream
}

fn has_upstream(names: &Vec<String>, upstream: &str) -> (b: bool)
    ensures
        b == names_upstream(names@, upstream@),
{
    let u = chars_of(upstream);
    let mut i: usize = 0;
    while i < names.len()
        invariant
            0 <= i <= names.len(),
            u@ == upstream@,
            forall|j: int| 0 <= j < i ==> (#[trigger] names@[j])@ != upstream@,
        decreases names.len() - i,
    {
        if eq_str(u.as_slice(), names[i].as_str()) {
            return true;
        }
        i += 1;
    }
    false
}

/// Resolves a request's route from the route lookup's decision for it and
/// the names of the upstreams that have a pool. A request with an empty
/// method or path is refused first, then one that no route matches, then a
/// route whose upstream has no pool; otherwise the route goes to the
/// decided upstream.
pub fn resolve_route_target(
    request: &RouteResolutionRequest,
    decision: Option<RouteDecision>,
    pool_names: &Vec<String>,
) -> (r: Result<ResolvedRoute, ProxyError>)
    ensures
        request.method@.len() == 0 || request.path@.len() == 0 ==> transport_failure(
            r,
            "empty method or path"@,
        ),
        request.method@.len() > 0 && request.path@.len() > 0 && decision is None ==> transport_failure(
            r,
            "no route for "@ + request.path@,
        ),
        request.method@.len() > 0 && request.path@.len() > 0 && decision is Some ==> {
            let d = decision.unwrap();
            if !names_upstream(pool_names@, d.upstream@) {
                transport_failure(r, "pool not found: "@ + d.upstream@)
            } else {
                &&& r is Ok
                &&& r.unwrap().upstream_name@ == d.upstream@
                &&& r.unwrap().route_path_len == d.matched_path_len
                &&& r.unwrap().route_host_specific == d.host_specific
                &&& r.unwrap().route_reason == d.reason
            }
        },
{
    if request.method.unicode_len() == 0 || request.path.unicode_len() == 0 {
        return Err(empty_method_or_path_error());
    }
    match decision {
        None => Err(no_route_error(request.path)),
        Some(d) => {
            if !has_upstream(pool_names, d.upstream) {
                return Err(pool_not_found_error(d.upstream));
            }
            Ok(
                ResolvedRoute {
                    upstream_name: d.upstream.to_owned(),
                    route_path_len: d.matched_path_len,
                    route_host_specific: d.host_specific,
                    route_reason: d.reason,
                },
            )
        },
    }
}

/// The checks made each time the upstream pool is locked: a poisoned lock
/// fails, then a pool without servers.
pub fn check_locked_pool(lock_poisoned: bool, pool: &BackendPool) -> (r: Result<(), ProxyError>)
    ensures
        lock_poisoned ==> transport_failure(r, "upstream pool lock poisoned"@),
        !lock_poisoned && pool@.backends.len() == 0 ==> transport_failure(
            r,
            "no servers in upstream"@,
        ),
        !lock_poisoned && pool@.backends.len() > 0 ==> r is Ok,
{
    if lock_poisoned {
        return Err(pool_lock_poisoned_error());
    }
    if pool.is_empty() {
        return Err(no_servers_in_upstream_error());
    }
    Ok(())
}

/// The backend a pick names, with its address, when the pool has it.
pub open spec fn selected_from(pool: crate::lb::pool::BackendPoolView, idx: usize, lb_type: Seq<char>, b: SelectedBackend) -> bool {
    &&& idx < pool.backends.len()
    &&& b.backend_index == idx
    &&& b.backend_addr@ == pool.backends[idx as int].address@
    &&& b.backend_lb@ == lb_type
}

/// The selection under the read lock, which may only fall through to the
/// write lock: nothing while readmission of failed backends is due, when
/// the balancer picked nothing or an index the pool lacks, or when a
/// request was to begin and the backend refused it (`admitted` is what
/// beginning the request on the backend answered).
pub fn select_backend_readonly(
    pool: &BackendPool,
    readmit_due: bool,
    picked: Option<usize>,
    begin_request: bool,
    admitted: bool,
    lb_type: &str,
) -> (r: Option<SelectedBackend>)
    ensures
        r is Some <==> (!readmit_due && picked is Some && picked.unwrap() < pool@.backends.len() && (
        !begin_request || admitted)),
        r matches Some(b) ==> selected_from(pool@, picked.unwrap(), lb_type@, b),
{
    if readmit_due {
        return None;
    }
    let idx = match picked {
        Some(i) => i,
        None => {
            return None;
        },
    };
    let addr = match pool.address(idx) {
        Some(a) => a,
        None => {
            return None;
        },
    };
    if begin_request && !admitted {
        return None;
    }
    Some(
        SelectedBackend {
            backend_addr: addr.to_owned(),
            backend_index: idx,
            backend_lb: lb_type.to_owned(),
        },
    )
}

/// The selection under the write lock: no pick means no healthy backend,
/// an index the pool lacks is an invalid address, otherwise the picked
/// backend.
pub fn select_backend_with_write_lock(
    pool: &BackendPool,
    picked: Option<usize>,
    lb_type: &str,
) -> (r: Result<SelectedBackend, ProxyError>)
    ensures
        picked is None ==> transport_failure(r, "no healthy servers"@),
        picked is Some && picked.unwrap() >= pool@.backends.len() ==> transport_failure(
            r,
            "invalid server address"@,
        ),
        picked is Some && picked.unwrap() < pool@.backends.len() ==> r is Ok && selected_from(
            pool@,
            picked.unwrap(),
            lb_type@,
            r.unwrap(),
        ),
{
    let idx = match picked {
        Some(i) => i,
        None => {
            return Err(no_healthy_servers_error());
        },
    };
    match pool.address(idx) {
        Some(a) => Ok(
            SelectedBackend {
                backend_addr: a.to_owned(),
                backend_index: idx,
                backend_lb: lb_type.to_owned(),
            },
        ),
        None => Err(invalid_server_address_error()),
    }
}

} // verus!
