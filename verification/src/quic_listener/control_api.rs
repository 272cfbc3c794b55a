//! The control API: which request is which action, who is authorized,
//! what each answer is, and whether a configuration reload can be applied
//! to the running process.
use vstd::prelude::*;
use vstd::string::StringSliceAdditionalSpecFns;

use crate::text::{
    chars_of, eq_ignore_case, eq_ignore_case_str, eq_str, first_ws, first_ws_index, is_first_ws_at,
    is_ws, leading_ws, lower, lower_seq, opt_string, slice, string_of, trailing_ws, trim,
    trim_bounds, trim_start, trimmed,
};
use crate::config::validate::strings_view;
use crate::errors::proxy::ProxyError;
use crate::text_num::{decimal, push_decimal};

verus! {

/// The control API settings that request handling reads.
#[derive(Debug, Clone, PartialEq, Eq)]
pub struct ControlApiEndpoint {
    pub enabled: bool,
    pub required: bool,
    pub address: String,
    pub port: u16,
    pub health_path: String,
    pub ready_path: String,
    pub runtime_path: String,
    pub restart_path: String,
    pub reload_path: String,
    pub reload_certs_path: String,
    pub auth_token: Option<String>,
    pub max_connections: usize,
    pub connection_timeout_ms: u64,
}

/// The paths that the control API answers on.
#[derive(Debug, Clone, PartialEq, Eq)]
pub struct ControlApiPaths {
    pub health_path: String,
    pub ready_path: String,
    pub runtime_path: String,
    pub restart_path: String,
    pub reload_path: String,
    pub reload_certs_path: String,
}

impl ControlApiPaths {
    pub fn from_endpoint(endpoint: &ControlApiEndpoint) -> (p: Self)
        ensures
            p.health_path@ == endpoint.health_path@,
            p.ready_path@ == endpoint.ready_path@,
            p.runtime_path@ == endpoint.runtime_path@,
            p.restart_path@ == endpoint.restart_path@,
            p.reload_path@ == endpoint.reload_path@,
            p.reload_certs_path@ == endpoint.reload_certs_path@,
    {
        ControlApiPaths {
            health_path: endpoint.health_path.clone(),
            ready_path: endpoint.ready_path.clone(),
            runtime_path: endpoint.runtime_path.clone(),
            restart_path: endpoint.restart_path.clone(),
            reload_path: endpoint.reload_path.clone(),
            reload_certs_path: endpoint.reload_certs_path.clone(),
        }
    }
}

/// The token of a `Bearer` authorization: after trimming, the scheme runs
/// up to the first whitespace and must be `bearer` in any ASCII case; the
/// token is the rest with leading whitespace removed, and must not be
/// empty.
pub open spec fn spec_bearer_token(raw: Seq<char>) -> Option<Seq<char>> {
    let r = trim(raw);
    match first_ws(r) {
        None => None,
        Some(split) => {
            let token = trim_start(r.skip(split));
            if eq_ignore_case(r.take(split), "bearer"@) && token.len() > 0 {
                Some(token)
            } else {
                None
            }
        },
    }
}

pub fn bearer_token_from_authorization_header(raw: &str) -> (r: Option<String>)
    ensures
        opt_string(r) == spec_bearer_token(raw@),
{
    let c = chars_of(raw);
    let t = trimmed(c.as_slice());
    let split = match first_ws_index(t.as_slice()) {
        Some(s) => s,
        None => {
            return None;
        },
    };
    let scheme = slice(t.as_slice(), 0, split);
    let rest = slice(t.as_slice(), split, t.len());
    proof {
        assert(scheme@ =~= t@.take(split as int));
        assert(rest@ =~= t@.skip(split as int));
    }
    if !eq_ignore_case_str(scheme.as_slice(), "bearer") {
        return None;
    }
    let (a, _b) = trim_bounds(rest.as_slice());
    let token = slice(rest.as_slice(), a, rest.len());
    proof {
        assert(token@ =~= rest@.skip(a as int));
    }
    if token.len() == 0 {
        return None;
    }
    Some(string_of(token.as_slice()))
}

/// Whether two byte strings are equal, compared in time that does not
/// depend on their contents (`subtle::ConstantTimeEq::ct_eq` on slices,
/// which yields 1 exactly when the lengths and all bytes are equal).
#[verifier::external_body]
fn bytes_equal_in_constant_time(a: &[u8], b: &[u8]) -> (r: bool)
    ensures
        r == (a@ == b@),
{
    bool::from(subtle::ConstantTimeEq::ct_eq(a, b))
}

pub open spec fn opt_str(o: Option<&str>) -> Option<Seq<char>> {
    match o {
        Some(s) => Some(s@),
        None => None,
    }
}

/// A request is authorized when a token is configured and the request's
/// `Authorization` value carries exactly that token as a bearer token.
pub open spec fn spec_control_api_is_authorized(
    auth_token: Option<Seq<char>>,
    authorization: Option<Seq<char>>,
) -> bool {
    match (auth_token, authorization) {
        (Some(token), Some(header)) => spec_bearer_token(header) == Some(token),
        _ => false,
    }
}

/// `authorization` is the request's `Authorization` header as text, absent
/// when the request has none or its value is not visible ASCII.
pub fn control_api_is_authorized(auth_token: Option<&str>, authorization: Option<&str>) -> (r: bool)
    ensures
        r == spec_control_api_is_authorized(opt_str(auth_token), opt_str(authorization)),
{
    let token = match auth_token {
        Some(t) => t,
        None => {
            return false;
        },
    };
    let header = match authorization {
        Some(h) => h,
        None => {
            return false;
        },
    };
    let provided = match bearer_token_from_authorization_header(header) {
        Some(p) => p,
        None => {
            return false;
        },
    };
    let same = bytes_equal_in_constant_time(provided.as_str().as_bytes(), token.as_bytes());
    proof {
        vstd::utf8::encode_utf8_decode_utf8(provided@);
        vstd::utf8::encode_utf8_decode_utf8(token@);
    }
    same
}

/// The method of a control API request, as far as routing tells apart.
#[derive(Debug, Clone, Copy, PartialEq, Eq, Structural)]
pub enum ControlApiMethod {
    Get,
    Post,
    Other,
}

/// What the control API does with a request.
#[derive(Debug, Clone, Copy, PartialEq, Eq, Structural)]
pub enum ControlApiAction {
    Health,
    Ready,
    Runtime,
    /// Reload the listeners' TLS certificates (without a runtime bundle).
    ReloadCerts,
    /// Reload the whole configuration (with a runtime bundle).
    ReloadConfig,
    Restart,
    NotFound,
}

/// Paths are tried in order: health, readiness and runtime state by `GET`;
/// reloads and restart by `POST`. With a runtime bundle both reload paths
/// reload the configuration; without one only the certificate reload path
/// is served.
pub open spec fn spec_control_api_action(
    method: ControlApiMethod,
    path: Seq<char>,
    paths: ControlApiPaths,
    runtime_bundle: bool,
) -> ControlApiAction {
    if method == ControlApiMethod::Get && path == paths.health_path@ {
        ControlApiAction::Health
    } else if method == ControlApiMethod::Get && path == paths.ready_path@ {
        ControlApiAction::Ready
    } else if method == ControlApiMethod::Get && path == paths.runtime_path@ {
        ControlApiAction::Runtime
    } else if method == ControlApiMethod::Post && runtime_bundle && (path == paths.reload_certs_path@
        || path == paths.reload_path@) {
        ControlApiAction::ReloadConfig
    } else if method == ControlApiMethod::Post && !runtime_bundle && path
        == paths.reload_certs_path@ {
        ControlApiAction::ReloadCerts
    } else if method == ControlApiMethod::Post && path == paths.restart_path@ {
        ControlApiAction::Restart
    } else {
        ControlApiAction::NotFound
    }
}

pub fn control_api_action(
    method: ControlApiMethod,
    path: &str,
    paths: &ControlApiPaths,
    runtime_bundle: bool,
) -> (a: ControlApiAction)
    ensures
        a == spec_control_api_action(method, path@, *paths, runtime_bundle),
{
    let p = chars_of(path);
    let ps = p.as_slice();
    let get = method == ControlApiMethod::Get;
    let post = method == ControlApiMethod::Post;
    if get && eq_str(ps, paths.health_path.as_str()) {
        return ControlApiAction::Health;
    }
    if get && eq_str(ps, paths.ready_path.as_str()) {
        return ControlApiAction::Ready;
    }
    if get && eq_str(ps, paths.runtime_path.as_str()) {
        return ControlApiAction::Runtime;
    }
    if post && runtime_bundle && (eq_str(ps, paths.reload_certs_path.as_str()) || eq_str(
        ps,
        paths.reload_path.as_str(),
    )) {
        return ControlApiAction::ReloadConfig;
    }
    if post && !runtime_bundle && eq_str(ps, paths.reload_certs_path.as_str()) {
        return ControlApiAction::ReloadCerts;
    }
    if post && eq_str(ps, paths.restart_path.as_str()) {
        return ControlApiAction::Restart;
    }
    ControlApiAction::NotFound
}

/// Readiness and its status: ready unless a restart is requested, and only
/// while some backend is healthy (or none is configured); 200 when ready,
/// else 503.
pub fn readiness(healthy_backends: usize, total_backends: usize, restart_requested: bool) -> (r: (
    bool,
    u16,
))
    ensures
        r.0 == (!restart_requested && (total_backends == 0 || healthy_backends > 0)),
        r.1 == (if r.0 {
            200u16
        } else {
            503u16
        }),
{
    let ready = !restart_requested && (total_backends == 0 || healthy_backends > 0);
    (ready, if ready {
        200
    } else {
        503
    })
}

/// What becomes of a restart request before the watchdog is asked.
#[derive(Debug, Clone, Copy, PartialEq, Eq, Structural)]
pub enum RestartRequestDecision {
    /// 401: the request is not authorized.
    Unauthorized,
    /// 503: the watchdog is disabled.
    WatchdogDisabled,
    /// Ask the watchdog for a restart.
    RequestRestart,
}

pub fn restart_request_decision(authorized: bool, watchdog_enabled: bool) -> (d:
    RestartRequestDecision)
    ensures
        d == (if !authorized {
            RestartRequestDecision::Unauthorized
        } else if !watchdog_enabled {
            RestartRequestDecision::WatchdogDisabled
        } else {
            RestartRequestDecision::RequestRestart
        }),
{
    if !authorized {
        RestartRequestDecision::Unauthorized
    } else if !watchdog_enabled {
        RestartRequestDecision::WatchdogDisabled
    } else {
        RestartRequestDecision::RequestRestart
    }
}

/// The status and reason of a restart request that the watchdog accepted
/// (202) or turned down (409).
pub fn restart_outcome(accepted: bool) -> (r: (u16, &'static str))
    ensures
        accepted ==> r.0 == 202 && r.1@ == "admin_runtime_api"@,
        !accepted ==> r.0 == 409 && r.1@ == "restart pending or cooldown active"@,
{
    if accepted {
        (202, "admin_runtime_api")
    } else {
        (409, "restart pending or cooldown active")
    }
}


/// A connection slot, if one is free: with `current` connections open and
/// at most `max_connections` allowed, the count after claiming one.
pub fn claim_connection_slot(current: usize, max_connections: usize) -> (r: Option<usize>)
    ensures
        current < max_connections ==> r == Some((current + 1) as usize),
        current >= max_connections ==> r is None,
{
    if current >= max_connections {
        None
    } else {
        Some(current + 1)
    }
}

/// The connection limit and the per-connection timeout in milliseconds
/// that the endpoint enforces: each at least 1.
pub fn connection_limits(endpoint: &ControlApiEndpoint) -> (r: (usize, u64))
    ensures
        r.0 == (if endpoint.max_connections == 0 {
            1
        } else {
            endpoint.max_connections
        }),
        r.1 == (if endpoint.connection_timeout_ms == 0 {
            1
        } else {
            endpoint.connection_timeout_ms
        }),
{
    let max_connections = if endpoint.max_connections == 0 {
        1
    } else {
        endpoint.max_connections
    };
    let timeout_ms = if endpoint.connection_timeout_ms == 0 {
        1
    } else {
        endpoint.connection_timeout_ms
    };
    (max_connections, timeout_ms)
}

/// `parts` joined with `sep` between them.
pub open spec fn join(parts: Seq<Seq<char>>, sep: Seq<char>) -> Seq<char>
    decreases parts.len(),
{
    if parts.len() == 0 {
        Seq::empty()
    } else if parts.len() == 1 {
        parts[0]
    } else {
        join(parts.drop_last(), sep) + sep + parts.last()
    }
}

pub fn join_strings(parts: &Vec<String>, sep: &str) -> (s: String)
    ensures
        s@ == join(strings_view(parts@), sep@),
{
    let mut s = String::new();
    let mut i: usize = 0;
    while i < parts.len()
        invariant
            0 <= i <= parts.len(),
            s@ == join(strings_view(parts@.take(i as int)), sep@),
        decreases parts.len() - i,
    {
        let ghost before = s@;
        if i > 0 {
            s.append(sep);
        }
        s.append(parts[i].as_str());
        proof {
            let sv = strings_view(parts@.take(i + 1));
            assert(sv.drop_last() =~= strings_view(parts@.take(i as int)));
            assert(sv.last() == parts@[i as int]@);
            if i == 0 {
                assert(sv.len() == 1);
            }
        }
        i += 1;
    }
    proof {
        assert(parts@.take(parts.len() as int) =~= parts@);
    }
    s
}

/// Why a configuration reload was not applied.
#[derive(Debug, Clone, PartialEq, Eq)]
pub enum ReloadFailure {
    /// The configuration file could not be read.
    ReadConfig(String),
    /// The configuration did not validate.
    Validation(String),
    /// The configuration could not be normalized into runtime policies.
    Normalization(String),
    /// The runtime state for the new configuration could not be built.
    BuildSharedState(String),
    /// The new configuration cannot replace the running one.
    Incompatible(String),
    /// Settings that only a restart can change were changed.
    StartupOwned(Vec<String>),
    /// The new runtime could not be installed.
    Replace(String),
}

/// The status and error message of a reload that was not applied.
pub open spec fn spec_reload_failure_response(f: ReloadFailure) -> (u16, Seq<char>) {
    match f {
        ReloadFailure::ReadConfig(e) => (500, e@),
        ReloadFailure::Validation(e) => (400, "Configuration validation failed: "@ + e@),
        ReloadFailure::Normalization(e) => (400, "Runtime configuration normalization failed: "@
            + e@),
        ReloadFailure::BuildSharedState(e) => (500, e@),
        ReloadFailure::Incompatible(e) => (409, e@),
        ReloadFailure::StartupOwned(issues) => (409, join(strings_view(issues@), "; "@)),
        ReloadFailure::Replace(e) => (500, e@),
    }
}

pub fn reload_failure_response(failure: &ReloadFailure) -> (r: (u16, String))
    ensures
        r.0 == spec_reload_failure_response(*failure).0,
        r.1@ == spec_reload_failure_response(*failure).1,
{
    match failure {
        ReloadFailure::ReadConfig(e) => (500, e.clone()),
        ReloadFailure::Validation(e) => {
            let mut m = "Configuration validation failed: ".to_owned();
            m.append(e.as_str());
            (400, m)
        },
        ReloadFailure::Normalization(e) => {
            let mut m = "Runtime configuration normalization failed: ".to_owned();
            m.append(e.as_str());
            (400, m)
        },
        ReloadFailure::BuildSharedState(e) => (500, e.clone()),
        ReloadFailure::Incompatible(e) => (409, e.clone()),
        ReloadFailure::StartupOwned(issues) => (409, join_strings(issues, "; ")),
        ReloadFailure::Replace(e) => (500, e.clone()),
    }
}

/// The generation after a successful reload, saturating at the largest.
pub fn next_generation(generation: u64) -> (g: u64)
    ensures
        g == (if generation == u64::MAX {
            generation as int
        } else {
            generation + 1
        }),
{
    generation.saturating_add(1)
}

/// The stages of a configuration reload, in the order they run: read the
/// file, validate it, normalize it into runtime policies, build the new
/// runtime state, check the listeners, the control API endpoint, the
/// metrics endpoint and the startup-owned settings, then install it.
#[derive(Debug, Clone, Copy, PartialEq, Eq, Structural)]
pub enum ReloadStage {
    ReadConfig,
    Validate,
    Normalize,
    BuildSharedState,
    RuntimeCheck,
    ControlApiCheck,
    MetricsCheck,
    StartupOwnedCheck,
    Replace,
}

/// The position of a stage in the reload, from 0.
pub open spec fn reload_stage_rank(stage: ReloadStage) -> nat {
    match stage {
        ReloadStage::ReadConfig => 0,
        ReloadStage::Validate => 1,
        ReloadStage::Normalize => 2,
        ReloadStage::BuildSharedState => 3,
        ReloadStage::RuntimeCheck => 4,
        ReloadStage::ControlApiCheck => 5,
        ReloadStage::MetricsCheck => 6,
        ReloadStage::StartupOwnedCheck => 7,
        ReloadStage::Replace => 8,
    }
}

/// What a reload does next.
#[derive(Debug, Clone, PartialEq, Eq)]
pub enum ReloadNext {
    /// Run this stage.
    Run(ReloadStage),
    /// Answer with this status and error; the running state stays as it is.
    Refuse(u16, String),
    /// The new runtime is installed at this generation; answer 202.
    Reloaded(u64),
}

/// `n` answers with `code` and the error `error`.
pub open spec fn reload_refuses(n: ReloadNext, code: u16, error: Seq<char>) -> bool {
    n matches ReloadNext::Refuse(c, e) && c == code && e@ == error
}

/// How a reload request starts: an unauthorized one is answered 401 before
/// anything is attempted; otherwise the configuration is read.
pub fn reload_start(authorized: bool) -> (n: ReloadNext)
    ensures
        !authorized ==> reload_refuses(n, 401, "unauthorized"@),
        authorized ==> n == ReloadNext::Run(ReloadStage::ReadConfig),
{
    if !authorized {
        return ReloadNext::Refuse(401, "unauthorized".to_owned());
    }
    ReloadNext::Run(ReloadStage::ReadConfig)
}

/// One reload stage with `outcome`, at `generation`, leading to `n`: a
/// failure answers with its status and error; a success runs the stage of
/// the next rank, or after the last stage installs the next generation
/// (saturating).
pub open spec fn reload_step_spec(
    stage: ReloadStage,
    outcome: Result<(), ReloadFailure>,
    generation: u64,
    n: ReloadNext,
) -> bool {
    match outcome {
        Err(f) => reload_refuses(n, spec_reload_failure_response(f).0, spec_reload_failure_response(f).1),
        Ok(_) => if stage == ReloadStage::Replace {
            n == ReloadNext::Reloaded(
                if generation == u64::MAX {
                    generation
                } else {
                    (generation + 1) as u64
                },
            )
        } else {
            n is Run && reload_stage_rank(n->Run_0) == reload_stage_rank(stage) + 1
        },
    }
}

/// One stage of a reload has finished with `outcome`, the running runtime
/// being at `generation`. A failure is answered at once, with the status and
/// error of `reload_failure_response`, and nothing is installed; a success
/// runs the next stage, and after the last one the runtime is installed at
/// the next generation.
pub fn reload_step(stage: ReloadStage, outcome: Result<(), ReloadFailure>, generation: u64) -> (n:
    ReloadNext)
    ensures
        reload_step_spec(stage, outcome, generation, n),
{
    match outcome {
        Err(f) => {
            let (code, e) = reload_failure_response(&f);
            ReloadNext::Refuse(code, e)
        },
        Ok(()) => match stage {
            ReloadStage::ReadConfig => ReloadNext::Run(ReloadStage::Validate),
            ReloadStage::Validate => ReloadNext::Run(ReloadStage::Normalize),
            ReloadStage::Normalize => ReloadNext::Run(ReloadStage::BuildSharedState),
            ReloadStage::BuildSharedState => ReloadNext::Run(ReloadStage::RuntimeCheck),
            ReloadStage::RuntimeCheck => ReloadNext::Run(ReloadStage::ControlApiCheck),
            ReloadStage::ControlApiCheck => ReloadNext::Run(ReloadStage::MetricsCheck),
            ReloadStage::MetricsCheck => ReloadNext::Run(ReloadStage::StartupOwnedCheck),
            ReloadStage::StartupOwnedCheck => ReloadNext::Run(ReloadStage::Replace),
            ReloadStage::Replace => ReloadNext::Reloaded(next_generation(generation)),
        },
    }
}

/// A whole reload of an authorized request: its stages run from reading the
/// configuration onward, each only after the one before succeeded, so the
/// `k`-th stage run is the stage of rank `k` and at most nine run. The
/// first failing stage decides the answer, with its status and error, and
/// nothing is installed; the new runtime is installed, at the next
/// generation, only when every stage through the last succeeded.
pub proof fn lemma_reload_run(
    stages: Seq<ReloadStage>,
    outcomes: Seq<Result<(), ReloadFailure>>,
    nexts: Seq<ReloadNext>,
    generation: u64,
)
    requires
        stages.len() > 0,
        outcomes.len() == stages.len(),
        nexts.len() == stages.len(),
        stages[0] == ReloadStage::ReadConfig,
        forall|k: int|
            0 <= k < stages.len() ==> reload_step_spec(
                #[trigger] stages[k],
                outcomes[k],
                generation,
                nexts[k],
            ),
        forall|k: int| 0 <= k < stages.len() - 1 ==> #[trigger] nexts[k] == ReloadNext::Run(stages[k + 1]),
    ensures
        stages.len() <= 9,
        forall|k: int| 0 <= k < stages.len() ==> reload_stage_rank(#[trigger] stages[k]) == k,
        forall|k: int| 0 <= k < stages.len() - 1 ==> (#[trigger] outcomes[k]) is Ok,
        outcomes.last() is Err ==> reload_refuses(
            nexts.last(),
            spec_reload_failure_response(outcomes.last()->Err_0).0,
            spec_reload_failure_response(outcomes.last()->Err_0).1,
        ),
        nexts.last() is Reloaded ==> stages.len() == 9 && outcomes.last() is Ok && nexts.last()
            == ReloadNext::Reloaded(
            if generation == u64::MAX {
                generation
            } else {
                (generation + 1) as u64
            },
        ),
{
    assert forall|k: int| 0 <= k < stages.len() implies reload_stage_rank(#[trigger] stages[k])
        == k by {
        lemma_reload_run_rank(stages, outcomes, nexts, generation, k);
    }
    assert forall|k: int| 0 <= k < stages.len() - 1 implies (#[trigger] outcomes[k]) is Ok by {
        assert(reload_step_spec(stages[k], outcomes[k], generation, nexts[k]));
        assert(nexts[k] == ReloadNext::Run(stages[k + 1]));
    }
    let last = stages.len() - 1;
    assert(reload_stage_rank(stages[last]) == last);
    assert(reload_step_spec(stages[last], outcomes[last], generation, nexts[last]));
    if nexts.last() is Reloaded {
        assert(stages[last] == ReloadStage::Replace);
    }
}

proof fn lemma_reload_run_rank(
    stages: Seq<ReloadStage>,
    outcomes: Seq<Result<(), ReloadFailure>>,
    nexts: Seq<ReloadNext>,
    generation: u64,
    k: int,
)
    requires
        outcomes.len() == stages.len(),
        nexts.len() == stages.len(),
        0 <= k < stages.len(),
        stages[0] == ReloadStage::ReadConfig,
        forall|j: int|
            0 <= j < stages.len() ==> reload_step_spec(
                #[trigger] stages[j],
                outcomes[j],
                generation,
                nexts[j],
            ),
        forall|j: int| 0 <= j < stages.len() - 1 ==> #[trigger] nexts[j] == ReloadNext::Run(stages[j + 1]),
    ensures
        reload_stage_rank(stages[k]) == k,
    decreases k,
{
    if k > 0 {
        lemma_reload_run_rank(stages, outcomes, nexts, generation, k - 1);
        let j = k - 1;
        assert(reload_step_spec(stages[j], outcomes[j], generation, nexts[j]));
        assert(nexts[j] == ReloadNext::Run(stages[j + 1]));
    }
}

/// The first of `current` that `next` lacks.
pub open spec fn first_missing(current: Seq<Seq<char>>, next: Seq<Seq<char>>) -> Option<Seq<char>>
    decreases current.len(),
{
    if current.len() == 0 {
        None
    } else if !next.contains(current[0]) {
        Some(current[0])
    } else {
        first_missing(current.drop_first(), next)
    }
}

/// Those of `next` that `current` lacks, in order.
pub open spec fn labels_not_in(next: Seq<Seq<char>>, current: Seq<Seq<char>>) -> Seq<Seq<char>>
    decreases next.len(),
{
    if next.len() == 0 {
        Seq::empty()
    } else {
        let prev = labels_not_in(next.drop_last(), current);
        if current.contains(next.last()) {
            prev
        } else {
            prev.push(next.last())
        }
    }
}

fn contains_label(labels: &Vec<String>, label: &String) -> (b: bool)
    ensures
        b == strings_view(labels@).contains(label@),
{
    let l = chars_of(label.as_str());
    let mut i: usize = 0;
    while i < labels.len()
        invariant
            0 <= i <= labels.len(),
            l@ == label@,
            forall|j: int| 0 <= j < i ==> #[trigger] labels@[j]@ != label@,
        decreases labels.len() - i,
    {
        if eq_str(l.as_slice(), labels[i].as_str()) {
            proof {
                assert(strings_view(labels@)[i as int] == label@);
            }
            return true;
        }
        i += 1;
    }
    proof {
        if strings_view(labels@).contains(label@) {
            let j = choose|j: int| 0 <= j < strings_view(labels@).len() && strings_view(labels@)[j] == label@;
            assert(labels@[j]@ == label@);
        }
    }
    false
}

/// The rejection when a listener of the running process is gone from the
/// new configuration (the first such listener, in the order given).
pub open spec fn spec_removed_listener_rejection(current: Seq<Seq<char>>, next: Seq<Seq<char>>) -> Option<Seq<char>> {
    match first_missing(current, next) {
        None => None,
        Some(label) => Some("runtime reload rejected: listener '"@ + label
            + "' was removed or its bind address changed; restart required"@),
    }
}

pub fn removed_listener_rejection(current_labels: &Vec<String>, next_labels: &Vec<String>) -> (r:
    Option<String>)
    ensures
        opt_string(r) == spec_removed_listener_rejection(
            strings_view(current_labels@),
            strings_view(next_labels@),
        ),
{
    let ghost cur = strings_view(current_labels@);
    let ghost nxt = strings_view(next_labels@);
    proof {
        assert(cur.skip(0) =~= cur);
    }
    let mut i: usize = 0;
    while i < current_labels.len()
        invariant
            0 <= i <= current_labels.len(),
            cur == strings_view(current_labels@),
            nxt == strings_view(next_labels@),
            first_missing(cur, nxt) == first_missing(cur.skip(i as int), nxt),
        decreases current_labels.len() - i,
    {
        let ghost rest = cur.skip(i as int);
        proof {
            assert(rest[0] == current_labels@[i as int]@);
            assert(rest.drop_first() =~= cur.skip(i + 1));
        }
        if !contains_label(next_labels, &current_labels[i]) {
            let mut m = "runtime reload rejected: listener '".to_owned();
            m.append(current_labels[i].as_str());
            m.append("' was removed or its bind address changed; restart required");
            return Some(m);
        }
        i += 1;
    }
    proof {
        assert(cur.skip(current_labels.len() as int).len() == 0);
    }
    None
}

/// The listeners that the new configuration adds, in its order; each must
/// be bound once before the reload is applied.
pub fn added_listeners(current_labels: &Vec<String>, next_labels: &Vec<String>) -> (r: Vec<String>)
    ensures
        strings_view(r@) == labels_not_in(strings_view(next_labels@), strings_view(current_labels@)),
{
    let mut r: Vec<String> = Vec::new();
    let mut i: usize = 0;
    while i < next_labels.len()
        invariant
            0 <= i <= next_labels.len(),
            strings_view(r@) == labels_not_in(
                strings_view(next_labels@.take(i as int)),
                strings_view(current_labels@),
            ),
        decreases next_labels.len() - i,
    {
        proof {
            let sv = strings_view(next_labels@.take(i + 1));
            assert(sv.drop_last() =~= strings_view(next_labels@.take(i as int)));
            assert(sv.last() == next_labels@[i as int]@);
        }
        if !contains_label(current_labels, &next_labels[i]) {
            let ghost before = r@;
            r.push(next_labels[i].clone());
            proof {
                assert(strings_view(r@) =~= strings_view(before).push(next_labels@[i as int]@));
            }
        }
        i += 1;
    }
    proof {
        assert(next_labels@.take(next_labels.len() as int) =~= next_labels@);
    }
    r
}

/// Which socket a reload preflight could not bind.
#[derive(Debug, Clone, Copy, PartialEq, Eq, Structural)]
pub enum PreflightStage {
    QuicListener,
    BootstrapListener,
}

pub open spec fn preflight_stage_text(stage: PreflightStage) -> Seq<char> {
    match stage {
        PreflightStage::QuicListener => "QUIC listener"@,
        PreflightStage::BootstrapListener => "bootstrap listener"@,
    }
}

/// The rejection of a reload whose new listener could not be bound.
pub fn preflight_rejection(stage: PreflightStage, label: &str, error: &str) -> (m: String)
    ensures
        m@ == "runtime reload rejected: failed to preflight "@ + preflight_stage_text(stage) + " "@
            + label@ + ": "@ + error@,
{
    let mut m = "runtime reload rejected: failed to preflight ".to_owned();
    match stage {
        PreflightStage::QuicListener => m.append("QUIC listener"),
        PreflightStage::BootstrapListener => m.append("bootstrap listener"),
    }
    m.append(" ");
    m.append(label);
    m.append(": ");
    m.append(error);
    m
}

/// A new QUIC listener is preflighted with one socket per worker, sharing
/// the port, when more than one worker runs.
pub fn preflight_uses_reuseport(worker_threads: usize) -> (b: bool)
    ensures
        b == (worker_threads > 1),
{
    let workers = if worker_threads == 0 {
        1
    } else {
        worker_threads
    };
    workers > 1
}

/// `address:port`.
pub open spec fn bind_text(address: Seq<char>, port: u16) -> Seq<char> {
    address + ":"@ + decimal(port as nat)
}

pub fn bind_address(address: &str, port: u16) -> (s: String)
    ensures
        s@ == bind_text(address@, port),
{
    let mut s = address.to_owned();
    s.append(":");
    push_decimal(&mut s, port as u64);
    s
}

/// An endpoint must be bound anew when it was disabled or its address or
/// port changes.
pub open spec fn spec_bind_changed(
    current_enabled: bool,
    current_address: Seq<char>,
    current_port: u16,
    next_address: Seq<char>,
    next_port: u16,
) -> bool {
    !current_enabled || current_address != next_address || current_port != next_port
}

fn bind_changed(
    current_enabled: bool,
    current_address: &str,
    current_port: u16,
    next_address: &str,
    next_port: u16,
) -> (b: bool)
    ensures
        b == spec_bind_changed(current_enabled, current_address@, current_port, next_address@, next_port),
{
    let c = chars_of(current_address);
    !current_enabled || !eq_str(c.as_slice(), next_address) || current_port != next_port
}

/// What a reload needs before it may move an endpoint.
#[derive(Debug, Clone, PartialEq, Eq)]
pub enum ReloadBindCheck {
    /// Nothing to check.
    Compatible,
    /// The reload is rejected with this message.
    Rejected(String),
    /// The reload may go ahead once this address can be bound.
    ProbeBind(String),
}

/// The check of the control API endpoint for a reload. `primary_listener`
/// is the label of the new configuration's primary listener, if it has
/// one, and `tls_config_present` whether TLS is set up for that listener.
pub open spec fn control_api_reload_check_ok(
    r: ReloadBindCheck,
    current: ControlApiEndpoint,
    next: ControlApiEndpoint,
    primary_listener: Option<Seq<char>>,
    tls_config_present: bool,
) -> bool {
    if !next.enabled {
        r == ReloadBindCheck::Compatible
    } else {
        match primary_listener {
            None => r matches ReloadBindCheck::Rejected(m) && m@
                == "runtime reload rejected: no effective listeners configured for control API TLS"@,
            Some(label) => if !tls_config_present {
                r matches ReloadBindCheck::Rejected(m) && m@
                    == "runtime reload rejected: control API TLS config missing for listener '"@
                    + label + "'"@
            } else if spec_bind_changed(
                current.enabled,
                current.address@,
                current.port,
                next.address@,
                next.port,
            ) {
                r matches ReloadBindCheck::ProbeBind(b) && b@ == bind_text(next.address@, next.port)
            } else {
                r == ReloadBindCheck::Compatible
            },
        }
    }
}

pub fn control_api_reload_check(
    current: &ControlApiEndpoint,
    next: &ControlApiEndpoint,
    primary_listener: Option<&str>,
    tls_config_present: bool,
) -> (r: ReloadBindCheck)
    ensures
        control_api_reload_check_ok(r, *current, *next, opt_str(primary_listener), tls_config_present),
{
    if !next.enabled {
        return ReloadBindCheck::Compatible;
    }
    let label = match primary_listener {
        Some(l) => l,
        None => {
            return ReloadBindCheck::Rejected(
                "runtime reload rejected: no effective listeners configured for control API TLS".to_owned(),
            );
        },
    };
    if !tls_config_present {
        let mut m = "runtime reload rejected: control API TLS config missing for listener '".to_owned();
        m.append(label);
        m.append("'");
        return ReloadBindCheck::Rejected(m);
    }
    if bind_changed(
        current.enabled,
        current.address.as_str(),
        current.port,
        next.address.as_str(),
        next.port,
    ) {
        return ReloadBindCheck::ProbeBind(bind_address(next.address.as_str(), next.port));
    }
    ReloadBindCheck::Compatible
}

/// The metrics endpoint settings that a reload compares.
#[derive(Debug, Clone, PartialEq, Eq)]
pub struct MetricsEndpoint {
    pub enabled: bool,
    pub address: String,
    pub port: u16,
}

/// The address that must be bound before a reload moves the metrics
/// endpoint, if it moves.
pub fn metrics_reload_check(current: &MetricsEndpoint, next: &MetricsEndpoint) -> (r: Option<String>)
    ensures
        opt_string(r) == (if next.enabled && spec_bind_changed(
            current.enabled,
            current.address@,
            current.port,
            next.address@,
            next.port,
        ) {
            Some(bind_text(next.address@, next.port))
        } else {
            None
        }),
{
    if !next.enabled {
        return None;
    }
    if bind_changed(
        current.enabled,
        current.address.as_str(),
        current.port,
        next.address.as_str(),
        next.port,
    ) {
        return Some(bind_address(next.address.as_str(), next.port));
    }
    None
}

/// One setting that only a restart can change: its current and its next
/// value, each as its `Debug` rendering, and whether the two values differ
/// (the settings' own `!=`, which the renderings do not always reflect).
#[derive(Debug, Clone, PartialEq, Eq)]
pub struct StartupOwnedChange {
    pub current: String,
    pub next: String,
    pub changed: bool,
}

/// The settings that only a restart can change, each compared between the
/// running configuration and the one that would replace it.
#[derive(Debug, Clone, PartialEq, Eq)]
pub struct StartupOwnedSettings {
    pub log_level: StartupOwnedChange,
    pub log_file_enabled: StartupOwnedChange,
    pub log_file_path: StartupOwnedChange,
    pub log_format: StartupOwnedChange,
    pub tracing_enabled: StartupOwnedChange,
    pub tracing_service_name: StartupOwnedChange,
    pub tracing_otlp_endpoint: StartupOwnedChange,
    pub tracing_sample_ratio: StartupOwnedChange,
    pub control_plane_threads: StartupOwnedChange,
}

pub open spec fn restart_required_message(field: Seq<char>, current: Seq<char>, next: Seq<char>) -> Seq<char> {
    "runtime reload rejected: "@ + field + " changed from "@ + current + " to "@ + next
        + "; restart required"@
}

/// The issue for one setting: none when it is unchanged.
pub open spec fn restart_issue(field: Seq<char>, current: Seq<char>, next: Seq<char>, changed: bool) -> Seq<Seq<char>> {
    if changed {
        seq![restart_required_message(field, current, next)]
    } else {
        Seq::empty()
    }
}

pub open spec fn change_issue(field: Seq<char>, c: StartupOwnedChange) -> Seq<Seq<char>> {
    restart_issue(field, c.current@, c.next@, c.changed)
}

pub fn note_restart_required_change(
    issues: &mut Vec<String>,
    field: &str,
    current: &str,
    next: &str,
    changed: bool,
)
    ensures
        strings_view(final(issues)@) == strings_view(old(issues)@) + restart_issue(
            field@,
            current@,
            next@,
            changed,
        ),
{
    if changed {
        let mut m = "runtime reload rejected: ".to_owned();
        m.append(field);
        m.append(" changed from ");
        m.append(current);
        m.append(" to ");
        m.append(next);
        m.append("; restart required");
        let ghost before = issues@;
        issues.push(m);
        proof {
            assert(strings_view(issues@) =~= strings_view(before) + restart_issue(
                field@,
                current@,
                next@,
                changed,
            ));
        }
    } else {
        proof {
            assert(strings_view(issues@) =~= strings_view(issues@) + restart_issue(
                field@,
                current@,
                next@,
                changed,
            ));
        }
    }
}

fn note_change(issues: &mut Vec<String>, field: &str, c: &StartupOwnedChange)
    ensures
        strings_view(final(issues)@) == strings_view(old(issues)@) + change_issue(field@, *c),
{
    note_restart_required_change(issues, field, c.current.as_str(), c.next.as_str(), c.changed);
}

/// Every startup-owned setting that changed, in a fixed order: the log
/// settings, the tracing settings, then the control plane thread count.
pub open spec fn startup_owned_issues(s: StartupOwnedSettings) -> Seq<Seq<char>> {
    change_issue("log.level"@, s.log_level) + change_issue("log.file.enabled"@, s.log_file_enabled)
        + change_issue("log.file.path"@, s.log_file_path) + change_issue(
        "log.format"@,
        s.log_format,
    ) + change_issue("observability.tracing.enabled"@, s.tracing_enabled) + change_issue(
        "observability.tracing.service_name"@,
        s.tracing_service_name,
    ) + change_issue("observability.tracing.otlp_endpoint"@, s.tracing_otlp_endpoint)
        + change_issue("observability.tracing.sample_ratio"@, s.tracing_sample_ratio)
        + change_issue("performance.control_plane_threads"@, s.control_plane_threads)
}

pub fn validate_startup_owned_reload_compatibility(settings: &StartupOwnedSettings) -> (issues: Vec<
    String,
>)
    ensures
        strings_view(issues@) == startup_owned_issues(*settings),
{
    let mut issues: Vec<String> = Vec::new();
    proof {
        assert(strings_view(issues@) =~= Seq::<Seq<char>>::empty());
    }
    note_change(&mut issues, "log.level", &settings.log_level);
    note_change(&mut issues, "log.file.enabled", &settings.log_file_enabled);
    note_change(&mut issues, "log.file.path", &settings.log_file_path);
    note_change(&mut issues, "log.format", &settings.log_format);
    note_change(&mut issues, "observability.tracing.enabled", &settings.tracing_enabled);
    note_change(&mut issues, "observability.tracing.service_name", &settings.tracing_service_name);
    note_change(&mut issues, "observability.tracing.otlp_endpoint", &settings.tracing_otlp_endpoint);
    note_change(&mut issues, "observability.tracing.sample_ratio", &settings.tracing_sample_ratio);
    note_change(&mut issues, "performance.control_plane_threads", &settings.control_plane_threads);
    proof {
        assert(strings_view(issues@) =~= startup_owned_issues(*settings));
    }
    issues
}

/// `Bearer` in any ASCII case, one space and a token without surrounding
/// whitespace carry that token; so does any value that only differs from
/// it by surrounding whitespace.
pub proof fn lemma_bearer_token_of_scheme_and_token(scheme: Seq<char>, token: Seq<char>)
    requires
        eq_ignore_case(scheme, "bearer"@),
        token.len() > 0,
        !is_ws(token[0]),
        !is_ws(token.last()),
    ensures
        spec_bearer_token(scheme + " "@ + token) == Some(token),
{
    reveal_strlit("bearer");
    reveal_strlit(" ");
    let raw = scheme + " "@ + token;
    assert(lower_seq(scheme).len() == 6);
    assert forall|i: int| 0 <= i < scheme.len() implies !#[trigger] is_ws(scheme[i]) by {
        assert(lower_seq(scheme)[i] == lower(scheme[i]));
        assert(lower_seq(scheme)[i] == "bearer"@[i]);
    }
    assert(!is_ws(raw[0])) by {
        assert(raw[0] == scheme[0]);
    }
    assert(raw.last() == token.last());
    assert(leading_ws(raw) == 0);
    assert(raw.skip(0) =~= raw);
    assert(trailing_ws(raw) == 0);
    assert(raw.take(raw.len() as int) =~= raw);
    assert(trim(raw) == raw);
    assert(is_first_ws_at(raw, scheme.len() as int)) by {
        assert(raw[scheme.len() as int] == ' ');
        assert forall|j: int| 0 <= j < scheme.len() implies !#[trigger] is_ws(raw[j]) by {
            assert(raw[j] == scheme[j]);
        }
    }
    let k2 = choose|k2: int| is_first_ws_at(raw, k2);
    assert(is_first_ws_at(raw, k2));
    if k2 < scheme.len() {
        assert(raw[k2] == scheme[k2]);
    }
    if k2 > scheme.len() {
        assert(!is_ws(raw[scheme.len() as int]));
    }
    assert(first_ws(raw) == Some(scheme.len() as int));
    let rest = raw.skip(scheme.len() as int);
    assert(rest =~= " "@ + token);
    assert(rest.drop_first() =~= token);
    assert(leading_ws(token) == 0);
    assert(leading_ws(rest) == 1);
    assert(trim_start(rest) =~= token);
    assert(raw.take(scheme.len() as int) =~= scheme);
}


/// How the control API endpoint starts.
#[derive(Debug)]
pub enum ControlApiStartup {
    /// The endpoint is disabled and no runtime bundle can enable it later.
    Disabled,
    /// Startup fails with this error.
    Fail(ProxyError),
    /// The endpoint is skipped; this error is only reported.
    Skip(String),
    /// The endpoint is served.
    Serve,
}

/// The startup decision: without a runtime bundle a disabled endpoint is
/// never served; it needs a primary listener; when enabled, TLS must be
/// set up for that listener; and it needs an async runtime. A required
/// endpoint fails startup where an optional one is skipped.
pub open spec fn control_api_startup_ok(
    d: ControlApiStartup,
    has_runtime_bundle: bool,
    endpoint: ControlApiEndpoint,
    primary_listener: Option<Seq<char>>,
    tls_config_present: bool,
    runtime_available: bool,
) -> bool {
    if !has_runtime_bundle && !endpoint.enabled {
        d is Disabled
    } else {
        match primary_listener {
            None => d matches ControlApiStartup::Fail(ProxyError::Transport(m)) && m@
                == "no effective listeners configured"@,
            Some(label) => {
                let tls_msg = "failed to initialize control API TLS config: missing reload state for listener '"@
                    + label + "'"@;
                let runtime_msg = "control API disabled (no Tokio runtime available)"@;
                if endpoint.enabled && !tls_config_present {
                    if endpoint.required {
                        d matches ControlApiStartup::Fail(ProxyError::Tls(m)) && m@ == tls_msg
                    } else {
                        d matches ControlApiStartup::Skip(m) && m@ == tls_msg
                    }
                } else if !runtime_available {
                    if endpoint.required {
                        d matches ControlApiStartup::Fail(ProxyError::Transport(m)) && m@
                            == runtime_msg
                    } else {
                        d matches ControlApiStartup::Skip(m) && m@ == runtime_msg
                    }
                } else {
                    d is Serve
                }
            },
        }
    }
}

pub fn control_api_startup(
    has_runtime_bundle: bool,
    endpoint: &ControlApiEndpoint,
    primary_listener: Option<&str>,
    tls_config_present: bool,
    runtime_available: bool,
) -> (d: ControlApiStartup)
    ensures
        control_api_startup_ok(
            d,
            has_runtime_bundle,
            *endpoint,
            opt_str(primary_listener),
            tls_config_present,
            runtime_available,
        ),
{
    if !has_runtime_bundle && !endpoint.enabled {
        return ControlApiStartup::Disabled;
    }
    let label = match primary_listener {
        Some(l) => l,
        None => {
            return ControlApiStartup::Fail(
                ProxyError::Transport("no effective listeners configured".to_owned()),
            );
        },
    };
    if endpoint.enabled && !tls_config_present {
        let mut m = "failed to initialize control API TLS config: missing reload state for listener '".to_owned();
        m.append(label);
        m.append("'");
        if endpoint.required {
            return ControlApiStartup::Fail(ProxyError::Tls(m));
        }
        return ControlApiStartup::Skip(m);
    }
    if !runtime_available {
        let m = "control API disabled (no Tokio runtime available)".to_owned();
        if endpoint.required {
            return ControlApiStartup::Fail(ProxyError::Transport(m));
        }
        return ControlApiStartup::Skip(m);
    }
    ControlApiStartup::Serve
}

/// A failed first bind fails startup when the endpoint is required; else
/// the endpoint starts unbound and the error is only reported.
pub fn control_api_bind_failure(required: bool, message: String) -> (r: Option<ProxyError>)
    ensures
        required ==> (r matches Some(ProxyError::Transport(m)) && m@ == message@),
        !required ==> r is None,
{
    if required {
        Some(ProxyError::Transport(message))
    } else {
        None
    }
}

/// What the endpoint's serving loop does next.
#[derive(Debug, Clone, PartialEq, Eq)]
pub enum ControlApiListenerStep {
    /// The endpoint is disabled: drop the listener, if one is bound, and
    /// wait.
    Disabled { drop_binding: bool },
    /// Bind this address, as the listener is missing or bound elsewhere.
    Rebind(String),
    /// Accept the next connection on the bound listener.
    Accept,
}

/// Whether the listener is bound to `desired`.
pub open spec fn bound_to(bound: Option<&str>, desired: Seq<char>) -> bool {
    match bound {
        Some(b) => b@ == desired,
        None => false,
    }
}

pub fn control_api_listener_step(
    enabled: bool,
    bound: Option<&str>,
    address: &str,
    port: u16,
) -> (s: ControlApiListenerStep)
    ensures
        !enabled ==> s == (ControlApiListenerStep::Disabled { drop_binding: bound is Some }),
        enabled && bound_to(bound, bind_text(address@, port)) ==> s
            == ControlApiListenerStep::Accept,
        enabled && !bound_to(bound, bind_text(address@, port)) ==> (s matches ControlApiListenerStep::Rebind(
            d,
        ) && d@ == bind_text(address@, port)),
{
    if !enabled {
        return ControlApiListenerStep::Disabled { drop_binding: bound.is_some() };
    }
    let desired = bind_address(address, port);
    match bound {
        Some(b) => {
            let bc = chars_of(b);
            if eq_str(bc.as_slice(), desired.as_str()) {
                ControlApiListenerStep::Accept
            } else {
                ControlApiListenerStep::Rebind(desired)
            }
        },
        None => ControlApiListenerStep::Rebind(desired),
    }
}

} // verus!
