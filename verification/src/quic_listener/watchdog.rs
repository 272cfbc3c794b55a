//! The watchdog's decisions: when a check window is degraded, when a safe
//! restart is requested, when it may run, and with which command and
//! environment.
use vstd::prelude::*;

use crate::config::model::Watchdog;
use crate::config::validate::strings_view;
use crate::text::{chars_of, opt_string, trim, trimmed, string_of};

verus! {

/// What the watchdog carries from one check window to the next.
#[derive(Debug, Clone, Copy, PartialEq, Eq, Structural)]
pub struct WatchdogWindowState {
    pub previous_requests: u64,
    pub previous_timeouts: u64,
    pub degraded_windows: u32,
}

/// What the watchdog observes at the end of a check window.
#[derive(Debug, Clone, Copy, PartialEq, Eq, Structural)]
pub struct WatchdogWindowSample {
    pub now_ms: u64,
    pub last_poll_progress_ms: u64,
    pub requests_total: u64,
    pub backend_timeouts: u64,
    pub inflight_percent: u32,
}

/// What the watchdog does after a check window.
#[derive(Debug, Clone, PartialEq, Eq)]
pub enum WatchdogWindowAction {
    /// Nothing beyond recording the window.
    Continue,
    /// Enough windows were degraded, but no restart command is configured.
    WarnNoRestartCommand,
    /// Request a safe restart, for the reasons given (joined with `+`).
    RequestRestart(String),
}

/// The verdict on one check window.
#[derive(Debug, Clone, PartialEq, Eq)]
pub struct WatchdogWindowOutcome {
    pub stalled: bool,
    pub timeout_pressure: bool,
    pub overload_pressure: bool,
    pub degraded: bool,
    pub action: WatchdogWindowAction,
}

pub open spec fn sat_sub(a: u64, b: u64) -> u64 {
    if a >= b {
        (a - b) as u64
    } else {
        0
    }
}

/// Timeouts per hundred requests in the window, 0 without requests.
pub open spec fn timeout_rate_percent(timeout_delta: u64, request_delta: u64) -> u64 {
    if request_delta == 0 {
        0
    } else {
        let scaled: int = if timeout_delta * 100 > u64::MAX {
            u64::MAX as int
        } else {
            timeout_delta * 100
        };
        (scaled / request_delta as int) as u64
    }
}

/// The reasons of a restart: `poll_stall`, `timeout_spike` and
/// `inflight_overload`, those that hold, joined with `+`.
pub open spec fn restart_reason(stalled: bool, timeout: bool, overload: bool) -> Seq<char> {
    let parts = (if stalled {
        seq!["poll_stall"@]
    } else {
        Seq::empty()
    }) + (if timeout {
        seq!["timeout_spike"@]
    } else {
        Seq::empty()
    }) + (if overload {
        seq!["inflight_overload"@]
    } else {
        Seq::empty()
    });
    crate::quic_listener::control_api::join(parts, "+"@)
}

/// One check window: the event loop is stalled when it made no progress for
/// longer than the stall timeout; timeouts press when the window saw at
/// least the minimum of requests and the timeout rate reached its limit;
/// load presses when in-flight use reached its limit. A degraded window
/// extends the run of degraded windows, a healthy one ends it. A run as
/// long as the limit requests a restart (or warns, without a restart
/// command) and starts a new run.
pub open spec fn watchdog_window_ok(
    config: Watchdog,
    has_restart_command: bool,
    old_state: WatchdogWindowState,
    sample: WatchdogWindowSample,
    new_state: WatchdogWindowState,
    out: WatchdogWindowOutcome,
) -> bool {
    let request_delta = sat_sub(sample.requests_total, old_state.previous_requests);
    let timeout_delta = sat_sub(sample.backend_timeouts, old_state.previous_timeouts);
    let stalled = sat_sub(sample.now_ms, sample.last_poll_progress_ms) > config.poll_stall_timeout_ms;
    let timeout_pressure = request_delta >= config.min_requests_per_window && timeout_rate_percent(
        timeout_delta,
        request_delta,
    ) >= config.timeout_error_rate_percent;
    let overload_pressure = sample.inflight_percent >= config.overload_inflight_percent;
    let degraded = stalled || timeout_pressure || overload_pressure;
    let run = if degraded {
        old_state.degraded_windows.saturating_add(1)
    } else {
        0
    };
    &&& out.stalled == stalled
    &&& out.timeout_pressure == timeout_pressure
    &&& out.overload_pressure == overload_pressure
    &&& out.degraded == degraded
    &&& new_state.previous_requests == sample.requests_total
    &&& new_state.previous_timeouts == sample.backend_timeouts
    &&& if run >= config.unhealthy_consecutive_windows {
        &&& new_state.degraded_windows == 0
        &&& if has_restart_command {
            out.action matches WatchdogWindowAction::RequestRestart(reason) && reason@
                == restart_reason(stalled, timeout_pressure, overload_pressure)
        } else {
            out.action == WatchdogWindowAction::WarnNoRestartCommand
        }
    } else {
        &&& new_state.degraded_windows == run
        &&& out.action == WatchdogWindowAction::Continue
    }
}

fn push_reason(reason: &mut String, first: bool, part: &str) -> (nonempty: bool)
    ensures
        final(reason)@ == (if first {
            old(reason)@ + part@
        } else {
            old(reason)@ + "+"@ + part@
        }),
        !nonempty,
{
    if !first {
        reason.append("+");
    }
    reason.append(part);
    false
}

fn restart_reason_text(stalled: bool, timeout: bool, overload: bool) -> (s: String)
    ensures
        s@ == restart_reason(stalled, timeout, overload),
{
    let mut s = String::new();
    let mut first = true;
    if stalled {
        first = push_reason(&mut s, first, "poll_stall");
    }
    if timeout {
        first = push_reason(&mut s, first, "timeout_spike");
    }
    if overload {
        first = push_reason(&mut s, first, "inflight_overload");
    }
    proof {
        let a: Seq<Seq<char>> = if stalled { seq!["poll_stall"@] } else { Seq::empty() };
        let b: Seq<Seq<char>> = if timeout { seq!["timeout_spike"@] } else { Seq::empty() };
        let c: Seq<Seq<char>> = if overload { seq!["inflight_overload"@] } else { Seq::empty() };
        let parts = a + b + c;
        reveal_with_fuel(crate::quic_listener::control_api::join, 4);
        if stalled && timeout && overload {
            assert(parts.drop_last() =~= seq!["poll_stall"@, "timeout_spike"@]);
            assert(parts.drop_last().drop_last() =~= seq!["poll_stall"@]);
        } else if stalled && timeout {
            assert(parts.drop_last() =~= seq!["poll_stall"@]);
        } else if stalled && overload {
            assert(parts.drop_last() =~= seq!["poll_stall"@]);
        } else if timeout && overload {
            assert(parts.drop_last() =~= seq!["timeout_spike"@]);
        }
        assert(parts =~= (if stalled { seq!["poll_stall"@] } else { Seq::<Seq<char>>::empty() })
            + (if timeout { seq!["timeout_spike"@] } else { Seq::<Seq<char>>::empty() })
            + (if overload { seq!["inflight_overload"@] } else { Seq::<Seq<char>>::empty() }));
    }
    s
}

/// Judges one check window and advances the watchdog's state.
pub fn evaluate_watchdog_window(
    config: &Watchdog,
    has_restart_command: bool,
    state: &mut WatchdogWindowState,
    sample: &WatchdogWindowSample,
) -> (out: WatchdogWindowOutcome)
    ensures
        watchdog_window_ok(*config, has_restart_command, *old(state), *sample, *final(state), out),
{
    let stalled = sample.now_ms.saturating_sub(sample.last_poll_progress_ms)
        > config.poll_stall_timeout_ms;
    let request_delta = sample.requests_total.saturating_sub(state.previous_requests);
    let timeout_delta = sample.backend_timeouts.saturating_sub(state.previous_timeouts);
    state.previous_requests = sample.requests_total;
    state.previous_timeouts = sample.backend_timeouts;
    let rate: u64 = if request_delta == 0 {
        0
    } else {
        let scaled: u64 = match timeout_delta.checked_mul(100) {
            Some(v) => v,
            None => u64::MAX,
        };
        scaled / request_delta
    };
    let timeout_pressure = request_delta >= config.min_requests_per_window && rate
        >= config.timeout_error_rate_percent as u64;
    let overload_pressure = sample.inflight_percent >= config.overload_inflight_percent;
    let degraded = stalled || timeout_pressure || overload_pressure;
    if degraded {
        state.degraded_windows = state.degraded_windows.saturating_add(1);
    } else {
        state.degraded_windows = 0;
    }
    let mut action = WatchdogWindowAction::Continue;
    if state.degraded_windows >= config.unhealthy_consecutive_windows {
        if !has_restart_command {
            action = WatchdogWindowAction::WarnNoRestartCommand;
        } else {
            action = WatchdogWindowAction::RequestRestart(
                restart_reason_text(stalled, timeout_pressure, overload_pressure),
            );
        }
        state.degraded_windows = 0;
    }
    WatchdogWindowOutcome { stalled, timeout_pressure, overload_pressure, degraded, action }
}

/// A requested restart runs once every worker has drained, or once the
/// drain grace period has passed since it was requested.
pub fn restart_due(
    restart_requested: bool,
    workers_drained: bool,
    requested_elapsed_ms: Option<u64>,
    drain_grace_ms: u64,
) -> (b: bool)
    ensures
        b == (restart_requested && (workers_drained || (requested_elapsed_ms matches Some(e) && e
            >= drain_grace_ms))),
{
    if !restart_requested {
        return false;
    }
    let grace_elapsed = match requested_elapsed_ms {
        Some(e) => e >= drain_grace_ms,
        None => false,
    };
    workers_drained || grace_elapsed
}

/// The program of the restart command: its first word, trimmed, unless
/// that is empty.
pub open spec fn spec_restart_program(command: Seq<Seq<char>>) -> Option<Seq<char>> {
    if command.len() > 0 && trim(command[0]).len() > 0 {
        Some(trim(command[0]))
    } else {
        None
    }
}

pub fn restart_program(command: &Vec<String>) -> (r: Option<String>)
    ensures
        opt_string(r) == spec_restart_program(strings_view(command@)),
{
    if command.len() == 0 {
        return None;
    }
    let c = chars_of(command[0].as_str());
    let t = trimmed(c.as_slice());
    if t.len() == 0 {
        return None;
    }
    Some(string_of(t.as_slice()))
}

/// The arguments of the restart command: every word after the first.
pub fn restart_args(command: &Vec<String>) -> (r: Vec<String>)
    ensures
        command@.len() == 0 ==> r@.len() == 0,
        command@.len() > 0 ==> strings_view(r@) == strings_view(command@).skip(1),
{
    let mut r: Vec<String> = Vec::new();
    let mut i: usize = 1;
    while i < command.len()
        invariant
            1 <= i,
            command@.len() > 0 ==> i <= command@.len(),
            command@.len() == 0 ==> r@.len() == 0,
            command@.len() > 0 ==> strings_view(r@) == strings_view(command@).subrange(1, i as int),
        decreases command.len() - i,
    {
        let ghost before = r@;
        r.push(command[i].clone());
        proof {
            assert(strings_view(r@) =~= strings_view(before).push(command@[i as int]@));
            assert(strings_view(command@).subrange(1, i + 1) =~= strings_view(command@).subrange(
                1,
                i as int,
            ).push(command@[i as int]@));
        }
        i += 1;
    }
    proof {
        if command@.len() > 0 {
            assert(strings_view(command@).subrange(1, command@.len() as int) =~= strings_view(
                command@,
            ).skip(1));
        }
    }
    r
}

/// The environment of the restart command: `PATH` when the watchdog has
/// one, then `SPOOKY_WATCHDOG_REASON` with the reason of the restart.
pub fn watchdog_restart_env(path: Option<String>, restart_reason: &str) -> (env: Vec<(String, String)>)
    ensures
        path is Some ==> env@.len() == 2 && env@[0].0@ == "PATH"@ && env@[0].1@
            == path.unwrap()@ && env@[1].0@ == "SPOOKY_WATCHDOG_REASON"@ && env@[1].1@
            == restart_reason@,
        path is None ==> env@.len() == 1 && env@[0].0@ == "SPOOKY_WATCHDOG_REASON"@ && env@[0].1@
            == restart_reason@,
{
    let mut env: Vec<(String, String)> = Vec::new();
    if let Some(path_value) = path {
        env.push(("PATH".to_owned(), path_value));
    }
    env.push(("SPOOKY_WATCHDOG_REASON".to_owned(), restart_reason.to_owned()));
    env
}


/// A run of the watchdog: `states[i]` is the state before window `i` and
/// `states[i + 1]` the state after it, with the verdict `outcomes[i]`.
pub open spec fn watchdog_run_ok(
    config: Watchdog,
    has_restart_command: bool,
    states: Seq<WatchdogWindowState>,
    samples: Seq<WatchdogWindowSample>,
    outcomes: Seq<WatchdogWindowOutcome>,
) -> bool {
    &&& states.len() == samples.len() + 1
    &&& outcomes.len() == samples.len()
    &&& forall|i: int|
        0 <= i < samples.len() ==> #[trigger] watchdog_window_ok(
            config,
            has_restart_command,
            states[i],
            samples[i],
            states[i + 1],
            outcomes[i],
        )
}

/// Along a run that starts without degraded windows, the count stays
/// below the limit.
proof fn lemma_run_count_below_limit(
    config: Watchdog,
    has_restart_command: bool,
    states: Seq<WatchdogWindowState>,
    samples: Seq<WatchdogWindowSample>,
    outcomes: Seq<WatchdogWindowOutcome>,
    i: int,
)
    requires
        watchdog_run_ok(config, has_restart_command, states, samples, outcomes),
        states[0].degraded_windows == 0,
        config.unhealthy_consecutive_windows > 0,
        0 <= i < states.len(),
    ensures
        states[i].degraded_windows < config.unhealthy_consecutive_windows,
{
    if i > 0 {
        let w = i - 1;
        assert(watchdog_window_ok(
            config,
            has_restart_command,
            states[w],
            samples[w],
            states[w + 1],
            outcomes[w],
        ));
    }
}

/// A count of `d` degraded windows after window `i - 1` means that the
/// `d` windows before it were all degraded.
proof fn lemma_run_count_degraded(
    config: Watchdog,
    has_restart_command: bool,
    states: Seq<WatchdogWindowState>,
    samples: Seq<WatchdogWindowSample>,
    outcomes: Seq<WatchdogWindowOutcome>,
    i: int,
)
    requires
        watchdog_run_ok(config, has_restart_command, states, samples, outcomes),
        states[0].degraded_windows == 0,
        config.unhealthy_consecutive_windows > 0,
        0 <= i < states.len(),
    ensures
        states[i].degraded_windows <= i,
        forall|t: int| i - states[i].degraded_windows <= t < i ==> #[trigger] outcomes[t].degraded,
    decreases i,
{
    if i > 0 && states[i].degraded_windows > 0 {
        let w = i - 1;
        assert(watchdog_window_ok(
            config,
            has_restart_command,
            states[w],
            samples[w],
            states[w + 1],
            outcomes[w],
        ));
        lemma_run_count_below_limit(config, has_restart_command, states, samples, outcomes, w);
        lemma_run_count_degraded(config, has_restart_command, states, samples, outcomes, w);
        assert(outcomes[w].degraded);
        assert(states[i].degraded_windows == states[w].degraded_windows + 1);
    }
}

/// The watchdog acts (requests a restart, or warns that it cannot) only at
/// the end of as many consecutive degraded windows as the limit asks for,
/// when it starts without degraded windows and the limit is positive.
pub proof fn lemma_restart_needs_consecutive_degraded_windows(
    config: Watchdog,
    has_restart_command: bool,
    states: Seq<WatchdogWindowState>,
    samples: Seq<WatchdogWindowSample>,
    outcomes: Seq<WatchdogWindowOutcome>,
    j: int,
)
    requires
        watchdog_run_ok(config, has_restart_command, states, samples, outcomes),
        states[0].degraded_windows == 0,
        config.unhealthy_consecutive_windows > 0,
        0 <= j < samples.len(),
        outcomes[j].action != WatchdogWindowAction::Continue,
    ensures
        j + 1 >= config.unhealthy_consecutive_windows,
        forall|t: int|
            j + 1 - config.unhealthy_consecutive_windows <= t <= j ==> #[trigger] outcomes[t].degraded,
{
    assert(watchdog_window_ok(
        config,
        has_restart_command,
        states[j],
        samples[j],
        states[j + 1],
        outcomes[j],
    ));
    lemma_run_count_below_limit(config, has_restart_command, states, samples, outcomes, j);
    lemma_run_count_degraded(config, has_restart_command, states, samples, outcomes, j);
    assert(outcomes[j].degraded);
    assert(states[j].degraded_windows + 1 >= config.unhealthy_consecutive_windows);
}

proof fn lemma_floor_div_at_least(a: int, n: int, p: int)
    requires
        n > 0,
        a >= 0,
        p >= 0,
    ensures
        (a / n >= p) <==> (a >= p * n),
{
    assert((a / n >= p) <==> (a >= p * n)) by (nonlinear_arith)
        requires
            n > 0,
            a >= 0,
            p >= 0,
    {
        let q = a / n;
        let r = a % n;
        assert(a == q * n + r);
        assert(0 <= r < n);
        if q >= p {
            assert(q * n >= p * n);
        } else {
            assert(q + 1 <= p);
            assert((q + 1) * n <= p * n);
        }
    }
}

/// A check window is judged from what happened since the previous window
/// alone: the requests and timeouts counted are those above the previous
/// totals. Timeouts press exactly when the window saw at least the minimum
/// of requests, at least one, and new timeouts at the configured rate or
/// more (timeouts x 100 >= rate x requests, while the product fits in 64
/// bits); so a window without new timeouts is never under timeout pressure
/// unless the configured rate is zero. The event loop is stalled exactly
/// when it made no progress for longer than the stall timeout, load presses
/// exactly at the configured in-flight share, the window is degraded when
/// any of these holds, and the next window starts from this one's totals.
pub proof fn lemma_watchdog_window_by_counts(
    config: Watchdog,
    has_restart_command: bool,
    old_state: WatchdogWindowState,
    sample: WatchdogWindowSample,
    new_state: WatchdogWindowState,
    out: WatchdogWindowOutcome,
)
    requires
        watchdog_window_ok(config, has_restart_command, old_state, sample, new_state, out),
    ensures
        new_state.previous_requests == sample.requests_total,
        new_state.previous_timeouts == sample.backend_timeouts,
        ({
            let requests: int = if sample.requests_total >= old_state.previous_requests {
                sample.requests_total - old_state.previous_requests
            } else {
                0
            };
            let timeouts: int = if sample.backend_timeouts >= old_state.previous_timeouts {
                sample.backend_timeouts - old_state.previous_timeouts
            } else {
                0
            };
            &&& requests > 0 && timeouts * 100 <= u64::MAX ==> (out.timeout_pressure <==> (requests
                >= config.min_requests_per_window && timeouts * 100
                >= config.timeout_error_rate_percent * requests))
            &&& timeouts == 0 && config.timeout_error_rate_percent > 0 ==> !out.timeout_pressure
            &&& requests == 0 && config.min_requests_per_window > 0 ==> !out.timeout_pressure
        }),
        out.stalled <==> (sample.now_ms > sample.last_poll_progress_ms && sample.now_ms
            - sample.last_poll_progress_ms > config.poll_stall_timeout_ms),
        out.overload_pressure <==> sample.inflight_percent >= config.overload_inflight_percent,
        out.degraded <==> (out.stalled || out.timeout_pressure || out.overload_pressure),
{
    let rd = sat_sub(sample.requests_total, old_state.previous_requests);
    let td = sat_sub(sample.backend_timeouts, old_state.previous_timeouts);
    if rd > 0 && td * 100 <= u64::MAX {
        lemma_floor_div_at_least(td * 100, rd as int, config.timeout_error_rate_percent as int);
    }
}

} // verus!
