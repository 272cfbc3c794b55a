//! Defaults and labels of the benchmark harness.
use vstd::prelude::*;

use crate::config::model::keys_distinct;
use crate::config::validate::strings_view;
use crate::text::{chars_of, eq_str};
use crate::text_num::{decimal, push_decimal};

verus! {

#[derive(Debug, Clone, Copy, PartialEq, Eq, Structural)]
pub enum BenchSuite {
    Micro,
    Macro,
    All,
}

pub fn suite_label(suite: BenchSuite) -> (s: &'static str)
    ensures
        suite == BenchSuite::Micro ==> s@ == "micro"@,
        suite == BenchSuite::Macro ==> s@ == "macro"@,
        suite == BenchSuite::All ==> s@ == "all"@,
{
    match suite {
        BenchSuite::Micro => "micro",
        BenchSuite::Macro => "macro",
        BenchSuite::All => "all",
    }
}

pub fn default_true() -> (b: bool)
    ensures
        b,
{
    true
}

pub fn default_macro_traffic_mix_iterations() -> (n: u64)
    ensures
        n == 20_000,
{
    20_000
}

pub fn default_macro_stream_iterations() -> (n: u64)
    ensures
        n == 8_000,
{
    8_000
}

pub fn default_macro_stream_chunks() -> (n: usize)
    ensures
        n == 64,
{
    64
}

pub fn default_macro_stream_chunk_bytes() -> (n: usize)
    ensures
        n == 8 * 1024,
{
    8 * 1024
}

/// Whole seconds since the UNIX epoch by the system clock
/// (`SystemTime::now().duration_since(UNIX_EPOCH)`), absent when the clock
/// reads earlier than the epoch. Nothing is promised of the value: it is
/// the time of the call.
#[verifier::external_body]
fn seconds_since_unix_epoch() -> Option<u64> {
    match std::time::SystemTime::now().duration_since(std::time::UNIX_EPOCH) {
        Ok(elapsed) => Some(elapsed.as_secs()),
        Err(_) => None,
    }
}

/// The seconds since the epoch as reported, 0 when the clock read before it.
pub fn unix_seconds_or_zero(elapsed: Option<u64>) -> (secs: u64)
    ensures
        secs == match elapsed {
            Some(s) => s,
            None => 0,
        },
{
    match elapsed {
        Some(s) => s,
        None => 0,
    }
}

/// The current UNIX time in seconds, 0 when the clock reads before 1970.
pub fn unix_now() -> u64 {
    unix_seconds_or_zero(seconds_since_unix_epoch())
}

/// The baseline reports recorded for one release: the paths of its micro
/// and macro reports.
#[derive(Debug, Clone, PartialEq, Eq)]
pub struct ReleaseBaselineEntry {
    pub micro: String,
    pub macro_report: String,
}

/// The releases whose baselines are recorded, by name, and the release
/// that counts as current (empty when none does).
#[derive(Debug, Clone, PartialEq, Eq)]
pub struct ReleaseBaselineIndex {
    pub current_release: String,
    pub releases: Vec<(String, ReleaseBaselineEntry)>,
}

/// The release whose baseline is compared against: the one asked for, else
/// the index's current release when it names one.
pub open spec fn chosen_release(baseline_release: Option<&str>, current: Seq<char>) -> Option<Seq<char>> {
    match baseline_release {
        Some(r) => Some(r@),
        None => if current.len() > 0 {
            Some(current)
        } else {
            None
        },
    }
}

/// The report paths of a release for a suite: micro, macro, or both in
/// that order.
pub open spec fn suite_paths(suite: BenchSuite, e: ReleaseBaselineEntry) -> Seq<Seq<char>> {
    match suite {
        BenchSuite::Micro => seq![e.micro@],
        BenchSuite::Macro => seq![e.macro_report@],
        BenchSuite::All => seq![e.micro@, e.macro_report@],
    }
}

pub open spec fn paths_result_view(r: Result<Vec<String>, String>) -> Result<Seq<Seq<char>>, Seq<char>> {
    match r {
        Ok(v) => Ok(strings_view(v@)),
        Err(e) => Err(e@),
    }
}

/// The baseline reports to compare against: the explicit baseline when
/// one is given; otherwise the reports of the chosen release for the suite.
/// No release to choose, and a release the index does not record, are
/// errors.
pub fn resolve_baseline_paths(
    suite: BenchSuite,
    baseline: Option<&str>,
    baseline_release: Option<&str>,
    index: &ReleaseBaselineIndex,
) -> (r: Result<Vec<String>, String>)
    requires
        keys_distinct(index.releases@),
    ensures
        baseline matches Some(b) ==> paths_result_view(r) == Ok::<Seq<Seq<char>>, Seq<char>>(seq![b@]),
        baseline is None && chosen_release(baseline_release, index.current_release@) is None
            ==> paths_result_view(r) == Err::<Seq<Seq<char>>, Seq<char>>(
            "baseline not specified; pass --baseline or configure --baseline-release / current_release in baseline index"@,
        ),
        baseline is None && chosen_release(baseline_release, index.current_release@) is Some ==> {
            let name = chosen_release(baseline_release, index.current_release@).unwrap();
            &&& (forall|i: int|
                0 <= i < index.releases@.len() ==> (#[trigger] index.releases@[i]).0@ != name)
                ==> paths_result_view(r) == Err::<Seq<Seq<char>>, Seq<char>>(
                "release '"@ + name + "' missing from baseline index"@,
            )
            &&& forall|i: int|
                0 <= i < index.releases@.len() && (#[trigger] index.releases@[i]).0@ == name
                    ==> paths_result_view(r) == Ok::<Seq<Seq<char>>, Seq<char>>(
                    suite_paths(suite, index.releases@[i].1),
                )
        },
{
    if let Some(b) = baseline {
        let v = vec![b.to_owned()];
        proof {
            assert(strings_view(v@) =~= seq![b@]);
        }
        return Ok(v);
    }
    let release: &str = match baseline_release {
        Some(r) => r,
        None => {
            if index.current_release.as_str().unicode_len() == 0 {
                return Err(
                    "baseline not specified; pass --baseline or configure --baseline-release / current_release in baseline index".to_owned(),
                );
            }
            index.current_release.as_str()
        },
    };
    let name = chars_of(release);
    let mut i: usize = 0;
    while i < index.releases.len()
        invariant
            0 <= i <= index.releases.len(),
            name@ == release@,
            baseline is None,
            keys_distinct(index.releases@),
            chosen_release(baseline_release, index.current_release@) == Some(release@),
            forall|j: int| 0 <= j < i ==> (#[trigger] index.releases@[j]).0@ != release@,
        decreases index.releases.len() - i,
    {
        if eq_str(name.as_slice(), index.releases[i].0.as_str()) {
            let e = &index.releases[i].1;
            let paths = match suite {
                BenchSuite::Micro => vec![e.micro.clone()],
                BenchSuite::Macro => vec![e.macro_report.clone()],
                BenchSuite::All => vec![e.micro.clone(), e.macro_report.clone()],
            };
            proof {
                assert(strings_view(paths@) =~= suite_paths(suite, index.releases@[i as int].1));
                assert forall|j: int|
                    0 <= j < index.releases@.len() && (#[trigger] index.releases@[j]).0@ == release@
                    implies j == i by {
                    if j != i {
                        if j < i {
                            assert(index.releases@[j].0@ != index.releases@[i as int].0@);
                        } else {
                            assert(index.releases@[i as int].0@ != index.releases@[j].0@);
                        }
                    }
                }
            }
            return Ok(paths);
        }
        i += 1;
    }
    let mut m = "release '".to_owned();
    m.append(release);
    m.append("' missing from baseline index");
    Err(m)
}

/// How bad a regression is.
#[derive(Debug, Clone, Copy, PartialEq, Eq, Structural)]
pub enum RegressionSeverity {
    Warn,
    Severe,
}

/// Which regressions fail the run: severe ones only, or any.
#[derive(Debug, Clone, Copy, PartialEq, Eq, Structural)]
pub enum FailOn {
    Severe,
    Any,
}

/// How many of `severities` are severe.
pub open spec fn severe_count(severities: Seq<RegressionSeverity>) -> nat
    decreases severities.len(),
{
    if severities.len() == 0 {
        0
    } else {
        severe_count(severities.drop_last()) + if severities.last() == RegressionSeverity::Severe {
            1nat
        } else {
            0nat
        }
    }
}

/// The run fails on a severe regression, or in `Any` mode on any regression.
pub open spec fn regressions_fail(severities: Seq<RegressionSeverity>, fail_on: FailOn) -> bool {
    match fail_on {
        FailOn::Severe => severe_count(severities) > 0,
        FailOn::Any => severities.len() > 0,
    }
}

pub open spec fn fail_on_text(fail_on: FailOn) -> Seq<char> {
    match fail_on {
        FailOn::Severe => "Severe"@,
        FailOn::Any => "Any"@,
    }
}

/// The verdict on the severities of the issues
/// found: the failure message, with the severe and warning counts and the
/// mode, when the run fails; nothing when it passes.
pub fn regression_verdict(severities: &Vec<RegressionSeverity>, fail_on: FailOn) -> (r: Option<String>)
    ensures
        r is Some <==> regressions_fail(severities@, fail_on),
        r matches Some(m) ==> m@ == "benchmark regression gate failed (severe="@ + decimal(
            severe_count(severities@),
        ) + ", warn="@ + decimal((severities@.len() - severe_count(severities@)) as nat) + ", mode="@
            + fail_on_text(fail_on) + ")"@,
{
    let mut severe: usize = 0;
    let mut i: usize = 0;
    while i < severities.len()
        invariant
            0 <= i <= severities.len(),
            severe == severe_count(severities@.take(i as int)),
            severe <= i,
        decreases severities.len() - i,
    {
        proof {
            assert(severities@.take(i + 1).drop_last() =~= severities@.take(i as int));
        }
        if severities[i] == RegressionSeverity::Severe {
            severe += 1;
        }
        i += 1;
    }
    proof {
        assert(severities@.take(severities.len() as int) =~= severities@);
    }
    let warn = severities.len() - severe;
    let fail = match fail_on {
        FailOn::Severe => severe > 0,
        FailOn::Any => severities.len() > 0,
    };
    if !fail {
        return None;
    }
    let mut m = "benchmark regression gate failed (severe=".to_owned();
    push_decimal(&mut m, severe as u64);
    m.append(", warn=");
    push_decimal(&mut m, warn as u64);
    m.append(", mode=");
    match fail_on {
        FailOn::Severe => m.append("Severe"),
        FailOn::Any => m.append("Any"),
    }
    m.append(")");
    Some(m)
}

} // verus!
