//! What the health routes answer. The routes themselves (an Axum router
//! whose handlers await the health registry) live with the server; the
//! answers are decided here, from the registry's reports.
//!
//! - `GET /health/live` — liveness: always 200 with status `alive`.
//! - `GET /health/ready` — readiness: 200 with status `ready` when the
//!   registry reports healthy or degraded, 503 otherwise.
//! - `GET /health` — detailed: status `healthy` when every check is
//!   healthy (also when there is none), else `degraded`, and one entry per
//!   check with its name, whether it is healthy, and its message.

use vstd::prelude::*;

verus! {

/// The health of a component or of the whole service, as the health
/// registry reports it.
#[derive(Debug, Clone, Copy, PartialEq, Eq, Structural)]
pub enum HealthState {
    /// Fully operational.
    Healthy,
    /// Operational but degraded.
    Degraded,
    /// Not operational.
    Unhealthy,
}

impl HealthState {
    /// `Healthy` only.
    pub fn is_healthy(self) -> (r: bool)
        ensures
            r == (self == HealthState::Healthy),
    {
        match self {
            HealthState::Healthy => true,
            _ => false,
        }
    }

    /// Ready to serve: healthy or degraded.
    pub fn is_ready(self) -> (r: bool)
        ensures
            r == (self == HealthState::Healthy || self == HealthState::Degraded),
    {
        match self {
            HealthState::Healthy => true,
            HealthState::Degraded => true,
            HealthState::Unhealthy => false,
        }
    }
}

/// The report of one registered health check.
#[derive(Debug)]
pub struct CheckReport {
    /// The name the check was registered under.
    pub name: String,
    /// What the check found.
    pub state: HealthState,
    /// The check's message, if it gave one.
    pub message: Option<String>,
}

/// One entry of the detailed health answer.
#[derive(Debug)]
pub struct CheckSummary {
    /// The check's name.
    pub name: String,
    /// Whether the check found its component healthy.
    pub healthy: bool,
    /// The check's message, if it gave one.
    pub message: Option<String>,
}

/// The overall status of the detailed health answer.
#[derive(Debug, Clone, Copy, PartialEq, Eq, Structural)]
pub enum OverallStatus {
    /// Every check is healthy.
    Healthy,
    /// Some check is not healthy.
    Degraded,
}

/// The detailed health answer (always sent with status 200).
#[derive(Debug)]
pub struct DetailedHealth {
    /// `healthy` or `degraded`.
    pub status: OverallStatus,
    /// One entry per check, in the order of the reports.
    pub checks: Vec<CheckSummary>,
}

/// The readiness answer.
#[derive(Debug, Clone, Copy, PartialEq, Eq, Structural)]
pub enum Readiness {
    /// 200, with status `ready`.
    Ready,
    /// 503, with no body.
    Unavailable,
}

/// The text of an optional message.
pub open spec fn message_text(m: Option<String>) -> Option<Seq<char>> {
    match m {
        Some(s) => Some(s@),
        None => None,
    }
}

/// `s` is the entry of the detailed answer for the report `r`.
pub open spec fn summarizes(s: CheckSummary, r: CheckReport) -> bool {
    &&& s.name@ == r.name@
    &&& s.healthy == (r.state == HealthState::Healthy)
    &&& message_text(s.message) == message_text(r.message)
}

/// Every report is healthy.
pub open spec fn all_healthy(reports: Seq<CheckReport>) -> bool {
    forall|i: int| 0 <= i < reports.len() ==> #[trigger] reports[i].state == HealthState::Healthy
}

/// `d` is the detailed answer for `reports`.
pub open spec fn details(d: DetailedHealth, reports: Seq<CheckReport>) -> bool {
    &&& d.status == (if all_healthy(reports) {
        OverallStatus::Healthy
    } else {
        OverallStatus::Degraded
    })
    &&& d.checks@.len() == reports.len()
    &&& forall|i: int| 0 <= i < reports.len() ==> #[trigger] summarizes(d.checks@[i], reports[i])
}

/// In a detailed answer the overall status agrees with the entries: it is
/// `healthy` exactly when every listed check is healthy.
pub proof fn lemma_detailed_status_matches_entries(d: DetailedHealth, reports: Seq<CheckReport>)
    requires
        details(d, reports),
    ensures
        (d.status == OverallStatus::Healthy) <==> (forall|i: int|
            0 <= i < d.checks@.len() ==> #[trigger] d.checks@[i].healthy),
{
    if forall|i: int| 0 <= i < d.checks@.len() ==> #[trigger] d.checks@[i].healthy {
        assert forall|i: int| 0 <= i < reports.len() implies #[trigger] reports[i].state
            == HealthState::Healthy by {
            assert(summarizes(d.checks@[i], reports[i]));
            assert(d.checks@[i].healthy);
        }
    }
    if d.status == OverallStatus::Healthy {
        assert forall|i: int| 0 <= i < d.checks@.len() implies #[trigger] d.checks@[i].healthy by {
            assert(summarizes(d.checks@[i], reports[i]));
        }
    }
}

/// Each entry of a detailed answer is made from the report at the same
/// position: same name, healthy exactly when the report is `Healthy`, and
/// the report's message unchanged (absent when it is absent, the same text
/// when present), whatever the report's state. There is one entry per
/// report.
pub proof fn lemma_detailed_entries(d: DetailedHealth, reports: Seq<CheckReport>)
    requires
        details(d, reports),
    ensures
        d.checks@.len() == reports.len(),
        forall|i: int|
            0 <= i < reports.len() ==> {
                let e = #[trigger] d.checks@[i];
                let r = reports[i];
                &&& e.name@ == r.name@
                &&& e.healthy == (r.state == HealthState::Healthy)
                &&& (e.message is None <==> r.message is None)
                &&& (e.message is Some ==> e.message->0@ == r.message->0@)
            },
{
    assert forall|i: int| 0 <= i < reports.len() implies {
        let e = #[trigger] d.checks@[i];
        let r = reports[i];
        &&& e.name@ == r.name@
        &&& e.healthy == (r.state == HealthState::Healthy)
        &&& (e.message is None <==> r.message is None)
        &&& (e.message is Some ==> e.message->0@ == r.message->0@)
    } by {
        assert(summarizes(d.checks@[i], reports[i]));
    }
}

/// The readiness answer for what the registry reported: `None` when the
/// registry failed to report, which counts as unhealthy.
pub open spec fn readiness_of(reported: Option<HealthState>) -> Readiness {
    match reported {
        Some(HealthState::Healthy) => Readiness::Ready,
        Some(HealthState::Degraded) => Readiness::Ready,
        _ => Readiness::Unavailable,
    }
}

/// Readiness is granted exactly for a healthy or degraded report: an
/// unhealthy one, or a registry that failed to report, gets 503.
pub proof fn lemma_readiness_fails_closed(reported: Option<HealthState>)
    ensures
        (readiness_of(reported) == Readiness::Ready) <==> (reported == Some(HealthState::Healthy)
            || reported == Some(HealthState::Degraded)),
        reported is None ==> readiness_of(reported) == Readiness::Unavailable,
        reported == Some(HealthState::Unhealthy) ==> readiness_of(reported) == Readiness::Unavailable,
{
}


impl OverallStatus {
    /// The status text: `healthy` or `degraded`.
    pub fn as_str(self) -> (s: &'static str)
        ensures
            self == OverallStatus::Healthy ==> s@ == seq!['h', 'e', 'a', 'l', 't', 'h', 'y'],
            self == OverallStatus::Degraded ==> s@ == seq!['d', 'e', 'g', 'r', 'a', 'd', 'e', 'd'],
    {
        proof {
            reveal_strlit("healthy");
            reveal_strlit("degraded");
        }
        match self {
            OverallStatus::Healthy => {
                assert("healthy"@ =~= seq!['h', 'e', 'a', 'l', 't', 'h', 'y']);
                "healthy"
            },
            OverallStatus::Degraded => {
                assert("degraded"@ =~= seq!['d', 'e', 'g', 'r', 'a', 'd', 'e', 'd']);
                "degraded"
            },
        }
    }
}

impl Readiness {
    /// The HTTP status code of the answer.
    pub fn status_code(self) -> (code: u16)
        ensures
            self == Readiness::Ready ==> code == 200,
            self == Readiness::Unavailable ==> code == 503,
    {
        match self {
            Readiness::Ready => 200,
            Readiness::Unavailable => 503,
        }
    }
}

/// The status text of the liveness answer, `alive`. Liveness does not
/// depend on any check: the process answering is the proof of life.
pub fn liveness() -> (status: &'static str)
    ensures
        status@ == seq!['a', 'l', 'i', 'v', 'e'],
{
    proof {
        reveal_strlit("alive");
        assert("alive"@ =~= seq!['a', 'l', 'i', 'v', 'e']);
    }
    "alive"
}

/// The status text of a ready answer, `ready`.
pub fn ready_status() -> (status: &'static str)
    ensures
        status@ == seq!['r', 'e', 'a', 'd', 'y'],
{
    proof {
        reveal_strlit("ready");
        assert("ready"@ =~= seq!['r', 'e', 'a', 'd', 'y']);
    }
    "ready"
}

/// The readiness answer for what the registry reported. `None` stands for
/// a registry that failed to report, which is treated as unhealthy.
pub fn readiness(reported: Option<HealthState>) -> (r: Readiness)
    ensures
        r == readiness_of(reported),
{
    let state = match reported {
        Some(s) => s,
        None => HealthState::Unhealthy,
    };
    if state.is_healthy() || state.is_ready() {
        Readiness::Ready
    } else {
        Readiness::Unavailable
    }
}

/// A copy of an optional message.
fn copy_message(m: &Option<String>) -> (c: Option<String>)
    ensures
        message_text(c) == message_text(*m),
{
    match m {
        Some(s) => Some(s.clone()),
        None => None,
    }
}

/// The detailed answer for the reports of every registered check.
pub fn detailed(reports: &[CheckReport]) -> (d: DetailedHealth)
    ensures
        details(d, reports@),
{
    let mut checks: Vec<CheckSummary> = Vec::new();
    let mut healthy = true;
    let mut i: usize = 0;
    while i < reports.len()
        invariant
            i <= reports@.len(),
            checks@.len() == i,
            forall|j: int| 0 <= j < i ==> #[trigger] summarizes(checks@[j], reports@[j]),
            healthy == all_healthy(reports@.take(i as int)),
        decreases reports.len() - i,
    {
        let r = &reports[i];
        let ok = r.state.is_healthy();
        checks.push(CheckSummary { name: r.name.clone(), healthy: ok, message: copy_message(&r.message) });
        let ghost before = reports@.take(i as int);
        let ghost after = reports@.take(i + 1);
        assert(after =~= before.push(reports@[i as int]));
        assert(all_healthy(after) == (all_healthy(before) && ok)) by {
            if all_healthy(after) {
                assert(after[i as int] == reports@[i as int]);
                assert forall|j: int| 0 <= j < before.len() implies #[trigger] before[j].state
                    == HealthState::Healthy by {
                    assert(before[j] == after[j]);
                }
            }
        }
        healthy = healthy && ok;
        i = i + 1;
    }
    assert(reports@.take(i as int) =~= reports@);
    let status = if healthy {
        OverallStatus::Healthy
    } else {
        OverallStatus::Degraded
    };
    DetailedHealth { status, checks }
}

} // verus!
