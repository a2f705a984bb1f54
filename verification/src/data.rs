//! Rows of the store and the small enums persisted inside them.
//!
//! Every enum that is persisted as a small integer gets an explicit,
//! validated conversion in both directions; nothing is reinterpreted.

use vstd::prelude::*;
use vstd::string::StringExecFns;

verus! {

/// One execution attempt of a job on some host.
///
/// States advance only along the edges of `run_state_advances`.
#[derive(Debug, Copy, Clone, PartialEq, Eq, Structural)]
pub enum RunState {
    Pending,
    Started,
    Finished,
    Error,
    Invalid,
}

impl RunState {
    /// The small integer under which this state is persisted.
    pub open spec fn spec_to_u8(self) -> u8 {
        match self {
            RunState::Pending => 0,
            RunState::Started => 1,
            RunState::Finished => 2,
            RunState::Error => 3,
            RunState::Invalid => 4,
        }
    }

    pub fn to_u8(&self) -> (r: u8)
        ensures
            r == self.spec_to_u8(),
    {
        match self {
            RunState::Pending => 0,
            RunState::Started => 1,
            RunState::Finished => 2,
            RunState::Error => 3,
            RunState::Invalid => 4,
        }
    }

    pub open spec fn spec_from_u8(value: u8) -> Option<RunState> {
        if value == 0 {
            Some(RunState::Pending)
        } else if value == 1 {
            Some(RunState::Started)
        } else if value == 2 {
            Some(RunState::Finished)
        } else if value == 3 {
            Some(RunState::Error)
        } else if value == 4 {
            Some(RunState::Invalid)
        } else {
            None
        }
    }

    /// Validated decoding of a persisted state; out-of-range values are refused.
    pub fn from_u8(value: u8) -> (r: Option<RunState>)
        ensures
            r == Self::spec_from_u8(value),
    {
        match value {
            0 => Some(RunState::Pending),
            1 => Some(RunState::Started),
            2 => Some(RunState::Finished),
            3 => Some(RunState::Error),
            4 => Some(RunState::Invalid),
            _ => None,
        }
    }

    /// Decoding inverts encoding: a state written as its integer is read back as itself.
    pub proof fn lemma_u8_round_trip(s: RunState)
        ensures
            Self::spec_from_u8(s.spec_to_u8()) == Some(s),
    {
    }
}

/// The edges along which a run's state may move; reflexivity stands for
/// "no change".  `Pending` runs may be claimed or swept invalid; `Started`
/// runs finish, fail, or are invalidated; terminal states never move.
pub open spec fn run_state_advances(a: RunState, b: RunState) -> bool {
    a == b || match a {
        RunState::Pending => b == RunState::Started || b == RunState::Invalid,
        RunState::Started => b == RunState::Finished || b == RunState::Error || b
            == RunState::Invalid,
        RunState::Finished => false,
        RunState::Error => false,
        RunState::Invalid => false,
    }
}

/// Where a run can end up from a given state by following edges:
/// everywhere from `Pending`, anywhere but back to `Pending` from
/// `Started`, and nowhere from a terminal state.
pub open spec fn run_state_reachable(a: RunState, b: RunState) -> bool {
    a == b || match a {
        RunState::Pending => true,
        RunState::Started => b != RunState::Pending,
        RunState::Finished => false,
        RunState::Error => false,
        RunState::Invalid => false,
    }
}

/// Every edge moves to a reachable state.
pub proof fn lemma_advance_is_reachable(a: RunState, b: RunState)
    requires
        run_state_advances(a, b),
    ensures
        run_state_reachable(a, b),
{
}

/// The state machine has no backward path: reachability composes, so a
/// sequence of edges never returns to an earlier state.
pub proof fn lemma_run_state_reachable_transitive(a: RunState, b: RunState, c: RunState)
    requires
        run_state_reachable(a, b),
        run_state_reachable(b, c),
    ensures
        run_state_reachable(a, c),
{
}

/// The terminal outcome a worker reports for a run.
#[derive(Debug, Clone, Copy, PartialEq, Eq, Structural)]
pub enum JobResult {
    Pass,
    Fail,
}

impl JobResult {
    pub open spec fn spec_to_u8(self) -> u8 {
        match self {
            JobResult::Pass => 0,
            JobResult::Fail => 1,
        }
    }

    pub fn to_u8(&self) -> (r: u8)
        ensures
            r == self.spec_to_u8(),
    {
        match self {
            JobResult::Pass => 0,
            JobResult::Fail => 1,
        }
    }
}

/// How a build token presented by a worker relates to a run.
#[derive(Debug, Clone, Copy, PartialEq, Eq, Structural)]
pub enum TokenValidity {
    Expired,
    Invalid,
    Valid,
}

/// State of a human-oriented name attached to a commit.
#[derive(Debug, Clone, PartialEq, Eq, Structural)]
pub enum NameState {
    Fresh,
    Stale,
    ShortSha,
}

impl NameState {
    pub open spec fn spec_to_u8(self) -> u8 {
        match self {
            NameState::Fresh => 0,
            NameState::Stale => 1,
            NameState::ShortSha => 2,
        }
    }

    pub fn to_u8(&self) -> (r: u8)
        ensures
            r == self.spec_to_u8(),
    {
        match self {
            NameState::Fresh => 0,
            NameState::Stale => 1,
            NameState::ShortSha => 2,
        }
    }

    pub open spec fn spec_from_u8(value: u8) -> Option<NameState> {
        if value == 0 {
            Some(NameState::Fresh)
        } else if value == 1 {
            Some(NameState::Stale)
        } else if value == 2 {
            Some(NameState::ShortSha)
        } else {
            None
        }
    }

    /// Validated decoding of a persisted name state.
    pub fn from_u8(value: u8) -> (r: Option<NameState>)
        ensures
            r == Self::spec_from_u8(value),
    {
        match value {
            0 => Some(NameState::Fresh),
            1 => Some(NameState::Stale),
            2 => Some(NameState::ShortSha),
            _ => None,
        }
    }

    pub proof fn lemma_u8_round_trip(s: NameState)
        ensures
            Self::spec_from_u8(s.spec_to_u8()) == Some(s),
    {
    }
}

/// A human-oriented label for a commit: a branch, a tag, or a sha prefix.
pub struct CommitName {
    pub name: String,
    pub state: NameState,
}

impl CommitName {
    /// A name is stale when it no longer resolves to this commit upstream.
    pub fn stale(&self) -> (r: bool)
        ensures
            r == (self.state != NameState::Fresh),
    {
        self.state != NameState::Fresh
    }

    /// The name as shown to a human, with stale names marked as such.
    pub fn stringy(&self) -> (r: String)
        ensures
            r@ == match self.state {
                NameState::Fresh => self.name@,
                NameState::Stale => self.name@ + " (stale)"@,
                NameState::ShortSha => self.name@,
            },
    {
        match self.state {
            NameState::Fresh => self.name.clone(),
            NameState::Stale => {
                let mut labeled = self.name.clone();
                labeled.append(" (stale)");
                labeled
            },
            NameState::ShortSha => self.name.clone(),
        }
    }
}

/// An operator-declared unit of CI interest.
#[derive(Debug, Clone)]
pub struct Repo {
    pub id: u64,
    pub name: String,
    pub default_run_preference: Option<String>,
}

/// A provider-hosted mirror of a repo.
#[derive(Debug, Clone)]
pub struct Remote {
    pub id: u64,
    pub repo_id: u64,
    pub remote_path: String,
    pub remote_api: String,
    pub remote_url: String,
    pub remote_git_url: String,
    pub notifier_config_path: String,
}

/// A content hash observed from any remote; immutable once inserted.
#[derive(Debug, Clone)]
pub struct Commit {
    pub id: u64,
    pub sha: String,
}

/// The commitment to evaluate one commit on one remote.  At most one job
/// exists per `(remote_id, commit_id)` pair.
#[derive(Debug, Clone)]
pub struct Job {
    pub id: u64,
    pub remote_id: u64,
    pub commit_id: u64,
    pub created_time: u64,
    pub source: Option<String>,
    pub run_preferences: Option<String>,
}

/// One attempt to execute a job on some host.
#[derive(Debug, Clone)]
pub struct Run {
    pub id: u64,
    pub job_id: u64,
    pub artifacts_path: Option<String>,
    pub state: RunState,
    pub host_id: Option<u64>,
    pub create_time: u64,
    pub start_time: Option<u64>,
    pub complete_time: Option<u64>,
    pub build_token: Option<String>,
    pub run_timeout: Option<u64>,
    pub build_result: Option<u8>,
    pub final_text: Option<String>,
    pub host_preference: Option<u64>,
}

/// The slice of a run that a scheduler needs to hand it out.
#[derive(Debug, Clone)]
pub struct PendingRun {
    pub id: u64,
    pub job_id: u64,
    pub create_time: u64,
}

impl Run {
    /// Project a run down to what a claimant is shown.
    pub fn into_pending_run(self) -> (r: PendingRun)
        ensures
            r.id == self.id,
            r.job_id == self.job_id,
            r.create_time == self.create_time,
    {
        PendingRun { id: self.id, job_id: self.job_id, create_time: self.create_time }
    }
}

/// A `(run, name)` datum produced during a run; unique per pair.
#[derive(Debug, Clone, PartialEq, Eq)]
pub struct MetricRecord {
    pub id: u64,
    pub run_id: u64,
    pub name: String,
    pub value: String,
}

/// A named blob stream belonging to a run; `completed_time` is `None`
/// while the upload is still in progress.
#[derive(Debug, Clone, PartialEq, Eq)]
pub struct ArtifactRecord {
    pub id: u64,
    pub run_id: u64,
    pub name: String,
    pub desc: String,
    pub created_time: u64,
    pub completed_time: Option<u64>,
}

} // verus!
