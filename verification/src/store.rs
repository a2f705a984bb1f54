//! The serialized store of repos, remotes, commits, jobs, runs, metrics
//! and artifacts.
//!
//! Every operation is one logical transaction: callers see either the
//! whole effect or none.  The store carries a logical clock so that the
//! timestamps it writes never move backwards, and its well-formedness
//! predicate `wf` keeps the uniqueness rules the schema would enforce:
//! unique repo names, unique commit shas, at most one job per
//! `(remote_id, commit_id)` pair, and at most one metric per
//! `(run_id, name)` pair.

use vstd::prelude::*;
use crate::data::{
    ArtifactRecord, Commit, Job, JobResult, MetricRecord, Remote, Repo, Run, RunState,
    TokenValidity, run_state_advances,
};
use crate::strutil::str_eq;

verus! {

/// Why a store operation refused to act.
#[derive(Debug, Clone, Copy, PartialEq, Eq, Structural)]
pub enum StoreError {
    /// A uniqueness rule would have been broken.
    Duplicate,
    /// The named row does not exist.
    NotFound,
    /// The presented build token is not the run's token.
    TokenInvalid,
    /// The run is not in a state that allows the operation.
    StateInvalid,
}

/// The view of an optional string as an optional sequence of characters.
pub open spec fn opt_str_view(o: Option<String>) -> Option<Seq<char>> {
    match o {
        Some(s) => Some(s@),
        None => None,
    }
}

/// `b` is `a` with exactly one row appended.
pub open spec fn grows_by_one<T>(a: Seq<T>, b: Seq<T>) -> bool {
    b.len() == a.len() + 1 && forall|i: int| 0 <= i < a.len() ==> a[i] == #[trigger] b[i]
}

/// The remotes rows that belong to one repo.
pub open spec fn remote_of_repo(repo_id: u64) -> spec_fn(Remote) -> bool {
    |rm: Remote| rm.repo_id == repo_id
}

/// The jobs the host-coverage sweep owes a run on one host: jobs asking
/// to run on all hosts, seen after `since`, that this host has not run.
pub open spec fn job_needs_host(runs: Seq<Run>, host_id: u64, since: u64) -> spec_fn(Job) -> bool {
    |j: Job|
        {
            &&& opt_str_view(j.run_preferences) == Some("all"@)
            &&& j.created_time > since
            &&& forall|k: int|
                0 <= k < runs.len() ==> !((#[trigger] runs[k]).job_id == j.id && runs[k].host_id
                    == Some(host_id))
        }
}

/// The ids of a run of jobs, in order.
pub open spec fn job_ids(jobs: Seq<Job>) -> Seq<u64> {
    jobs.map_values(|j: Job| j.id)
}

/// The metric rows that belong to one run.
pub open spec fn metric_of_run(run_id: u64) -> spec_fn(MetricRecord) -> bool {
    |m: MetricRecord| m.run_id == run_id
}

/// The runs that still hold or await a worker.
pub open spec fn run_is_active(r: Run) -> bool {
    r.state == RunState::Pending || r.state == RunState::Started
}

/// `run_is_active`, as a value for filtering.
pub open spec fn active_run_pred() -> spec_fn(Run) -> bool {
    |r: Run| run_is_active(r)
}

/// The timestamp an operation writes: wall-clock time, never behind the
/// store's logical clock.
pub open spec fn spec_stamp(clock: u64, now: u64) -> u64 {
    if now > clock {
        now
    } else {
        clock
    }
}

/// The durable state, kept as one table per row kind.  Row ids are
/// assigned in insertion order starting from 1, so the row with id `n`
/// sits at index `n - 1`.
pub struct Store {
    pub repos: Vec<Repo>,
    pub remotes: Vec<Remote>,
    pub commits: Vec<Commit>,
    pub jobs: Vec<Job>,
    pub runs: Vec<Run>,
    pub metrics: Vec<MetricRecord>,
    pub artifacts: Vec<ArtifactRecord>,
    /// The largest timestamp ever written; new stamps never fall below it.
    pub clock: u64,
}

impl Store {
    pub open spec fn repos_wf(self) -> bool {
        &&& forall|i: int| 0 <= i < self.repos@.len() ==> (#[trigger] self.repos@[i]).id == i + 1
        &&& forall|i: int, j: int|
            0 <= i < j < self.repos@.len() ==> (#[trigger] self.repos@[i]).name@ != (
            #[trigger] self.repos@[j]).name@
    }

    pub open spec fn remotes_wf(self) -> bool {
        &&& forall|i: int| 0 <= i < self.remotes@.len() ==> (#[trigger] self.remotes@[i]).id == i
            + 1
        &&& forall|i: int|
            0 <= i < self.remotes@.len() ==> 1 <= (#[trigger] self.remotes@[i]).repo_id <= self.repos@.len()
    }

    pub open spec fn commits_wf(self) -> bool {
        &&& forall|i: int| 0 <= i < self.commits@.len() ==> (#[trigger] self.commits@[i]).id == i
            + 1
        &&& forall|i: int, j: int|
            0 <= i < j < self.commits@.len() ==> (#[trigger] self.commits@[i]).sha@ != (
            #[trigger] self.commits@[j]).sha@
    }

    pub open spec fn jobs_wf(self) -> bool {
        &&& forall|i: int| 0 <= i < self.jobs@.len() ==> (#[trigger] self.jobs@[i]).id == i + 1
        &&& forall|i: int|
            0 <= i < self.jobs@.len() ==> 1 <= (#[trigger] self.jobs@[i]).remote_id
                <= self.remotes@.len()
        &&& forall|i: int|
            0 <= i < self.jobs@.len() ==> 1 <= (#[trigger] self.jobs@[i]).commit_id
                <= self.commits@.len()
        &&& forall|i: int|
            0 <= i < self.jobs@.len() ==> (#[trigger] self.jobs@[i]).created_time <= self.clock
        &&& forall|i: int, j: int|
            #![trigger self.jobs@[i], self.jobs@[j]]
            0 <= i < j < self.jobs@.len() ==> !(self.jobs@[i].remote_id == self.jobs@[j].remote_id
                && self.jobs@[i].commit_id == self.jobs@[j].commit_id)
    }

    /// The fields of one run agree with its state and with the clock:
    /// timestamps are ordered and a run carries a host, token and times
    /// exactly as far as its state has come.
    pub open spec fn run_wf(r: Run, clock: u64) -> bool {
        &&& r.create_time <= clock
        &&& match r.start_time {
            Some(s) => r.create_time <= s <= clock,
            None => true,
        }
        &&& match r.complete_time {
            Some(c) => {
                &&& r.create_time <= c <= clock
                &&& match r.start_time {
                    Some(s) => s <= c,
                    None => true,
                }
            },
            None => true,
        }
        &&& match r.state {
            RunState::Pending => {
                &&& r.host_id is None
                &&& r.build_token is None
                &&& r.start_time is None
                &&& r.complete_time is None
                &&& r.build_result is None
            },
            RunState::Started => {
                &&& r.host_id is Some
                &&& r.build_token is Some
                &&& r.start_time is Some
                &&& r.complete_time is None
                &&& r.build_result is None
            },
            RunState::Finished => {
                &&& r.start_time is Some
                &&& r.complete_time is Some
                &&& r.build_result == Some(JobResult::Pass.spec_to_u8())
            },
            RunState::Error => {
                &&& r.start_time is Some
                &&& r.complete_time is Some
                &&& r.build_result == Some(JobResult::Fail.spec_to_u8())
            },
            RunState::Invalid => true,
        }
    }

    pub open spec fn runs_wf(self) -> bool {
        &&& forall|i: int| 0 <= i < self.runs@.len() ==> (#[trigger] self.runs@[i]).id == i + 1
        &&& forall|i: int|
            0 <= i < self.runs@.len() ==> 1 <= (#[trigger] self.runs@[i]).job_id
                <= self.jobs@.len()
        &&& forall|i: int|
            0 <= i < self.runs@.len() ==> Self::run_wf(#[trigger] self.runs@[i], self.clock)
        &&& forall|i: int, j: int|
            #![trigger self.runs@[i], self.runs@[j]]
            0 <= i <= j < self.runs@.len() ==> self.runs@[i].create_time
                <= self.runs@[j].create_time
    }

    pub open spec fn metrics_wf(self) -> bool {
        &&& forall|i: int| 0 <= i < self.metrics@.len() ==> (#[trigger] self.metrics@[i]).id == i
            + 1
        &&& forall|i: int|
            0 <= i < self.metrics@.len() ==> 1 <= (#[trigger] self.metrics@[i]).run_id
                <= self.runs@.len()
        &&& forall|i: int, j: int|
            #![trigger self.metrics@[i], self.metrics@[j]]
            0 <= i < j < self.metrics@.len() ==> !(self.metrics@[i].run_id
                == self.metrics@[j].run_id && self.metrics@[i].name@ == self.metrics@[j].name@)
    }

    pub open spec fn artifacts_wf(self) -> bool {
        &&& forall|i: int|
            0 <= i < self.artifacts@.len() ==> (#[trigger] self.artifacts@[i]).id == i + 1
        &&& forall|i: int|
            0 <= i < self.artifacts@.len() ==> 1 <= (#[trigger] self.artifacts@[i]).run_id
                <= self.runs@.len()
        &&& forall|i: int|
            0 <= i < self.artifacts@.len() ==> (#[trigger] self.artifacts@[i]).created_time
                <= self.clock
        &&& forall|i: int|
            0 <= i < self.artifacts@.len() ==> match (#[trigger] self.artifacts@[i]).completed_time {
                Some(c) => self.artifacts@[i].created_time <= c <= self.clock,
                None => true,
            }
    }

    /// Every uniqueness and coherence rule of the schema at once.
    pub open spec fn wf(self) -> bool {
        &&& self.repos_wf()
        &&& self.remotes_wf()
        &&& self.commits_wf()
        &&& self.jobs_wf()
        &&& self.runs_wf()
        &&& self.metrics_wf()
        &&& self.artifacts_wf()
    }

    // What an operation leaves untouched.
    pub open spec fn only_repos_changed(a: Store, b: Store) -> bool {
        &&& a.remotes@ == b.remotes@
        &&& a.commits@ == b.commits@
        &&& a.jobs@ == b.jobs@
        &&& a.runs@ == b.runs@
        &&& a.metrics@ == b.metrics@
        &&& a.artifacts@ == b.artifacts@
        &&& a.clock == b.clock
    }

    pub open spec fn only_remotes_changed(a: Store, b: Store) -> bool {
        &&& a.repos@ == b.repos@
        &&& a.commits@ == b.commits@
        &&& a.jobs@ == b.jobs@
        &&& a.runs@ == b.runs@
        &&& a.metrics@ == b.metrics@
        &&& a.artifacts@ == b.artifacts@
        &&& a.clock == b.clock
    }

    pub open spec fn only_commits_changed(a: Store, b: Store) -> bool {
        &&& a.repos@ == b.repos@
        &&& a.remotes@ == b.remotes@
        &&& a.jobs@ == b.jobs@
        &&& a.runs@ == b.runs@
        &&& a.metrics@ == b.metrics@
        &&& a.artifacts@ == b.artifacts@
        &&& a.clock == b.clock
    }

    pub open spec fn only_commits_jobs_clock_changed(a: Store, b: Store) -> bool {
        &&& a.repos@ == b.repos@
        &&& a.remotes@ == b.remotes@
        &&& a.runs@ == b.runs@
        &&& a.metrics@ == b.metrics@
        &&& a.artifacts@ == b.artifacts@
    }

    pub open spec fn only_runs_clock_changed(a: Store, b: Store) -> bool {
        &&& a.repos@ == b.repos@
        &&& a.remotes@ == b.remotes@
        &&& a.commits@ == b.commits@
        &&& a.jobs@ == b.jobs@
        &&& a.metrics@ == b.metrics@
        &&& a.artifacts@ == b.artifacts@
    }

    pub open spec fn only_metrics_changed(a: Store, b: Store) -> bool {
        &&& a.repos@ == b.repos@
        &&& a.remotes@ == b.remotes@
        &&& a.commits@ == b.commits@
        &&& a.jobs@ == b.jobs@
        &&& a.runs@ == b.runs@
        &&& a.artifacts@ == b.artifacts@
        &&& a.clock == b.clock
    }

    pub open spec fn only_artifacts_clock_changed(a: Store, b: Store) -> bool {
        &&& a.repos@ == b.repos@
        &&& a.remotes@ == b.remotes@
        &&& a.commits@ == b.commits@
        &&& a.jobs@ == b.jobs@
        &&& a.runs@ == b.runs@
        &&& a.metrics@ == b.metrics@
    }

    // Existence predicates the contracts speak of.
    pub open spec fn has_repo_named(self, name: Seq<char>) -> bool {
        exists|i: int| 0 <= i < self.repos@.len() && (#[trigger] self.repos@[i]).name@ == name
    }

    pub open spec fn has_commit(self, sha: Seq<char>) -> bool {
        exists|i: int| 0 <= i < self.commits@.len() && (#[trigger] self.commits@[i]).sha@ == sha
    }

    pub open spec fn has_job_for_pair(self, remote_id: u64, commit_id: u64) -> bool {
        exists|i: int|
            0 <= i < self.jobs@.len() && (#[trigger] self.jobs@[i]).remote_id == remote_id
                && self.jobs@[i].commit_id == commit_id
    }

    /// An empty store, before any admin operation has run.
    pub fn new() -> (s: Store)
        ensures
            s.wf(),
            s.repos@.len() == 0,
            s.remotes@.len() == 0,
            s.commits@.len() == 0,
            s.jobs@.len() == 0,
            s.runs@.len() == 0,
            s.metrics@.len() == 0,
            s.artifacts@.len() == 0,
            s.clock == 0,
    {
        Store {
            repos: Vec::new(),
            remotes: Vec::new(),
            commits: Vec::new(),
            jobs: Vec::new(),
            runs: Vec::new(),
            metrics: Vec::new(),
            artifacts: Vec::new(),
            clock: 0,
        }
    }

    /// Advance the logical clock to `now` if that moves it forward, and
    /// return the timestamp this transaction writes.
    fn tick(&mut self, now: u64) -> (t: u64)
        ensures
            t == spec_stamp(old(self).clock, now),
            old(self).clock <= t,
            now <= t,
            final(self).clock == t,
            final(self).repos@ == old(self).repos@,
            final(self).remotes@ == old(self).remotes@,
            final(self).commits@ == old(self).commits@,
            final(self).jobs@ == old(self).jobs@,
            final(self).runs@ == old(self).runs@,
            final(self).metrics@ == old(self).metrics@,
            final(self).artifacts@ == old(self).artifacts@,
    {
        if now > self.clock {
            self.clock = now;
        }
        self.clock
    }

    /// Index of the repo with this name, along with the knowledge that no
    /// earlier row carries it.
    fn find_repo_by_name(&self, name: &str) -> (r: Option<usize>)
        ensures
            match r {
                Some(i) => i < self.repos@.len() && self.repos@[i as int].name@ == name@,
                None => forall|k: int|
                    0 <= k < self.repos@.len() ==> (#[trigger] self.repos@[k]).name@ != name@,
            },
    {
        let n = self.repos.len();
        let mut i: usize = 0;
        while i < n
            invariant
                n == self.repos@.len(),
                i <= n,
                forall|k: int| 0 <= k < i ==> (#[trigger] self.repos@[k]).name@ != name@,
            decreases n - i,
        {
            if str_eq(self.repos[i].name.as_str(), name) {
                return Some(i);
            }
            i = i + 1;
        }
        None
    }

    /// Create a repo with a fresh id; refuse a name that already exists.
    pub fn new_repo(&mut self, name: &str) -> (r: Result<u64, StoreError>)
        requires
            old(self).wf(),
            old(self).repos@.len() < u64::MAX,
        ensures
            final(self).wf(),
            match r {
                Ok(id) => {
                    &&& !old(self).has_repo_named(name@)
                    &&& id == old(self).repos@.len() + 1
                    &&& grows_by_one(old(self).repos@, final(self).repos@)
                    &&& final(self).repos@.last().id == id
                    &&& final(self).repos@.last().name@ == name@
                    &&& final(self).repos@.last().default_run_preference is None
                    &&& Self::only_repos_changed(*old(self), *final(self))
                },
                Err(e) => {
                    &&& e == StoreError::Duplicate
                    &&& old(self).has_repo_named(name@)
                    &&& *final(self) == *old(self)
                },
            },
    {
        match self.find_repo_by_name(name) {
            Some(_) => Err(StoreError::Duplicate),
            None => {
                let id = (self.repos.len() as u64) + 1;
                let row = Repo { id, name: name.to_owned(), default_run_preference: None };
                self.repos.push(row);
                Ok(id)
            },
        }
    }

    /// The id of the repo with this name, if any.
    pub fn repo_id_by_name(&self, name: &str) -> (r: Option<u64>)
        requires
            self.wf(),
        ensures
            match r {
                Some(id) => exists|i: int|
                    0 <= i < self.repos@.len() && (#[trigger] self.repos@[i]).name@ == name@
                        && self.repos@[i].id == id,
                None => !self.has_repo_named(name@),
            },
    {
        match self.find_repo_by_name(name) {
            Some(i) => Some(self.repos[i].id),
            None => None,
        }
    }

    /// The repo row with this id, if any.
    pub fn repo_by_id(&self, repo_id: u64) -> (r: Option<Repo>)
        requires
            self.wf(),
        ensures
            match r {
                Some(repo) => 1 <= repo_id <= self.repos@.len() && repo == self.repos@[repo_id
                    - 1],
                None => !(1 <= repo_id <= self.repos@.len()),
            },
    {
        if repo_id >= 1 && repo_id <= self.repos.len() as u64 {
            let i = (repo_id - 1) as usize;
            let row = &self.repos[i];
            let copy = Repo {
                id: row.id,
                name: row.name.clone(),
                default_run_preference: clone_opt_string(&row.default_run_preference),
            };
            proof {
                assert(copy == self.repos@[repo_id - 1]);
            }
            Some(copy)
        } else {
            None
        }
    }

    /// Register a remote of an existing repo.
    pub fn new_remote(
        &mut self,
        repo_id: u64,
        remote_path: &str,
        remote_api: &str,
        remote_url: &str,
        remote_git_url: &str,
        notifier_config_path: &str,
    ) -> (r: Result<u64, StoreError>)
        requires
            old(self).wf(),
            old(self).remotes@.len() < u64::MAX,
        ensures
            final(self).wf(),
            match r {
                Ok(id) => {
                    &&& 1 <= repo_id <= old(self).repos@.len()
                    &&& id == old(self).remotes@.len() + 1
                    &&& grows_by_one(old(self).remotes@, final(self).remotes@)
                    &&& final(self).remotes@.last().id == id
                    &&& final(self).remotes@.last().repo_id == repo_id
                    &&& final(self).remotes@.last().remote_path@ == remote_path@
                    &&& final(self).remotes@.last().remote_api@ == remote_api@
                    &&& final(self).remotes@.last().remote_url@ == remote_url@
                    &&& final(self).remotes@.last().remote_git_url@ == remote_git_url@
                    &&& final(self).remotes@.last().notifier_config_path@
                        == notifier_config_path@
                    &&& Self::only_remotes_changed(*old(self), *final(self))
                },
                Err(e) => {
                    &&& e == StoreError::NotFound
                    &&& !(1 <= repo_id <= old(self).repos@.len())
                    &&& *final(self) == *old(self)
                },
            },
    {
        if repo_id < 1 || repo_id > self.repos.len() as u64 {
            return Err(StoreError::NotFound);
        }
        let id = (self.remotes.len() as u64) + 1;
        let row = Remote {
            id,
            repo_id,
            remote_path: remote_path.to_owned(),
            remote_api: remote_api.to_owned(),
            remote_url: remote_url.to_owned(),
            remote_git_url: remote_git_url.to_owned(),
            notifier_config_path: notifier_config_path.to_owned(),
        };
        self.remotes.push(row);
        proof {
            let a = old(self).remotes@;
            let b = self.remotes@;
            assert forall|i: int| 0 <= i < b.len() implies (#[trigger] b[i]).id == i + 1 by {
                if i < a.len() {
                    assert(b[i] == a[i]);
                }
            }
            assert forall|i: int| 0 <= i < b.len() implies 1 <= (#[trigger] b[i]).repo_id
                <= self.repos@.len() by {
                if i < a.len() {
                    assert(b[i] == a[i]);
                }
            }
        }
        Ok(id)
    }

    /// The first remote with this api kind and provider-local path.
    pub fn remote_by_path_and_api(&self, remote_api: &str, remote_path: &str) -> (r: Option<
        Remote,
    >)
        requires
            self.wf(),
        ensures
            match r {
                Some(remote) => exists|i: int|
                    {
                        &&& 0 <= i < self.remotes@.len()
                        &&& remote == #[trigger] self.remotes@[i]
                        &&& remote.remote_api@ == remote_api@
                        &&& remote.remote_path@ == remote_path@
                        &&& forall|k: int|
                            0 <= k < i ==> !((#[trigger] self.remotes@[k]).remote_api@
                                == remote_api@ && self.remotes@[k].remote_path@ == remote_path@)
                    },
                None => forall|i: int|
                    0 <= i < self.remotes@.len() ==> !((#[trigger] self.remotes@[i]).remote_api@
                        == remote_api@ && self.remotes@[i].remote_path@ == remote_path@),
            },
    {
        let n = self.remotes.len();
        let mut i: usize = 0;
        while i < n
            invariant
                n == self.remotes@.len(),
                i <= n,
                forall|k: int|
                    0 <= k < i ==> !((#[trigger] self.remotes@[k]).remote_api@ == remote_api@
                        && self.remotes@[k].remote_path@ == remote_path@),
            decreases n - i,
        {
            let row = &self.remotes[i];
            if str_eq(row.remote_api.as_str(), remote_api) && str_eq(
                row.remote_path.as_str(),
                remote_path,
            ) {
                return Some(clone_remote(row));
            }
            i = i + 1;
        }
        None
    }

    /// The first remote carrying this provider-local path, whatever its
    /// api kind, as the status page resolves it.
    pub fn remote_by_path(&self, remote_path: &str) -> (r: Option<Remote>)
        requires
            self.wf(),
        ensures
            match r {
                Some(remote) => exists|i: int|
                    {
                        &&& 0 <= i < self.remotes@.len()
                        &&& remote == #[trigger] self.remotes@[i]
                        &&& remote.remote_path@ == remote_path@
                        &&& forall|k: int|
                            0 <= k < i ==> (#[trigger] self.remotes@[k]).remote_path@
                                != remote_path@
                    },
                None => forall|i: int|
                    0 <= i < self.remotes@.len() ==> (#[trigger] self.remotes@[i]).remote_path@
                        != remote_path@,
            },
    {
        let n = self.remotes.len();
        let mut i: usize = 0;
        while i < n
            invariant
                n == self.remotes@.len(),
                i <= n,
                forall|k: int|
                    0 <= k < i ==> (#[trigger] self.remotes@[k]).remote_path@ != remote_path@,
            decreases n - i,
        {
            let row = &self.remotes[i];
            if str_eq(row.remote_path.as_str(), remote_path) {
                return Some(clone_remote(row));
            }
            i = i + 1;
        }
        None
    }

    /// All remotes registered for one repo, in insertion order.
    pub fn remotes_for_repo(&self, repo_id: u64) -> (r: Vec<Remote>)
        requires
            self.wf(),
        ensures
            r@ == self.remotes@.filter(remote_of_repo(repo_id)),
    {
        let n = self.remotes.len();
        let mut out: Vec<Remote> = Vec::new();
        let mut i: usize = 0;
        proof {
            assert(self.remotes@.take(0).filter(remote_of_repo(repo_id)) =~= Seq::<
                Remote,
            >::empty()) by {
                reveal_with_fuel(Seq::<Remote>::filter, 1);
            }
        }
        while i < n
            invariant
                n == self.remotes@.len(),
                i <= n,
                out@ == self.remotes@.take(i as int).filter(remote_of_repo(repo_id)),
            decreases n - i,
        {
            let ghost pref = self.remotes@.take(i as int);
            let row = &self.remotes[i];
            if row.repo_id == repo_id {
                out.push(clone_remote(row));
            }
            proof {
                assert(self.remotes@.take(i + 1).drop_last() =~= pref);
                assert(self.remotes@.take(i + 1).last() == self.remotes@[i as int]);
                reveal_with_fuel(Seq::<Remote>::filter, 2);
            }
            i = i + 1;
        }
        proof {
            assert(self.remotes@.take(n as int) =~= self.remotes@);
        }
        out
    }

    /// Every repo row, in insertion order.
    pub fn all_repos(&self) -> (r: Vec<Repo>)
        requires
            self.wf(),
        ensures
            r@ == self.repos@,
    {
        let n = self.repos.len();
        let mut out: Vec<Repo> = Vec::new();
        let mut i: usize = 0;
        while i < n
            invariant
                n == self.repos@.len(),
                i <= n,
                out@.len() == i,
                forall|k: int| 0 <= k < i ==> out@[k] == self.repos@[k],
            decreases n - i,
        {
            let row = &self.repos[i];
            out.push(
                Repo {
                    id: row.id,
                    name: row.name.clone(),
                    default_run_preference: clone_opt_string(&row.default_run_preference),
                },
            );
            i = i + 1;
        }
        proof {
            assert(out@ =~= self.repos@);
        }
        out
    }

    /// Index of the commit with this sha.
    fn find_commit_by_sha(&self, sha: &str) -> (r: Option<usize>)
        ensures
            match r {
                Some(i) => i < self.commits@.len() && self.commits@[i as int].sha@ == sha@,
                None => forall|k: int|
                    0 <= k < self.commits@.len() ==> (#[trigger] self.commits@[k]).sha@ != sha@,
            },
    {
        let n = self.commits.len();
        let mut i: usize = 0;
        while i < n
            invariant
                n == self.commits@.len(),
                i <= n,
                forall|k: int| 0 <= k < i ==> (#[trigger] self.commits@[k]).sha@ != sha@,
            decreases n - i,
        {
            if str_eq(self.commits[i].sha.as_str(), sha) {
                return Some(i);
            }
            i = i + 1;
        }
        None
    }

    /// The id of the commit row with this sha, if present.
    pub fn commit_id_by_sha(&self, sha: &str) -> (r: Option<u64>)
        requires
            self.wf(),
        ensures
            match r {
                Some(id) => 1 <= id <= self.commits@.len() && self.commits@[id - 1].sha@ == sha@,
                None => !self.has_commit(sha@),
            },
    {
        match self.find_commit_by_sha(sha) {
            Some(i) => Some((i as u64) + 1),
            None => None,
        }
    }

    /// Record a sha if it is new; either way hand back its row id.
    /// Idempotent: a second call with the same sha changes nothing.
    pub fn ensure_commit(&mut self, sha: &str) -> (r: (u64, bool))
        requires
            old(self).wf(),
            old(self).commits@.len() < u64::MAX,
        ensures
            final(self).wf(),
            r.1 == !old(self).has_commit(sha@),
            Self::only_commits_changed(*old(self), *final(self)),
            final(self).has_commit(sha@),
            1 <= r.0 <= final(self).commits@.len(),
            final(self).commits@[r.0 - 1].sha@ == sha@,
            if r.1 {
                &&& grows_by_one(old(self).commits@, final(self).commits@)
                &&& r.0 == old(self).commits@.len() + 1
            } else {
                *final(self) == *old(self)
            },
    {
        match self.find_commit_by_sha(sha) {
            Some(i) => {
                proof {
                    assert(self.commits@[i as int].sha@ == sha@);
                }
                ((i as u64) + 1, false)
            },
            None => {
                let id = (self.commits.len() as u64) + 1;
                self.commits.push(Commit { id, sha: sha.to_owned() });
                proof {
                    let a = old(self).commits@;
                    let b = self.commits@;
                    assert(b[a.len() as int].sha@ == sha@);
                    assert forall|i: int| 0 <= i < b.len() implies (#[trigger] b[i]).id == i
                        + 1 by {
                        if i < a.len() {
                            assert(b[i] == a[i]);
                        }
                    }
                    assert forall|i: int, j: int|
                        0 <= i < j < b.len() implies (#[trigger] b[i]).sha@ != (
                    #[trigger] b[j]).sha@ by {
                        if j < a.len() {
                            assert(b[i] == a[i]);
                            assert(b[j] == a[j]);
                        } else {
                            assert(b[i] == a[i]);
                            assert(b[j].sha@ == sha@);
                        }
                    }
                }
                (id, true)
            },
        }
    }

    /// The first job whose commit has this sha, resolved by joining the
    /// commits table, as the admin rerun-by-commit command wants it.
    pub fn job_for_commit(&self, sha: &str) -> (r: Option<u64>)
        requires
            self.wf(),
        ensures
            match r {
                Some(job_id) => exists|c: int, j: int|
                    {
                        &&& 0 <= c < self.commits@.len()
                        &&& (#[trigger] self.commits@[c]).sha@ == sha@
                        &&& 0 <= j < self.jobs@.len()
                        &&& (#[trigger] self.jobs@[j]).commit_id == self.commits@[c].id
                        &&& self.jobs@[j].id == job_id
                        &&& forall|k: int|
                            0 <= k < j ==> (#[trigger] self.jobs@[k]).commit_id
                                != self.commits@[c].id
                    },
                None => forall|c: int, j: int|
                    #![trigger self.commits@[c], self.jobs@[j]]
                    (0 <= c < self.commits@.len() && self.commits@[c].sha@ == sha@ && 0 <= j
                        < self.jobs@.len()) ==> self.jobs@[j].commit_id != self.commits@[c].id,
            },
    {
        let commit_id: u64 = match self.find_commit_by_sha(sha) {
            Some(i) => (i as u64) + 1,
            None => {
                return None;
            },
        };
        let ghost ci: int = commit_id - 1;
        let n = self.jobs.len();
        let mut j: usize = 0;
        while j < n
            invariant
                self.wf(),
                n == self.jobs@.len(),
                j <= n,
                0 <= ci < self.commits@.len(),
                self.commits@[ci].sha@ == sha@,
                self.commits@[ci].id == commit_id,
                forall|k: int| 0 <= k < j ==> (#[trigger] self.jobs@[k]).commit_id != commit_id,
            decreases n - j,
        {
            if self.jobs[j].commit_id == commit_id {
                proof {
                    let jj = j as int;
                    assert(self.commits@[ci].sha@ == sha@ && self.jobs@[jj].commit_id
                        == self.commits@[ci].id && self.jobs@[jj].id == self.jobs@[jj].id
                        && forall|k: int|
                        0 <= k < jj ==> (#[trigger] self.jobs@[k]).commit_id
                            != self.commits@[ci].id);
                }
                return Some(self.jobs[j].id);
            }
            j = j + 1;
        }
        proof {
            assert forall|c: int, j2: int|
                #![trigger self.commits@[c], self.jobs@[j2]]
                (0 <= c < self.commits@.len() && self.commits@[c].sha@ == sha@ && 0 <= j2
                    < self.jobs@.len()) implies self.jobs@[j2].commit_id != self.commits@[c].id by {
                if 0 <= c < self.commits@.len() && self.commits@[c].sha@ == sha@ {
                    if c != ci {
                        assert(self.commits@[c].sha@ != self.commits@[ci].sha@);
                    }
                    assert(c == ci);
                }
            }
        }
        None
    }

    /// Index of the job for one `(remote, commit)` pair.
    fn find_job_by_pair(&self, remote_id: u64, commit_id: u64) -> (r: Option<usize>)
        ensures
            match r {
                Some(i) => i < self.jobs@.len() && self.jobs@[i as int].remote_id == remote_id
                    && self.jobs@[i as int].commit_id == commit_id,
                None => !self.has_job_for_pair(remote_id, commit_id),
            },
    {
        let n = self.jobs.len();
        let mut i: usize = 0;
        while i < n
            invariant
                n == self.jobs@.len(),
                i <= n,
                forall|k: int|
                    0 <= k < i ==> !((#[trigger] self.jobs@[k]).remote_id == remote_id
                        && self.jobs@[k].commit_id == commit_id),
            decreases n - i,
        {
            let row = &self.jobs[i];
            if row.remote_id == remote_id && row.commit_id == commit_id {
                return Some(i);
            }
            i = i + 1;
        }
        None
    }

    /// The id of the job for one `(remote, commit)` pair, if it exists.
    pub fn job_by_pair(&self, remote_id: u64, commit_id: u64) -> (r: Option<u64>)
        requires
            self.wf(),
        ensures
            match r {
                Some(job_id) => exists|i: int|
                    0 <= i < self.jobs@.len() && (#[trigger] self.jobs@[i]).remote_id == remote_id
                        && self.jobs@[i].commit_id == commit_id && self.jobs@[i].id == job_id,
                None => !self.has_job_for_pair(remote_id, commit_id),
            },
    {
        match self.find_job_by_pair(remote_id, commit_id) {
            Some(i) => {
                proof {
                    assert(self.jobs@[i as int].id == i + 1);
                }
                Some(self.jobs[i].id)
            },
            None => None,
        }
    }

    /// Ensure the commit row, then create the job for this remote and
    /// commit — unless that job already exists, in which case the existing
    /// job is returned and nothing is written.  At most one job ever
    /// exists per `(remote_id, commit_id)` pair.
    pub fn new_job(
        &mut self,
        remote_id: u64,
        sha: &str,
        source: Option<String>,
        run_preferences: Option<String>,
        now: u64,
    ) -> (r: Result<(u64, u64), StoreError>)
        requires
            old(self).wf(),
            old(self).commits@.len() < u64::MAX,
            old(self).jobs@.len() < u64::MAX,
        ensures
            final(self).wf(),
            match r {
                Ok((job_id, commit_id)) => {
                    &&& 1 <= remote_id <= old(self).remotes@.len()
                    &&& Self::only_commits_jobs_clock_changed(*old(self), *final(self))
                    &&& 1 <= commit_id <= final(self).commits@.len()
                    &&& final(self).commits@[commit_id - 1].sha@ == sha@
                    &&& if old(self).has_commit(sha@) {
                        final(self).commits@ == old(self).commits@
                    } else {
                        &&& grows_by_one(old(self).commits@, final(self).commits@)
                        &&& commit_id == old(self).commits@.len() + 1
                        &&& final(self).commits@.last().sha@ == sha@
                    }
                    &&& 1 <= job_id <= final(self).jobs@.len()
                    &&& final(self).jobs@[job_id - 1].remote_id == remote_id
                    &&& final(self).jobs@[job_id - 1].commit_id == commit_id
                    &&& if old(self).has_job_for_pair(remote_id, commit_id) {
                        &&& final(self).jobs@ == old(self).jobs@
                        &&& final(self).clock == old(self).clock
                    } else {
                        &&& grows_by_one(old(self).jobs@, final(self).jobs@)
                        &&& job_id == old(self).jobs@.len() + 1
                        &&& final(self).jobs@.last().created_time == spec_stamp(
                            old(self).clock,
                            now,
                        )
                        &&& opt_str_view(final(self).jobs@.last().source) == opt_str_view(source)
                        &&& opt_str_view(final(self).jobs@.last().run_preferences) == opt_str_view(
                            run_preferences,
                        )
                        &&& final(self).clock == spec_stamp(old(self).clock, now)
                    }
                },
                Err(e) => {
                    &&& e == StoreError::NotFound
                    &&& !(1 <= remote_id <= old(self).remotes@.len())
                    &&& *final(self) == *old(self)
                },
            },
    {
        if remote_id < 1 || remote_id > self.remotes.len() as u64 {
            return Err(StoreError::NotFound);
        }
        let (commit_id, _was_new) = self.ensure_commit(sha);
        let ghost s1 = *self;
        match self.find_job_by_pair(remote_id, commit_id) {
            Some(i) => {
                proof {
                    assert(old(self).jobs@[i as int].remote_id == remote_id);
                    assert(old(self).has_job_for_pair(remote_id, commit_id));
                    assert(s1.jobs@[i as int].id == i + 1);
                }
                Ok((self.jobs[i].id, commit_id))
            },
            None => {
                let t = self.tick(now);
                let ghost s2 = *self;
                proof {
                    Self::lemma_wf_clock_raised(s1, s2);
                }
                let job_id = (self.jobs.len() as u64) + 1;
                let row = Job {
                    id: job_id,
                    remote_id,
                    commit_id,
                    created_time: t,
                    source,
                    run_preferences,
                };
                self.jobs.push(row);
                proof {
                    let a = s2.jobs@;
                    let b = self.jobs@;
                    assert forall|i: int| 0 <= i < b.len() implies (#[trigger] b[i]).id == i
                        + 1 by {
                        if i < a.len() {
                            assert(b[i] == a[i]);
                        }
                    }
                    assert forall|i: int| 0 <= i < b.len() implies 1 <= (
                    #[trigger] b[i]).remote_id <= self.remotes@.len() by {
                        if i < a.len() {
                            assert(b[i] == a[i]);
                        }
                    }
                    assert forall|i: int| 0 <= i < b.len() implies 1 <= (
                    #[trigger] b[i]).commit_id <= self.commits@.len() by {
                        if i < a.len() {
                            assert(b[i] == a[i]);
                        }
                    }
                    assert forall|i: int| 0 <= i < b.len() implies (
                    #[trigger] b[i]).created_time <= self.clock by {
                        if i < a.len() {
                            assert(b[i] == a[i]);
                        }
                    }
                    assert forall|i: int, j: int|
                        #![trigger b[i], b[j]]
                        0 <= i < j < b.len() implies !(b[i].remote_id == b[j].remote_id
                        && b[i].commit_id == b[j].commit_id) by {
                        if j < a.len() {
                            assert(b[i] == a[i]);
                            assert(b[j] == a[j]);
                        } else {
                            assert(b[i] == a[i]);
                            if b[i].remote_id == remote_id && b[i].commit_id == commit_id {
                                assert(s1.jobs@[i].remote_id == remote_id && s1.jobs@[i].commit_id
                                    == commit_id);
                                assert(s1.has_job_for_pair(remote_id, commit_id));
                            }
                        }
                    }
                    assert(b[job_id - 1] == row);
                }
                Ok((job_id, commit_id))
            },
        }
    }

    /// Raising the clock alone never breaks well-formedness: every
    /// timestamp bound in `wf` is an upper bound by the clock.
    proof fn lemma_wf_clock_raised(a: Store, b: Store)
        requires
            a.wf(),
            b.repos@ == a.repos@,
            b.remotes@ == a.remotes@,
            b.commits@ == a.commits@,
            b.jobs@ == a.jobs@,
            b.runs@ == a.runs@,
            b.metrics@ == a.metrics@,
            b.artifacts@ == a.artifacts@,
            a.clock <= b.clock,
        ensures
            b.wf(),
    {
        assert forall|i: int| 0 <= i < b.runs@.len() implies Self::run_wf(
            #[trigger] b.runs@[i],
            b.clock,
        ) by {
            assert(Self::run_wf(a.runs@[i], a.clock));
        }
        assert forall|i: int|
            0 <= i < b.artifacts@.len() implies match (#[trigger] b.artifacts@[i]).completed_time {
            Some(c) => b.artifacts@[i].created_time <= c <= b.clock,
            None => true,
        } by {
            assert(a.artifacts_wf());
            assert(match a.artifacts@[i].completed_time {
                Some(c) => a.artifacts@[i].created_time <= c <= a.clock,
                None => true,
            });
        }
    }

    /// Create one `Pending` run for a job.  A rerun is nothing else: a
    /// further run on the same job, with no mark on the job itself.
    pub fn new_run(&mut self, job_id: u64, host_preference: Option<u64>, now: u64) -> (r: Result<
        Run,
        StoreError,
    >)
        requires
            old(self).wf(),
            old(self).runs@.len() < u64::MAX,
        ensures
            final(self).wf(),
            forall|k: int|
                0 <= k < old(self).runs@.len() ==> run_state_advances(
                    (#[trigger] old(self).runs@[k]).state,
                    final(self).runs@[k].state,
                ),
            match r {
                Ok(run) => {
                    &&& 1 <= job_id <= old(self).jobs@.len()
                    &&& grows_by_one(old(self).runs@, final(self).runs@)
                    &&& run == final(self).runs@.last()
                    &&& run.id == old(self).runs@.len() + 1
                    &&& run.job_id == job_id
                    &&& run.state == RunState::Pending
                    &&& run.create_time == spec_stamp(old(self).clock, now)
                    &&& run.host_preference == host_preference
                    &&& run.host_id is None
                    &&& run.build_token is None
                    &&& run.start_time is None
                    &&& run.complete_time is None
                    &&& run.build_result is None
                    &&& run.artifacts_path is None
                    &&& run.final_text is None
                    &&& run.run_timeout is None
                    &&& final(self).clock == spec_stamp(old(self).clock, now)
                    &&& Self::only_runs_clock_changed(*old(self), *final(self))
                },
                Err(e) => {
                    &&& e == StoreError::NotFound
                    &&& !(1 <= job_id <= old(self).jobs@.len())
                    &&& *final(self) == *old(self)
                },
            },
    {
        if job_id < 1 || job_id > self.jobs.len() as u64 {
            return Err(StoreError::NotFound);
        }
        let t = self.tick(now);
        let ghost s2 = *self;
        proof {
            Self::lemma_wf_clock_raised(*old(self), s2);
        }
        let id = (self.runs.len() as u64) + 1;
        let row = Run {
            id,
            job_id,
            artifacts_path: None,
            state: RunState::Pending,
            host_id: None,
            create_time: t,
            start_time: None,
            complete_time: None,
            build_token: None,
            run_timeout: None,
            build_result: None,
            final_text: None,
            host_preference,
        };
        let ret = clone_run(&row);
        self.runs.push(row);
        proof {
            let a = s2.runs@;
            let b = self.runs@;
            assert forall|i: int| 0 <= i < b.len() implies (#[trigger] b[i]).id == i + 1 by {
                if i < a.len() {
                    assert(b[i] == a[i]);
                }
            }
            assert forall|i: int| 0 <= i < b.len() implies 1 <= (#[trigger] b[i]).job_id
                <= self.jobs@.len() by {
                if i < a.len() {
                    assert(b[i] == a[i]);
                }
            }
            assert forall|i: int| 0 <= i < b.len() implies Self::run_wf(
                #[trigger] b[i],
                self.clock,
            ) by {
                if i < a.len() {
                    assert(b[i] == a[i]);
                    assert(Self::run_wf(a[i], s2.clock));
                }
            }
            assert forall|i: int, j: int|
                #![trigger b[i], b[j]]
                0 <= i <= j < b.len() implies b[i].create_time <= b[j].create_time by {
                if j < a.len() {
                    assert(b[i] == a[i]);
                    assert(b[j] == a[j]);
                } else if i < a.len() {
                    assert(b[i] == a[i]);
                    assert(Self::run_wf(a[i], s2.clock));
                }
            }
        }
        Ok(ret)
    }

    /// Atomically hand one eligible `Pending` run to a host: the latest
    /// created one whose host preference admits the claimant.  The run
    /// moves to `Started` and receives the host, the build token and its
    /// start time.  The token authenticates the worker's later callbacks,
    /// so the caller draws it fresh from a strong entropy source — at
    /// least 128 bits.  Exactly one claimant can win any given run: a
    /// claimed run is no longer `Pending`, so no later claim sees it.
    pub fn claim_pending_run(&mut self, host_id: u64, token: &str, now: u64) -> (r: Option<Run>)
        requires
            old(self).wf(),
        ensures
            final(self).wf(),
            forall|k: int|
                0 <= k < old(self).runs@.len() ==> run_state_advances(
                    (#[trigger] old(self).runs@[k]).state,
                    final(self).runs@[k].state,
                ),
            match r {
                Some(run) => exists|i: int|
                    {
                        &&& 0 <= i < old(self).runs@.len()
                        &&& run_eligible(#[trigger] old(self).runs@[i], host_id)
                        &&& forall|k: int|
                            i < k < old(self).runs@.len() ==> !run_eligible(
                                #[trigger] old(self).runs@[k],
                                host_id,
                            )
                        &&& final(self).runs@ == old(self).runs@.update(i, run)
                        &&& run.id == old(self).runs@[i].id
                        &&& run.job_id == old(self).runs@[i].job_id
                        &&& run.state == RunState::Started
                        &&& run.host_id == Some(host_id)
                        &&& opt_str_view(run.build_token) == Some(token@)
                        &&& run.create_time == old(self).runs@[i].create_time
                        &&& run.start_time == Some(spec_stamp(old(self).clock, now))
                        &&& run.complete_time is None
                        &&& run.build_result is None
                        &&& run.artifacts_path == old(self).runs@[i].artifacts_path
                        &&& run.run_timeout == old(self).runs@[i].run_timeout
                        &&& run.final_text == old(self).runs@[i].final_text
                        &&& run.host_preference == old(self).runs@[i].host_preference
                        &&& final(self).clock == spec_stamp(old(self).clock, now)
                        &&& Self::only_runs_clock_changed(*old(self), *final(self))
                    },
                None => {
                    &&& forall|k: int|
                        0 <= k < old(self).runs@.len() ==> !run_eligible(
                            #[trigger] old(self).runs@[k],
                            host_id,
                        )
                    &&& *final(self) == *old(self)
                },
            },
    {
        let n = self.runs.len();
        let mut i: usize = n;
        while i > 0
            invariant
                *self == *old(self),
                self.wf(),
                n == self.runs@.len(),
                i <= n,
                forall|k: int| i <= k < n ==> !run_eligible(#[trigger] self.runs@[k], host_id),
            decreases i,
        {
            i = i - 1;
            let eligible = {
                let row = &self.runs[i];
                matches!(row.state, RunState::Pending) && (match row.host_preference {
                    None => true,
                    Some(p) => p == host_id,
                })
            };
            if eligible {
                let t = self.tick(now);
                let ghost s2 = *self;
                proof {
                    Self::lemma_wf_clock_raised(*old(self), s2);
                }
                let updated = {
                    let row = &self.runs[i];
                    Run {
                        id: row.id,
                        job_id: row.job_id,
                        artifacts_path: clone_opt_string(&row.artifacts_path),
                        state: RunState::Started,
                        host_id: Some(host_id),
                        create_time: row.create_time,
                        start_time: Some(t),
                        complete_time: None,
                        build_token: Some(token.to_owned()),
                        run_timeout: row.run_timeout,
                        build_result: None,
                        final_text: clone_opt_string(&row.final_text),
                        host_preference: row.host_preference,
                    }
                };
                let ret = clone_run(&updated);
                self.runs[i] = updated;
                proof {
                    let a = s2.runs@;
                    let b = self.runs@;
                    let ii = i as int;
                    assert(b == a.update(ii, b[ii]));
                    assert forall|k: int| 0 <= k < b.len() implies (#[trigger] b[k]).id == k
                        + 1 by {
                        if k != ii {
                            assert(b[k] == a[k]);
                        }
                    }
                    assert forall|k: int| 0 <= k < b.len() implies 1 <= (#[trigger] b[k]).job_id
                        <= self.jobs@.len() by {
                        if k != ii {
                            assert(b[k] == a[k]);
                        }
                    }
                    assert forall|k: int| 0 <= k < b.len() implies Self::run_wf(
                        #[trigger] b[k],
                        self.clock,
                    ) by {
                        if k != ii {
                            assert(b[k] == a[k]);
                            assert(Self::run_wf(a[k], s2.clock));
                        } else {
                            assert(Self::run_wf(a[ii], s2.clock));
                        }
                    }
                    assert forall|k: int, j: int|
                        #![trigger b[k], b[j]]
                        0 <= k <= j < b.len() implies b[k].create_time <= b[j].create_time by {
                        assert(a[k].create_time <= a[j].create_time);
                        if k != ii {
                            assert(b[k] == a[k]);
                        }
                        if j != ii {
                            assert(b[j] == a[j]);
                        }
                    }
                    // The witness for the claim's contract: index `ii`.
                    assert(run_eligible(old(self).runs@[ii], host_id));
                    assert(forall|k: int|
                        ii < k < old(self).runs@.len() ==> !run_eligible(
                            #[trigger] old(self).runs@[k],
                            host_id,
                        ));
                    assert(self.runs@ =~= old(self).runs@.update(ii, ret));
                    assert forall|k: int|
                        0 <= k < old(self).runs@.len() implies run_state_advances(
                        (#[trigger] old(self).runs@[k]).state,
                        self.runs@[k].state,
                    ) by {
                        if k != ii {
                            assert(self.runs@[k] == old(self).runs@[k]);
                        }
                    }
                }
                return Some(ret);
            }
        }
        None
    }

    /// Record a worker's terminal report for a run it holds the token of.
    /// `Pass` moves the run to `Finished`, `Fail` to `Error`; either way
    /// the completion time is stamped and the report text kept.  A wrong
    /// token is refused before anything else is looked at, and a run not
    /// `Started` accepts no report.
    pub fn finish_run(
        &mut self,
        run_id: u64,
        token: &str,
        result: JobResult,
        report: &str,
        now: u64,
    ) -> (r: Result<(), StoreError>)
        requires
            old(self).wf(),
        ensures
            final(self).wf(),
            forall|k: int|
                0 <= k < old(self).runs@.len() ==> run_state_advances(
                    (#[trigger] old(self).runs@[k]).state,
                    final(self).runs@[k].state,
                ),
            match r {
                Ok(()) => {
                    &&& 1 <= run_id <= old(self).runs@.len()
                    &&& spec_check_token(old(self).runs@[run_id - 1], token@)
                        == TokenValidity::Valid
                    &&& final(self).runs@.len() == old(self).runs@.len()
                    &&& forall|k: int|
                        0 <= k < old(self).runs@.len() && k != run_id - 1 ==> final(self).runs@[k] == #[trigger] old(self).runs@[k]
                    &&& {
                        let before = old(self).runs@[run_id - 1];
                        let after = final(self).runs@[run_id - 1];
                        &&& after.state == (if result == JobResult::Pass {
                            RunState::Finished
                        } else {
                            RunState::Error
                        })
                        &&& after.complete_time == Some(spec_stamp(old(self).clock, now))
                        &&& after.build_result == Some(result.spec_to_u8())
                        &&& opt_str_view(after.final_text) == Some(report@)
                        &&& after.id == before.id
                        &&& after.job_id == before.job_id
                        &&& after.state != before.state
                        &&& after.host_id == before.host_id
                        &&& after.create_time == before.create_time
                        &&& after.start_time == before.start_time
                        &&& after.build_token == before.build_token
                        &&& after.run_timeout == before.run_timeout
                        &&& after.artifacts_path == before.artifacts_path
                        &&& after.host_preference == before.host_preference
                    }
                    &&& final(self).clock == spec_stamp(old(self).clock, now)
                    &&& Self::only_runs_clock_changed(*old(self), *final(self))
                },
                Err(e) => {
                    &&& *final(self) == *old(self)
                    &&& match e {
                        StoreError::NotFound => !(1 <= run_id <= old(self).runs@.len()),
                        StoreError::TokenInvalid => 1 <= run_id <= old(self).runs@.len()
                            && spec_check_token(old(self).runs@[run_id - 1], token@)
                            == TokenValidity::Invalid,
                        StoreError::StateInvalid => 1 <= run_id <= old(self).runs@.len()
                            && spec_check_token(old(self).runs@[run_id - 1], token@)
                            == TokenValidity::Expired,
                        StoreError::Duplicate => false,
                    }
                },
            },
    {
        if run_id < 1 || run_id > self.runs.len() as u64 {
            return Err(StoreError::NotFound);
        }
        let i = (run_id - 1) as usize;
        let validity = check_token(&self.runs[i], token);
        match validity {
            TokenValidity::Invalid => Err(StoreError::TokenInvalid),
            TokenValidity::Expired => Err(StoreError::StateInvalid),
            TokenValidity::Valid => {
                let t = self.tick(now);
                let ghost s2 = *self;
                proof {
                    Self::lemma_wf_clock_raised(*old(self), s2);
                }
                let updated = {
                    let row = &self.runs[i];
                    Run {
                        id: row.id,
                        job_id: row.job_id,
                        artifacts_path: clone_opt_string(&row.artifacts_path),
                        state: match result {
                            JobResult::Pass => RunState::Finished,
                            JobResult::Fail => RunState::Error,
                        },
                        host_id: row.host_id,
                        create_time: row.create_time,
                        start_time: row.start_time,
                        complete_time: Some(t),
                        build_token: clone_opt_string(&row.build_token),
                        run_timeout: row.run_timeout,
                        build_result: Some(result.to_u8()),
                        final_text: Some(report.to_owned()),
                        host_preference: row.host_preference,
                    }
                };
                self.runs[i] = updated;
                proof {
                    let a = s2.runs@;
                    let b = self.runs@;
                    let ii = i as int;
                    assert forall|k: int| 0 <= k < b.len() implies (#[trigger] b[k]).id == k
                        + 1 by {
                        if k != ii {
                            assert(b[k] == a[k]);
                        }
                    }
                    assert forall|k: int| 0 <= k < b.len() implies 1 <= (#[trigger] b[k]).job_id
                        <= self.jobs@.len() by {
                        if k != ii {
                            assert(b[k] == a[k]);
                        }
                    }
                    assert forall|k: int| 0 <= k < b.len() implies Self::run_wf(
                        #[trigger] b[k],
                        self.clock,
                    ) by {
                        assert(Self::run_wf(a[k], s2.clock));
                        if k != ii {
                            assert(b[k] == a[k]);
                        }
                    }
                    assert forall|k: int, j: int|
                        #![trigger b[k], b[j]]
                        0 <= k <= j < b.len() implies b[k].create_time <= b[j].create_time by {
                        assert(a[k].create_time <= a[j].create_time);
                        if k != ii {
                            assert(b[k] == a[k]);
                        }
                        if j != ii {
                            assert(b[j] == a[j]);
                        }
                    }
                    assert forall|k: int|
                        0 <= k < old(self).runs@.len() implies run_state_advances(
                        (#[trigger] old(self).runs@[k]).state,
                        self.runs@[k].state,
                    ) by {
                        if k != ii {
                            assert(self.runs@[k] == old(self).runs@[k]);
                        }
                    }
                }
                Ok(())
            },
        }
    }

    /// Administrative invalidation of a stuck run: a `Pending` or
    /// `Started` run moves to `Invalid` and is stamped complete; a run
    /// already terminal is left alone and refused.
    pub fn invalidate_run(&mut self, run_id: u64, now: u64) -> (r: Result<(), StoreError>)
        requires
            old(self).wf(),
        ensures
            final(self).wf(),
            forall|k: int|
                0 <= k < old(self).runs@.len() ==> run_state_advances(
                    (#[trigger] old(self).runs@[k]).state,
                    final(self).runs@[k].state,
                ),
            match r {
                Ok(()) => {
                    &&& 1 <= run_id <= old(self).runs@.len()
                    &&& (old(self).runs@[run_id - 1].state == RunState::Pending || old(self).runs@[run_id - 1].state == RunState::Started)
                    &&& final(self).runs@.len() == old(self).runs@.len()
                    &&& forall|k: int|
                        0 <= k < old(self).runs@.len() && k != run_id - 1 ==> final(self).runs@[k] == #[trigger] old(self).runs@[k]
                    &&& {
                        let before = old(self).runs@[run_id - 1];
                        let after = final(self).runs@[run_id - 1];
                        &&& after.state == RunState::Invalid
                        &&& after.complete_time == Some(spec_stamp(old(self).clock, now))
                        &&& after.id == before.id
                        &&& after.job_id == before.job_id
                        &&& after.host_id == before.host_id
                        &&& after.create_time == before.create_time
                        &&& after.start_time == before.start_time
                        &&& after.build_token == before.build_token
                        &&& after.build_result == before.build_result
                        &&& after.run_timeout == before.run_timeout
                        &&& after.artifacts_path == before.artifacts_path
                        &&& after.final_text == before.final_text
                        &&& after.host_preference == before.host_preference
                    }
                    &&& final(self).clock == spec_stamp(old(self).clock, now)
                    &&& Self::only_runs_clock_changed(*old(self), *final(self))
                },
                Err(e) => {
                    &&& *final(self) == *old(self)
                    &&& match e {
                        StoreError::NotFound => !(1 <= run_id <= old(self).runs@.len()),
                        StoreError::StateInvalid => 1 <= run_id <= old(self).runs@.len() && !(old(self).runs@[run_id - 1].state == RunState::Pending || old(self).runs@[run_id
                            - 1].state == RunState::Started),
                        StoreError::TokenInvalid => false,
                        StoreError::Duplicate => false,
                    }
                },
            },
    {
        if run_id < 1 || run_id > self.runs.len() as u64 {
            return Err(StoreError::NotFound);
        }
        let i = (run_id - 1) as usize;
        let live = matches!(self.runs[i].state, RunState::Pending) || matches!(
            self.runs[i].state,
            RunState::Started,
        );
        if !live {
            return Err(StoreError::StateInvalid);
        }
        let t = self.tick(now);
        let ghost s2 = *self;
        proof {
            Self::lemma_wf_clock_raised(*old(self), s2);
        }
        let updated = {
            let row = &self.runs[i];
            Run {
                id: row.id,
                job_id: row.job_id,
                artifacts_path: clone_opt_string(&row.artifacts_path),
                state: RunState::Invalid,
                host_id: row.host_id,
                create_time: row.create_time,
                start_time: row.start_time,
                complete_time: Some(t),
                build_token: clone_opt_string(&row.build_token),
                run_timeout: row.run_timeout,
                build_result: row.build_result,
                final_text: clone_opt_string(&row.final_text),
                host_preference: row.host_preference,
            }
        };
        self.runs[i] = updated;
        proof {
            let a = s2.runs@;
            let b = self.runs@;
            let ii = i as int;
            assert forall|k: int| 0 <= k < b.len() implies (#[trigger] b[k]).id == k + 1 by {
                if k != ii {
                    assert(b[k] == a[k]);
                }
            }
            assert forall|k: int| 0 <= k < b.len() implies 1 <= (#[trigger] b[k]).job_id
                <= self.jobs@.len() by {
                if k != ii {
                    assert(b[k] == a[k]);
                }
            }
            assert forall|k: int| 0 <= k < b.len() implies Self::run_wf(
                #[trigger] b[k],
                self.clock,
            ) by {
                assert(Self::run_wf(a[k], s2.clock));
                if k != ii {
                    assert(b[k] == a[k]);
                }
            }
            assert forall|k: int, j: int|
                #![trigger b[k], b[j]]
                0 <= k <= j < b.len() implies b[k].create_time <= b[j].create_time by {
                assert(a[k].create_time <= a[j].create_time);
                if k != ii {
                    assert(b[k] == a[k]);
                }
                if j != ii {
                    assert(b[j] == a[j]);
                }
            }
            assert forall|k: int|
                0 <= k < old(self).runs@.len() implies run_state_advances(
                (#[trigger] old(self).runs@[k]).state,
                self.runs@[k].state,
            ) by {
                if k != ii {
                    assert(self.runs@[k] == old(self).runs@[k]);
                }
            }
        }
        Ok(())
    }

    /// The run the status view shows for a job: the most recently
    /// started one, unstarted runs last, later rows winning ties.
    pub fn last_run_for_job(&self, job_id: u64) -> (r: Option<Run>)
        requires
            self.wf(),
        ensures
            match r {
                Some(run) => exists|i: int|
                    {
                        &&& 0 <= i < self.runs@.len()
                        &&& (#[trigger] self.runs@[i]).job_id == job_id
                        &&& run == self.runs@[i]
                        &&& forall|k: int|
                            0 <= k < self.runs@.len() && (#[trigger] self.runs@[k]).job_id
                                == job_id && k != i ==> run_more_recent(run, self.runs@[k])
                    },
                None => forall|k: int|
                    0 <= k < self.runs@.len() ==> (#[trigger] self.runs@[k]).job_id != job_id,
            },
    {
        let n = self.runs.len();
        let mut best: usize = 0;
        let mut found = false;
        let mut i: usize = 0;
        while i < n
            invariant
                self.wf(),
                n == self.runs@.len(),
                i <= n,
                !found ==> forall|k: int|
                    0 <= k < i ==> (#[trigger] self.runs@[k]).job_id != job_id,
                found ==> {
                    &&& best < i
                    &&& self.runs@[best as int].job_id == job_id
                    &&& forall|k: int|
                        0 <= k < i && (#[trigger] self.runs@[k]).job_id == job_id && k != best
                            ==> run_more_recent(self.runs@[best as int], self.runs@[k])
                },
            decreases n - i,
        {
            if self.runs[i].job_id == job_id {
                if !found {
                    best = i;
                    found = true;
                } else {
                    let better = more_recent(&self.runs[i], &self.runs[best]);
                    proof {
                        assert(self.runs@[i as int].id == i + 1);
                        assert(self.runs@[best as int].id == best + 1);
                    }
                    if better {
                        best = i;
                    }
                }
            }
            i = i + 1;
        }
        if found {
            Some(clone_run(&self.runs[best]))
        } else {
            None
        }
    }

    /// Every run joined with its job, in creation order (runs are
    /// appended with monotone timestamps, so insertion order is creation
    /// order).
    pub fn list_runs(&self) -> (r: Vec<RunListing>)
        requires
            self.wf(),
        ensures
            r@.len() == self.runs@.len(),
            forall|i: int|
                0 <= i < r@.len() ==> {
                    let run = self.runs@[i];
                    let job = self.jobs@[run.job_id - 1];
                    &&& (#[trigger] r@[i]).run_id == run.id
                    &&& r@[i].job_id == run.job_id
                    &&& r@[i].state == run.state
                    &&& r@[i].created_time == run.create_time
                    &&& r@[i].commit_id == job.commit_id
                    &&& r@[i].run_preferences == job.run_preferences
                },
            forall|i: int, j: int|
                #![trigger r@[i], r@[j]]
                0 <= i <= j < r@.len() ==> r@[i].created_time <= r@[j].created_time,
    {
        let n = self.runs.len();
        let njobs = self.jobs.len();
        let mut out: Vec<RunListing> = Vec::new();
        let mut i: usize = 0;
        while i < n
            invariant
                self.wf(),
                n == self.runs@.len(),
                njobs == self.jobs@.len(),
                i <= n,
                out@.len() == i,
                forall|k: int|
                    0 <= k < i ==> {
                        let run = self.runs@[k];
                        let job = self.jobs@[run.job_id - 1];
                        &&& (#[trigger] out@[k]).run_id == run.id
                        &&& out@[k].job_id == run.job_id
                        &&& out@[k].state == run.state
                        &&& out@[k].created_time == run.create_time
                        &&& out@[k].commit_id == job.commit_id
                        &&& out@[k].run_preferences == job.run_preferences
                    },
            decreases n - i,
        {
            proof {
                assert(1 <= self.runs@[i as int].job_id <= self.jobs@.len());
            }
            let run = &self.runs[i];
            let ji = (run.job_id - 1) as usize;
            let job = &self.jobs[ji];
            out.push(
                RunListing {
                    job_id: run.job_id,
                    run_id: run.id,
                    state: run.state,
                    created_time: run.create_time,
                    commit_id: job.commit_id,
                    run_preferences: clone_opt_string(&job.run_preferences),
                },
            );
            i = i + 1;
        }
        proof {
            assert forall|i: int, j: int|
                #![trigger out@[i], out@[j]]
                0 <= i <= j < out@.len() implies out@[i].created_time <= out@[j].created_time by {
                assert(self.runs@[i].create_time <= self.runs@[j].create_time);
            }
        }
        out
    }

    /// The ids of the jobs that ask to run on every host, were created
    /// after `since`, and have no run on this host yet — what the
    /// host-coverage sweep creates runs for.
    pub fn jobs_needing_host_run(&self, host_id: u64, since: u64) -> (r: Vec<u64>)
        requires
            self.wf(),
        ensures
            r@ == job_ids(self.jobs@.filter(job_needs_host(self.runs@, host_id, since))),
    {
        let n = self.jobs.len();
        let nruns = self.runs.len();
        let mut out: Vec<u64> = Vec::new();
        let mut i: usize = 0;
        proof {
            assert(self.jobs@.take(0).filter(job_needs_host(self.runs@, host_id, since)) =~= Seq::<
                Job,
            >::empty()) by {
                reveal_with_fuel(Seq::<Job>::filter, 1);
            }
            assert(job_ids(Seq::<Job>::empty()) =~= Seq::<u64>::empty());
        }
        while i < n
            invariant
                self.wf(),
                n == self.jobs@.len(),
                nruns == self.runs@.len(),
                i <= n,
                out@ == job_ids(
                    self.jobs@.take(i as int).filter(job_needs_host(self.runs@, host_id, since)),
                ),
            decreases n - i,
        {
            let ghost pref = self.jobs@.take(i as int);
            let ghost f1 = pref.filter(job_needs_host(self.runs@, host_id, since));
            let job = &self.jobs[i];
            let wants_all = crate::strutil::opt_str_eq(&job.run_preferences, "all");
            let mut host_ran_it = false;
            if wants_all && job.created_time > since {
                let mut k: usize = 0;
                while k < nruns
                    invariant
                        nruns == self.runs@.len(),
                        k <= nruns,
                        i < n == self.jobs@.len(),
                        !host_ran_it ==> forall|m: int|
                            0 <= m < k ==> !((#[trigger] self.runs@[m]).job_id
                                == self.jobs@[i as int].id && self.runs@[m].host_id == Some(
                                host_id,
                            )),
                        host_ran_it ==> exists|m: int|
                            0 <= m < nruns && (#[trigger] self.runs@[m]).job_id
                                == self.jobs@[i as int].id && self.runs@[m].host_id == Some(
                                host_id,
                            ),
                    decreases nruns - k,
                {
                    let run = &self.runs[k];
                    if run.job_id == self.jobs[i].id {
                        match run.host_id {
                            Some(h) => {
                                if h == host_id {
                                    host_ran_it = true;
                                }
                            },
                            None => {},
                        }
                    }
                    k = k + 1;
                }
            }
            if wants_all && job.created_time > since && !host_ran_it {
                out.push(self.jobs[i].id);
                proof {
                    assert(job_needs_host(self.runs@, host_id, since)(self.jobs@[i as int]));
                }
            } else {
                proof {
                    assert(!(job_needs_host(self.runs@, host_id, since)(self.jobs@[i as int])));
                }
            }
            proof {
                assert(self.jobs@.take(i + 1).drop_last() =~= pref);
                assert(self.jobs@.take(i + 1).last() == self.jobs@[i as int]);
                reveal_with_fuel(Seq::<Job>::filter, 2);
                let f2 = self.jobs@.take(i + 1).filter(job_needs_host(self.runs@, host_id, since));
                if job_needs_host(self.runs@, host_id, since)(self.jobs@[i as int]) {
                    assert(f2 == f1.push(self.jobs@[i as int]));
                    assert(job_ids(f2) =~= job_ids(f1).push(self.jobs@[i as int].id));
                } else {
                    assert(f2 == f1);
                }
            }
            i = i + 1;
        }
        proof {
            assert(self.jobs@.take(n as int) =~= self.jobs@);
        }
        out
    }

    /// Every run still pending or started, in insertion order — what a
    /// monitor watches and the sweeps consider.
    pub fn active_runs(&self) -> (r: Vec<Run>)
        requires
            self.wf(),
        ensures
            r@ == self.runs@.filter(active_run_pred()),
    {
        let n = self.runs.len();
        let mut out: Vec<Run> = Vec::new();
        let mut i: usize = 0;
        proof {
            assert(self.runs@.take(0).filter(active_run_pred()) =~= Seq::<Run>::empty()) by {
                reveal_with_fuel(Seq::<Run>::filter, 1);
            }
        }
        while i < n
            invariant
                n == self.runs@.len(),
                i <= n,
                out@ == self.runs@.take(i as int).filter(active_run_pred()),
            decreases n - i,
        {
            let ghost pref = self.runs@.take(i as int);
            let row = &self.runs[i];
            if matches!(row.state, RunState::Pending) || matches!(row.state, RunState::Started) {
                out.push(clone_run(row));
            }
            proof {
                assert(self.runs@.take(i + 1).drop_last() =~= pref);
                assert(self.runs@.take(i + 1).last() == self.runs@[i as int]);
                reveal_with_fuel(Seq::<Run>::filter, 2);
            }
            i = i + 1;
        }
        proof {
            assert(self.runs@.take(n as int) =~= self.runs@);
        }
        out
    }

    /// The metric rows of one run, in insertion order.
    pub fn metrics_for_run(&self, run_id: u64) -> (r: Vec<MetricRecord>)
        requires
            self.wf(),
        ensures
            r@ == self.metrics@.filter(metric_of_run(run_id)),
    {
        let n = self.metrics.len();
        let mut out: Vec<MetricRecord> = Vec::new();
        let mut i: usize = 0;
        proof {
            assert(self.metrics@.take(0).filter(metric_of_run(run_id)) =~= Seq::<
                MetricRecord,
            >::empty()) by {
                reveal_with_fuel(Seq::<MetricRecord>::filter, 1);
            }
        }
        while i < n
            invariant
                n == self.metrics@.len(),
                i <= n,
                out@ == self.metrics@.take(i as int).filter(metric_of_run(run_id)),
            decreases n - i,
        {
            let ghost pref = self.metrics@.take(i as int);
            let row = &self.metrics[i];
            if row.run_id == run_id {
                out.push(
                    MetricRecord {
                        id: row.id,
                        run_id: row.run_id,
                        name: row.name.clone(),
                        value: row.value.clone(),
                    },
                );
            }
            proof {
                assert(self.metrics@.take(i + 1).drop_last() =~= pref);
                assert(self.metrics@.take(i + 1).last() == self.metrics@[i as int]);
                reveal_with_fuel(Seq::<MetricRecord>::filter, 2);
            }
            i = i + 1;
        }
        proof {
            assert(self.metrics@.take(n as int) =~= self.metrics@);
        }
        out
    }

    /// Create a fresh `Pending` run on the job of an existing run, as the
    /// administrative rerun command does.
    pub fn rerun_run(&mut self, run_id: u64, now: u64) -> (r: Result<Run, StoreError>)
        requires
            old(self).wf(),
            old(self).runs@.len() < u64::MAX,
        ensures
            final(self).wf(),
            match r {
                Ok(run) => {
                    &&& 1 <= run_id <= old(self).runs@.len()
                    &&& run.job_id == old(self).runs@[run_id - 1].job_id
                    &&& run.state == RunState::Pending
                    &&& run.id == old(self).runs@.len() + 1
                    &&& run.create_time == spec_stamp(old(self).clock, now)
                    &&& run.host_preference is None
                    &&& grows_by_one(old(self).runs@, final(self).runs@)
                    &&& run == final(self).runs@.last()
                    &&& final(self).clock == spec_stamp(old(self).clock, now)
                    &&& Self::only_runs_clock_changed(*old(self), *final(self))
                },
                Err(e) => {
                    &&& e == StoreError::NotFound
                    &&& !(1 <= run_id <= old(self).runs@.len())
                    &&& *final(self) == *old(self)
                },
            },
    {
        if run_id < 1 || run_id > self.runs.len() as u64 {
            return Err(StoreError::NotFound);
        }
        let i = (run_id - 1) as usize;
        let job_id = self.runs[i].job_id;
        proof {
            assert(1 <= self.runs@[i as int].job_id <= self.jobs@.len());
        }
        self.new_run(job_id, None, now)
    }

    /// Resolve a sha to its job and create a fresh `Pending` run on it,
    /// as the administrative rerun-by-commit command does.
    pub fn rerun_commit(&mut self, sha: &str, now: u64) -> (r: Result<Run, StoreError>)
        requires
            old(self).wf(),
            old(self).runs@.len() < u64::MAX,
        ensures
            final(self).wf(),
            match r {
                Ok(run) => {
                    &&& exists|c: int, j: int|
                        {
                            &&& 0 <= c < old(self).commits@.len()
                            &&& (#[trigger] old(self).commits@[c]).sha@ == sha@
                            &&& 0 <= j < old(self).jobs@.len()
                            &&& (#[trigger] old(self).jobs@[j]).commit_id == old(
                                self,
                            ).commits@[c].id
                            &&& run.job_id == old(self).jobs@[j].id
                        }
                    &&& run.state == RunState::Pending
                    &&& run.id == old(self).runs@.len() + 1
                    &&& run.create_time == spec_stamp(old(self).clock, now)
                    &&& run.host_preference is None
                    &&& grows_by_one(old(self).runs@, final(self).runs@)
                    &&& run == final(self).runs@.last()
                    &&& final(self).jobs@ == old(self).jobs@
                    &&& final(self).clock == spec_stamp(old(self).clock, now)
                    &&& Self::only_runs_clock_changed(*old(self), *final(self))
                },
                Err(e) => {
                    &&& e == StoreError::NotFound
                    &&& *final(self) == *old(self)
                    // Failure only where no job resolves for the sha.
                    &&& forall|c: int, j: int|
                        #![trigger old(self).commits@[c], old(self).jobs@[j]]
                        (0 <= c < old(self).commits@.len() && old(self).commits@[c].sha@ == sha@
                            && 0 <= j < old(self).jobs@.len()) ==> old(self).jobs@[j].commit_id
                            != old(self).commits@[c].id
                },
            },
    {
        let job_id = match self.job_for_commit(sha) {
            Some(job_id) => job_id,
            None => {
                return Err(StoreError::NotFound);
            },
        };
        proof {
            let (c, j) = choose|c: int, j: int|
                {
                    &&& 0 <= c < self.commits@.len()
                    &&& (#[trigger] self.commits@[c]).sha@ == sha@
                    &&& 0 <= j < self.jobs@.len()
                    &&& (#[trigger] self.jobs@[j]).commit_id == self.commits@[c].id
                    &&& self.jobs@[j].id == job_id
                    &&& forall|k: int|
                        0 <= k < j ==> (#[trigger] self.jobs@[k]).commit_id != self.commits@[c].id
                };
            assert(self.jobs@[j].id == j + 1);
            assert(1 <= job_id <= self.jobs@.len());
        }
        self.new_run(job_id, None, now)
    }

    /// The administrative equivalent of a push event: resolve the remote
    /// by kind and path, create (or find) the job for the sha with the
    /// repo's default run preference, and always add one fresh `Pending`
    /// run.  Returns the job, commit and run ids.
    pub fn create_job_with_run(
        &mut self,
        remote_api: &str,
        remote_path: &str,
        sha: &str,
        source: Option<String>,
        now: u64,
    ) -> (r: Result<(u64, u64, u64), StoreError>)
        requires
            old(self).wf(),
            old(self).commits@.len() + 1 < u64::MAX,
            old(self).jobs@.len() < u64::MAX,
            old(self).runs@.len() < u64::MAX,
        ensures
            final(self).wf(),
            match r {
                Ok((job_id, commit_id, run_id)) => {
                    &&& exists|i: int|
                        {
                            &&& 0 <= i < old(self).remotes@.len()
                            &&& (#[trigger] old(self).remotes@[i]).remote_api@ == remote_api@
                            &&& old(self).remotes@[i].remote_path@ == remote_path@
                            &&& 1 <= job_id <= final(self).jobs@.len()
                            &&& final(self).jobs@[job_id - 1].remote_id == old(
                                self,
                            ).remotes@[i].id
                            &&& final(self).jobs@[job_id - 1].commit_id == commit_id
                            &&& !old(self).has_job_for_pair(old(self).remotes@[i].id, commit_id)
                                ==> opt_str_view(final(self).jobs@[job_id - 1].run_preferences)
                                == opt_str_view(
                                old(self).repos@[old(self).remotes@[i].repo_id
                                    - 1].default_run_preference,
                            )
                            &&& !old(self).has_job_for_pair(old(self).remotes@[i].id, commit_id)
                                ==> opt_str_view(final(self).jobs@[job_id - 1].source)
                                == opt_str_view(source)
                        }
                    &&& 1 <= commit_id <= final(self).commits@.len()
                    &&& final(self).commits@[commit_id - 1].sha@ == sha@
                    &&& grows_by_one(old(self).runs@, final(self).runs@)
                    &&& run_id == old(self).runs@.len() + 1
                    &&& final(self).runs@.last().id == run_id
                    &&& final(self).runs@.last().job_id == job_id
                    &&& final(self).runs@.last().state == RunState::Pending
                    &&& final(self).runs@.last().create_time == spec_stamp(old(self).clock, now)
                    &&& final(self).runs@.last().host_preference is None
                    &&& final(self).repos@ == old(self).repos@
                    &&& final(self).remotes@ == old(self).remotes@
                    &&& final(self).metrics@ == old(self).metrics@
                    &&& final(self).artifacts@ == old(self).artifacts@
                },
                Err(e) => {
                    &&& e == StoreError::NotFound
                    &&& forall|i: int|
                        0 <= i < old(self).remotes@.len() ==> !((
                        #[trigger] old(self).remotes@[i]).remote_api@ == remote_api@ && old(
                            self,
                        ).remotes@[i].remote_path@ == remote_path@)
                    &&& *final(self) == *old(self)
                },
            },
    {
        let remote = match self.remote_by_path_and_api(remote_api, remote_path) {
            Some(remote) => remote,
            None => {
                return Err(StoreError::NotFound);
            },
        };
        let ghost ri: int = choose|i: int|
            {
                &&& 0 <= i < self.remotes@.len()
                &&& remote == #[trigger] self.remotes@[i]
                &&& remote.remote_api@ == remote_api@
                &&& remote.remote_path@ == remote_path@
                &&& forall|k: int|
                    0 <= k < i ==> !((#[trigger] self.remotes@[k]).remote_api@ == remote_api@
                        && self.remotes@[k].remote_path@ == remote_path@)
            };
        proof {
            assert(self.remotes@[ri].id == ri + 1);
            assert(1 <= remote.repo_id <= self.repos@.len());
        }
        let repo = match self.repo_by_id(remote.repo_id) {
            Some(repo) => repo,
            None => vstd::pervasive::unreached(),
        };
        let (job_id, commit_id) = match self.new_job(
            remote.id,
            sha,
            source,
            repo.default_run_preference,
            now,
        ) {
            Ok(ids) => ids,
            Err(_) => vstd::pervasive::unreached(),
        };
        let run = match self.new_run(job_id, None, now) {
            Ok(run) => run,
            Err(_) => vstd::pervasive::unreached(),
        };
        Ok((job_id, commit_id, run.id))
    }

    /// At most one job exists for any `(remote, commit)` pair: two job
    /// rows for the same pair are the same row.
    pub proof fn lemma_at_most_one_job_per_pair(s: Store, i: int, j: int)
        requires
            s.wf(),
            0 <= i < s.jobs@.len(),
            0 <= j < s.jobs@.len(),
            s.jobs@[i].remote_id == s.jobs@[j].remote_id,
            s.jobs@[i].commit_id == s.jobs@[j].commit_id,
        ensures
            i == j,
    {
    }

    /// A run's timestamps are ordered: it is created no later than it
    /// starts, and starts no later than it completes, wherever those
    /// times are set.
    pub proof fn lemma_run_times_ordered(s: Store, i: int)
        requires
            s.wf(),
            0 <= i < s.runs@.len(),
        ensures
            match s.runs@[i].start_time {
                Some(st) => s.runs@[i].create_time <= st,
                None => true,
            },
            match s.runs@[i].complete_time {
                Some(ct) => {
                    &&& s.runs@[i].create_time <= ct
                    &&& match s.runs@[i].start_time {
                        Some(st) => st <= ct,
                        None => true,
                    }
                },
                None => true,
            },
    {
        assert(Self::run_wf(s.runs@[i], s.clock));
    }

    /// A claim is exclusive: when the only `Pending` run is taken by one
    /// claimant, nothing is left for any other claimant, whatever host it
    /// is — so of many concurrent claims over one `Pending` run,
    /// serialized by the store, exactly one receives the run and the rest
    /// receive nothing.
    pub proof fn lemma_claim_exclusive(
        before: Seq<Run>,
        after: Seq<Run>,
        i: int,
        run: Run,
        other_host: u64,
    )
        requires
            0 <= i < before.len(),
            forall|k: int|
                0 <= k < before.len() && k != i ==> (#[trigger] before[k]).state
                    != RunState::Pending,
            after == before.update(i, run),
            run.state == RunState::Started,
        ensures
            forall|k: int| 0 <= k < after.len() ==> !run_eligible(#[trigger] after[k], other_host),
    {
        assert forall|k: int|
            0 <= k < after.len() implies !run_eligible(#[trigger] after[k], other_host) by {
            if k != i {
                assert(after[k] == before[k]);
            }
        }
    }

    /// Metric upsert is idempotent: writing the same datum for the same
    /// `(run, name)` pair a second time leaves the table's content as it
    /// was after the first write.
    pub proof fn lemma_metric_upsert_idempotent(
        a: Seq<MetricRecord>,
        b: Seq<MetricRecord>,
        c: Seq<MetricRecord>,
        run_id: u64,
        name: Seq<char>,
        value: Seq<char>,
    )
        requires
            forall|i: int, j: int|
                #![trigger b[i], b[j]]
                0 <= i < j < b.len() ==> !(b[i].run_id == b[j].run_id && b[i].name@ == b[j].name@),
            metric_upserted(a, b, run_id, name, value),
            metric_upserted(b, c, run_id, name, value),
        ensures
            metrics_view(c) == metrics_view(b),
    {
        let has_a = exists|i: int| 0 <= i < a.len() && metric_matches(#[trigger] a[i], run_id, name);
        let wi: int = if has_a {
            choose|i: int| 0 <= i < a.len() && metric_matches(#[trigger] a[i], run_id, name)
        } else {
            a.len() as int
        };
        // After the first upsert, row `wi` of `b` carries the datum.
        assert(0 <= wi < b.len());
        assert(metric_matches(b[wi], run_id, name));
        assert(b[wi].value@ == value);
        assert(exists|i: int| 0 <= i < b.len() && metric_matches(#[trigger] b[i], run_id, name));
        let w2 = choose|i: int| 0 <= i < b.len() && metric_matches(#[trigger] b[i], run_id, name);
        if w2 != wi {
            assert(metric_matches(b[w2], run_id, name));
            assert(false);
        }
        assert(c.len() == b.len());
        assert forall|k: int| 0 <= k < b.len() implies metrics_view(c)[k] == metrics_view(b)[k] by {
            if k != w2 {
                assert(c[k] == b[k]);
            } else {
                assert(c[k].id == b[k].id && c[k].run_id == b[k].run_id && c[k].name@ == b[k].name@
                    && c[k].value@ == b[k].value@);
            }
        }
        assert(metrics_view(c) =~= metrics_view(b));
    }

    /// A metric upsert keeps the table's uniqueness rule: if at most one
    /// row per `(run, name)` pair existed before, the same holds after,
    /// whether the upsert rewrote a row or appended one.
    pub proof fn lemma_metric_upsert_keeps_unique(
        a: Seq<MetricRecord>,
        b: Seq<MetricRecord>,
        run_id: u64,
        name: Seq<char>,
        value: Seq<char>,
    )
        requires
            forall|i: int, j: int|
                #![trigger a[i], a[j]]
                0 <= i < j < a.len() ==> !(a[i].run_id == a[j].run_id && a[i].name@ == a[j].name@),
            metric_upserted(a, b, run_id, name, value),
        ensures
            forall|i: int, j: int|
                #![trigger b[i], b[j]]
                0 <= i < j < b.len() ==> !(b[i].run_id == b[j].run_id && b[i].name@ == b[j].name@),
    {
        if exists|i: int| 0 <= i < a.len() && metric_matches(#[trigger] a[i], run_id, name) {
            let w = choose|i: int| 0 <= i < a.len() && metric_matches(#[trigger] a[i], run_id, name);
            assert forall|i: int, j: int|
                #![trigger b[i], b[j]]
                0 <= i < j < b.len() implies !(b[i].run_id == b[j].run_id && b[i].name@
                == b[j].name@) by {
                if i != w {
                    assert(b[i] == a[i]);
                }
                if j != w {
                    assert(b[j] == a[j]);
                }
                // The rewritten row keeps its pair, so the old rule carries over.
                assert(!(a[i].run_id == a[j].run_id && a[i].name@ == a[j].name@));
                if i == w {
                    assert(b[i].run_id == a[w].run_id && b[i].name@ == a[w].name@);
                }
                if j == w {
                    assert(b[j].run_id == a[w].run_id && b[j].name@ == a[w].name@);
                }
            }
        } else {
            assert forall|i: int, j: int|
                #![trigger b[i], b[j]]
                0 <= i < j < b.len() implies !(b[i].run_id == b[j].run_id && b[i].name@
                == b[j].name@) by {
                assert(b[i] == a[i]);
                if j < a.len() {
                    assert(b[j] == a[j]);
                    assert(!(a[i].run_id == a[j].run_id && a[i].name@ == a[j].name@));
                } else {
                    // The appended row's pair matches no old row.
                    assert(!metric_matches(a[i], run_id, name));
                }
            }
        }
    }

    /// The round trip from `new_job` to `job_for_commit`: when the job
    /// just created (or found) for a sha is the only job on that commit,
    /// the id that `job_for_commit` resolves for the sha is exactly it.
    /// (A commit built by several remotes has several jobs, and the
    /// lookup returns the earliest; the single-job premise rules that
    /// out.)
    pub proof fn lemma_new_job_is_found(
        s: Store,
        sha: Seq<char>,
        found: u64,
        created: u64,
        cid: u64,
        ci: int,
        j: int,
    )
        requires
            s.wf(),
            // what `job_for_commit`'s contract yields, with its witnesses:
            0 <= ci < s.commits@.len(),
            s.commits@[ci].sha@ == sha,
            0 <= j < s.jobs@.len(),
            s.jobs@[j].commit_id == s.commits@[ci].id,
            s.jobs@[j].id == found,
            // what `new_job`'s contract yields:
            1 <= cid <= s.commits@.len(),
            s.commits@[cid - 1].sha@ == sha,
            1 <= created <= s.jobs@.len(),
            s.jobs@[created - 1].commit_id == cid,
            // the premise: the commit carries no other job
            forall|k: int|
                0 <= k < s.jobs@.len() && (#[trigger] s.jobs@[k]).commit_id == cid ==> k == created
                    - 1,
        ensures
            found == created,
    {
        if ci != cid - 1 {
            assert(s.commits@[ci].sha@ != s.commits@[cid - 1].sha@);
        }
        assert(ci == cid - 1);
        assert(s.commits@[ci].id == cid);
        assert(j == created - 1);
        assert(s.jobs@[j].id == j + 1);
    }

    /// A run the periodic sweep takes to `Invalid`: still `Pending`, with
    /// a timeout that ran out before `now`.
    pub open spec fn run_timed_out(r: Run, now: u64) -> bool {
        r.state == RunState::Pending && match r.run_timeout {
            Some(t) => r.create_time + t < now,
            None => false,
        }
    }

    /// How many runs of the table the sweep takes at `now`.
    pub open spec fn timed_out_count(runs: Seq<Run>, now: u64) -> nat
        decreases runs.len(),
    {
        if runs.len() == 0 {
            0
        } else {
            Self::timed_out_count(runs.drop_last(), now) + (if Self::run_timed_out(
                runs.last(),
                now,
            ) {
                1nat
            } else {
                0nat
            })
        }
    }

    /// The periodic sweep: every `Pending` run whose timeout ran out
    /// before `now` moves to `Invalid` and is stamped complete; every
    /// other run is left exactly as it was.  Returns how many runs were
    /// swept.
    pub fn sweep_pending_past_timeout(&mut self, now: u64) -> (count: u64)
        requires
            old(self).wf(),
        ensures
            final(self).wf(),
            final(self).runs@.len() == old(self).runs@.len(),
            forall|k: int|
                0 <= k < old(self).runs@.len() ==> run_state_advances(
                    (#[trigger] old(self).runs@[k]).state,
                    final(self).runs@[k].state,
                ),
            forall|k: int|
                0 <= k < old(self).runs@.len() && !Self::run_timed_out(
                    #[trigger] old(self).runs@[k],
                    now,
                ) ==> final(self).runs@[k] == old(self).runs@[k],
            forall|k: int|
                0 <= k < old(self).runs@.len() && Self::run_timed_out(
                    #[trigger] old(self).runs@[k],
                    now,
                ) ==> {
                    let before = old(self).runs@[k];
                    let after = final(self).runs@[k];
                    &&& after.state == RunState::Invalid
                    &&& after.complete_time == Some(spec_stamp(old(self).clock, now))
                    &&& after.id == before.id
                    &&& after.job_id == before.job_id
                    &&& after.host_id == before.host_id
                    &&& after.create_time == before.create_time
                    &&& after.start_time == before.start_time
                    &&& after.build_token == before.build_token
                    &&& after.build_result == before.build_result
                    &&& after.run_timeout == before.run_timeout
                    &&& after.artifacts_path == before.artifacts_path
                    &&& after.final_text == before.final_text
                    &&& after.host_preference == before.host_preference
                },
            count == Self::timed_out_count(old(self).runs@, now),
            Self::only_runs_clock_changed(*old(self), *final(self)),
            final(self).clock == old(self).clock || final(self).clock == spec_stamp(
                old(self).clock,
                now,
            ),
    {
        let n = self.runs.len();
        let mut count: u64 = 0;
        let mut i: usize = 0;
        while i < n
            invariant
                self.wf(),
                n == self.runs@.len(),
                n == old(self).runs@.len(),
                i <= n,
                count <= i,
                count == Self::timed_out_count(old(self).runs@.take(i as int), now),
                Self::only_runs_clock_changed(*old(self), *self),
                self.clock == old(self).clock || self.clock == spec_stamp(old(self).clock, now),
                forall|k: int|
                    i <= k < n ==> (#[trigger] self.runs@[k]) == old(self).runs@[k],
                forall|k: int|
                    0 <= k < i && !Self::run_timed_out(#[trigger] old(self).runs@[k], now)
                        ==> self.runs@[k] == old(self).runs@[k],
                forall|k: int|
                    0 <= k < i && Self::run_timed_out(#[trigger] old(self).runs@[k], now) ==> {
                        let before = old(self).runs@[k];
                        let after = self.runs@[k];
                        &&& after.state == RunState::Invalid
                        &&& after.complete_time == Some(spec_stamp(old(self).clock, now))
                        &&& after.id == before.id
                        &&& after.job_id == before.job_id
                        &&& after.host_id == before.host_id
                        &&& after.create_time == before.create_time
                        &&& after.start_time == before.start_time
                        &&& after.build_token == before.build_token
                        &&& after.build_result == before.build_result
                        &&& after.run_timeout == before.run_timeout
                        &&& after.artifacts_path == before.artifacts_path
                        &&& after.final_text == before.final_text
                        &&& after.host_preference == before.host_preference
                    },
                forall|k: int|
                    0 <= k < n ==> run_state_advances(
                        (#[trigger] old(self).runs@[k]).state,
                        self.runs@[k].state,
                    ),
            decreases n - i,
        {
            let ghost orig = old(self).runs@[i as int];
            let timed_out = {
                let row = &self.runs[i];
                matches!(row.state, RunState::Pending) && (match row.run_timeout {
                    Some(t) => now > t && row.create_time < now - t,
                    None => false,
                })
            };
            proof {
                assert(self.runs@[i as int] == orig);
                assert(timed_out == Self::run_timed_out(orig, now));
            }
            if timed_out {
                let ghost s1 = *self;
                let t = self.tick(now);
                let ghost s2 = *self;
                proof {
                    Self::lemma_wf_clock_raised(s1, s2);
                    assert(spec_stamp(old(self).clock, now) == s2.clock);
                }
                let updated = {
                    let row = &self.runs[i];
                    Run {
                        id: row.id,
                        job_id: row.job_id,
                        artifacts_path: clone_opt_string(&row.artifacts_path),
                        state: RunState::Invalid,
                        host_id: row.host_id,
                        create_time: row.create_time,
                        start_time: row.start_time,
                        complete_time: Some(t),
                        build_token: clone_opt_string(&row.build_token),
                        run_timeout: row.run_timeout,
                        build_result: row.build_result,
                        final_text: clone_opt_string(&row.final_text),
                        host_preference: row.host_preference,
                    }
                };
                self.runs[i] = updated;
                count = count + 1;
                proof {
                    let a = s2.runs@;
                    let b = self.runs@;
                    let ii = i as int;
                    assert forall|k: int| 0 <= k < b.len() implies (#[trigger] b[k]).id == k
                        + 1 by {
                        if k != ii {
                            assert(b[k] == a[k]);
                        }
                    }
                    assert forall|k: int| 0 <= k < b.len() implies 1 <= (#[trigger] b[k]).job_id
                        <= self.jobs@.len() by {
                        if k != ii {
                            assert(b[k] == a[k]);
                        }
                    }
                    assert forall|k: int| 0 <= k < b.len() implies Self::run_wf(
                        #[trigger] b[k],
                        self.clock,
                    ) by {
                        assert(Self::run_wf(a[k], s2.clock));
                        if k != ii {
                            assert(b[k] == a[k]);
                        }
                    }
                    assert forall|k: int, j: int|
                        #![trigger b[k], b[j]]
                        0 <= k <= j < b.len() implies b[k].create_time <= b[j].create_time by {
                        assert(a[k].create_time <= a[j].create_time);
                        if k != ii {
                            assert(b[k] == a[k]);
                        }
                        if j != ii {
                            assert(b[j] == a[j]);
                        }
                    }
                }
            }
            proof {
                assert(old(self).runs@.take(i + 1).drop_last() =~= old(self).runs@.take(i as int));
                assert(old(self).runs@.take(i + 1).last() == orig);
            }
            i = i + 1;
        }
        proof {
            assert(old(self).runs@.take(n as int) =~= old(self).runs@);
        }
        count
    }

    /// Index of the metric row for a `(run, name)` pair.
    fn find_metric(&self, run_id: u64, name: &str) -> (r: Option<usize>)
        ensures
            match r {
                Some(i) => i < self.metrics@.len() && metric_matches(
                    self.metrics@[i as int],
                    run_id,
                    name@,
                ),
                None => forall|k: int|
                    0 <= k < self.metrics@.len() ==> !metric_matches(
                        #[trigger] self.metrics@[k],
                        run_id,
                        name@,
                    ),
            },
    {
        let n = self.metrics.len();
        let mut i: usize = 0;
        while i < n
            invariant
                n == self.metrics@.len(),
                i <= n,
                forall|k: int|
                    0 <= k < i ==> !metric_matches(#[trigger] self.metrics@[k], run_id, name@),
            decreases n - i,
        {
            let row = &self.metrics[i];
            if row.run_id == run_id && str_eq(row.name.as_str(), name) {
                return Some(i);
            }
            i = i + 1;
        }
        None
    }

    /// Upsert one datum for a run the worker holds the token of: the row
    /// for `(run_id, name)` is rewritten if it exists and appended
    /// otherwise, so writing the same datum twice is one write.
    pub fn record_metric(&mut self, run_id: u64, token: &str, name: &str, value: &str) -> (r:
        Result<(), StoreError>)
        requires
            old(self).wf(),
            old(self).metrics@.len() < u64::MAX,
        ensures
            final(self).wf(),
            match r {
                Ok(()) => {
                    &&& 1 <= run_id <= old(self).runs@.len()
                    &&& spec_check_token(old(self).runs@[run_id - 1], token@)
                        == TokenValidity::Valid
                    &&& metric_upserted(
                        old(self).metrics@,
                        final(self).metrics@,
                        run_id,
                        name@,
                        value@,
                    )
                    &&& Self::only_metrics_changed(*old(self), *final(self))
                },
                Err(e) => {
                    &&& *final(self) == *old(self)
                    &&& match e {
                        StoreError::NotFound => !(1 <= run_id <= old(self).runs@.len()),
                        StoreError::TokenInvalid => 1 <= run_id <= old(self).runs@.len()
                            && spec_check_token(old(self).runs@[run_id - 1], token@)
                            == TokenValidity::Invalid,
                        StoreError::StateInvalid => 1 <= run_id <= old(self).runs@.len()
                            && spec_check_token(old(self).runs@[run_id - 1], token@)
                            == TokenValidity::Expired,
                        StoreError::Duplicate => false,
                    }
                },
            },
    {
        if run_id < 1 || run_id > self.runs.len() as u64 {
            return Err(StoreError::NotFound);
        }
        let ri = (run_id - 1) as usize;
        match check_token(&self.runs[ri], token) {
            TokenValidity::Invalid => Err(StoreError::TokenInvalid),
            TokenValidity::Expired => Err(StoreError::StateInvalid),
            TokenValidity::Valid => {
                match self.find_metric(run_id, name) {
                    Some(i) => {
                        let updated = {
                            let row = &self.metrics[i];
                            MetricRecord {
                                id: row.id,
                                run_id,
                                name: name.to_owned(),
                                value: value.to_owned(),
                            }
                        };
                        self.metrics[i] = updated;
                        proof {
                            let a = old(self).metrics@;
                            let b = self.metrics@;
                            let ii = i as int;
                            assert(metric_matches(a[ii], run_id, name@));
                            let w = choose|w: int|
                                0 <= w < a.len() && metric_matches(#[trigger] a[w], run_id, name@);
                            assert(w == ii || w != ii);
                            if w != ii {
                                assert(metric_matches(a[w], run_id, name@));
                                assert(a[w].run_id == a[ii].run_id && a[w].name@ == a[ii].name@);
                                assert(false);
                            }
                            assert forall|k: int| 0 <= k < b.len() implies (#[trigger] b[k]).id
                                == k + 1 by {
                                if k != ii {
                                    assert(b[k] == a[k]);
                                }
                            }
                            assert forall|k: int| 0 <= k < b.len() implies 1 <= (
                            #[trigger] b[k]).run_id <= self.runs@.len() by {
                                if k != ii {
                                    assert(b[k] == a[k]);
                                }
                            }
                            assert forall|k: int, j: int|
                                #![trigger b[k], b[j]]
                                0 <= k < j < b.len() implies !(b[k].run_id == b[j].run_id
                                && b[k].name@ == b[j].name@) by {
                                assert(!(a[k].run_id == a[j].run_id && a[k].name@ == a[j].name@));
                                if k != ii {
                                    assert(b[k] == a[k]);
                                }
                                if j != ii {
                                    assert(b[j] == a[j]);
                                }
                            }
                        }
                        Ok(())
                    },
                    None => {
                        let id = (self.metrics.len() as u64) + 1;
                        self.metrics.push(
                            MetricRecord {
                                id,
                                run_id,
                                name: name.to_owned(),
                                value: value.to_owned(),
                            },
                        );
                        proof {
                            let a = old(self).metrics@;
                            let b = self.metrics@;
                            assert forall|k: int| 0 <= k < b.len() implies (#[trigger] b[k]).id
                                == k + 1 by {
                                if k < a.len() {
                                    assert(b[k] == a[k]);
                                }
                            }
                            assert forall|k: int| 0 <= k < b.len() implies 1 <= (
                            #[trigger] b[k]).run_id <= self.runs@.len() by {
                                if k < a.len() {
                                    assert(b[k] == a[k]);
                                }
                            }
                            assert forall|k: int, j: int|
                                #![trigger b[k], b[j]]
                                0 <= k < j < b.len() implies !(b[k].run_id == b[j].run_id
                                && b[k].name@ == b[j].name@) by {
                                assert(b[k] == a[k]);
                                if j < a.len() {
                                    assert(b[j] == a[j]);
                                    assert(!(a[k].run_id == a[j].run_id && a[k].name@
                                        == a[j].name@));
                                } else {
                                    assert(!metric_matches(a[k], run_id, name@));
                                }
                            }
                        }
                        Ok(())
                    },
                }
            },
        }
    }

    /// Open a named artifact stream for a run the worker holds the token
    /// of; the row starts without a completion time.
    pub fn create_artifact(&mut self, run_id: u64, token: &str, name: &str, desc: &str, now: u64)
        -> (r: Result<u64, StoreError>)
        requires
            old(self).wf(),
            old(self).artifacts@.len() < u64::MAX,
        ensures
            final(self).wf(),
            match r {
                Ok(artifact_id) => {
                    &&& 1 <= run_id <= old(self).runs@.len()
                    &&& spec_check_token(old(self).runs@[run_id - 1], token@)
                        == TokenValidity::Valid
                    &&& artifact_id == old(self).artifacts@.len() + 1
                    &&& grows_by_one(old(self).artifacts@, final(self).artifacts@)
                    &&& final(self).artifacts@.last().id == artifact_id
                    &&& final(self).artifacts@.last().run_id == run_id
                    &&& final(self).artifacts@.last().name@ == name@
                    &&& final(self).artifacts@.last().desc@ == desc@
                    &&& final(self).artifacts@.last().created_time == spec_stamp(
                        old(self).clock,
                        now,
                    )
                    &&& final(self).artifacts@.last().completed_time is None
                    &&& final(self).clock == spec_stamp(old(self).clock, now)
                    &&& Self::only_artifacts_clock_changed(*old(self), *final(self))
                },
                Err(e) => {
                    &&& *final(self) == *old(self)
                    &&& match e {
                        StoreError::NotFound => !(1 <= run_id <= old(self).runs@.len()),
                        StoreError::TokenInvalid => 1 <= run_id <= old(self).runs@.len()
                            && spec_check_token(old(self).runs@[run_id - 1], token@)
                            == TokenValidity::Invalid,
                        StoreError::StateInvalid => 1 <= run_id <= old(self).runs@.len()
                            && spec_check_token(old(self).runs@[run_id - 1], token@)
                            == TokenValidity::Expired,
                        StoreError::Duplicate => false,
                    }
                },
            },
    {
        if run_id < 1 || run_id > self.runs.len() as u64 {
            return Err(StoreError::NotFound);
        }
        let ri = (run_id - 1) as usize;
        match check_token(&self.runs[ri], token) {
            TokenValidity::Invalid => Err(StoreError::TokenInvalid),
            TokenValidity::Expired => Err(StoreError::StateInvalid),
            TokenValidity::Valid => {
                let t = self.tick(now);
                let ghost s2 = *self;
                proof {
                    Self::lemma_wf_clock_raised(*old(self), s2);
                }
                let id = (self.artifacts.len() as u64) + 1;
                self.artifacts.push(
                    ArtifactRecord {
                        id,
                        run_id,
                        name: name.to_owned(),
                        desc: desc.to_owned(),
                        created_time: t,
                        completed_time: None,
                    },
                );
                proof {
                    let a = s2.artifacts@;
                    let b = self.artifacts@;
                    assert forall|k: int| 0 <= k < b.len() implies (#[trigger] b[k]).id == k
                        + 1 by {
                        if k < a.len() {
                            assert(b[k] == a[k]);
                        }
                    }
                    assert forall|k: int| 0 <= k < b.len() implies 1 <= (#[trigger] b[k]).run_id
                        <= self.runs@.len() by {
                        if k < a.len() {
                            assert(b[k] == a[k]);
                        }
                    }
                    assert forall|k: int| 0 <= k < b.len() implies (
                    #[trigger] b[k]).created_time <= self.clock by {
                        if k < a.len() {
                            assert(b[k] == a[k]);
                        }
                    }
                    assert forall|k: int|
                        0 <= k < b.len() implies match (#[trigger] b[k]).completed_time {
                        Some(c) => b[k].created_time <= c <= self.clock,
                        None => true,
                    } by {
                        if k < a.len() {
                            assert(b[k] == a[k]);
                            assert(match a[k].completed_time {
                                Some(c) => a[k].created_time <= c <= s2.clock,
                                None => true,
                            });
                        }
                    }
                }
                Ok(id)
            },
        }
    }

    /// Stamp an artifact's upload as finished.  The caller must hold the
    /// run's token; a stream already completed is refused.
    pub fn complete_artifact(&mut self, artifact_id: u64, token: &str, now: u64) -> (r: Result<
        (),
        StoreError,
    >)
        requires
            old(self).wf(),
        ensures
            final(self).wf(),
            match r {
                Ok(()) => {
                    &&& 1 <= artifact_id <= old(self).artifacts@.len()
                    &&& {
                        let before = old(self).artifacts@[artifact_id - 1];
                        let run = old(self).runs@[before.run_id - 1];
                        &&& opt_str_view(run.build_token) == Some(token@)
                        &&& before.completed_time is None
                    }
                    &&& final(self).artifacts@.len() == old(self).artifacts@.len()
                    &&& forall|k: int|
                        0 <= k < old(self).artifacts@.len() && k != artifact_id - 1 ==> final(self).artifacts@[k] == #[trigger] old(self).artifacts@[k]
                    &&& {
                        let before = old(self).artifacts@[artifact_id - 1];
                        let after = final(self).artifacts@[artifact_id - 1];
                        &&& after.id == before.id
                        &&& after.run_id == before.run_id
                        &&& after.name@ == before.name@
                        &&& after.desc@ == before.desc@
                        &&& after.created_time == before.created_time
                        &&& after.completed_time == Some(spec_stamp(old(self).clock, now))
                    }
                    &&& final(self).clock == spec_stamp(old(self).clock, now)
                    &&& Self::only_artifacts_clock_changed(*old(self), *final(self))
                },
                Err(e) => {
                    &&& *final(self) == *old(self)
                    &&& match e {
                        StoreError::NotFound => !(1 <= artifact_id <= old(self).artifacts@.len()),
                        StoreError::TokenInvalid => 1 <= artifact_id <= old(self).artifacts@.len() && opt_str_view(
                            old(self).runs@[old(self).artifacts@[artifact_id - 1].run_id
                                - 1].build_token,
                        ) != Some(token@),
                        StoreError::StateInvalid => 1 <= artifact_id <= old(self).artifacts@.len() && opt_str_view(
                            old(self).runs@[old(self).artifacts@[artifact_id - 1].run_id
                                - 1].build_token,
                        ) == Some(token@) && old(self).artifacts@[artifact_id
                            - 1].completed_time is Some,
                        StoreError::Duplicate => false,
                    }
                },
            },
    {
        if artifact_id < 1 || artifact_id > self.artifacts.len() as u64 {
            return Err(StoreError::NotFound);
        }
        let ai = (artifact_id - 1) as usize;
        // Reading the table length here lets the verifier see that the
        // run index computed below fits the machine's word.
        let _nruns = self.runs.len();
        proof {
            assert(1 <= self.artifacts@[ai as int].run_id <= self.runs@.len());
        }
        let rid = self.artifacts[ai].run_id;
        let run_index = (rid - 1) as usize;
        let token_ok = crate::strutil::opt_str_eq(&self.runs[run_index].build_token, token);
        if !token_ok {
            return Err(StoreError::TokenInvalid);
        }
        if self.artifacts[ai].completed_time.is_some() {
            return Err(StoreError::StateInvalid);
        }
        let t = self.tick(now);
        let ghost s2 = *self;
        proof {
            Self::lemma_wf_clock_raised(*old(self), s2);
        }
        let updated = {
            let row = &self.artifacts[ai];
            ArtifactRecord {
                id: row.id,
                run_id: row.run_id,
                name: row.name.clone(),
                desc: row.desc.clone(),
                created_time: row.created_time,
                completed_time: Some(t),
            }
        };
        self.artifacts[ai] = updated;
        proof {
            let a = s2.artifacts@;
            let b = self.artifacts@;
            let ii = ai as int;
            assert forall|k: int| 0 <= k < b.len() implies (#[trigger] b[k]).id == k + 1 by {
                if k != ii {
                    assert(b[k] == a[k]);
                }
            }
            assert forall|k: int| 0 <= k < b.len() implies 1 <= (#[trigger] b[k]).run_id
                <= self.runs@.len() by {
                if k != ii {
                    assert(b[k] == a[k]);
                }
            }
            assert forall|k: int| 0 <= k < b.len() implies (#[trigger] b[k]).created_time
                <= self.clock by {
                if k != ii {
                    assert(b[k] == a[k]);
                }
            }
            assert forall|k: int| 0 <= k < b.len() implies match (#[trigger] b[k]).completed_time {
                Some(c) => b[k].created_time <= c <= self.clock,
                None => true,
            } by {
                if k != ii {
                    assert(b[k] == a[k]);
                    assert(match a[k].completed_time {
                        Some(c) => a[k].created_time <= c <= s2.clock,
                        None => true,
                    });
                }
            }
        }
        Ok(())
    }
}

/// Whether a metric row is the datum for this `(run, name)` pair.
pub open spec fn metric_matches(m: MetricRecord, run_id: u64, name: Seq<char>) -> bool {
    m.run_id == run_id && m.name@ == name
}

/// How one metric upsert changes the metrics table: the unique matching
/// row is rewritten in place keeping its id, or a fresh row is appended.
pub open spec fn metric_upserted(
    a: Seq<MetricRecord>,
    b: Seq<MetricRecord>,
    run_id: u64,
    name: Seq<char>,
    value: Seq<char>,
) -> bool {
    if exists|i: int| 0 <= i < a.len() && metric_matches(#[trigger] a[i], run_id, name) {
        let i = choose|i: int| 0 <= i < a.len() && metric_matches(#[trigger] a[i], run_id, name);
        &&& b.len() == a.len()
        &&& forall|k: int| 0 <= k < a.len() && k != i ==> #[trigger] b[k] == a[k]
        &&& b[i].id == a[i].id
        &&& b[i].run_id == run_id
        &&& b[i].name@ == name
        &&& b[i].value@ == value
    } else {
        &&& grows_by_one(a, b)
        &&& b.last().id == a.len() + 1
        &&& b.last().run_id == run_id
        &&& b.last().name@ == name
        &&& b.last().value@ == value
    }
}

/// The content of a metric row, forgetting which `String` values carry it.
pub open spec fn metric_view(m: MetricRecord) -> (u64, u64, Seq<char>, Seq<char>) {
    (m.id, m.run_id, m.name@, m.value@)
}

/// The content of the whole metrics table.
pub open spec fn metrics_view(ms: Seq<MetricRecord>) -> Seq<(u64, u64, Seq<char>, Seq<char>)> {
    ms.map_values(|m: MetricRecord| metric_view(m))
}

/// A `Pending` run that this host may claim: no host preference, or a
/// preference for exactly this host.
pub open spec fn run_eligible(r: Run, host_id: u64) -> bool {
    r.state == RunState::Pending && (r.host_preference is None || r.host_preference == Some(
        host_id,
    ))
}

/// How a presented build token relates to a run: not the run's token at
/// all, the right token but a run no longer accepting work, or valid.
pub open spec fn spec_check_token(r: Run, token: Seq<char>) -> TokenValidity {
    if opt_str_view(r.build_token) != Some(token) {
        TokenValidity::Invalid
    } else if r.state != RunState::Started {
        TokenValidity::Expired
    } else {
        TokenValidity::Valid
    }
}

/// Decide how a worker's token relates to a run.
pub fn check_token(run: &Run, token: &str) -> (v: TokenValidity)
    ensures
        v == spec_check_token(*run, token@),
{
    let matches = crate::strutil::opt_str_eq(&run.build_token, token);
    if !matches {
        TokenValidity::Invalid
    } else if !matches!(run.state, RunState::Started) {
        TokenValidity::Expired
    } else {
        TokenValidity::Valid
    }
}

/// One line of the administrative run listing: a run joined with its job.
pub struct RunListing {
    pub job_id: u64,
    pub run_id: u64,
    pub state: RunState,
    pub created_time: u64,
    pub commit_id: u64,
    pub run_preferences: Option<String>,
}

/// Which of two runs the status view prefers: the later started one,
/// unstarted runs last, ties broken towards the later-created row.
pub open spec fn run_more_recent(a: Run, b: Run) -> bool {
    match (a.start_time, b.start_time) {
        (Some(x), Some(y)) => x > y || (x == y && a.id > b.id),
        (Some(_), None) => true,
        (None, None) => a.id > b.id,
        (None, Some(_)) => false,
    }
}

/// Decide `run_more_recent` on two run rows.
pub fn more_recent(a: &Run, b: &Run) -> (r: bool)
    ensures
        r == run_more_recent(*a, *b),
{
    match (a.start_time, b.start_time) {
        (Some(x), Some(y)) => x > y || (x == y && a.id > b.id),
        (Some(_), None) => true,
        (None, None) => a.id > b.id,
        (None, Some(_)) => false,
    }
}

/// A field-for-field copy of a run row.
pub fn clone_run(r: &Run) -> (c: Run)
    ensures
        c == *r,
{
    Run {
        id: r.id,
        job_id: r.job_id,
        artifacts_path: clone_opt_string(&r.artifacts_path),
        state: r.state,
        host_id: r.host_id,
        create_time: r.create_time,
        start_time: r.start_time,
        complete_time: r.complete_time,
        build_token: clone_opt_string(&r.build_token),
        run_timeout: r.run_timeout,
        build_result: r.build_result,
        final_text: clone_opt_string(&r.final_text),
        host_preference: r.host_preference,
    }
}

/// A field-for-field copy of an optional string.
pub fn clone_opt_string(o: &Option<String>) -> (r: Option<String>)
    ensures
        r == *o,
{
    match o {
        Some(s) => Some(s.clone()),
        None => None,
    }
}

/// A field-for-field copy of a remote row.
pub fn clone_remote(r: &Remote) -> (c: Remote)
    ensures
        c == *r,
{
    Remote {
        id: r.id,
        repo_id: r.repo_id,
        remote_path: r.remote_path.clone(),
        remote_api: r.remote_api.clone(),
        remote_url: r.remote_url.clone(),
        remote_git_url: r.remote_git_url.clone(),
        notifier_config_path: r.notifier_config_path.clone(),
    }
}

} // verus!
