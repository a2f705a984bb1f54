use ci_core::data::{JobResult, RunState};
use ci_core::store::{Store, StoreError};

fn store_with_repo_and_remote() -> (Store, u64, u64) {
    let mut store = Store::new();
    let repo_id = store.new_repo("foo").expect("fresh repo name");
    let remote_id = store
        .new_remote(
            repo_id,
            "alice/foo",
            "github",
            "https://www.github.com/alice/foo",
            "https://www.github.com/alice/foo.git",
            "foo.config",
        )
        .expect("repo exists");
    (store, repo_id, remote_id)
}

#[test]
fn repo_names_are_unique() {
    let mut store = Store::new();
    assert_eq!(store.new_repo("foo"), Ok(1));
    assert_eq!(store.new_repo("bar"), Ok(2));
    assert_eq!(store.new_repo("foo"), Err(StoreError::Duplicate));
    assert_eq!(store.repo_id_by_name("foo"), Some(1));
    assert_eq!(store.repo_id_by_name("bar"), Some(2));
    assert_eq!(store.repo_id_by_name("baz"), None);
}

#[test]
fn ensure_commit_is_idempotent() {
    let mut store = Store::new();
    let (id_first, was_new_first) = store.ensure_commit("abc123");
    let (id_second, was_new_second) = store.ensure_commit("abc123");
    assert!(was_new_first);
    assert!(!was_new_second);
    assert_eq!(id_first, id_second);
    assert_eq!(store.commits.len(), 1);
}

#[test]
fn duplicate_job_for_pair_is_not_created() {
    let (mut store, _repo_id, remote_id) = store_with_repo_and_remote();
    let (job_a, commit_a) = store
        .new_job(remote_id, "abc123", Some("a@example.com".to_string()), None, 100)
        .expect("remote exists");
    let (job_b, commit_b) = store
        .new_job(remote_id, "abc123", Some("b@example.com".to_string()), None, 200)
        .expect("remote exists");
    assert_eq!(job_a, job_b);
    assert_eq!(commit_a, commit_b);
    assert_eq!(store.jobs.len(), 1);
}

#[test]
fn distinct_remotes_get_distinct_jobs() {
    let (mut store, repo_id, remote_a) = store_with_repo_and_remote();
    let remote_b = store
        .new_remote(
            repo_id,
            "mirror/foo",
            "github",
            "https://www.github.com/mirror/foo",
            "https://www.github.com/mirror/foo.git",
            "foo.config",
        )
        .expect("repo exists");
    let (job_a, _) = store
        .new_job(remote_a, "abc123", None, None, 100)
        .expect("remote exists");
    let (job_b, _) = store
        .new_job(remote_b, "abc123", None, None, 100)
        .expect("remote exists");
    assert_ne!(job_a, job_b);
    assert_eq!(store.jobs.len(), 2);
    assert_eq!(store.commits.len(), 1);
}

#[test]
fn new_job_for_unknown_remote_is_refused() {
    let mut store = Store::new();
    assert_eq!(
        store.new_job(1, "abc123", None, None, 100),
        Err(StoreError::NotFound)
    );
    assert_eq!(store.commits.len(), 0);
}

#[test]
fn job_for_commit_finds_created_job() {
    let (mut store, _repo_id, remote_id) = store_with_repo_and_remote();
    let (job_id, _commit_id) = store
        .new_job(remote_id, "abc123", None, None, 100)
        .expect("remote exists");
    assert_eq!(store.job_for_commit("abc123"), Some(job_id));
    assert_eq!(store.job_for_commit("ffffff"), None);
}

#[test]
fn run_lifecycle_pass() {
    let (mut store, _repo_id, remote_id) = store_with_repo_and_remote();
    let (job_id, _) = store
        .new_job(remote_id, "abc123", None, None, 100)
        .expect("remote exists");
    let run = store.new_run(job_id, None, 150).expect("job exists");
    assert_eq!(run.state, RunState::Pending);
    assert_eq!(run.create_time, 150);
    assert!(run.build_token.is_none());

    let claimed = store.claim_pending_run(7, "token-a", 200).expect("one run pending");
    assert_eq!(claimed.id, run.id);
    assert_eq!(claimed.state, RunState::Started);
    assert_eq!(claimed.host_id, Some(7));
    assert_eq!(claimed.start_time, Some(200));
    assert_eq!(claimed.build_token.as_deref(), Some("token-a"));

    store
        .finish_run(run.id, "token-a", JobResult::Pass, "all good", 300)
        .expect("token matches");
    let row = &store.runs[(run.id - 1) as usize];
    assert_eq!(row.state, RunState::Finished);
    assert_eq!(row.complete_time, Some(300));
    assert_eq!(row.build_result, Some(0));
    assert_eq!(row.final_text.as_deref(), Some("all good"));
}

#[test]
fn run_lifecycle_fail_goes_to_error() {
    let (mut store, _repo_id, remote_id) = store_with_repo_and_remote();
    let (job_id, _) = store
        .new_job(remote_id, "abc123", None, None, 100)
        .expect("remote exists");
    let run = store.new_run(job_id, None, 150).expect("job exists");
    store.claim_pending_run(7, "token-a", 200).expect("one run pending");
    store
        .finish_run(run.id, "token-a", JobResult::Fail, "broke", 300)
        .expect("token matches");
    let row = &store.runs[(run.id - 1) as usize];
    assert_eq!(row.state, RunState::Error);
    assert_eq!(row.build_result, Some(1));
}

#[test]
fn serialized_claims_hand_out_each_run_once() {
    let (mut store, _repo_id, remote_id) = store_with_repo_and_remote();
    let (job_id, _) = store
        .new_job(remote_id, "abc123", None, None, 100)
        .expect("remote exists");
    let run = store.new_run(job_id, None, 150).expect("job exists");
    let first = store.claim_pending_run(1, "token-a", 200);
    let second = store.claim_pending_run(2, "token-b", 210);
    let winner = first.expect("first claim takes the run");
    assert_eq!(winner.id, run.id);
    assert_eq!(winner.state, RunState::Started);
    assert_eq!(winner.host_id, Some(1));
    assert!(!winner.build_token.as_deref().unwrap_or("").is_empty());
    assert!(second.is_none());
}

#[test]
fn claim_respects_host_preference() {
    let (mut store, _repo_id, remote_id) = store_with_repo_and_remote();
    let (job_id, _) = store
        .new_job(remote_id, "abc123", None, None, 100)
        .expect("remote exists");
    store.new_run(job_id, Some(5), 150).expect("job exists");
    assert!(store.claim_pending_run(4, "token-a", 200).is_none());
    let claimed = store.claim_pending_run(5, "token-b", 210).expect("preferred host");
    assert_eq!(claimed.host_id, Some(5));
}

#[test]
fn claim_prefers_latest_created_run() {
    let (mut store, _repo_id, remote_id) = store_with_repo_and_remote();
    let (job_id, _) = store
        .new_job(remote_id, "abc123", None, None, 100)
        .expect("remote exists");
    let early = store.new_run(job_id, None, 150).expect("job exists");
    let late = store.new_run(job_id, None, 160).expect("job exists");
    let claimed = store.claim_pending_run(1, "token-a", 200).expect("runs pending");
    assert_eq!(claimed.id, late.id);
    let claimed_next = store.claim_pending_run(1, "token-b", 210).expect("one run left");
    assert_eq!(claimed_next.id, early.id);
}

#[test]
fn finish_with_wrong_token_changes_nothing() {
    let (mut store, _repo_id, remote_id) = store_with_repo_and_remote();
    let (job_id, _) = store
        .new_job(remote_id, "abc123", None, None, 100)
        .expect("remote exists");
    let run = store.new_run(job_id, None, 150).expect("job exists");
    store.claim_pending_run(1, "t1", 200).expect("one run pending");
    assert_eq!(
        store.finish_run(run.id, "t2", JobResult::Pass, "", 300),
        Err(StoreError::TokenInvalid)
    );
    let row = &store.runs[(run.id - 1) as usize];
    assert_eq!(row.state, RunState::Started);
    assert_eq!(row.complete_time, None);
}

#[test]
fn finish_before_claim_is_refused() {
    let (mut store, _repo_id, remote_id) = store_with_repo_and_remote();
    let (job_id, _) = store
        .new_job(remote_id, "abc123", None, None, 100)
        .expect("remote exists");
    let run = store.new_run(job_id, None, 150).expect("job exists");
    assert_eq!(
        store.finish_run(run.id, "t1", JobResult::Pass, "", 300),
        Err(StoreError::TokenInvalid)
    );
    assert_eq!(
        store.finish_run(99, "t1", JobResult::Pass, "", 300),
        Err(StoreError::NotFound)
    );
}

#[test]
fn finish_twice_is_refused() {
    let (mut store, _repo_id, remote_id) = store_with_repo_and_remote();
    let (job_id, _) = store
        .new_job(remote_id, "abc123", None, None, 100)
        .expect("remote exists");
    let run = store.new_run(job_id, None, 150).expect("job exists");
    store.claim_pending_run(1, "t1", 200).expect("one run pending");
    store
        .finish_run(run.id, "t1", JobResult::Pass, "", 300)
        .expect("token matches");
    assert_eq!(
        store.finish_run(run.id, "t1", JobResult::Pass, "", 400),
        Err(StoreError::StateInvalid)
    );
}

#[test]
fn metric_upsert_is_idempotent_on_run_and_name() {
    let (mut store, _repo_id, remote_id) = store_with_repo_and_remote();
    let (job_id, _) = store
        .new_job(remote_id, "abc123", None, None, 100)
        .expect("remote exists");
    let run = store.new_run(job_id, None, 150).expect("job exists");
    store.claim_pending_run(1, "t1", 200).expect("one run pending");

    store.record_metric(run.id, "t1", "cpu", "7").expect("token matches");
    let snapshot: Vec<_> = store
        .metrics
        .iter()
        .map(|m| (m.id, m.run_id, m.name.clone(), m.value.clone()))
        .collect();
    store.record_metric(run.id, "t1", "cpu", "7").expect("token matches");
    let again: Vec<_> = store
        .metrics
        .iter()
        .map(|m| (m.id, m.run_id, m.name.clone(), m.value.clone()))
        .collect();
    assert_eq!(snapshot, again);
    assert_eq!(store.metrics.len(), 1);

    store.record_metric(run.id, "t1", "cpu", "9").expect("token matches");
    assert_eq!(store.metrics.len(), 1);
    assert_eq!(store.metrics[0].value, "9");
    store.record_metric(run.id, "t1", "mem", "3").expect("token matches");
    assert_eq!(store.metrics.len(), 2);
}

#[test]
fn metric_with_wrong_token_is_refused() {
    let (mut store, _repo_id, remote_id) = store_with_repo_and_remote();
    let (job_id, _) = store
        .new_job(remote_id, "abc123", None, None, 100)
        .expect("remote exists");
    let run = store.new_run(job_id, None, 150).expect("job exists");
    store.claim_pending_run(1, "t1", 200).expect("one run pending");
    assert_eq!(
        store.record_metric(run.id, "t2", "cpu", "7"),
        Err(StoreError::TokenInvalid)
    );
    assert!(store.metrics.is_empty());
}

#[test]
fn artifact_create_and_complete() {
    let (mut store, _repo_id, remote_id) = store_with_repo_and_remote();
    let (job_id, _) = store
        .new_job(remote_id, "abc123", None, None, 100)
        .expect("remote exists");
    let run = store.new_run(job_id, None, 150).expect("job exists");
    store.claim_pending_run(1, "t1", 200).expect("one run pending");
    let artifact_id = store
        .create_artifact(run.id, "t1", "build log (stdout)", "stdout of build", 250)
        .expect("token matches");
    assert_eq!(store.artifacts[0].completed_time, None);
    assert_eq!(store.artifacts[0].created_time, 250);
    store.complete_artifact(artifact_id, "t1", 300).expect("token matches");
    assert_eq!(store.artifacts[0].completed_time, Some(300));
    assert_eq!(
        store.complete_artifact(artifact_id, "t1", 350),
        Err(StoreError::StateInvalid)
    );
    assert_eq!(
        store.complete_artifact(99, "t1", 350),
        Err(StoreError::NotFound)
    );
}

#[test]
fn invalidate_stuck_run() {
    let (mut store, _repo_id, remote_id) = store_with_repo_and_remote();
    let (job_id, _) = store
        .new_job(remote_id, "abc123", None, None, 100)
        .expect("remote exists");
    let run = store.new_run(job_id, None, 150).expect("job exists");
    store.invalidate_run(run.id, 500).expect("run is live");
    let row = &store.runs[(run.id - 1) as usize];
    assert_eq!(row.state, RunState::Invalid);
    assert_eq!(row.complete_time, Some(500));
    assert_eq!(store.invalidate_run(run.id, 600), Err(StoreError::StateInvalid));
}

#[test]
fn timestamps_never_move_backwards() {
    let (mut store, _repo_id, remote_id) = store_with_repo_and_remote();
    let (job_id, _) = store
        .new_job(remote_id, "abc123", None, None, 1000)
        .expect("remote exists");
    // A wall clock that jumped back still yields ordered stamps.
    let run = store.new_run(job_id, None, 400).expect("job exists");
    assert_eq!(run.create_time, 1000);
    let claimed = store.claim_pending_run(1, "t1", 600).expect("one run pending");
    assert!(claimed.start_time.unwrap() >= run.create_time);
    store
        .finish_run(run.id, "t1", JobResult::Pass, "", 500)
        .expect("token matches");
    let row = &store.runs[(run.id - 1) as usize];
    assert!(row.complete_time.unwrap() >= row.start_time.unwrap());
}

#[test]
fn rerun_commit_adds_pending_run_and_leaves_job_alone() {
    let (mut store, _repo_id, remote_id) = store_with_repo_and_remote();
    let (job_id, commit_id) = store
        .new_job(remote_id, "abc123", None, None, 100)
        .expect("remote exists");
    store.new_run(job_id, None, 100).expect("job exists");
    let job_created_time = store.jobs[(job_id - 1) as usize].created_time;

    let rerun = store.rerun_commit("abc123", 900).expect("job resolves");
    assert_eq!(rerun.job_id, job_id);
    assert_eq!(rerun.state, RunState::Pending);
    assert_eq!(store.runs.len(), 2);
    assert_eq!(store.jobs.len(), 1);
    let job = &store.jobs[(job_id - 1) as usize];
    assert_eq!(job.id, job_id);
    assert_eq!(job.commit_id, commit_id);
    assert_eq!(job.created_time, job_created_time);

    assert_eq!(
        store.rerun_commit("eeeeee", 950).unwrap_err(),
        StoreError::NotFound
    );
}

#[test]
fn rerun_run_reuses_the_runs_job() {
    let (mut store, _repo_id, remote_id) = store_with_repo_and_remote();
    let (job_id, _) = store
        .new_job(remote_id, "abc123", None, None, 100)
        .expect("remote exists");
    let run = store.new_run(job_id, None, 100).expect("job exists");
    let rerun = store.rerun_run(run.id, 200).expect("run exists");
    assert_eq!(rerun.job_id, job_id);
    assert_eq!(store.runs.len(), 2);
}

#[test]
fn list_runs_is_ordered_by_create_time() {
    let (mut store, _repo_id, remote_id) = store_with_repo_and_remote();
    let (job_a, _) = store
        .new_job(remote_id, "abc123", None, Some("all".to_string()), 100)
        .expect("remote exists");
    let (job_b, _) = store
        .new_job(remote_id, "def456", None, None, 150)
        .expect("remote exists");
    store.new_run(job_a, None, 150).expect("job exists");
    store.new_run(job_b, None, 160).expect("job exists");
    store.new_run(job_a, None, 170).expect("job exists");
    let listing = store.list_runs();
    assert_eq!(listing.len(), 3);
    for pair in listing.windows(2) {
        assert!(pair[0].created_time <= pair[1].created_time);
    }
    assert_eq!(listing[0].job_id, job_a);
    assert_eq!(listing[0].run_preferences.as_deref(), Some("all"));
    assert_eq!(listing[1].job_id, job_b);
    assert_eq!(listing[1].run_preferences, None);
}

#[test]
fn remotes_for_repo_filters_by_owner() {
    let (mut store, repo_id, _remote_id) = store_with_repo_and_remote();
    let other_repo = store.new_repo("bar").expect("fresh repo name");
    store
        .new_remote(
            other_repo,
            "alice/bar",
            "github",
            "https://www.github.com/alice/bar",
            "https://www.github.com/alice/bar.git",
            "bar.config",
        )
        .expect("repo exists");
    let remotes = store.remotes_for_repo(repo_id);
    assert_eq!(remotes.len(), 1);
    assert_eq!(remotes[0].remote_path, "alice/foo");
    assert_eq!(store.all_repos().len(), 2);
}

#[test]
fn sweep_invalidates_only_timed_out_pending_runs() {
    let (mut store, _repo_id, remote_id) = store_with_repo_and_remote();
    let (job_id, _) = store
        .new_job(remote_id, "abc123", None, None, 100)
        .expect("remote exists");
    let stale_run = store.new_run(job_id, None, 100).expect("job exists");
    store.runs[(stale_run.id - 1) as usize].run_timeout = Some(50);
    let fresh_run = store.new_run(job_id, None, 100).expect("job exists");
    store.runs[(fresh_run.id - 1) as usize].run_timeout = Some(10_000);
    let untimed_run = store.new_run(job_id, None, 100).expect("job exists");
    let started = store.new_run(job_id, None, 100).expect("job exists");
    store.claim_pending_run(1, "t1", 120).expect("runs pending");

    let swept = store.sweep_pending_past_timeout(500);
    assert_eq!(swept, 1);
    assert_eq!(
        store.runs[(stale_run.id - 1) as usize].state,
        RunState::Invalid
    );
    assert_eq!(
        store.runs[(stale_run.id - 1) as usize].complete_time,
        Some(500)
    );
    assert_eq!(
        store.runs[(fresh_run.id - 1) as usize].state,
        RunState::Pending
    );
    assert_eq!(
        store.runs[(untimed_run.id - 1) as usize].state,
        RunState::Pending
    );
    assert_eq!(
        store.runs[(started.id - 1) as usize].state,
        RunState::Started
    );
}

#[test]
fn host_coverage_lists_all_jobs_this_host_has_not_run() {
    let (mut store, _repo_id, remote_id) = store_with_repo_and_remote();
    let (job_all, _) = store
        .new_job(remote_id, "abc123", None, Some("all".to_string()), 100)
        .expect("remote exists");
    let (job_single, _) = store
        .new_job(remote_id, "def456", None, None, 100)
        .expect("remote exists");
    store.new_run(job_all, None, 100).expect("job exists");
    store.new_run(job_single, None, 100).expect("job exists");

    // Host 1 has run nothing yet: only the "all" job is owed a run.
    assert_eq!(store.jobs_needing_host_run(1, 0), vec![job_all]);
    // Host 1 claims and so becomes the "all" job's host.
    let claimed = store.claim_pending_run(1, "t1", 200).expect("runs pending");
    if claimed.job_id == job_all {
        assert_eq!(store.jobs_needing_host_run(1, 0), Vec::<u64>::new());
    }
    // A cutoff after the job's creation hides it.
    assert_eq!(store.jobs_needing_host_run(2, 150), Vec::<u64>::new());
    assert_eq!(store.jobs_needing_host_run(2, 0), vec![job_all]);
}

#[test]
fn metrics_for_run_returns_only_that_runs_rows() {
    let (mut store, _repo_id, remote_id) = store_with_repo_and_remote();
    let (job_id, _) = store
        .new_job(remote_id, "abc123", None, None, 100)
        .expect("remote exists");
    let run_a = store.new_run(job_id, None, 100).expect("job exists");
    let run_b = store.new_run(job_id, None, 110).expect("job exists");
    let claimed_first = store.claim_pending_run(1, "t1", 200).expect("runs pending");
    let claimed_second = store.claim_pending_run(2, "t2", 210).expect("runs pending");
    assert_eq!(claimed_first.id, run_b.id);
    assert_eq!(claimed_second.id, run_a.id);
    store.record_metric(run_b.id, "t1", "cpu", "7").expect("token matches");
    store.record_metric(run_a.id, "t2", "cpu", "9").expect("token matches");
    store.record_metric(run_b.id, "t1", "mem", "3").expect("token matches");
    let rows = store.metrics_for_run(run_b.id);
    assert_eq!(rows.len(), 2);
    assert_eq!(rows[0].name, "cpu");
    assert_eq!(rows[0].value, "7");
    assert_eq!(rows[1].name, "mem");
    assert!(store.metrics_for_run(99).is_empty());
}

#[test]
fn admin_create_job_resolves_remote_and_adds_a_run() {
    let (mut store, _repo_id, _remote_id) = store_with_repo_and_remote();
    let (job_id, commit_id, run_id) = store
        .create_job_with_run("github", "alice/foo", "abc123", Some("a@example.com".to_string()), 100)
        .expect("remote exists");
    assert_eq!((job_id, commit_id, run_id), (1, 1, 1));
    assert_eq!(store.runs[0].state, RunState::Pending);
    // Creating again dedups the job but still adds a run.
    let (job_again, _, run_again) = store
        .create_job_with_run("github", "alice/foo", "abc123", None, 200)
        .expect("remote exists");
    assert_eq!(job_again, job_id);
    assert_eq!(run_again, 2);
    assert_eq!(store.jobs.len(), 1);
    assert_eq!(store.runs.len(), 2);
    assert_eq!(
        store
            .create_job_with_run("github", "bob/bar", "abc123", None, 300)
            .unwrap_err(),
        StoreError::NotFound
    );
}

#[test]
fn active_runs_lists_pending_and_started_only() {
    let (mut store, _repo_id, remote_id) = store_with_repo_and_remote();
    let (job_id, _) = store
        .new_job(remote_id, "abc123", None, None, 100)
        .expect("remote exists");
    let finished = store.new_run(job_id, None, 100).expect("job exists");
    let started = store.new_run(job_id, None, 110).expect("job exists");
    let pending = store.new_run(job_id, None, 120).expect("job exists");
    // Claims take the latest pending run first.
    assert_eq!(
        store.claim_pending_run(1, "t1", 130).expect("runs pending").id,
        pending.id
    );
    assert_eq!(
        store.claim_pending_run(2, "t2", 140).expect("runs pending").id,
        started.id
    );
    assert_eq!(
        store.claim_pending_run(3, "t3", 150).expect("runs pending").id,
        finished.id
    );
    store
        .finish_run(finished.id, "t3", JobResult::Pass, "", 200)
        .expect("token matches");
    let active = store.active_runs();
    assert_eq!(active.len(), 2);
    assert!(active.iter().all(|r| r.state == RunState::Started));
    assert!(active.iter().any(|r| r.id == started.id));
    assert!(active.iter().any(|r| r.id == pending.id));
}
