use ci_core::data::{CommitName, JobResult, NameState, Run, RunState};
use ci_core::status::{
    commit_status_page, display_status, render_status_page, DisplayStatus, StatusPage,
    StatusQueryError,
};
use ci_core::steps::StepPath;
use ci_core::store::Store;

fn run_in_state(state: RunState, build_result: Option<u8>) -> Run {
    Run {
        id: 1,
        job_id: 1,
        artifacts_path: None,
        state,
        host_id: None,
        create_time: 0,
        start_time: None,
        complete_time: None,
        build_token: None,
        run_timeout: None,
        build_result,
        final_text: None,
        host_preference: None,
    }
}

#[test]
fn display_status_follows_the_run() {
    assert_eq!(
        display_status(&run_in_state(RunState::Pending, None)),
        DisplayStatus::Pending
    );
    assert_eq!(
        display_status(&run_in_state(RunState::Started, None)),
        DisplayStatus::Pending
    );
    assert_eq!(
        display_status(&run_in_state(RunState::Finished, Some(0))),
        DisplayStatus::Pass
    );
    assert_eq!(
        display_status(&run_in_state(RunState::Finished, Some(1))),
        DisplayStatus::Fail
    );
    assert_eq!(
        display_status(&run_in_state(RunState::Error, Some(1))),
        DisplayStatus::Fail
    );
    assert_eq!(
        display_status(&run_in_state(RunState::Invalid, None)),
        DisplayStatus::ServerError
    );
}

fn seeded_store() -> (Store, u64) {
    let mut store = Store::new();
    let repo_id = store.new_repo("foo").expect("fresh repo name");
    store
        .new_remote(
            repo_id,
            "alice/foo",
            "github",
            "https://www.github.com/alice/foo",
            "https://www.github.com/alice/foo.git",
            "foo.config",
        )
        .expect("repo exists");
    let (job_id, _) = store
        .new_job(1, "abc123", None, None, 100)
        .expect("remote exists");
    (store, job_id)
}

#[test]
fn status_page_shows_the_latest_run() {
    let (mut store, job_id) = seeded_store();
    let run = store.new_run(job_id, None, 150).expect("job exists");
    store.claim_pending_run(1, "t1", 200).expect("one run pending");
    store
        .finish_run(run.id, "t1", JobResult::Pass, "", 300)
        .expect("token matches");
    // A later rerun that is still pending keeps the finished run on display.
    store.new_run(job_id, None, 400).expect("job exists");

    let page = commit_status_page(&store, "alice", "foo", "abc123").expect("all rows exist");
    assert_eq!(page.repo_name, "foo");
    assert_eq!(page.remote_path, "alice/foo");
    assert_eq!(page.sha, "abc123");
    assert_eq!(page.status, DisplayStatus::Pass);
    assert!(!page.deployed);
}

#[test]
fn status_page_for_job_without_runs_is_pending() {
    let (store, _job_id) = seeded_store();
    let page = commit_status_page(&store, "alice", "foo", "abc123").expect("all rows exist");
    assert_eq!(page.status, DisplayStatus::Pending);
}

#[test]
fn status_page_lookup_failures() {
    let (store, _job_id) = seeded_store();
    assert_eq!(
        commit_status_page(&store, "alice", "foo", "ffffff").unwrap_err(),
        StatusQueryError::UnknownCommit
    );
    assert_eq!(
        commit_status_page(&store, "bob", "bar", "abc123").unwrap_err(),
        StatusQueryError::UnknownRemote
    );
}

#[test]
fn rendered_page_is_exact() {
    let page = StatusPage {
        repo_name: "foo".to_string(),
        remote_path: "alice/foo".to_string(),
        sha: "abc123".to_string(),
        status: DisplayStatus::Pass,
        deployed: false,
    };
    let html = render_status_page(&page);
    let expected = "<html>\n  <head>\n    <title>ci - foo</title>\n  </head>\n  <body>\n    <pre>\n    repo: foo\n    commit: <a href='https://www.github.com/alice/foo/commit/abc123'>abc123</a>\n    status: <span style='color:green;'>pass</span>\n    deployed: false\n    </pre>\n  </body>\n</html>\n";
    assert_eq!(html, expected);
}

#[test]
fn commit_name_stringy_marks_stale_names() {
    let fresh = CommitName { name: "main".to_string(), state: NameState::Fresh };
    let stale = CommitName { name: "old-branch".to_string(), state: NameState::Stale };
    let short = CommitName { name: "abc12".to_string(), state: NameState::ShortSha };
    assert_eq!(fresh.stringy(), "main");
    assert_eq!(stale.stringy(), "old-branch (stale)");
    assert_eq!(short.stringy(), "abc12");
    assert!(!fresh.stale());
    assert!(stale.stale());
    assert!(short.stale());
}

#[test]
fn run_state_integers_round_trip() {
    let states = [
        RunState::Pending,
        RunState::Started,
        RunState::Finished,
        RunState::Error,
        RunState::Invalid,
    ];
    for state in states {
        assert_eq!(RunState::from_u8(state.to_u8()), Some(state));
    }
    assert_eq!(RunState::from_u8(5), None);
    assert_eq!(NameState::from_u8(2), Some(NameState::ShortSha));
    assert_eq!(NameState::from_u8(3), None);
    assert_eq!(JobResult::Pass.to_u8(), 0);
    assert_eq!(JobResult::Fail.to_u8(), 1);
}

#[test]
fn into_pending_run_projects_the_row() {
    let run = run_in_state(RunState::Pending, None);
    let pending = run.into_pending_run();
    assert_eq!(pending.id, 1);
    assert_eq!(pending.job_id, 1);
    assert_eq!(pending.create_time, 0);
}

#[test]
fn step_path_tracks_the_script() {
    let mut path = StepPath::new();
    path.start("build".to_string());
    assert_eq!(path.names, vec!["build".to_string()]);
    path.push("compile".to_string());
    assert_eq!(path.names, vec!["build".to_string(), "compile".to_string()]);
    path.advance("test".to_string());
    assert_eq!(path.names, vec!["build".to_string(), "test".to_string()]);
    path.start("deploy".to_string());
    assert_eq!(path.names, vec!["deploy".to_string()]);
    let mut empty = StepPath::new();
    empty.advance("first".to_string());
    assert_eq!(empty.names, vec!["first".to_string()]);
}
