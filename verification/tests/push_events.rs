use ci_core::event::{
    handle_github_event, parse_push_event, EventOutcome, GithubHookError, PushField, PushOutcome,
};
use ci_core::json::JsonValue;
use ci_core::store::Store;

fn s(text: &str) -> JsonValue {
    JsonValue::Str(text.to_string())
}

fn obj(entries: Vec<(&str, JsonValue)>) -> JsonValue {
    JsonValue::Obj(
        entries
            .into_iter()
            .map(|(k, v)| (k.to_string(), v))
            .collect(),
    )
}

fn push_body(sha: &str, repo_full_name: &str, email: &str) -> JsonValue {
    obj(vec![
        ("after", s(sha)),
        ("repository", obj(vec![("full_name", s(repo_full_name))])),
        ("head_commit", obj(vec![("message", s("fix the build"))])),
        ("pusher", obj(vec![("email", s(email))])),
    ])
}

fn store_with_remote(path: &str) -> Store {
    let mut store = Store::new();
    let repo_id = store.new_repo("foo").expect("fresh repo name");
    store
        .new_remote(
            repo_id,
            path,
            "github",
            "https://www.github.com/alice/foo",
            "https://www.github.com/alice/foo.git",
            "foo.config",
        )
        .expect("repo exists");
    store
}

#[test]
fn parse_reads_the_required_fields() {
    let event = parse_push_event(&push_body("abc123", "alice/foo", "a@example.com"))
        .expect("complete body");
    assert_eq!(event.tip, "abc123");
    assert_eq!(event.repo_name, "alice/foo");
    assert_eq!(event.pusher_email, "a@example.com");
}

#[test]
fn parse_refuses_a_non_object_body() {
    assert_eq!(
        parse_push_event(&JsonValue::Arr(vec![])),
        Err(GithubHookError::BodyNotObject)
    );
}

#[test]
fn parse_refuses_missing_fields_one_by_one() {
    let no_after = obj(vec![
        ("repository", obj(vec![("full_name", s("alice/foo"))])),
        ("head_commit", obj(vec![])),
        ("pusher", obj(vec![("email", s("a@example.com"))])),
    ]);
    assert_eq!(
        parse_push_event(&no_after),
        Err(GithubHookError::MissingElement(PushField::After))
    );

    let no_full_name = obj(vec![
        ("after", s("abc123")),
        ("repository", obj(vec![])),
        ("head_commit", obj(vec![])),
        ("pusher", obj(vec![("email", s("a@example.com"))])),
    ]);
    assert_eq!(
        parse_push_event(&no_full_name),
        Err(GithubHookError::MissingElement(PushField::RepoFullName))
    );

    let no_pusher_email = obj(vec![
        ("after", s("abc123")),
        ("repository", obj(vec![("full_name", s("alice/foo"))])),
        ("head_commit", obj(vec![])),
        ("pusher", obj(vec![])),
    ]);
    assert_eq!(
        parse_push_event(&no_pusher_email),
        Err(GithubHookError::MissingElement(PushField::PusherEmail))
    );
}

#[test]
fn parse_refuses_fields_of_the_wrong_type() {
    let bad_after = obj(vec![
        ("after", JsonValue::Int(5)),
        ("repository", obj(vec![("full_name", s("alice/foo"))])),
        ("head_commit", obj(vec![])),
        ("pusher", obj(vec![("email", s("a@example.com"))])),
    ]);
    assert_eq!(
        parse_push_event(&bad_after),
        Err(GithubHookError::BadType(PushField::After))
    );

    let bad_repository = obj(vec![
        ("after", s("abc123")),
        ("repository", s("alice/foo")),
        ("head_commit", obj(vec![])),
        ("pusher", obj(vec![("email", s("a@example.com"))])),
    ]);
    assert_eq!(
        parse_push_event(&bad_repository),
        Err(GithubHookError::BadType(PushField::Repository))
    );

    let bad_head_commit = obj(vec![
        ("after", s("abc123")),
        ("repository", obj(vec![("full_name", s("alice/foo"))])),
        ("head_commit", JsonValue::Null),
        ("pusher", obj(vec![("email", s("a@example.com"))])),
    ]);
    assert_eq!(
        parse_push_event(&bad_head_commit),
        Err(GithubHookError::BadType(PushField::HeadCommit))
    );
}

#[test]
fn first_push_creates_commit_job_and_run() {
    let mut store = store_with_remote("alice/foo");
    let body = push_body("abc123", "alice/foo", "a@example.com");
    let result = handle_github_event(&mut store, "push", &body, 1000);
    assert_eq!(result.status, 200);
    match result.outcome {
        EventOutcome::PushDone(PushOutcome::Created { job_id, commit_id, run_id }) => {
            assert_eq!(job_id, 1);
            assert_eq!(commit_id, 1);
            assert_eq!(run_id, 1);
        },
        _ => panic!("first push should create the job"),
    }
    assert_eq!(store.commits.len(), 1);
    assert_eq!(store.jobs.len(), 1);
    assert_eq!(store.runs.len(), 1);
    assert_eq!(store.jobs[0].source.as_deref(), Some("a@example.com"));
    assert_eq!(result.notify.len(), 1);
    assert_eq!(result.notify[0].remote_path, "alice/foo");
    assert_eq!(result.notify[0].notifier_config_path, "foo.config");
}

#[test]
fn duplicate_push_changes_nothing() {
    let mut store = store_with_remote("alice/foo");
    let body = push_body("abc123", "alice/foo", "a@example.com");
    let first = handle_github_event(&mut store, "push", &body, 1000);
    assert_eq!(first.status, 200);
    let second = handle_github_event(&mut store, "push", &body, 2000);
    assert_eq!(second.status, 200);
    assert!(matches!(
        second.outcome,
        EventOutcome::PushDone(PushOutcome::Deduped)
    ));
    assert_eq!(store.commits.len(), 1);
    assert_eq!(store.jobs.len(), 1);
    assert_eq!(store.runs.len(), 1);
    assert!(second.notify.is_empty());
}

#[test]
fn push_for_unknown_remote_answers_not_found() {
    let mut store = store_with_remote("alice/foo");
    let body = push_body("abc123", "bob/bar", "b@example.com");
    let result = handle_github_event(&mut store, "push", &body, 1000);
    assert_eq!(result.status, 404);
    assert!(matches!(
        result.outcome,
        EventOutcome::PushDone(PushOutcome::UnknownRemote)
    ));
    assert_eq!(store.commits.len(), 0);
    assert_eq!(store.jobs.len(), 0);
}

#[test]
fn malformed_push_body_answers_bad_request() {
    let mut store = store_with_remote("alice/foo");
    let body = obj(vec![("after", s("abc123"))]);
    let result = handle_github_event(&mut store, "push", &body, 1000);
    assert_eq!(result.status, 400);
    assert!(matches!(result.outcome, EventOutcome::PushRefused(_)));
    assert_eq!(store.commits.len(), 0);
}

#[test]
fn status_events_are_acknowledged_and_ignored() {
    let mut store = store_with_remote("alice/foo");
    let body = obj(vec![("state", s("pending"))]);
    let result = handle_github_event(&mut store, "status", &body, 1000);
    assert_eq!(result.status, 200);
    assert!(matches!(result.outcome, EventOutcome::StatusIgnored));
    assert_eq!(store.commits.len(), 0);
}

#[test]
fn other_event_kinds_are_acknowledged() {
    let mut store = store_with_remote("alice/foo");
    let body = obj(vec![]);
    let result = handle_github_event(&mut store, "watch", &body, 1000);
    assert_eq!(result.status, 200);
    assert!(matches!(result.outcome, EventOutcome::OtherIgnored));
}

#[test]
fn push_uses_repo_default_run_preference() {
    let mut store = Store::new();
    let repo_id = store.new_repo("foo").expect("fresh repo name");
    store.repos[(repo_id - 1) as usize].default_run_preference = Some("all".to_string());
    store
        .new_remote(
            repo_id,
            "alice/foo",
            "github",
            "https://www.github.com/alice/foo",
            "https://www.github.com/alice/foo.git",
            "foo.config",
        )
        .expect("repo exists");
    let body = push_body("abc123", "alice/foo", "a@example.com");
    handle_github_event(&mut store, "push", &body, 1000);
    assert_eq!(store.jobs[0].run_preferences.as_deref(), Some("all"));
}
