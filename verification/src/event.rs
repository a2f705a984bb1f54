//! The event processor: from a validated provider event to store
//! mutations and notifier work.
//!
//! A `push` body is parsed into the fields the system reads; the push
//! path then deduplicates against the store — one job per remote and
//! commit, however many times the same push is delivered — creates the
//! job and its first `Pending` run, and hands back the list of
//! notifiers to tell.  `status` events are acknowledged and ignored so
//! that this system's own status posts cannot feed back; unknown kinds
//! are acknowledged.

use vstd::prelude::*;
use vstd::pervasive::unreached;
use crate::data::RunState;
use crate::json::{obj_lookup, JsonValue};
use crate::store::{
    grows_by_one, opt_str_view, remote_of_repo, spec_stamp, Store,
};
use crate::strutil::str_eq;

verus! {

/// A field of the push event document.
#[derive(Debug, Clone, Copy, PartialEq, Eq, Structural)]
pub enum PushField {
    After,
    Repository,
    RepoFullName,
    HeadCommit,
    Pusher,
    PusherEmail,
}

/// Why a webhook body was refused: not an object, a required field
/// missing, or a field of the wrong JSON type.
#[derive(Debug, Clone, Copy, PartialEq, Eq, Structural)]
pub enum GithubHookError {
    BodyNotObject,
    MissingElement(PushField),
    BadType(PushField),
}

/// What the push path reads from a push body: the tip sha, the
/// provider-local repository path, and the pusher's address as job
/// provenance.
#[derive(Debug, PartialEq, Eq)]
pub struct PushEvent {
    pub tip: String,
    pub repo_name: String,
    pub pusher_email: String,
}

/// What a push body means: each required field in turn, refused exactly
/// at the first one missing or of the wrong type.
pub open spec fn spec_parse_push(v: JsonValue) -> Result<PushEvent, GithubHookError> {
    match v {
        JsonValue::Obj(entries) => match obj_lookup(entries@, "after"@) {
            None => Err(GithubHookError::MissingElement(PushField::After)),
            Some(JsonValue::Str(tip)) => match obj_lookup(entries@, "repository"@) {
                None => Err(GithubHookError::MissingElement(PushField::Repository)),
                Some(JsonValue::Obj(repo_entries)) => match obj_lookup(
                    repo_entries@,
                    "full_name"@,
                ) {
                    None => Err(GithubHookError::MissingElement(PushField::RepoFullName)),
                    Some(JsonValue::Str(repo_name)) => match obj_lookup(
                        entries@,
                        "head_commit"@,
                    ) {
                        None => Err(GithubHookError::MissingElement(PushField::HeadCommit)),
                        Some(JsonValue::Obj(_)) => match obj_lookup(entries@, "pusher"@) {
                            None => Err(GithubHookError::MissingElement(PushField::Pusher)),
                            Some(JsonValue::Obj(pusher_entries)) => match obj_lookup(
                                pusher_entries@,
                                "email"@,
                            ) {
                                None => Err(
                                    GithubHookError::MissingElement(PushField::PusherEmail),
                                ),
                                Some(JsonValue::Str(email)) => Ok(
                                    PushEvent { tip, repo_name, pusher_email: email },
                                ),
                                Some(_) => Err(GithubHookError::BadType(PushField::PusherEmail)),
                            },
                            Some(_) => Err(GithubHookError::BadType(PushField::Pusher)),
                        },
                        Some(_) => Err(GithubHookError::BadType(PushField::HeadCommit)),
                    },
                    Some(_) => Err(GithubHookError::BadType(PushField::RepoFullName)),
                },
                Some(_) => Err(GithubHookError::BadType(PushField::Repository)),
            },
            Some(_) => Err(GithubHookError::BadType(PushField::After)),
        },
        _ => Err(GithubHookError::BodyNotObject),
    }
}

/// Parse a push body into the fields the push path reads.
pub fn parse_push_event(body: &JsonValue) -> (r: Result<PushEvent, GithubHookError>)
    ensures
        r == spec_parse_push(*body),
{
    if !body.is_object() {
        return Err(GithubHookError::BodyNotObject);
    }
    let tip: String = match body.get("after") {
        None => {
            return Err(GithubHookError::MissingElement(PushField::After));
        },
        Some(JsonValue::Str(s)) => s.clone(),
        Some(_) => {
            return Err(GithubHookError::BadType(PushField::After));
        },
    };
    let repo_val: &JsonValue = match body.get("repository") {
        None => {
            return Err(GithubHookError::MissingElement(PushField::Repository));
        },
        Some(v) => v,
    };
    if !repo_val.is_object() {
        return Err(GithubHookError::BadType(PushField::Repository));
    }
    let repo_name: String = match repo_val.get("full_name") {
        None => {
            return Err(GithubHookError::MissingElement(PushField::RepoFullName));
        },
        Some(JsonValue::Str(s)) => s.clone(),
        Some(_) => {
            return Err(GithubHookError::BadType(PushField::RepoFullName));
        },
    };
    match body.get("head_commit") {
        None => {
            return Err(GithubHookError::MissingElement(PushField::HeadCommit));
        },
        Some(JsonValue::Obj(_)) => {},
        Some(_) => {
            return Err(GithubHookError::BadType(PushField::HeadCommit));
        },
    };
    let pusher_val: &JsonValue = match body.get("pusher") {
        None => {
            return Err(GithubHookError::MissingElement(PushField::Pusher));
        },
        Some(v) => v,
    };
    if !pusher_val.is_object() {
        return Err(GithubHookError::BadType(PushField::Pusher));
    }
    let pusher_email: String = match pusher_val.get("email") {
        None => {
            return Err(GithubHookError::MissingElement(PushField::PusherEmail));
        },
        Some(JsonValue::Str(s)) => s.clone(),
        Some(_) => {
            return Err(GithubHookError::BadType(PushField::PusherEmail));
        },
    };
    Ok(PushEvent { tip, repo_name, pusher_email })
}

/// One notifier the caller should resolve and tell about a fresh job:
/// a remote's path and the path of its config file under the config
/// root.
pub struct NotifyTarget {
    pub remote_path: String,
    pub notifier_config_path: String,
}

/// How the push path answered.
pub enum PushOutcome {
    /// No github remote carries the pushed repository path.
    UnknownRemote,
    /// The commit was seen before and its job exists; nothing written.
    Deduped,
    /// A job and its first run were created.
    Created { job_id: u64, commit_id: u64, run_id: u64 },
}

/// The push path's answer: the outcome and, for a fresh job, the
/// notifiers of the owning repo.
pub struct PushResult {
    pub outcome: PushOutcome,
    pub notify: Vec<NotifyTarget>,
}

/// No github-kind remote of the store carries this repository path.
pub open spec fn push_unknown_remote(s: Store, path: Seq<char>) -> bool {
    forall|i: int|
        0 <= i < s.remotes@.len() ==> !((#[trigger] s.remotes@[i]).remote_api@ == "github"@
            && s.remotes@[i].remote_path@ == path)
}

/// The pushed commit is known and its job on the matching remote
/// exists, so a repeated delivery has nothing to do.
pub open spec fn push_deduped(s: Store, path: Seq<char>, tip: Seq<char>) -> bool {
    exists|i: int, c: int|
        {
            &&& 0 <= i < s.remotes@.len()
            &&& (#[trigger] s.remotes@[i]).remote_api@ == "github"@
            &&& s.remotes@[i].remote_path@ == path
            &&& 0 <= c < s.commits@.len()
            &&& (#[trigger] s.commits@[c]).sha@ == tip
            &&& s.has_job_for_pair(s.remotes@[i].id, s.commits@[c].id)
        }
}

/// What a fresh push leaves behind: the commit row ensured, one new job
/// on the matching remote carrying the pusher as source and the repo's
/// default run preference, one new `Pending` run on it, and one notify
/// target per remote of the owning repo.
pub open spec fn push_created(
    s0: Store,
    s1: Store,
    ev: PushEvent,
    job_id: u64,
    commit_id: u64,
    run_id: u64,
    notify: Seq<NotifyTarget>,
    now: u64,
) -> bool {
    exists|i: int|
        {
            &&& 0 <= i < s0.remotes@.len()
            &&& (#[trigger] s0.remotes@[i]).remote_api@ == "github"@
            &&& s0.remotes@[i].remote_path@ == ev.repo_name@
            &&& forall|k: int|
                0 <= k < i ==> !((#[trigger] s0.remotes@[k]).remote_api@ == "github"@
                    && s0.remotes@[k].remote_path@ == ev.repo_name@)
            &&& {
                let remote = s0.remotes@[i];
                &&& !s0.has_job_for_pair(remote.id, commit_id)
                &&& 1 <= commit_id <= s1.commits@.len()
                &&& s1.commits@[commit_id - 1].sha@ == ev.tip@
                &&& (s0.has_commit(ev.tip@) ==> s1.commits@ == s0.commits@)
                &&& (!s0.has_commit(ev.tip@) ==> grows_by_one(s0.commits@, s1.commits@)
                    && commit_id == s0.commits@.len() + 1)
                &&& grows_by_one(s0.jobs@, s1.jobs@)
                &&& job_id == s0.jobs@.len() + 1
                &&& s1.jobs@.last().remote_id == remote.id
                &&& s1.jobs@.last().commit_id == commit_id
                &&& s1.jobs@.last().created_time == spec_stamp(s0.clock, now)
                &&& opt_str_view(s1.jobs@.last().source) == Some(ev.pusher_email@)
                &&& opt_str_view(s1.jobs@.last().run_preferences) == opt_str_view(
                    s0.repos@[remote.repo_id - 1].default_run_preference,
                )
                &&& grows_by_one(s0.runs@, s1.runs@)
                &&& run_id == s0.runs@.len() + 1
                &&& s1.runs@.last().id == run_id
                &&& s1.runs@.last().job_id == job_id
                &&& s1.runs@.last().state == RunState::Pending
                &&& s1.runs@.last().create_time == spec_stamp(s0.clock, now)
                &&& s1.runs@.last().host_preference is None
                &&& s1.runs@.last().host_id is None
                &&& s1.runs@.last().build_token is None
                &&& s1.runs@.last().start_time is None
                &&& s1.runs@.last().complete_time is None
                &&& s1.runs@.last().build_result is None
                &&& s1.runs@.last().final_text is None
                &&& s1.runs@.last().artifacts_path is None
                &&& s1.runs@.last().run_timeout is None
                &&& s1.repos@ == s0.repos@
                &&& s1.remotes@ == s0.remotes@
                &&& s1.metrics@ == s0.metrics@
                &&& s1.artifacts@ == s0.artifacts@
                &&& s1.clock == spec_stamp(s0.clock, now)
                &&& {
                    let repo_remotes = s0.remotes@.filter(remote_of_repo(remote.repo_id));
                    &&& notify.len() == repo_remotes.len()
                    &&& forall|k: int|
                        0 <= k < notify.len() ==> (#[trigger] notify[k]).remote_path@
                            == repo_remotes[k].remote_path@ && notify[k].notifier_config_path@
                            == repo_remotes[k].notifier_config_path@
                }
            }
        }
}

/// Carry a validated push through the store: find the remote, ensure
/// the commit, create job and first run unless the job already exists,
/// and name the notifiers to tell.  A repeated delivery of the same
/// push changes nothing.
pub fn process_push_event(store: &mut Store, event: &PushEvent, now: u64) -> (r: PushResult)
    requires
        old(store).wf(),
        old(store).commits@.len() + 1 < u64::MAX,
        old(store).jobs@.len() < u64::MAX,
        old(store).runs@.len() < u64::MAX,
    ensures
        final(store).wf(),
        match r.outcome {
            PushOutcome::UnknownRemote => {
                &&& push_unknown_remote(*old(store), event.repo_name@)
                &&& *final(store) == *old(store)
                &&& r.notify@.len() == 0
            },
            PushOutcome::Deduped => {
                &&& push_deduped(*old(store), event.repo_name@, event.tip@)
                &&& *final(store) == *old(store)
                &&& r.notify@.len() == 0
            },
            PushOutcome::Created { job_id, commit_id, run_id } => push_created(
                *old(store),
                *final(store),
                *event,
                job_id,
                commit_id,
                run_id,
                r.notify@,
                now,
            ),
        },
{
    let remote = match store.remote_by_path_and_api("github", event.repo_name.as_str()) {
        Some(remote) => remote,
        None => {
            return PushResult { outcome: PushOutcome::UnknownRemote, notify: Vec::new() };
        },
    };
    let ghost ri: int = choose|i: int|
        {
            &&& 0 <= i < store.remotes@.len()
            &&& remote == #[trigger] store.remotes@[i]
            &&& remote.remote_api@ == "github"@
            &&& remote.remote_path@ == event.repo_name@
            &&& forall|k: int|
                0 <= k < i ==> !((#[trigger] store.remotes@[k]).remote_api@ == "github"@
                    && store.remotes@[k].remote_path@ == event.repo_name@)
        };
    proof {
        assert(store.remotes@[ri].id == ri + 1);
        assert(1 <= remote.repo_id <= store.repos@.len());
    }
    let (commit_id, was_new) = store.ensure_commit(event.tip.as_str());
    if !was_new {
        match store.job_by_pair(remote.id, commit_id) {
            Some(_) => {
                proof {
                    let c: int = commit_id - 1;
                    assert(store.commits@[c].sha@ == event.tip@);
                    assert(store.commits@[c].id == commit_id);
                    assert(push_deduped(*old(store), event.repo_name@, event.tip@));
                }
                return PushResult { outcome: PushOutcome::Deduped, notify: Vec::new() };
            },
            None => {},
        }
    }
    let repo = match store.repo_by_id(remote.repo_id) {
        Some(repo) => repo,
        None => unreached(),
    };
    let (job_id, commit_id) = match store.new_job(
        remote.id,
        event.tip.as_str(),
        Some(event.pusher_email.clone()),
        repo.default_run_preference,
        now,
    ) {
        Ok(ids) => ids,
        Err(_) => unreached(),
    };
    let run = match store.new_run(job_id, None, now) {
        Ok(run) => run,
        Err(_) => unreached(),
    };
    let repo_remotes = store.remotes_for_repo(remote.repo_id);
    let mut notify: Vec<NotifyTarget> = Vec::new();
    let m = repo_remotes.len();
    let mut k: usize = 0;
    while k < m
        invariant
            m == repo_remotes@.len(),
            k <= m,
            notify@.len() == k,
            forall|j: int|
                0 <= j < k ==> (#[trigger] notify@[j]).remote_path@
                    == repo_remotes@[j].remote_path@ && notify@[j].notifier_config_path@
                    == repo_remotes@[j].notifier_config_path@,
        decreases m - k,
    {
        let row = &repo_remotes[k];
        notify.push(
            NotifyTarget {
                remote_path: row.remote_path.clone(),
                notifier_config_path: row.notifier_config_path.clone(),
            },
        );
        k = k + 1;
    }
    PushResult {
        outcome: PushOutcome::Created { job_id, commit_id, run_id: run.id },
        notify,
    }
}

/// Processing a push never yields a second job for a `(remote, commit)`
/// pair: the store a push leaves is well-formed, and a well-formed store
/// holds at most one job per pair — so a duplicate delivery, serialized
/// by the store, finds the pair's job and creates nothing.
pub proof fn lemma_push_keeps_one_job_per_pair(
    s0: Store,
    s1: Store,
    ev: PushEvent,
    job_id: u64,
    commit_id: u64,
    run_id: u64,
    notify: Seq<NotifyTarget>,
    now: u64,
    a: int,
    b: int,
)
    requires
        s1.wf(),
        push_created(s0, s1, ev, job_id, commit_id, run_id, notify, now),
        0 <= a < s1.jobs@.len(),
        0 <= b < s1.jobs@.len(),
        s1.jobs@[a].remote_id == s1.jobs@[b].remote_id,
        s1.jobs@[a].commit_id == s1.jobs@[b].commit_id,
    ensures
        a == b,
{
    Store::lemma_at_most_one_job_per_pair(s1, a, b);
}

/// The run a fresh push creates is handed out exactly once: when no run
/// was `Pending` before the push, the push leaves exactly one eligible
/// run — the new one, eligible to every host — and once a claim has
/// taken it (by `claim_pending_run`'s contract together with
/// `lemma_claim_exclusive`), every later claimant, whatever its host,
/// receives nothing.
pub proof fn lemma_push_run_claimed_once(
    s0: Store,
    s1: Store,
    ev: PushEvent,
    job_id: u64,
    commit_id: u64,
    run_id: u64,
    notify: Seq<NotifyTarget>,
    now: u64,
    host_id: u64,
)
    requires
        push_created(s0, s1, ev, job_id, commit_id, run_id, notify, now),
        forall|k: int|
            0 <= k < s0.runs@.len() ==> (#[trigger] s0.runs@[k]).state != RunState::Pending,
    ensures
        s1.runs@.len() == s0.runs@.len() + 1,
        crate::store::run_eligible(s1.runs@.last(), host_id),
        forall|k: int|
            0 <= k < s1.runs@.len() - 1 ==> !crate::store::run_eligible(
                #[trigger] s1.runs@[k],
                host_id,
            ),
{
    assert forall|k: int|
        0 <= k < s1.runs@.len() - 1 implies !crate::store::run_eligible(
        #[trigger] s1.runs@[k],
        host_id,
    ) by {
        assert(s1.runs@[k] == s0.runs@[k]);
    }
}

/// After a push on a sha the store had never seen, resolving that sha
/// finds exactly the job the push created: the commit row is fresh, so
/// the new job is the only one on it, and `job_for_commit`'s contract
/// pins its answer to that job.  The parameters `ci`, `j` and `found`
/// are the witnesses that contract supplies.
pub proof fn lemma_push_job_is_found(
    s0: Store,
    s1: Store,
    ev: PushEvent,
    job_id: u64,
    commit_id: u64,
    run_id: u64,
    notify: Seq<NotifyTarget>,
    now: u64,
    found: u64,
    ci: int,
    j: int,
)
    requires
        s0.wf(),
        s1.wf(),
        push_created(s0, s1, ev, job_id, commit_id, run_id, notify, now),
        !s0.has_commit(ev.tip@),
        0 <= ci < s1.commits@.len(),
        s1.commits@[ci].sha@ == ev.tip@,
        0 <= j < s1.jobs@.len(),
        s1.jobs@[j].commit_id == s1.commits@[ci].id,
        s1.jobs@[j].id == found,
    ensures
        found == job_id,
{
    assert(commit_id == s0.commits@.len() + 1);
    assert(s1.jobs@[job_id - 1] == s1.jobs@.last());
    assert(s1.jobs@[job_id - 1].commit_id == commit_id);
    assert forall|k: int|
        0 <= k < s1.jobs@.len() && (#[trigger] s1.jobs@[k]).commit_id == commit_id implies k
        == job_id - 1 by {
        if k < s0.jobs@.len() {
            assert(s1.jobs@[k] == s0.jobs@[k]);
            assert(1 <= s0.jobs@[k].commit_id <= s0.commits@.len());
        }
    }
    Store::lemma_new_job_is_found(s1, ev.tip@, found, job_id, commit_id, ci, j);
}

/// How the ingress answered a provider event, once authenticated.
pub enum EventOutcome {
    /// A push was processed; how, is in the `PushOutcome`.
    PushDone(PushOutcome),
    /// A push body that does not parse; the request is refused.
    PushRefused(GithubHookError),
    /// A status event: acknowledged and ignored, so that this system's
    /// own status posts cannot loop back.
    StatusIgnored,
    /// Any other event kind: acknowledged.
    OtherIgnored,
}

/// The ingress answer: the outcome, the HTTP status to return, and the
/// notifiers to tell about a fresh job.
pub struct EventResult {
    pub outcome: EventOutcome,
    pub status: u16,
    pub notify: Vec<NotifyTarget>,
}

/// Dispatch an authenticated provider event by its kind header, as the
/// webhook route does after HMAC validation: `push` is parsed (a bad
/// body is refused with 400) and processed (an unknown remote answers
/// 404, everything else 200); `status` and unknown kinds answer 200
/// with no effect.
pub fn handle_github_event(store: &mut Store, event_kind: &str, body: &JsonValue, now: u64) -> (r:
    EventResult)
    requires
        old(store).wf(),
        old(store).commits@.len() + 1 < u64::MAX,
        old(store).jobs@.len() < u64::MAX,
        old(store).runs@.len() < u64::MAX,
    ensures
        final(store).wf(),
        if event_kind@ == "push"@ {
            match spec_parse_push(*body) {
                Err(e) => {
                    &&& r.outcome == EventOutcome::PushRefused(e)
                    &&& r.status == 400
                    &&& *final(store) == *old(store)
                    &&& r.notify@.len() == 0
                },
                Ok(ev) => match r.outcome {
                    EventOutcome::PushDone(PushOutcome::UnknownRemote) => {
                        &&& push_unknown_remote(*old(store), ev.repo_name@)
                        &&& r.status == 404
                        &&& *final(store) == *old(store)
                        &&& r.notify@.len() == 0
                    },
                    EventOutcome::PushDone(PushOutcome::Deduped) => {
                        &&& push_deduped(*old(store), ev.repo_name@, ev.tip@)
                        &&& r.status == 200
                        &&& *final(store) == *old(store)
                        &&& r.notify@.len() == 0
                    },
                    EventOutcome::PushDone(
                        PushOutcome::Created { job_id, commit_id, run_id },
                    ) => {
                        &&& push_created(
                            *old(store),
                            *final(store),
                            ev,
                            job_id,
                            commit_id,
                            run_id,
                            r.notify@,
                            now,
                        )
                        &&& r.status == 200
                    },
                    _ => false,
                },
            }
        } else {
            &&& *final(store) == *old(store)
            &&& r.status == 200
            &&& r.notify@.len() == 0
            &&& if event_kind@ == "status"@ {
                r.outcome == EventOutcome::StatusIgnored
            } else {
                r.outcome == EventOutcome::OtherIgnored
            }
        },
{
    if str_eq(event_kind, "push") {
        match parse_push_event(body) {
            Err(e) => EventResult {
                outcome: EventOutcome::PushRefused(e),
                status: 400,
                notify: Vec::new(),
            },
            Ok(ev) => {
                let result = process_push_event(store, &ev, now);
                let status: u16 = match &result.outcome {
                    PushOutcome::UnknownRemote => 404,
                    PushOutcome::Deduped => 200,
                    PushOutcome::Created { .. } => 200,
                };
                EventResult {
                    outcome: EventOutcome::PushDone(result.outcome),
                    status,
                    notify: result.notify,
                }
            },
        }
    } else if str_eq(event_kind, "status") {
        EventResult { outcome: EventOutcome::StatusIgnored, status: 200, notify: Vec::new() }
    } else {
        EventResult { outcome: EventOutcome::OtherIgnored, status: 200, notify: Vec::new() }
    }
}

} // verus!
