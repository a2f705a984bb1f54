//! The status view: one human-readable page for an `(owner, repo, sha)`
//! triple.
//!
//! The displayed status is derived from the most recent run of the
//! commit's job: a run still pending or started shows as pending, a
//! finished passing run as a pass, a failed or errored one as a
//! failure, and an invalidated run as a server-side fault.  The
//! "deployed" line is a placeholder with no backing state and always
//! reads false.

use vstd::prelude::*;
use vstd::string::StringExecFns;
use crate::data::{JobResult, Run, RunState};
use crate::store::{run_more_recent, Store};

verus! {

/// The aggregated verdict the page shows for a job.
#[derive(Debug, Clone, Copy, PartialEq, Eq, Structural)]
pub enum DisplayStatus {
    Pending,
    Pass,
    Fail,
    ServerError,
}

/// The verdict one run stands for.
pub open spec fn spec_display_status(r: Run) -> DisplayStatus {
    match r.state {
        RunState::Pending => DisplayStatus::Pending,
        RunState::Started => DisplayStatus::Pending,
        RunState::Finished => if r.build_result == Some(JobResult::Pass.spec_to_u8()) {
            DisplayStatus::Pass
        } else {
            DisplayStatus::Fail
        },
        RunState::Error => DisplayStatus::Fail,
        RunState::Invalid => DisplayStatus::ServerError,
    }
}

/// Derive the displayed verdict from a run row.
pub fn display_status(run: &Run) -> (r: DisplayStatus)
    ensures
        r == spec_display_status(*run),
{
    match run.state {
        RunState::Pending => DisplayStatus::Pending,
        RunState::Started => DisplayStatus::Pending,
        RunState::Finished => {
            match run.build_result {
                Some(code) => if code == 0 {
                    DisplayStatus::Pass
                } else {
                    DisplayStatus::Fail
                },
                None => DisplayStatus::Fail,
            }
        },
        RunState::Error => DisplayStatus::Fail,
        RunState::Invalid => DisplayStatus::ServerError,
    }
}

/// Everything the page shows.
#[derive(Debug)]
pub struct StatusPage {
    pub repo_name: String,
    pub remote_path: String,
    pub sha: String,
    pub status: DisplayStatus,
    pub deployed: bool,
}

/// Which lookup failed while assembling a page; each answers 404.
#[derive(Debug, Clone, Copy, PartialEq, Eq, Structural)]
pub enum StatusQueryError {
    UnknownCommit,
    UnknownRemote,
    UnknownJob,
}

/// Assemble the status page for `(owner, repo, sha)`: resolve the
/// commit, the remote whose path is `owner/repo`, and the pair's job;
/// the verdict comes from the job's most recent run, or reads pending
/// for a job with no run yet.
pub fn commit_status_page(store: &Store, owner: &str, repo: &str, sha: &str) -> (r: Result<
    StatusPage,
    StatusQueryError,
>)
    requires
        store.wf(),
    ensures
        match r {
            Err(StatusQueryError::UnknownCommit) => !store.has_commit(sha@),
            Err(StatusQueryError::UnknownRemote) => {
                &&& store.has_commit(sha@)
                &&& forall|i: int|
                    0 <= i < store.remotes@.len() ==> (#[trigger] store.remotes@[i]).remote_path@
                        != owner@ + "/"@ + repo@
            },
            Err(StatusQueryError::UnknownJob) => {
                &&& store.has_commit(sha@)
                &&& exists|i: int, c: int|
                    {
                        &&& 0 <= i < store.remotes@.len()
                        &&& (#[trigger] store.remotes@[i]).remote_path@ == owner@ + "/"@ + repo@
                        &&& 0 <= c < store.commits@.len()
                        &&& (#[trigger] store.commits@[c]).sha@ == sha@
                        &&& !store.has_job_for_pair(store.remotes@[i].id, store.commits@[c].id)
                    }
            },
            Ok(page) => {
                &&& page.deployed == false
                &&& page.sha@ == sha@
                &&& page.remote_path@ == owner@ + "/"@ + repo@
                &&& exists|i: int, c: int, j: int|
                    {
                        &&& 0 <= i < store.remotes@.len()
                        &&& (#[trigger] store.remotes@[i]).remote_path@ == owner@ + "/"@ + repo@
                        &&& 0 <= c < store.commits@.len()
                        &&& (#[trigger] store.commits@[c]).sha@ == sha@
                        &&& 0 <= j < store.jobs@.len()
                        &&& (#[trigger] store.jobs@[j]).remote_id == store.remotes@[i].id
                        &&& store.jobs@[j].commit_id == store.commits@[c].id
                        &&& page.repo_name@ == store.repos@[store.remotes@[i].repo_id - 1].name@
                        &&& {
                            let job_id = store.jobs@[j].id;
                            if exists|k: int|
                                0 <= k < store.runs@.len() && (#[trigger] store.runs@[k]).job_id
                                    == job_id {
                                exists|k: int|
                                    {
                                        &&& 0 <= k < store.runs@.len()
                                        &&& (#[trigger] store.runs@[k]).job_id == job_id
                                        &&& forall|m: int|
                                            0 <= m < store.runs@.len() && (
                                            #[trigger] store.runs@[m]).job_id == job_id && m != k
                                                ==> run_more_recent(
                                                store.runs@[k],
                                                store.runs@[m],
                                            )
                                        &&& page.status == spec_display_status(store.runs@[k])
                                    }
                            } else {
                                page.status == DisplayStatus::Pending
                            }
                        }
                    }
            },
        },
{
    let mut remote_path = owner.to_owned();
    remote_path.append("/");
    remote_path.append(repo);
    let commit_id = match store.commit_id_by_sha(sha) {
        Some(id) => id,
        None => {
            return Err(StatusQueryError::UnknownCommit);
        },
    };
    let remote = match store.remote_by_path(remote_path.as_str()) {
        Some(remote) => remote,
        None => {
            return Err(StatusQueryError::UnknownRemote);
        },
    };
    let ghost ri: int = choose|i: int|
        {
            &&& 0 <= i < store.remotes@.len()
            &&& remote == #[trigger] store.remotes@[i]
            &&& remote.remote_path@ == owner@ + "/"@ + repo@
            &&& forall|k: int|
                0 <= k < i ==> (#[trigger] store.remotes@[k]).remote_path@ != owner@ + "/"@
                    + repo@
        };
    proof {
        assert(store.remotes@[ri].id == ri + 1);
        assert(1 <= remote.repo_id <= store.repos@.len());
        assert(store.commits@[commit_id - 1].id == commit_id);
    }
    let job_id = match store.job_by_pair(remote.id, commit_id) {
        Some(job_id) => job_id,
        None => {
            return Err(StatusQueryError::UnknownJob);
        },
    };
    let ghost ji: int = choose|i: int|
        0 <= i < store.jobs@.len() && (#[trigger] store.jobs@[i]).remote_id == remote.id
            && store.jobs@[i].commit_id == commit_id && store.jobs@[i].id == job_id;
    let repo_row = match store.repo_by_id(remote.repo_id) {
        Some(repo_row) => repo_row,
        None => vstd::pervasive::unreached(),
    };
    let status = match store.last_run_for_job(job_id) {
        Some(run) => display_status(&run),
        None => DisplayStatus::Pending,
    };
    Ok(
        StatusPage {
            repo_name: repo_row.name,
            remote_path,
            sha: sha.to_owned(),
            status,
            deployed: false,
        },
    )
}

/// The colored status fragment of the page.
pub open spec fn spec_status_span(s: DisplayStatus) -> Seq<char> {
    match s {
        DisplayStatus::Pending => "<span style='color:#660;'>pending</span>"@,
        DisplayStatus::Pass => "<span style='color:green;'>pass</span>"@,
        DisplayStatus::Fail => "<span style='color:red;'>fail</span>"@,
        DisplayStatus::ServerError => "<span style='color:red;'>(server error)</span>"@,
    }
}

/// The colored status fragment, as text.
pub fn status_span(s: DisplayStatus) -> (r: &'static str)
    ensures
        r@ == spec_status_span(s),
{
    match s {
        DisplayStatus::Pending => "<span style='color:#660;'>pending</span>",
        DisplayStatus::Pass => "<span style='color:green;'>pass</span>",
        DisplayStatus::Fail => "<span style='color:red;'>fail</span>",
        DisplayStatus::ServerError => "<span style='color:red;'>(server error)</span>",
    }
}

/// The whole page: title, repo line, a link to the commit upstream, the
/// verdict, and the placeholder deployment line.
pub open spec fn spec_status_page_html(page: StatusPage) -> Seq<char> {
    "<html>\n  <head>\n    <title>ci - "@ + page.repo_name@ + "</title>\n  </head>\n  <body>\n    <pre>\n    repo: "@
        + page.repo_name@ + "\n    commit: <a href='https://www.github.com/"@ + page.remote_path@
        + "/commit/"@ + page.sha@ + "'>"@ + page.sha@ + "</a>\n    status: "@ + spec_status_span(
        page.status,
    ) + "\n    deployed: "@ + (if page.deployed {
        "true"@
    } else {
        "false"@
    }) + "\n    </pre>\n  </body>\n</html>\n"@
}

/// Render the page.
pub fn render_status_page(page: &StatusPage) -> (r: String)
    ensures
        r@ == spec_status_page_html(*page),
{
    let mut out =
        "<html>\n  <head>\n    <title>ci - ".to_owned();
    out.append(page.repo_name.as_str());
    out.append("</title>\n  </head>\n  <body>\n    <pre>\n    repo: ");
    out.append(page.repo_name.as_str());
    out.append("\n    commit: <a href='https://www.github.com/");
    out.append(page.remote_path.as_str());
    out.append("/commit/");
    out.append(page.sha.as_str());
    out.append("'>");
    out.append(page.sha.as_str());
    out.append("</a>\n    status: ");
    out.append(status_span(page.status));
    out.append("\n    deployed: ");
    if page.deployed {
        out.append("true");
    } else {
        out.append("false");
    }
    out.append("\n    </pre>\n  </body>\n</html>\n");
    proof {
        assert(out@ =~= spec_status_page_html(*page));
    }
    out
}

} // verus!
