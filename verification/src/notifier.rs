//! Outbound notification: per-remote configuration and the status
//! updates a notifier asks the provider client to deliver.
//!
//! A config file is a small JSON document in one of two shapes.  New
//! files carry an explicit `kind` field; the legacy shape without one is
//! still recognized by its fields.  The registry's job — verifying the
//! shape — is here; reading the file and speaking HTTP or SMTP is not.

use vstd::prelude::*;
use vstd::string::{StrSliceExecFns, StringExecFns, StringSliceAdditionalSpecFns};
use crate::json::{obj_lookup, JsonValue};
use crate::strutil::str_eq;

verus! {

/// An outbound notification channel, as loaded from a remote's config.
#[derive(Debug)]
pub enum NotifierConfig {
    /// Posts commit statuses to the provider's REST API.
    GitHub { ci_server: String, token: String, webhook_token: String },
    /// Sends mail; kept for configs that declare it, not dispatched.
    Email { username: String, password: String, mailserver: String, from: String, to: String },
}

/// Why a config document was refused.
#[derive(Debug, Clone, Copy, PartialEq, Eq, Structural)]
pub enum ConfigError {
    /// The document is not a JSON object.
    NotAnObject,
    /// The `kind` field is present but names no known kind.
    UnknownKind,
    /// The fields match neither known shape.
    ShapeMismatch,
    /// The document is a valid config of the other kind.
    WrongKind,
}

/// The GitHub-style fields of an object, when all three are strings.
pub open spec fn spec_github_fields(entries: Seq<(String, JsonValue)>) -> Option<NotifierConfig> {
    match (
        obj_lookup(entries, "ci_server"@),
        obj_lookup(entries, "token"@),
        obj_lookup(entries, "webhook_token"@),
    ) {
        (
            Some(JsonValue::Str(ci_server)),
            Some(JsonValue::Str(token)),
            Some(JsonValue::Str(webhook_token)),
        ) => Some(NotifierConfig::GitHub { ci_server, token, webhook_token }),
        _ => None,
    }
}

/// The email-style fields of an object, when all five are strings.
pub open spec fn spec_email_fields(entries: Seq<(String, JsonValue)>) -> Option<NotifierConfig> {
    match (
        obj_lookup(entries, "username"@),
        obj_lookup(entries, "password"@),
        obj_lookup(entries, "mailserver"@),
        obj_lookup(entries, "from"@),
        obj_lookup(entries, "to"@),
    ) {
        (
            Some(JsonValue::Str(username)),
            Some(JsonValue::Str(password)),
            Some(JsonValue::Str(mailserver)),
            Some(JsonValue::Str(from)),
            Some(JsonValue::Str(to)),
        ) => Some(NotifierConfig::Email { username, password, mailserver, from, to }),
        _ => None,
    }
}

/// What a config document means: an explicit `kind` selects the shape;
/// without one, the legacy untagged document is recognized by its
/// fields, GitHub-style first.
pub open spec fn spec_config_from_json(v: JsonValue) -> Result<NotifierConfig, ConfigError> {
    match v {
        JsonValue::Obj(entries) => match obj_lookup(entries@, "kind"@) {
            Some(JsonValue::Str(kind)) => if kind@ == "github"@ {
                match spec_github_fields(entries@) {
                    Some(c) => Ok(c),
                    None => Err(ConfigError::ShapeMismatch),
                }
            } else if kind@ == "email"@ {
                match spec_email_fields(entries@) {
                    Some(c) => Ok(c),
                    None => Err(ConfigError::ShapeMismatch),
                }
            } else {
                Err(ConfigError::UnknownKind)
            },
            Some(_) => Err(ConfigError::UnknownKind),
            None => match spec_github_fields(entries@) {
                Some(c) => Ok(c),
                None => match spec_email_fields(entries@) {
                    Some(c) => Ok(c),
                    None => Err(ConfigError::ShapeMismatch),
                },
            },
        },
        _ => Err(ConfigError::NotAnObject),
    }
}

/// `v` is the document `NotifierConfig::to_json` writes for `c`: a
/// `kind` entry and then the shape's fields, in order, each holding
/// exactly the config's string.
pub open spec fn json_encodes_config(v: JsonValue, c: NotifierConfig) -> bool {
    match c {
        NotifierConfig::GitHub { ci_server, token, webhook_token } => match v {
            JsonValue::Obj(entries) => {
                &&& entries@.len() == 4
                &&& entries@[0].0@ == "kind"@
                &&& match entries@[0].1 {
                    JsonValue::Str(k) => k@ == "github"@,
                    _ => false,
                }
                &&& entries@[1].0@ == "ci_server"@
                &&& entries@[1].1 == JsonValue::Str(ci_server)
                &&& entries@[2].0@ == "token"@
                &&& entries@[2].1 == JsonValue::Str(token)
                &&& entries@[3].0@ == "webhook_token"@
                &&& entries@[3].1 == JsonValue::Str(webhook_token)
            },
            _ => false,
        },
        NotifierConfig::Email { username, password, mailserver, from, to } => match v {
            JsonValue::Obj(entries) => {
                &&& entries@.len() == 6
                &&& entries@[0].0@ == "kind"@
                &&& match entries@[0].1 {
                    JsonValue::Str(k) => k@ == "email"@,
                    _ => false,
                }
                &&& entries@[1].0@ == "username"@
                &&& entries@[1].1 == JsonValue::Str(username)
                &&& entries@[2].0@ == "password"@
                &&& entries@[2].1 == JsonValue::Str(password)
                &&& entries@[3].0@ == "mailserver"@
                &&& entries@[3].1 == JsonValue::Str(mailserver)
                &&& entries@[4].0@ == "from"@
                &&& entries@[4].1 == JsonValue::Str(from)
                &&& entries@[5].0@ == "to"@
                &&& entries@[5].1 == JsonValue::Str(to)
            },
            _ => false,
        },
    }
}

impl NotifierConfig {
    /// Read a config from its JSON document.
    pub fn from_json(v: &JsonValue) -> (r: Result<NotifierConfig, ConfigError>)
        ensures
            r == spec_config_from_json(*v),
    {
        if !v.is_object() {
            return Err(ConfigError::NotAnObject);
        }
        match v.get("kind") {
            Some(JsonValue::Str(kind)) => {
                if str_eq(kind.as_str(), "github") {
                    match Self::github_fields(v) {
                        Some(c) => Ok(c),
                        None => Err(ConfigError::ShapeMismatch),
                    }
                } else if str_eq(kind.as_str(), "email") {
                    match Self::email_fields(v) {
                        Some(c) => Ok(c),
                        None => Err(ConfigError::ShapeMismatch),
                    }
                } else {
                    Err(ConfigError::UnknownKind)
                }
            },
            Some(_) => Err(ConfigError::UnknownKind),
            None => {
                match Self::github_fields(v) {
                    Some(c) => Ok(c),
                    None => match Self::email_fields(v) {
                        Some(c) => Ok(c),
                        None => Err(ConfigError::ShapeMismatch),
                    },
                }
            },
        }
    }

    /// The GitHub-style fields of an object document.
    fn github_fields(v: &JsonValue) -> (r: Option<NotifierConfig>)
        requires
            *v is Obj,
        ensures
            match *v {
                JsonValue::Obj(entries) => r == spec_github_fields(entries@),
                _ => true,
            },
    {
        let ci_server = v.get_str("ci_server");
        let token = v.get_str("token");
        let webhook_token = v.get_str("webhook_token");
        match (ci_server, token, webhook_token) {
            (Some(ci_server), Some(token), Some(webhook_token)) => Some(
                NotifierConfig::GitHub { ci_server, token, webhook_token },
            ),
            _ => None,
        }
    }

    /// The email-style fields of an object document.
    fn email_fields(v: &JsonValue) -> (r: Option<NotifierConfig>)
        requires
            *v is Obj,
        ensures
            match *v {
                JsonValue::Obj(entries) => r == spec_email_fields(entries@),
                _ => true,
            },
    {
        let username = v.get_str("username");
        let password = v.get_str("password");
        let mailserver = v.get_str("mailserver");
        let from = v.get_str("from");
        let to = v.get_str("to");
        match (username, password, mailserver, from, to) {
            (Some(username), Some(password), Some(mailserver), Some(from), Some(to)) => Some(
                NotifierConfig::Email { username, password, mailserver, from, to },
            ),
            _ => None,
        }
    }

    /// Read a config and insist on the GitHub shape.
    pub fn github_from_json(v: &JsonValue) -> (r: Result<NotifierConfig, ConfigError>)
        ensures
            r == (match spec_config_from_json(*v) {
                Ok(c) => if c is GitHub {
                    Ok::<NotifierConfig, ConfigError>(c)
                } else {
                    Err::<NotifierConfig, ConfigError>(ConfigError::WrongKind)
                },
                Err(e) => Err::<NotifierConfig, ConfigError>(e),
            }),
    {
        match Self::from_json(v) {
            Ok(c) => {
                if matches!(c, NotifierConfig::GitHub { .. }) {
                    Ok(c)
                } else {
                    Err(ConfigError::WrongKind)
                }
            },
            Err(e) => Err(e),
        }
    }

    /// Read a config and insist on the email shape.
    pub fn email_from_json(v: &JsonValue) -> (r: Result<NotifierConfig, ConfigError>)
        ensures
            r == (match spec_config_from_json(*v) {
                Ok(c) => if c is Email {
                    Ok::<NotifierConfig, ConfigError>(c)
                } else {
                    Err::<NotifierConfig, ConfigError>(ConfigError::WrongKind)
                },
                Err(e) => Err::<NotifierConfig, ConfigError>(e),
            }),
    {
        match Self::from_json(v) {
            Ok(c) => {
                if matches!(c, NotifierConfig::Email { .. }) {
                    Ok(c)
                } else {
                    Err(ConfigError::WrongKind)
                }
            },
            Err(e) => Err(e),
        }
    }

    /// Write the config as the JSON document `from_json` reads back.
    pub fn to_json(&self) -> (r: JsonValue)
        ensures
            json_encodes_config(r, *self),
    {
        let mut entries: Vec<(String, JsonValue)> = Vec::new();
        match self {
            NotifierConfig::GitHub { ci_server, token, webhook_token } => {
                entries.push(("kind".to_owned(), JsonValue::Str("github".to_owned())));
                entries.push(("ci_server".to_owned(), JsonValue::Str(ci_server.clone())));
                entries.push(("token".to_owned(), JsonValue::Str(token.clone())));
                entries.push(("webhook_token".to_owned(), JsonValue::Str(webhook_token.clone())));
            },
            NotifierConfig::Email { username, password, mailserver, from, to } => {
                entries.push(("kind".to_owned(), JsonValue::Str("email".to_owned())));
                entries.push(("username".to_owned(), JsonValue::Str(username.clone())));
                entries.push(("password".to_owned(), JsonValue::Str(password.clone())));
                entries.push(("mailserver".to_owned(), JsonValue::Str(mailserver.clone())));
                entries.push(("from".to_owned(), JsonValue::Str(from.clone())));
                entries.push(("to".to_owned(), JsonValue::Str(to.clone())));
            },
        }
        JsonValue::Obj(entries)
    }
}

/// Writing a config and reading the document back yields the very
/// config that was written, whichever shape it has.
pub proof fn lemma_config_round_trip(c: NotifierConfig, v: JsonValue)
    requires
        json_encodes_config(v, c),
    ensures
        spec_config_from_json(v) == Ok::<NotifierConfig, ConfigError>(c),
{
    reveal_strlit("kind");
    reveal_strlit("github");
    reveal_strlit("email");
    reveal_strlit("ci_server");
    reveal_strlit("token");
    reveal_strlit("webhook_token");
    reveal_strlit("username");
    reveal_strlit("password");
    reveal_strlit("mailserver");
    reveal_strlit("from");
    reveal_strlit("to");
    assert("kind"@.len() == 4 && "github"@.len() == 6 && "email"@.len() == 5 && "ci_server"@.len()
        == 9 && "token"@.len() == 5 && "webhook_token"@.len() == 13 && "username"@.len() == 8
        && "password"@.len() == 8 && "mailserver"@.len() == 10 && "from"@.len() == 4
        && "to"@.len() == 2);
    assert("username"@[0] == 'u' && "password"@[0] == 'p');
    assert("kind"@[0] == 'k' && "from"@[0] == 'f');
    match v {
        JsonValue::Obj(entries) => {
            let es = entries@;
            match c {
                NotifierConfig::GitHub { ci_server, token, webhook_token } => {
                    lemma_lookup_at(es, "kind"@, 0);
                    lemma_lookup_at(es, "ci_server"@, 1);
                    lemma_lookup_at(es, "token"@, 2);
                    lemma_lookup_at(es, "webhook_token"@, 3);
                },
                NotifierConfig::Email { username, password, mailserver, from, to } => {
                    lemma_lookup_at(es, "kind"@, 0);
                    lemma_lookup_at(es, "username"@, 1);
                    lemma_lookup_at(es, "password"@, 2);
                    lemma_lookup_at(es, "mailserver"@, 3);
                    lemma_lookup_at(es, "from"@, 4);
                    lemma_lookup_at(es, "to"@, 5);
                },
            }
        },
        _ => {
            assert(false);
        },
    }
}

/// A lookup resolves to the entry at the first index carrying its key.
proof fn lemma_lookup_at(es: Seq<(String, JsonValue)>, key: Seq<char>, i: int)
    requires
        0 <= i < es.len(),
        es[i].0@ == key,
        forall|k: int| 0 <= k < i ==> (#[trigger] es[k]).0@ != key,
    ensures
        obj_lookup(es, key) == Some(es[i].1),
    decreases i,
{
    if i == 0 {
    } else {
        let tail = es.skip(1);
        assert(es[0].0@ != key);
        assert forall|k: int| 0 <= k < i - 1 implies (#[trigger] tail[k]).0@ != key by {
            assert(tail[k] == es[k + 1]);
        }
        assert(tail[i - 1] == es[i]);
        lemma_lookup_at(tail, key, i - 1);
    }
}

/// Whether a loaded config has the shape a remote's declared kind calls
/// for: `github` remotes carry GitHub-style configs, `github-email`
/// remotes email-style ones.  The validate command checks every remote
/// against this.
pub fn config_matches_kind(remote_api: &str, config: &NotifierConfig) -> (r: bool)
    ensures
        r == ((remote_api@ == "github"@ && config is GitHub) || (remote_api@ == "github-email"@
            && config is Email)),
{
    proof {
        reveal_strlit("github");
        reveal_strlit("github-email");
        assert("github"@.len() != "github-email"@.len());
    }
    if str_eq(remote_api, "github") {
        matches!(config, NotifierConfig::GitHub { .. })
    } else if str_eq(remote_api, "github-email") {
        matches!(config, NotifierConfig::Email { .. })
    } else {
        false
    }
}

/// The pre-shared key a config contributes to webhook authentication:
/// the GitHub shape's `webhook_token`, as bytes.  The acceptable set at
/// any moment is the union of these over all loaded GitHub configs.
pub fn webhook_psk(c: &NotifierConfig) -> (r: Option<Vec<u8>>)
    ensures
        match *c {
            NotifierConfig::GitHub { ci_server, token, webhook_token } => match r {
                Some(b) => b@ == vstd::utf8::encode_utf8(webhook_token@),
                None => false,
            },
            NotifierConfig::Email { .. } => r is None,
        },
{
    match c {
        NotifierConfig::GitHub { webhook_token, .. } => Some(
            webhook_token.as_str().as_bytes_vec(),
        ),
        NotifierConfig::Email { .. } => None,
    }
}

/// A notifier bound to one remote.
pub struct RemoteNotifier {
    pub remote_path: String,
    pub notifier: NotifierConfig,
}

/// Why a notifier could not produce an outbound action.
#[derive(Debug, Clone, Copy, PartialEq, Eq, Structural)]
pub enum NotifyError {
    /// The remote's config is the email shape, which is not dispatched.
    EmailUnsupported,
}

/// One commit-status update for the provider client to deliver: a POST
/// of `state`, `description` and `target_url` for `(remote_path, sha)`,
/// authenticated by the bearer token.
pub struct StatusPost {
    pub remote_path: String,
    pub sha: String,
    pub state: String,
    pub description: String,
    pub target_url: String,
    pub token: String,
}

/// Whether the provider accepted a status POST: 200 and 201 say yes,
/// anything else is an upstream failure.
pub fn provider_response_ok(status: u16) -> (r: bool)
    ensures
        r == (status == 200 || status == 201),
{
    status == 200 || status == 201
}

impl RemoteNotifier {
    /// The status-page address the provider is pointed at:
    /// `https://<ci_server>/<remote_path>/<sha>`.
    pub open spec fn spec_target_url(ci_server: Seq<char>, remote_path: Seq<char>, sha: Seq<char>)
        -> Seq<char> {
        "https://"@ + ci_server + "/"@ + remote_path + "/"@ + sha
    }

    /// The status update for one job state, addressed to this notifier's
    /// remote.  Email notifiers produce no provider call.
    pub fn tell_job_status(&self, sha: &str, state: &str, description: &str) -> (r: Result<
        StatusPost,
        NotifyError,
    >)
        ensures
            match self.notifier {
                NotifierConfig::GitHub { ci_server, token, webhook_token } => match r {
                    Ok(post) => {
                        &&& post.remote_path@ == self.remote_path@
                        &&& post.sha@ == sha@
                        &&& post.state@ == state@
                        &&& post.description@ == description@
                        &&& post.target_url@ == Self::spec_target_url(
                            ci_server@,
                            self.remote_path@,
                            sha@,
                        )
                        &&& post.token@ == token@
                    },
                    Err(_) => false,
                },
                NotifierConfig::Email { .. } => r == Err::<StatusPost, NotifyError>(
                    NotifyError::EmailUnsupported,
                ),
            },
    {
        match &self.notifier {
            NotifierConfig::GitHub { ci_server, token, webhook_token: _ } => {
                let mut target_url = "https://".to_owned();
                target_url.append(ci_server.as_str());
                target_url.append("/");
                target_url.append(self.remote_path.as_str());
                target_url.append("/");
                target_url.append(sha);
                Ok(
                    StatusPost {
                        remote_path: self.remote_path.clone(),
                        sha: sha.to_owned(),
                        state: state.to_owned(),
                        description: description.to_owned(),
                        target_url,
                        token: token.clone(),
                    },
                )
            },
            NotifierConfig::Email { .. } => Err(NotifyError::EmailUnsupported),
        }
    }

    /// Announce a freshly queued job: state `pending`, a fixed
    /// description, and the status page as target.
    pub fn tell_pending_job(&self, sha: &str, _job_id: u64) -> (r: Result<StatusPost, NotifyError>)
        ensures
            match self.notifier {
                NotifierConfig::GitHub { ci_server, token, webhook_token } => match r {
                    Ok(post) => {
                        &&& post.remote_path@ == self.remote_path@
                        &&& post.sha@ == sha@
                        &&& post.state@ == "pending"@
                        &&& post.description@ == "build is queued"@
                        &&& post.target_url@ == Self::spec_target_url(
                            ci_server@,
                            self.remote_path@,
                            sha@,
                        )
                        &&& post.token@ == token@
                    },
                    Err(_) => false,
                },
                NotifierConfig::Email { .. } => r == Err::<StatusPost, NotifyError>(
                    NotifyError::EmailUnsupported,
                ),
            },
    {
        self.tell_job_status(sha, "pending", "build is queued")
    }

    /// Report a finished job: `success` with the report text when the
    /// build passed, `failure` with it when it did not.
    pub fn tell_complete_job(&self, sha: &str, _job_id: u64, desc: &Result<String, String>) -> (r:
        Result<StatusPost, NotifyError>)
        ensures
            match self.notifier {
                NotifierConfig::GitHub { ci_server, token, webhook_token } => match r {
                    Ok(post) => {
                        &&& post.remote_path@ == self.remote_path@
                        &&& post.sha@ == sha@
                        &&& post.state@ == (match desc {
                            Ok(_) => "success"@,
                            Err(_) => "failure"@,
                        })
                        &&& post.description@ == (match desc {
                            Ok(d) => d@,
                            Err(d) => d@,
                        })
                        &&& post.target_url@ == Self::spec_target_url(
                            ci_server@,
                            self.remote_path@,
                            sha@,
                        )
                        &&& post.token@ == token@
                    },
                    Err(_) => false,
                },
                NotifierConfig::Email { .. } => r == Err::<StatusPost, NotifyError>(
                    NotifyError::EmailUnsupported,
                ),
            },
    {
        match desc {
            Ok(d) => self.tell_job_status(sha, "success", d.as_str()),
            Err(d) => self.tell_job_status(sha, "failure", d.as_str()),
        }
    }
}

} // verus!
