use ci_core::json::JsonValue;
use ci_core::notifier::{
    config_matches_kind, provider_response_ok, webhook_psk, ConfigError, NotifierConfig,
    RemoteNotifier,
};

fn github_config() -> NotifierConfig {
    NotifierConfig::GitHub {
        ci_server: "ci.example.com".to_string(),
        token: "SECRET-REDACTED".to_string(),
        webhook_token: "hunter2".to_string(),
    }
}

fn email_config() -> NotifierConfig {
    NotifierConfig::Email {
        username: "ci".to_string(),
        password: "SECRET-REDACTED".to_string(),
        mailserver: "mail.example.com".to_string(),
        from: "ci@example.com".to_string(),
        to: "dev@example.com".to_string(),
    }
}

fn obj(entries: Vec<(&str, JsonValue)>) -> JsonValue {
    JsonValue::Obj(
        entries
            .into_iter()
            .map(|(k, v)| (k.to_string(), v))
            .collect(),
    )
}

fn s(text: &str) -> JsonValue {
    JsonValue::Str(text.to_string())
}

#[test]
fn github_config_round_trips() {
    let config = github_config();
    let doc = config.to_json();
    match NotifierConfig::from_json(&doc).expect("written doc parses") {
        NotifierConfig::GitHub { ci_server, token, webhook_token } => {
            assert_eq!(ci_server, "ci.example.com");
            assert_eq!(token, "SECRET-REDACTED");
            assert_eq!(webhook_token, "hunter2");
        },
        NotifierConfig::Email { .. } => panic!("github config read back as email"),
    }
}

#[test]
fn email_config_round_trips() {
    let config = email_config();
    let doc = config.to_json();
    match NotifierConfig::from_json(&doc).expect("written doc parses") {
        NotifierConfig::Email { username, password, mailserver, from, to } => {
            assert_eq!(username, "ci");
            assert_eq!(password, "SECRET-REDACTED");
            assert_eq!(mailserver, "mail.example.com");
            assert_eq!(from, "ci@example.com");
            assert_eq!(to, "dev@example.com");
        },
        NotifierConfig::GitHub { .. } => panic!("email config read back as github"),
    }
}

#[test]
fn legacy_untagged_github_shape_is_recognized() {
    let doc = obj(vec![
        ("ci_server", s("ci.example.com")),
        ("token", s("SECRET-REDACTED")),
        ("webhook_token", s("hunter2")),
    ]);
    assert!(matches!(
        NotifierConfig::from_json(&doc),
        Ok(NotifierConfig::GitHub { .. })
    ));
}

#[test]
fn legacy_untagged_email_shape_is_recognized() {
    let doc = obj(vec![
        ("username", s("ci")),
        ("password", s("SECRET-REDACTED")),
        ("mailserver", s("mail.example.com")),
        ("from", s("ci@example.com")),
        ("to", s("dev@example.com")),
    ]);
    assert!(matches!(
        NotifierConfig::from_json(&doc),
        Ok(NotifierConfig::Email { .. })
    ));
}

#[test]
fn config_shape_errors() {
    assert_eq!(
        NotifierConfig::from_json(&JsonValue::Null).unwrap_err(),
        ConfigError::NotAnObject
    );
    let unknown = obj(vec![("kind", s("carrier-pigeon"))]);
    assert_eq!(
        NotifierConfig::from_json(&unknown).unwrap_err(),
        ConfigError::UnknownKind
    );
    let partial = obj(vec![("ci_server", s("ci.example.com"))]);
    assert_eq!(
        NotifierConfig::from_json(&partial).unwrap_err(),
        ConfigError::ShapeMismatch
    );
    let tagged_partial = obj(vec![("kind", s("github")), ("token", s("t"))]);
    assert_eq!(
        NotifierConfig::from_json(&tagged_partial).unwrap_err(),
        ConfigError::ShapeMismatch
    );
    let numeric_field = obj(vec![
        ("ci_server", s("ci.example.com")),
        ("token", JsonValue::Int(7)),
        ("webhook_token", s("hunter2")),
    ]);
    assert_eq!(
        NotifierConfig::from_json(&numeric_field).unwrap_err(),
        ConfigError::ShapeMismatch
    );
}

#[test]
fn kind_specific_readers_refuse_the_other_shape() {
    let github_doc = github_config().to_json();
    let email_doc = email_config().to_json();
    assert!(NotifierConfig::github_from_json(&github_doc).is_ok());
    assert_eq!(
        NotifierConfig::github_from_json(&email_doc).unwrap_err(),
        ConfigError::WrongKind
    );
    assert!(NotifierConfig::email_from_json(&email_doc).is_ok());
    assert_eq!(
        NotifierConfig::email_from_json(&github_doc).unwrap_err(),
        ConfigError::WrongKind
    );
}

#[test]
fn webhook_psk_comes_from_github_configs_only() {
    assert_eq!(webhook_psk(&github_config()), Some(b"hunter2".to_vec()));
    assert_eq!(webhook_psk(&email_config()), None);
}

#[test]
fn pending_status_post_is_built_for_github() {
    let notifier = RemoteNotifier {
        remote_path: "alice/foo".to_string(),
        notifier: github_config(),
    };
    let post = notifier.tell_pending_job("abc123", 1).expect("github notifier");
    assert_eq!(post.remote_path, "alice/foo");
    assert_eq!(post.sha, "abc123");
    assert_eq!(post.state, "pending");
    assert_eq!(post.description, "build is queued");
    assert_eq!(post.target_url, "https://ci.example.com/alice/foo/abc123");
    assert_eq!(post.token, "SECRET-REDACTED");
}

#[test]
fn complete_status_post_reflects_the_outcome() {
    let notifier = RemoteNotifier {
        remote_path: "alice/foo".to_string(),
        notifier: github_config(),
    };
    let pass = notifier
        .tell_complete_job("abc123", 1, &Ok("built in 3s".to_string()))
        .expect("github notifier");
    assert_eq!(pass.state, "success");
    assert_eq!(pass.description, "built in 3s");
    let fail = notifier
        .tell_complete_job("abc123", 1, &Err("tests failed".to_string()))
        .expect("github notifier");
    assert_eq!(fail.state, "failure");
    assert_eq!(fail.description, "tests failed");
}

#[test]
fn email_notifier_produces_no_post() {
    let notifier = RemoteNotifier {
        remote_path: "alice/foo".to_string(),
        notifier: email_config(),
    };
    assert!(notifier.tell_pending_job("abc123", 1).is_err());
}

#[test]
fn provider_response_codes() {
    assert!(provider_response_ok(200));
    assert!(provider_response_ok(201));
    assert!(!provider_response_ok(204));
    assert!(!provider_response_ok(404));
    assert!(!provider_response_ok(500));
}

#[test]
fn config_kind_consistency() {
    assert!(config_matches_kind("github", &github_config()));
    assert!(!config_matches_kind("github", &email_config()));
    assert!(config_matches_kind("github-email", &email_config()));
    assert!(!config_matches_kind("github-email", &github_config()));
    assert!(!config_matches_kind("cgit", &github_config()));
}
