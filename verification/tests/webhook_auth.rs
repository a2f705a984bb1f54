use ci_core::auth::webhook_auth_ok;
use hmac::Mac;

fn hmac_hex(key: &[u8], msg: &[u8]) -> String {
    let mut mac = <hmac::Hmac<sha2::Sha256> as Mac>::new_from_slice(key).unwrap();
    mac.update(msg);
    hex::encode(mac.finalize().into_bytes())
}

#[test]
fn known_vector_is_accepted() {
    // HMAC-SHA256("key", "The quick brown fox jumps over the lazy dog").
    let body = b"The quick brown fox jumps over the lazy dog".to_vec();
    let psks = vec![b"key".to_vec()];
    let header =
        "sha256=f7bc83f430538424b13298e6aa6fb143ef4d59a14946175997479dbc2d1a3cd8".to_string();
    assert!(webhook_auth_ok(&psks, &body, Some(&header)));
}

#[test]
fn uppercase_hex_is_accepted() {
    let body = b"The quick brown fox jumps over the lazy dog".to_vec();
    let psks = vec![b"key".to_vec()];
    let header =
        "sha256=F7BC83F430538424B13298E6AA6FB143EF4D59A14946175997479DBC2D1A3CD8".to_string();
    assert!(webhook_auth_ok(&psks, &body, Some(&header)));
}

#[test]
fn any_matching_psk_suffices() {
    let body = b"payload".to_vec();
    let psks = vec![b"other".to_vec(), b"hunter2".to_vec()];
    let header = format!("sha256={}", hmac_hex(b"hunter2", &body));
    assert!(webhook_auth_ok(&psks, &body, Some(&header)));
}

#[test]
fn wrong_digest_is_rejected() {
    let body = b"payload".to_vec();
    let psks = vec![b"hunter2".to_vec()];
    let header =
        "sha256=0000000000000000000000000000000000000000000000000000000000000000".to_string();
    assert!(!webhook_auth_ok(&psks, &body, Some(&header)));
}

#[test]
fn no_psk_means_nothing_is_accepted() {
    let body = b"payload".to_vec();
    let psks: Vec<Vec<u8>> = Vec::new();
    let header = format!("sha256={}", hmac_hex(b"hunter2", &body));
    assert!(!webhook_auth_ok(&psks, &body, Some(&header)));
}

#[test]
fn missing_header_is_rejected() {
    let body = b"payload".to_vec();
    let psks = vec![b"hunter2".to_vec()];
    assert!(!webhook_auth_ok(&psks, &body, None));
}

#[test]
fn wrong_prefix_is_rejected() {
    let body = b"payload".to_vec();
    let psks = vec![b"hunter2".to_vec()];
    let header = format!("sha512={}", hmac_hex(b"hunter2", &body));
    assert!(!webhook_auth_ok(&psks, &body, Some(&header)));
}

#[test]
fn bad_hex_is_rejected() {
    let body = b"payload".to_vec();
    let psks = vec![b"hunter2".to_vec()];
    let header = "sha256=zz".to_string();
    assert!(!webhook_auth_ok(&psks, &body, Some(&header)));
    let odd = "sha256=abc".to_string();
    assert!(!webhook_auth_ok(&psks, &body, Some(&odd)));
}

#[test]
fn digest_of_different_body_is_rejected() {
    let body = b"payload".to_vec();
    let other = b"payload2".to_vec();
    let psks = vec![b"hunter2".to_vec()];
    let header = format!("sha256={}", hmac_hex(b"hunter2", &other));
    assert!(!webhook_auth_ok(&psks, &body, Some(&header)));
}
