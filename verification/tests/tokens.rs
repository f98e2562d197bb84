use s3_share::crypto::hash_auth_key;
use s3_share::token::{generate_token, token_is_cut, verify_token_signature};

#[test]
fn token_is_accepted_under_its_secret() {
    let token = generate_token("alice", b"secret", 0, "id-1");
    assert_eq!(
        verify_token_signature(&token, b"secret"),
        Some(("alice".to_string(), 0, "id-1".to_string()))
    );
    assert_eq!(verify_token_signature(&token, b"other"), None);
}

#[test]
fn token_has_the_documented_text() {
    assert_eq!(
        generate_token("alice", b"secret", 0, "id-1"),
        "616c696365.0.id-1.f10d5a30c4112e3af7a9ceb076cc9be17e5ec550f7352b45bcc0f4db4ccb3dda"
    );
}

#[test]
fn token_with_empty_parts_and_empty_secret() {
    let token = generate_token("", b"", -5, "");
    assert_eq!(
        token,
        ".-5..c20f9999dabc52002f75cdf88f191a4c7c7b7396a6a9c548cbc983f5d9711d05"
    );
    assert_eq!(
        verify_token_signature(&token, b""),
        Some(("".to_string(), -5, "".to_string()))
    );
}

#[test]
fn token_with_a_long_secret_and_a_name_outside_ascii() {
    let secret = vec![b'k'; 100];
    let token = generate_token("ünï", &secret, i64::MAX, "a");
    assert_eq!(
        token,
        "c3bc6ec3af.9223372036854775807.a.46f73bf58f94541e383c230c718be910cac3de473ca4bfbe77bb220fadce35fa"
    );
    assert_eq!(
        verify_token_signature(&token, &secret),
        Some(("ünï".to_string(), i64::MAX, "a".to_string()))
    );
}

#[test]
fn token_without_four_parts_is_refused() {
    assert_eq!(verify_token_signature("", b"secret"), None);
    assert_eq!(verify_token_signature("a.b.c", b"secret"), None);
    assert_eq!(verify_token_signature("a.b.c.d.e", b"secret"), None);
}

#[test]
fn token_with_an_unreadable_expiry_is_refused() {
    let token = generate_token("alice", b"secret", 0, "id-1").replace(".0.", ".x.");
    assert_eq!(verify_token_signature(&token, b"secret"), None);
    let token = generate_token("alice", b"secret", 0, "id-1")
        .replace(".0.", ".99999999999999999999.");
    assert_eq!(verify_token_signature(&token, b"secret"), None);
}

#[test]
fn token_with_a_changed_session_is_refused() {
    let token = generate_token("alice", b"secret", 0, "id-1").replace("id-1", "id-2");
    assert_eq!(verify_token_signature(&token, b"secret"), None);
}

#[test]
fn token_with_an_unreadable_name_is_refused() {
    let token = generate_token("alice", b"secret", 0, "id-1");
    let rest = &token["616c696365".len()..];
    assert_eq!(verify_token_signature(&format!("zz{}", rest), b"secret"), None);
    assert_eq!(verify_token_signature(&format!("ff{}", rest), b"secret"), None);
}

#[test]
fn token_whose_expiry_is_written_otherwise_is_accepted() {
    let token = generate_token("alice", b"secret", 0, "id-1").replace(".0.", ".+00.");
    assert_eq!(
        verify_token_signature(&token, b"secret"),
        Some(("alice".to_string(), 0, "id-1".to_string()))
    );
}

#[test]
fn token_that_takes_a_character_apart_is_told() {
    assert!(token_is_cut("€.0.id.sig"));
    assert!(token_is_cut("a€.0.id.sig"));
    assert!(!token_is_cut("ü.0.id.sig"));
    assert!(!token_is_cut("€.x.id.sig"));
    assert!(!token_is_cut("€.0.id"));
    assert!(!token_is_cut("616c.0.id.sig"));
}

#[test]
fn stored_hashes_are_salted_digests() {
    assert_eq!(
        hash_auth_key("key1"),
        "f1d97b451dc8049ed9ee82991b0c747878e8e04dcaedcfa71da427b26b904f2d"
    );
    assert_eq!(
        hash_auth_key(""),
        "dfb7b94ab611f87c8560001116e968ead8d94e5d0f141a0cc1c19d35533b3861"
    );
    assert_eq!(
        hash_auth_key("pässwörd"),
        "5856517f545ccd00860412e3d67267ade92f189a704100fca7bd2126f4636a36"
    );
}
