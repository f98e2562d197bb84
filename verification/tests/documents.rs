use s3_share::ids::{fresh_id, fresh_secret};
use s3_share::shares::{make_share_entry, read_shares, write_index_with};
use s3_share::token::{generate_token, verify_token_signature};
use serde_json::Value;

const MARK: &str = "$serde_json::private::RawValue";

fn listed(text: &str) -> Option<Vec<Value>> {
    read_shares(&text.as_bytes().to_vec())
}

#[test]
fn indices_are_lists() {
    assert_eq!(listed("[]"), Some(vec![]));
    assert_eq!(listed(" [1, null] "), Some(vec![Value::from(1), Value::Null]));
    assert_eq!(listed("{}"), None);
    assert_eq!(listed("[] x"), None);
    assert_eq!(listed(""), None);
}

#[test]
fn indices_read_back() {
    let entry = make_share_entry("u", 2, -3, "t");
    let text = write_index_with(listed("[{\"uuid\":\"a\"}]").unwrap(), entry.clone());
    let entries = read_shares(&text).unwrap();
    assert_eq!(entries.len(), 2);
    assert_eq!(entries[0]["uuid"], "a");
    assert_eq!(entries[1], entry);
}

#[test]
fn marked_texts_are_read_in_place_of_their_objects() {
    assert_eq!(listed(&format!("{{\"{}\":\"[]\"}}", MARK)), None);
    assert_eq!(listed(&format!("[{{\"{}\":\"1\"}}]", MARK)), Some(vec![Value::from(1)]));

    let behind = listed(&format!("[{{\"a\":2,\"{}\":\"1\"}}]", MARK)).unwrap();
    assert_eq!(behind[0]["a"], 2);
    assert_eq!(behind[0][MARK], "1");
    let text = write_index_with(behind, Value::Null);
    assert_eq!(String::from_utf8(text.clone()).unwrap(), format!("[{{\"{}\":\"1\",\"a\":2}},null]", MARK));
    assert_eq!(read_shares(&text), None);
}

#[test]
fn ids_are_random_uuids() {
    for _ in 0..100 {
        let id = fresh_id();
        let digits = id.as_bytes();
        assert_eq!(digits.len(), 36);
        assert_eq!(digits[14], b'4');
        assert!(b"89ab".contains(&digits[19]));
        let secret = fresh_secret();
        assert_eq!(secret.len(), 32);
        assert_eq!([secret[6] / 16, secret[22] / 16], [4, 4]);
        assert_eq!([secret[8] / 64, secret[24] / 64], [2, 2]);
    }
}

#[test]
fn signatures_have_64_digits() {
    let token = generate_token("alice", b"secret", 0, "id");
    let (start, signature) = token.rsplit_once('.').unwrap();
    assert_eq!(signature.len(), 64);
    assert_eq!(verify_token_signature(&format!("{}.", start), b"secret"), None);
    assert_eq!(verify_token_signature(&format!("{}.{}", start, &signature[..62]), b"secret"), None);
}
