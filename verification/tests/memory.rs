use s3_share::ids::{fresh_id, fresh_secret};
use s3_share::storage::{
    range_can_be_taken, CompletedPart, GetObjectOutput, MemoryBackend, ObjectBody, ObjectInfo,
    Pending, S3ListedObject, S3Object, S3Request, Storage,
};

fn body(r: Result<GetObjectOutput, String>) -> Vec<u8> {
    match r {
        Ok(GetObjectOutput { body: ObjectBody::Bytes(b), .. }) => b,
        _ => panic!("no bytes"),
    }
}

fn answered<T>(p: Pending<T>) -> T {
    match p {
        Pending::Answer(a) => a,
        Pending::Ask(_) => panic!("the memory asks no one"),
    }
}

fn some(s: &str) -> Option<String> {
    Some(s.to_string())
}

fn filled() -> MemoryBackend {
    let mut m = MemoryBackend::default();
    m.put_object("a/1", b"hello".to_vec(), Some("text/plain"));
    m.put_object("a/2", b"".to_vec(), None);
    m.put_object("b/1", b"x".to_vec(), None);
    m
}

#[test]
fn stored_object_is_given_back() {
    let mut m = filled();
    let out = m.get_object("a/1", None).unwrap();
    assert_eq!(out.content_type, some("text/plain"));
    assert_eq!(out.content_length, Some(5));
    assert_eq!(body(m.get_object("a/1", None)), b"hello");
    assert_eq!(m.get_object_bytes("a/1"), Ok(b"hello".to_vec()));
    assert!(m.head_object("a/1"));
    m.put_object("a/1", b"bye".to_vec(), None);
    let out = m.get_object("a/1", None).unwrap();
    assert_eq!(out.content_type, some("text/plain"));
    assert_eq!(body(Ok(out)), b"bye");
    assert_eq!(body(m.get_object("b/1", None)), b"x");
}

#[test]
fn removed_object_is_gone() {
    let mut m = filled();
    m.delete_object("a/1");
    assert_eq!(m.get_object("a/1", None).err(), some("Not found"));
    assert_eq!(m.get_object_bytes("a/1").err(), some("Not found"));
    assert!(!m.head_object("a/1"));
    assert!(m.head_object("a/2"));
    m.delete_object("a/1");
    m.put_object("a/1", b"new".to_vec(), None);
    assert_eq!(m.get_object("a/1", None).unwrap().content_type, None);
}

#[test]
fn ranges_of_an_object_in_memory() {
    let m = filled();
    let range = |r: &str| body(m.get_object("a/1", some(r)));
    assert_eq!(range("bytes=1-3"), b"ell");
    assert_eq!(range("bytes=1-"), b"ello");
    assert_eq!(range("bytes=1"), b"ello");
    assert_eq!(range("bytes=0-99"), b"hello");
    assert_eq!(range("bytes=9-"), b"");
    assert_eq!(range("bytes=x-2"), b"hel");
    assert_eq!(range("bytes=2-x"), b"llo");
    assert_eq!(range("lines=1-3"), b"hello");
    let out = m.get_object("a/1", some("bytes=1-3")).unwrap();
    assert_eq!(out.content_length, Some(5));
}

#[test]
fn ranges_that_cannot_be_taken() {
    assert!(range_can_be_taken(&some("bytes=1-3"), 5));
    assert!(range_can_be_taken(&None, 0));
    assert!(!range_can_be_taken(&some("bytes=3-1"), 5));
    assert!(range_can_be_taken(&some("bytes=3-2"), 5));
    assert!(!range_can_be_taken(&some("bytes=0-0"), 0));
    assert!(range_can_be_taken(&some("bytes=0-"), 0));
    assert!(!range_can_be_taken(&some("bytes=0-18446744073709551615"), 5));
    assert!(range_can_be_taken(&some("bytes=7-9"), 5));
}

#[test]
fn listing_by_prefix_and_up_to_a_limit() {
    let m = filled();
    let mut keys: Vec<(String, i64)> =
        m.list_objects(Some("a/"), None).into_iter().map(|o| (o.key, o.size)).collect();
    keys.sort();
    assert_eq!(keys, vec![("a/1".to_string(), 5), ("a/2".to_string(), 0)]);
    assert_eq!(m.list_objects(None, None).len(), 3);
    assert_eq!(m.list_objects(None, Some(2)).len(), 2);
    assert_eq!(m.list_objects(None, Some(0)).len(), 1);
    assert_eq!(m.list_objects(None, Some(-1)).len(), 1);
    assert_eq!(m.list_objects(Some("c/"), Some(2)).len(), 0);
    for o in m.list_objects_at(Some("a/"), None, 77) {
        assert_eq!(o.last_modified_secs, 77);
    }
    assert_eq!(m.list_objects_at(Some("a/"), None, -5).len(), m.list_objects(Some("a/"), None).len());
    assert_eq!(m.list_objects_at(None, Some(2), 0).len(), 2);
    for o in m.list_objects(None, None) {
        assert!(o.last_modified_secs > 1_600_000_000);
    }
}

#[test]
fn parts_are_joined_by_their_number() {
    let mut m = MemoryBackend::default();
    let id = m.create_multipart_upload();
    assert_eq!(id.len(), 36);
    assert_eq!(m.upload_part(&id, 10, b"c".to_vec()), Ok("mem-etag".to_string()));
    assert_eq!(m.upload_part(&id, 2, b"x".to_vec()), Ok("mem-etag".to_string()));
    assert_eq!(m.upload_part(&id, -1, b"a".to_vec()), Ok("mem-etag".to_string()));
    assert_eq!(m.upload_part(&id, 2, b"b".to_vec()), Ok("mem-etag".to_string()));
    assert_eq!(m.complete_multipart_upload("k", &id), Ok(()));
    assert_eq!(m.get_object_bytes("k"), Ok(b"abc".to_vec()));
    assert_eq!(m.complete_multipart_upload("k", &id), Err("Upload ID not found".to_string()));
    assert_eq!(m.upload_part(&id, 1, vec![]), Err("Upload ID not found".to_string()));
}

#[test]
fn dropped_upload_is_not_found() {
    let mut m = MemoryBackend::default();
    let id = m.create_multipart_upload();
    let other = m.create_multipart_upload();
    assert_ne!(id, other);
    m.abort_multipart_upload(&id);
    assert_eq!(m.complete_multipart_upload("k", &id), Err("Upload ID not found".to_string()));
    assert_eq!(m.complete_multipart_upload("k", &other), Ok(()));
    assert_eq!(m.get_object_bytes("k"), Ok(vec![]));
}

#[test]
fn storage_in_memory_answers_at_once() {
    let mut s = Storage::Memory(MemoryBackend::default());
    assert_eq!(answered(s.put_object("b", "k", b"v".to_vec(), Some("t/t"))), Ok(()));
    assert_eq!(answered(s.get_object_bytes("b", "k")), Ok(b"v".to_vec()));
    assert_eq!(body(answered(s.get_object("b", "k", None))), b"v");
    assert_eq!(answered(s.head_object("b", "k")), Ok(true));
    assert_eq!(answered(s.head_object("b", "l")), Ok(false));
    assert_eq!(answered(s.list_objects("b", None, None)).unwrap().len(), 1);
    let id = answered(s.create_multipart_upload("b", "m", None)).unwrap();
    assert_eq!(
        answered(s.upload_part("b", "m", &id, 1, b"p".to_vec())),
        Ok("mem-etag".to_string())
    );
    let listed = vec![CompletedPart { e_tag: "other".to_string(), part_number: 7 }];
    assert_eq!(answered(s.complete_multipart_upload("b", "m", &id, listed)), Ok(()));
    assert_eq!(answered(s.get_object_bytes("b", "m")), Ok(b"p".to_vec()));
    assert_eq!(answered(s.abort_multipart_upload("b", "m", "none")), Ok(()));
    assert_eq!(answered(s.delete_object("b", "k")), Ok(()));
    assert_eq!(answered(s.head_object("b", "k")), Ok(false));
}

#[test]
fn storage_in_a_bucket_asks_the_service() {
    let mut s = Storage::S3;
    assert!(matches!(
        s.get_object("b", "k", some("bytes=0-1")),
        Pending::Ask(S3Request::GetObject { bucket, key, range })
            if bucket == "b" && key == "k" && range == some("bytes=0-1")
    ));
    assert!(matches!(
        s.put_object("b", "k", vec![1], Some("t")),
        Pending::Ask(S3Request::PutObject { bucket, key, data, content_type })
            if bucket == "b" && key == "k" && data == vec![1] && content_type == some("t")
    ));
    assert!(matches!(
        s.list_objects("b", Some("p"), Some(3)),
        Pending::Ask(S3Request::ListObjects { bucket, prefix, max_keys: Some(3) })
            if bucket == "b" && prefix == some("p")
    ));
    assert!(matches!(
        s.upload_part("b", "k", "u", 4, vec![2]),
        Pending::Ask(S3Request::UploadPart { part_number: 4, .. })
    ));
    assert!(matches!(s.head_object("b", "k"), Pending::Ask(S3Request::HeadObject { .. })));
    assert!(matches!(s.delete_object("b", "k"), Pending::Ask(S3Request::DeleteObject { .. })));
    assert!(matches!(
        s.create_multipart_upload("b", "k", None),
        Pending::Ask(S3Request::CreateMultipartUpload { content_type: None, .. })
    ));
    assert!(matches!(
        s.abort_multipart_upload("b", "k", "u"),
        Pending::Ask(S3Request::AbortMultipartUpload { .. })
    ));
    let parts = vec![CompletedPart { e_tag: "e".to_string(), part_number: 1 }];
    assert!(matches!(
        s.complete_multipart_upload("b", "k", "u", parts),
        Pending::Ask(S3Request::CompleteMultipartUpload { parts, .. }) if parts.len() == 1
    ));
}

#[test]
fn replies_of_the_service_are_read() {
    let out = Storage::get_object_from_s3(Ok(S3Object {
        content_type: some("t"),
        content_length: Some(-1),
    }))
    .unwrap();
    assert_eq!(out.content_length, Some(u64::MAX));
    assert!(matches!(out.body, ObjectBody::Streamed));
    assert_eq!(Storage::get_object_from_s3(Err("e".to_string())).err(), some("e"));
    assert_eq!(Storage::head_object_from_s3(Ok(())), Ok(true));
    assert_eq!(Storage::head_object_from_s3(Err("e".to_string())), Ok(false));
    assert_eq!(Storage::text_from_s3(Ok(some("id"))), Ok("id".to_string()));
    assert_eq!(Storage::text_from_s3(Ok(None)), Ok("".to_string()));
    assert_eq!(Storage::text_from_s3(Err("e".to_string())), Err("e".to_string()));
    let listed: Vec<ObjectInfo> = Storage::list_objects_from_s3(Ok(vec![
        S3ListedObject { key: some("a"), size: Some(3), last_modified_secs: Some(9) },
        S3ListedObject { key: None, size: Some(3), last_modified_secs: Some(9) },
        S3ListedObject { key: some("b"), size: None, last_modified_secs: None },
    ]))
    .unwrap();
    assert_eq!(listed.len(), 2);
    assert_eq!((listed[0].key.as_str(), listed[0].size, listed[0].last_modified_secs), ("a", 3, 9));
    assert_eq!((listed[1].key.as_str(), listed[1].size, listed[1].last_modified_secs), ("b", 0, 0));
    assert_eq!(
        Storage::list_objects_from_s3(Err("e".to_string())).err(),
        some("S3 list error")
    );
}

#[test]
fn identifiers_are_uuids_and_differ() {
    let id = fresh_id();
    assert_eq!(id.len(), 36);
    for (i, c) in id.chars().enumerate() {
        if [8, 13, 18, 23].contains(&i) {
            assert_eq!(c, '-');
        } else {
            assert!(c.is_ascii_digit() || ('a'..='f').contains(&c));
        }
    }
    assert_ne!(id, fresh_id());
    assert_eq!(fresh_secret().len(), 32);
    assert_ne!(fresh_secret(), fresh_secret());
}
