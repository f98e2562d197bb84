use s3_share::api::{answer, Request};
use s3_share::cleanup::perform_cleanup;
use s3_share::clock::UtcTime;
use s3_share::gate::{Header, Headers, Site};
use s3_share::profile::ChangePasswordRequest;
use s3_share::protocol::{
    Action, Answer, FieldReply, FileReply, ListedUpload, Next, ObjectReply, Reply, ServiceError,
    SessionsReply,
};
use s3_share::session::UserSession;
use s3_share::storage::S3ListedObject;
use s3_share::token::generate_token;
use s3_share::uploads::UploadFinishReq;

fn site() -> Site {
    Site { jwt_secret: b"secret".to_vec(), admin_token: Some("root".to_string()) }
}

fn blank() -> Headers {
    Headers {
        authorization: Header::Missing,
        range: Header::Missing,
        user_agent: Header::Missing,
        forwarded_for: Header::Missing,
        real_ip: Header::Missing,
    }
}

fn with_auth(text: &str) -> Headers {
    Headers { authorization: Header::Text(text.to_string()), ..blank() }
}

fn alice() -> Headers {
    with_auth(&format!("Bearer {}", generate_token("alice", b"secret", 0, "id-1")))
}

fn admin() -> Headers {
    with_auth("Bearer root")
}

fn session(id: &str) -> UserSession {
    UserSession {
        id: id.to_string(),
        created_at: 0,
        user_agent: "".to_string(),
        ip: "".to_string(),
        expires_at: 0,
        name: None,
    }
}

fn listed() -> Reply {
    Reply::Sessions(SessionsReply::Loaded(vec![session("id-1")]))
}

fn fail() -> ServiceError {
    ServiceError { display: "shown".to_string(), debug: "Told".to_string() }
}

fn bytes(b: &[u8]) -> Reply {
    Reply::Object(ObjectReply::Bytes(b.to_vec()))
}

fn absent() -> Reply {
    Reply::Object(ObjectReply::Absent)
}

fn broken() -> Reply {
    Reply::Object(ObjectReply::BodyFailed(fail()))
}

fn time(secs: i64) -> Reply {
    Reply::Time(UtcTime { secs, nanos: 0 })
}

fn object(key: &str, size: i64, secs: i64) -> S3ListedObject {
    S3ListedObject {
        key: Some(key.to_string()),
        size: Some(size),
        last_modified_secs: Some(secs),
    }
}

fn next(headers: &Headers, request: &Request, heard: Vec<Reply>) -> Next {
    answer(&site(), headers, request, &heard)
}

/// What a request of a user with a session does after its session was looked up.
fn user(request: Request, rest: Vec<Reply>) -> Next {
    let mut heard = vec![listed()];
    heard.extend(rest);
    next(&alice(), &request, heard)
}

fn refused(n: Next, status: u16, message: &str) {
    match n {
        Next::Done(Answer::Refused { status: s, message: m }) => {
            assert_eq!((s, m), (status, message.to_string()))
        }
        _ => panic!("not refused"),
    }
}

fn performs(n: Next) -> Action {
    match n {
        Next::Perform(a) => a,
        _ => panic!("nothing is asked for"),
    }
}

fn succeeds(n: Next) {
    assert!(matches!(n, Next::Done(Answer::Success)));
}

fn breaks_off(n: Next) {
    assert!(matches!(n, Next::Crash));
}

fn mishears(n: Next) {
    assert!(matches!(n, Next::Misheard));
}

fn record(hash: &str) -> Reply {
    bytes(format!("{{\"password_hash\":\"{}\"}}", hash).as_bytes())
}

const KEY1: &str = "f1d97b451dc8049ed9ee82991b0c747878e8e04dcaedcfa71da427b26b904f2d";

// --- Access ---

#[test]
fn requests_without_a_usable_header() {
    let r = Request::GetShares;
    refused(next(&blank(), &r, vec![]), 401, "Authorization header is missing");
    let unreadable = Headers { authorization: Header::Unreadable, ..blank() };
    refused(next(&unreadable, &r, vec![]), 400, "Invalid authorization header characters");
    refused(next(&with_auth("Basic x"), &r, vec![]), 401, "Authorization scheme must be Bearer");
    refused(next(&with_auth("Bearer"), &r, vec![]), 401, "Authorization scheme must be Bearer");
    refused(next(&with_auth("Bearer x"), &r, vec![]), 401, "Invalid or expired session");
    breaks_off(next(&with_auth("Bearer €.0.a.b"), &r, vec![]));
}

#[test]
fn sessions_that_cannot_be_found() {
    let r = Request::GetShares;
    match performs(next(&alice(), &r, vec![])) {
        Action::GetSessions { key } => assert_eq!(key, "users/alice/sessions.json"),
        _ => panic!("the sessions are looked up first"),
    }
    for reply in [
        SessionsReply::Absent,
        SessionsReply::BodyFailed,
        SessionsReply::Malformed,
        SessionsReply::Loaded(vec![]),
        SessionsReply::Loaded(vec![session("id-2")]),
    ] {
        refused(
            next(&alice(), &r, vec![Reply::Sessions(reply)]),
            401,
            "Invalid or expired session",
        );
    }
    mishears(next(&alice(), &r, vec![Reply::Done]));
}

#[test]
fn administration_without_a_usable_header() {
    let r = Request::AdminStats;
    refused(next(&blank(), &r, vec![]), 401, "Authorization header missing");
    let unreadable = Headers { authorization: Header::Unreadable, ..blank() };
    refused(next(&unreadable, &r, vec![]), 400, "Invalid authorization characters");
    refused(next(&with_auth("root"), &r, vec![]), 401, "Authorization scheme must be Bearer");
    refused(next(&with_auth("Bearer rood"), &r, vec![]), 403, "Invalid admin token");
    breaks_off(next(&with_auth("Bearer €.0.a.b"), &r, vec![]));
    let site = Site { jwt_secret: b"secret".to_vec(), admin_token: None };
    for r in [Request::AdminStats, Request::AdminLogin] {
        refused(answer(&site, &admin(), &r, &vec![]), 403, "Admin panel is disabled");
    }
}

#[test]
fn administrator_by_a_session() {
    let token = generate_token("admin", b"secret", 0, "s");
    let headers = with_auth(&format!("Bearer {}", token));
    match performs(next(&headers, &Request::AdminStats, vec![])) {
        Action::GetSessions { key } => assert_eq!(key, "admin/sessions.json"),
        _ => panic!("the sessions are looked up first"),
    }
    let none = vec![Reply::Sessions(SessionsReply::Malformed)];
    refused(next(&headers, &Request::AdminStats, none), 403, "Invalid admin token");
    let there = vec![Reply::Sessions(SessionsReply::Loaded(vec![session("s")]))];
    match performs(next(&headers, &Request::AdminStats, there)) {
        Action::ListAll { prefix } => assert_eq!(prefix, "users/"),
        _ => panic!("the users are listed"),
    }
}

// --- Uploads ---

#[test]
fn forms_that_break_off() {
    let r = || Request::UploadFile { uuid: "u".to_string() };
    assert!(matches!(performs(user(r(), vec![])), Action::NextField));
    refused(user(r(), vec![Reply::Failed(fail())]), 400, "shown");
    let named = || Reply::Field(FieldReply::Named("a.json".to_string()));
    match performs(user(r(), vec![named()])) {
        Action::StoreField { key, content_type } => {
            assert_eq!(key, "uploads/u/a.json");
            assert_eq!(content_type, "application/json");
        }
        _ => panic!("the file is stored"),
    }
    refused(user(r(), vec![named(), Reply::FieldFailed(fail())]), 500, "shown");
    refused(user(r(), vec![named(), Reply::Failed(fail())]), 500, "Failed to upload to S3: Told");
    mishears(user(r(), vec![named(), Reply::Done]));
    mishears(user(r(), vec![Reply::Done]));
}

#[test]
fn media_types_by_extension() {
    for (name, wanted) in [
        ("x", "application/octet-stream"),
        ("x.unknown-extension", "application/octet-stream"),
        ("x.HTML", "text/html"),
        ("dir.png/x", "application/octet-stream"),
        ("x.mp4", "video/mp4"),
    ] {
        let r = Request::MultipartInit { uuid: "u".to_string(), file_name: name.to_string() };
        match performs(user(r, vec![])) {
            Action::CreateUpload { key, content_type } => {
                assert_eq!(key, format!("uploads/u/{}", name));
                assert_eq!(content_type, wanted);
            }
            _ => panic!("an upload is begun"),
        }
    }
}

#[test]
fn share_whose_records_cannot_be_stored() {
    let start = || {
        vec![
            Reply::Id("u".to_string()),
            Reply::Field(FieldReply::Named("a".to_string())),
            Reply::Stored(3),
            Reply::Field(FieldReply::End),
        ]
    };
    let mut heard = start();
    match performs(user(Request::UploadFiles, heard)) {
        Action::Put { key, content_type, body } => {
            assert_eq!(key, "uploads/u/owner.txt");
            assert_eq!(content_type, "text/plain");
            assert_eq!(body, b"alice");
        }
        _ => panic!("the owner is recorded"),
    }
    heard = start();
    heard.push(Reply::Failed(fail()));
    assert!(matches!(
        performs(user(Request::UploadFiles, heard)),
        Action::ListUploads { prefix } if prefix == "uploads/u/"
    ));
    heard = start();
    heard.push(Reply::Failed(fail()));
    heard.push(Reply::Failed(fail()));
    heard.push(Reply::Failed(fail()));
    refused(user(Request::UploadFiles, heard), 500, "Failed to save owner: Told");
    heard = start();
    heard.extend([Reply::Done, absent(), time(0), Reply::Failed(fail())]);
    heard.extend([Reply::Uploads(vec![]), Reply::Objects(vec![])]);
    refused(user(Request::UploadFiles, heard), 500, "Failed to save public shares list: Told");
}

#[test]
fn share_index_is_extended() {
    let finish = |index: Reply| {
        let req = UploadFinishReq { files_count: Some(1), total_size: None };
        let r = Request::UploadFinish { uuid: "u".to_string(), req };
        let objects = vec![object("uploads/u/a", 4, 0), object("uploads/u/owner.txt", 5, 0)];
        match performs(user(r, vec![Reply::Done, Reply::Objects(objects), index, time(0)])) {
            Action::Put { key, content_type, body } => {
                assert_eq!(key, "users/alice/public_shares.json");
                assert_eq!(content_type, "application/json");
                String::from_utf8(body).unwrap()
            }
            _ => panic!("the index is stored"),
        }
    };
    let entry = "{\"created_at\":\"1970-01-01T00:00:00+00:00\",\"files_count\":1,\"total_size\":4,\"uuid\":\"u\"}";
    assert_eq!(finish(absent()), format!("[{}]", entry));
    assert_eq!(finish(broken()), format!("[{}]", entry));
    assert_eq!(finish(bytes(b"not json")), format!("[{}]", entry));
    assert_eq!(finish(bytes(b"{}")), format!("[{}]", entry));
    assert_eq!(finish(bytes(b"[1, {\"x\": [null]}]")), format!("[1,{{\"x\":[null]}},{}]", entry));
}

#[test]
fn finishing_without_a_list_or_with_sizes_too_large() {
    let r = |objects: Reply| {
        let req = UploadFinishReq { files_count: None, total_size: None };
        user(
            Request::UploadFinish { uuid: "u".to_string(), req },
            vec![Reply::Done, objects, absent(), time(0), Reply::Done],
        )
    };
    assert!(matches!(
        r(Reply::Failed(fail())),
        Next::Done(Answer::ShareUploaded { files, .. }) if files.is_empty()
    ));
    let huge = vec![object("uploads/u/a", i64::MAX, 0), object("uploads/u/b", 1, 0)];
    breaks_off(r(Reply::Objects(huge)));
    mishears(r(Reply::Done));
}

#[test]
fn small_uploads_that_fail() {
    let uuid = || "u".to_string();
    refused(
        user(Request::UploadPing { uuid: uuid() }, vec![Reply::Failed(fail())]),
        500,
        "Failed to update heartbeat: Told",
    );
    let id = vec![Reply::Id(uuid()), Reply::Failed(fail())];
    assert!(matches!(
        user(Request::UploadInit, id),
        Next::Done(Answer::ShareBegun { uuid }) if uuid == "u"
    ));
    let init = || Request::MultipartInit { uuid: uuid(), file_name: "f".to_string() };
    refused(user(init(), vec![Reply::UploadId(None)]), 500, "No upload_id returned from S3");
    refused(
        user(init(), vec![Reply::Failed(fail())]),
        500,
        "Failed to create S3 multipart upload: Told",
    );
    let part = || Request::MultipartPart {
        uuid: uuid(),
        upload_id: "i".to_string(),
        part_number: 3,
        file_name: "f".to_string(),
    };
    refused(user(part(), vec![Reply::Failed(fail())]), 500, "Failed to upload part: Told");
    assert!(matches!(
        user(part(), vec![Reply::ETag(None), Reply::Done]),
        Next::Done(Answer::PartStored { part_number: 3, e_tag }) if e_tag.is_empty()
    ));
    let complete = Request::MultipartComplete {
        uuid: uuid(),
        upload_id: "i".to_string(),
        file_name: "f".to_string(),
        parts: vec![],
    };
    refused(
        user(complete, vec![Reply::Failed(fail())]),
        500,
        "Failed to complete S3 multipart upload: Told",
    );
    let abort = Request::UploadAbort { uuid: uuid() };
    refused(user(abort, vec![Reply::Uploads(vec![]), Reply::Failed(fail())]), 500, "shown");
}

#[test]
fn unfinished_uploads_are_dropped_first() {
    let r = || Request::UploadAbort { uuid: "u".to_string() };
    let uploads = || {
        Reply::Uploads(vec![
            ListedUpload {
                key: Some("uploads/u/a".to_string()),
                upload_id: None,
                initiated_secs: None,
            },
            ListedUpload {
                key: Some("uploads/u/b".to_string()),
                upload_id: Some("i".to_string()),
                initiated_secs: None,
            },
        ])
    };
    assert!(matches!(
        performs(user(r(), vec![uploads()])),
        Action::AbortUpload { key, upload_id } if key == "uploads/u/b" && upload_id == "i"
    ));
    assert!(matches!(
        performs(user(r(), vec![uploads(), Reply::Failed(fail())])),
        Action::ListAll { prefix } if prefix == "uploads/u/"
    ));
    let objects = Reply::Objects(vec![object("uploads/u/c", 1, 1)]);
    assert!(matches!(
        performs(user(r(), vec![uploads(), Reply::Done, objects])),
        Action::DeleteBatch { keys } if keys == vec!["uploads/u/c"]
    ));
    let objects = Reply::Objects(vec![object("uploads/u/c", 1, 1)]);
    refused(
        user(r(), vec![Reply::Failed(fail()), objects, Reply::Failed(fail())]),
        500,
        "shown",
    );
}

// --- Shares ---

#[test]
fn shares_and_their_times() {
    let r = Request::GetShare { uuid: "u".to_string() };
    refused(
        next(&blank(), &r, vec![Reply::Failed(fail())]),
        500,
        "S3 list error: Told",
    );
    let markers = vec![object("uploads/u/owner.txt", 1, 1), object("uploads/u/.active", 1, 1)];
    refused(
        next(&blank(), &r, vec![Reply::Objects(markers)]),
        404,
        "Share not found or expired",
    );
    let files = || {
        Reply::Objects(vec![
            object("uploads/u/a", 1, 50),
            object("uploads/u/b", 2, 70),
            object("uploads/u/c", 3, 60),
            S3ListedObject {
                key: Some("uploads/u/d".to_string()),
                size: None,
                last_modified_secs: Some(99),
            },
        ])
    };
    match next(&blank(), &r, vec![files(), bytes(b" bob\n")]) {
        Next::Done(Answer::Share { upload_time, expires_at, files, owner, .. }) => {
            assert_eq!(upload_time.secs, 70);
            assert_eq!(expires_at.secs, 70 + 7_776_000);
            assert_eq!(files.len(), 3);
            assert_eq!(owner, "bob");
        }
        _ => panic!("no share"),
    }
    for reply in [absent(), broken(), bytes(&[0xff])] {
        match next(&blank(), &r, vec![files(), reply]) {
            Next::Done(Answer::Share { owner, .. }) => assert_eq!(owner, ""),
            _ => panic!("no share"),
        }
    }
}

#[test]
fn times_outside_the_calendar() {
    let r = Request::GetShare { uuid: "u".to_string() };
    let at = |secs: i64| Reply::Objects(vec![object("uploads/u/a", 1, secs)]);
    assert!(matches!(
        performs(next(&blank(), &r, vec![at(8_210_266_876_800)])),
        Action::Clock
    ));
    assert!(matches!(
        performs(next(&blank(), &r, vec![at(-8_334_601_228_801)])),
        Action::Clock
    ));
    match next(&blank(), &r, vec![at(i64::MAX), time(123), absent()]) {
        Next::Done(Answer::Share { upload_time, .. }) => assert_eq!(upload_time.secs, 123),
        _ => panic!("no share"),
    }
    match next(&blank(), &r, vec![at(-8_334_601_228_800), absent()]) {
        Next::Done(Answer::Share { upload_time, .. }) => {
            assert_eq!(upload_time.secs, -8_334_601_228_800)
        }
        _ => panic!("no share"),
    }
    breaks_off(next(&blank(), &r, vec![at(8_210_266_876_799), absent()]));
}

#[test]
fn ranges_are_passed_on() {
    let r = Request::Download { uuid: "u".to_string(), filename: "a b/ü.txt".to_string() };
    let asked = |range: Header| {
        let headers = Headers { range, ..blank() };
        match performs(next(&headers, &r, vec![])) {
            Action::Fetch { key, range } => {
                assert_eq!(key, "uploads/u/a b/ü.txt");
                range
            }
            _ => panic!("the file is fetched"),
        }
    };
    let text = |s: &str| asked(Header::Text(s.to_string()));
    assert_eq!(asked(Header::Missing), None);
    assert_eq!(asked(Header::Unreadable), None);
    assert_eq!(text("bytes=0-99"), Some("bytes=0-99".to_string()));
    assert_eq!(text("bytes= 5 - 7 "), Some("bytes=5-7".to_string()));
    assert_eq!(text("bytes=5-"), Some("bytes=5-".to_string()));
    assert_eq!(text("bytes=5"), Some("bytes=5-".to_string()));
    assert_eq!(text("bytes=+5-x"), Some("bytes=5-".to_string()));
    assert_eq!(text("bytes=5-7-9"), Some("bytes=5-7".to_string()));
    assert_eq!(text("bytes=-5"), None);
    assert_eq!(text("bytes=0-1,3-4"), None);
    assert_eq!(text("items=0-1"), None);
    assert_eq!(text("bytes=18446744073709551616-"), None);
}

#[test]
fn files_with_and_without_a_range() {
    let r = Request::Download { uuid: "u".to_string(), filename: "a b/ü.txt".to_string() };
    let reply = || {
        Reply::File(FileReply {
            content_type: None,
            content_length: Some(3),
            content_range: Some("bytes 0-2/9".to_string()),
        })
    };
    let ranged = Headers { range: Header::Text("bytes=0-2".to_string()), ..blank() };
    for (headers, wanted) in [(ranged, 206), (blank(), 200)] {
        match next(&headers, &r, vec![reply()]) {
            Next::Done(Answer::File {
                status,
                content_type,
                content_length,
                content_range,
                content_disposition,
            }) => {
                assert_eq!(status, wanted);
                assert_eq!(content_type, "text/plain");
                assert_eq!(content_length, Some(3));
                assert_eq!(content_range, Some("bytes 0-2/9".to_string()));
                assert_eq!(content_disposition, "inline; filename*=UTF-8''a%20b%2F%C3%BC%2Etxt");
            }
            _ => panic!("no file"),
        }
    }
    assert!(matches!(
        next(&blank(), &r, vec![Reply::Failed(fail())]),
        Next::Done(Answer::FileMissing)
    ));
}

#[test]
fn shares_are_removed_by_their_owner_alone() {
    let r = || Request::DeleteShare { uuid: "u".to_string() };
    refused(user(r(), vec![absent()]), 403, "Cannot verify ownership");
    refused(user(r(), vec![broken()]), 403, "Share has no valid owner recorded");
    refused(user(r(), vec![bytes(b"bob")]), 403, "You do not own this share");
    refused(user(r(), vec![bytes(b"\xff")]), 403, "You do not own this share");
    assert!(matches!(
        performs(user(r(), vec![bytes(b" alice\n")])),
        Action::ListUploads { prefix } if prefix == "uploads/u/"
    ));
    let gone = || vec![bytes(b"alice"), Reply::Uploads(vec![]), Reply::Objects(vec![])];
    let mut heard = gone();
    heard.push(bytes(br#"[{"uuid":"u"},{"uuid":"v"},{"uuid":1},7]"#));
    match performs(user(r(), heard)) {
        Action::Put { key, body, .. } => {
            assert_eq!(key, "users/alice/public_shares.json");
            assert_eq!(body, br#"[{"uuid":"v"},{"uuid":1},7]"#);
        }
        _ => panic!("the index is stored"),
    }
    for index in [absent(), broken(), bytes(b"{}")] {
        let mut heard = gone();
        heard.push(index);
        assert!(matches!(user(r(), heard), Next::Done(Answer::Status { .. })));
    }
}

// --- Accounts ---

#[test]
fn names_that_do_not_fit() {
    let register = |name: &str, heard: Vec<Reply>| {
        let r = Request::Register { username: name.to_string(), auth_key: "k".to_string() };
        next(&blank(), &r, heard)
    };
    let length = "Username must be between 3 and 30 characters";
    for name in ["", "ab", " ab ", "ü", "€€€€€€€€€€€", "aaaaaaaaaaaaaaaaaaaaaaaaaaaaaaa"] {
        refused(register(name, vec![]), 400, length);
    }
    let chars = "Username can only contain letters, numbers, dashes, and underscores";
    for name in ["a/b", "a.b", "a b", "abc!", "a:b"] {
        refused(register(name, vec![]), 400, chars);
    }
    for name in ["abc", "a-b_9", "üü", "日本", "aaaaaaaaaaaaaaaaaaaaaaaaaaaaaa"] {
        match performs(register(name, vec![])) {
            Action::Head { key } => assert_eq!(key, format!("users/{}.json", name)),
            _ => panic!("the name is looked up"),
        }
    }
    refused(
        register("abc", vec![Reply::Exists(false), Reply::Failed(fail())]),
        500,
        "Failed to save user: Told",
    );
    succeeds(register("abc", vec![Reply::Exists(false), Reply::Done]));
    mishears(register("abc", vec![Reply::Done]));
}

#[test]
fn logins_that_fail() {
    let login = |heard: Vec<Reply>| {
        let r = Request::Login { username: " bob ".to_string(), auth_key: "key1".to_string() };
        next(&blank(), &r, heard)
    };
    match performs(login(vec![])) {
        Action::Get { key } => assert_eq!(key, "users/bob.json"),
        _ => panic!("the record is looked up"),
    }
    refused(login(vec![absent()]), 401, "Invalid username or password");
    refused(login(vec![broken()]), 500, "shown");
    refused(login(vec![bytes(b"{")]), 500, "EOF while parsing an object at line 1 column 1");
    refused(login(vec![bytes(b"{}")]), 500, "Invalid user profile data in S3");
    refused(login(vec![bytes(b"[]")]), 500, "Invalid user profile data in S3");
    refused(
        login(vec![bytes(b"{\"password_hash\":5}")]),
        500,
        "Invalid user profile data in S3",
    );
    refused(login(vec![record("0")]), 401, "Invalid username or password");
    assert!(matches!(performs(login(vec![record(KEY1)])), Action::FreshId));
    let upto = |last: Reply| {
        login(vec![
            record(KEY1),
            Reply::Id("id".to_string()),
            time(7),
            Reply::Sessions(SessionsReply::Malformed),
            last,
            absent(),
        ])
    };
    for last in [Reply::Done, Reply::Failed(fail()), Reply::NotEncoded("x".to_string())] {
        match upto(last) {
            Next::Done(Answer::LoggedIn { token, pfp_enc }) => {
                assert_eq!(token, generate_token("bob", b"secret", 0, "id"));
                assert_eq!(pfp_enc, "");
            }
            _ => panic!("not logged in"),
        }
    }
    mishears(upto(time(0)));
}

#[test]
fn address_of_the_client() {
    let put = |headers: Headers| {
        let r = Request::Login { username: "bob".to_string(), auth_key: "key1".to_string() };
        let heard = vec![
            record(KEY1),
            Reply::Id("id".to_string()),
            time(7),
            Reply::Sessions(SessionsReply::Loaded(vec![session("old")])),
        ];
        match performs(next(&headers, &r, heard)) {
            Action::PutSessions { key, sessions } => {
                assert_eq!(key, "users/bob/sessions.json");
                assert_eq!(sessions.len(), 2);
                assert_eq!(sessions[0].id, "old");
                assert_eq!(sessions[1].id, "id");
                assert_eq!(sessions[1].created_at, 7);
                (sessions[1].user_agent.clone(), sessions[1].ip.clone())
            }
            _ => panic!("the session is listed"),
        }
    };
    let text = |s: &str| Header::Text(s.to_string());
    let both = Headers { forwarded_for: text("1"), real_ip: text("2"), ..blank() };
    assert_eq!(put(both), ("Unknown".to_string(), "1".to_string()));
    let real = Headers {
        forwarded_for: Header::Unreadable,
        real_ip: text("2"),
        user_agent: text("a"),
        ..blank()
    };
    assert_eq!(put(real), ("a".to_string(), "2".to_string()));
    assert_eq!(put(blank()), ("Unknown".to_string(), "Unknown".to_string()));
}

#[test]
fn shares_and_pictures_that_cannot_be_stored() {
    refused(user(Request::GetShares, vec![broken()]), 500, "shown");
    let save = |s: &str| Request::SaveShares { shares_enc: s.to_string() };
    refused(
        user(save("aa"), vec![Reply::Failed(fail())]),
        500,
        "Failed to save shares to S3: Told",
    );
    breaks_off(user(save("€"), vec![]));
    let picture = |s: &str| Request::SaveProfile { pfp_enc: s.to_string(), pfp: "".to_string() };
    refused(
        user(picture("aa"), vec![absent(), Reply::Failed(fail())]),
        500,
        "Failed to update profile picture: Told",
    );
    succeeds(user(picture(""), vec![broken(), Reply::Failed(fail())]));
    succeeds(user(picture(""), vec![bytes(b"not json"), Reply::Done]));
    let with_pfp = bytes(b"{\"pfp\":null}");
    succeeds(user(picture(""), vec![with_pfp, Reply::Failed(fail()), Reply::Done]));
    breaks_off(user(picture("aa€"), vec![absent()]));
}

#[test]
fn changes_of_password_that_fail() {
    let change = |shares: &str, pfp: Option<&str>, rest: Vec<Reply>| {
        let req = ChangePasswordRequest {
            current_auth_key: "key1".to_string(),
            new_auth_key: "key2".to_string(),
            new_shares_enc: shares.to_string(),
            new_pfp_enc: pfp.map(|p| p.to_string()),
        };
        user(Request::ChangePassword { req }, rest)
    };
    refused(change("", None, vec![absent()]), 404, "User profile not found");
    refused(change("", None, vec![broken()]), 500, "shown");
    refused(change("", None, vec![bytes(b"{}")]), 500, "Invalid user profile data in S3");
    refused(change("", None, vec![record("0")]), 401, "Incorrect current password");
    let failed = || Reply::Failed(fail());
    refused(change("", None, vec![record(KEY1), failed()]), 500, "Failed to update profile: Told");
    refused(
        change("zz", None, vec![record(KEY1), Reply::Done]),
        400,
        "Invalid encrypted payload hex encoding",
    );
    refused(
        change("", None, vec![record(KEY1), Reply::Done, failed()]),
        500,
        "Failed to save new shares: Told",
    );
    breaks_off(change("€", None, vec![record(KEY1), Reply::Done]));
    breaks_off(change("", Some("€"), vec![record(KEY1), Reply::Done, Reply::Done]));
    let sessions =
        || Reply::Sessions(SessionsReply::Loaded(vec![session("id-0"), session("id-1")]));
    match performs(change("", None, vec![record(KEY1), Reply::Done, Reply::Done, sessions()])) {
        Action::PutSessions { key, sessions } => {
            assert_eq!(key, "users/alice/sessions.json");
            assert_eq!(sessions.len(), 1);
            assert_eq!(sessions[0].id, "id-1");
        }
        _ => panic!("the sessions are stored"),
    }
    succeeds(change(
        "",
        Some("aa"),
        vec![record(KEY1), Reply::Done, Reply::Done, failed(), sessions(), failed()],
    ));
}

#[test]
fn record_keeps_its_other_members() {
    let req = ChangePasswordRequest {
        current_auth_key: "key1".to_string(),
        new_auth_key: "".to_string(),
        new_shares_enc: "".to_string(),
        new_pfp_enc: None,
    };
    let record = format!("{{\"z\":[1,\"ä\\n\"],\"password_hash\":\"{}\",\"a\":-2}}", KEY1);
    match performs(user(Request::ChangePassword { req }, vec![bytes(record.as_bytes())])) {
        Action::Put { key, content_type, body } => {
            assert_eq!(key, "users/alice.json");
            assert_eq!(content_type, "application/json");
            assert_eq!(
                String::from_utf8(body).unwrap(),
                "{\"a\":-2,\"password_hash\":\"dfb7b94ab611f87c8560001116e968ead8d94e5d0f141a0cc1c19d35533b3861\",\"z\":[1,\"ä\\n\"]}"
            );
        }
        _ => panic!("the record is stored"),
    }
}

#[test]
fn lists_of_sessions_that_cannot_be_stored() {
    let revoke = || Request::RevokeSession { session_id: "id-1".to_string() };
    refused(
        user(revoke(), vec![listed(), Reply::Failed(fail())]),
        500,
        "Failed to update sessions: Told",
    );
    refused(user(revoke(), vec![listed(), Reply::NotEncoded("bad".to_string())]), 500, "bad");
    let none = || Reply::Sessions(SessionsReply::Absent);
    succeeds(user(revoke(), vec![none()]));
    let rename = || Request::RenameSession {
        session_id: "id-1".to_string(),
        name: "n".to_string(),
    };
    refused(
        user(rename(), vec![listed(), Reply::Failed(fail())]),
        500,
        "Failed to update session: Told",
    );
    succeeds(user(rename(), vec![none()]));
    let rename = Request::AdminRenameSession {
        session_id: "id-1".to_string(),
        name: "n".to_string(),
    };
    refused(
        next(&admin(), &rename, vec![listed(), Reply::Failed(fail())]),
        500,
        "Failed to update admin session: Told",
    );
    let id = vec![Reply::Id("s".to_string()), time(0), none(), Reply::Failed(fail())];
    refused(
        next(&admin(), &Request::AdminLogin, id),
        500,
        "Failed to save admin session: Told",
    );
}

#[test]
fn administrator_token_that_takes_a_character_apart() {
    let site = Site { jwt_secret: b"secret".to_vec(), admin_token: Some("€.0.a.b".to_string()) };
    let headers = with_auth("Bearer €.0.a.b");
    assert!(matches!(
        answer(&site, &headers, &Request::AdminSessions, &vec![]),
        Next::Perform(Action::GetSessions { .. })
    ));
    breaks_off(answer(&site, &headers, &Request::AdminSessions, &vec![listed()]));
}

#[test]
fn statistics_of_odd_indices() {
    let stats = |objects: Vec<&str>, rest: Vec<Reply>| {
        let objects = objects.into_iter().map(|k| object(k, 0, 0)).collect();
        let mut heard = vec![Reply::Objects(objects)];
        heard.extend(rest);
        next(&admin(), &Request::AdminStats, heard)
    };
    refused(next(&admin(), &Request::AdminStats, vec![Reply::Failed(fail())]), 500, "shown");
    let keys = vec!["users/a.json", "users/b/public_shares.json", "users/c", "users/.json"];
    match stats(
        keys,
        vec![
            bytes(br#"[{"total_size":5},{"total_size":-2},{"total_size":1.5},{"total_size":"x"},3]"#),
            absent(),
        ],
    ) {
        Next::Done(Answer::Stats { users }) => {
            assert_eq!(users.len(), 2);
            assert_eq!((users[0].username.as_str(), users[0].total_size), ("a", 3));
            assert_eq!(users[0].shares.len(), 5);
            assert_eq!((users[1].username.as_str(), users[1].total_size), ("", 0));
        }
        _ => panic!("no statistics"),
    }
    let index = br#"[{"total_size":9223372036854775807},{"total_size":1}]"#;
    breaks_off(stats(vec!["users/a.json"], vec![bytes(index)]));
    let index = br#"[{"total_size":9223372036854775808}]"#;
    match stats(vec!["users/a.json"], vec![bytes(index)]) {
        Next::Done(Answer::Stats { users }) => assert_eq!(users[0].total_size, 0),
        _ => panic!("no statistics"),
    }
}

// --- The sweep ---

#[test]
fn limits_of_the_sweep() {
    let some = |s: &str| Some(s.to_string());
    let sweep = |days: Option<String>, hours: Option<String>| {
        perform_cleanup(&days, &hours, &vec![time(0)])
    };
    assert!(matches!(
        perform_cleanup(&None, &None, &vec![]),
        Next::Perform(Action::Clock)
    ));
    assert!(matches!(
        sweep(None, None),
        Next::Perform(Action::ListUploads { prefix }) if prefix == "uploads/"
    ));
    breaks_off(sweep(some("106751991167301"), None));
    breaks_off(sweep(None, some("-2562047788015216")));
    assert!(matches!(sweep(some("106751991167300"), some("x")), Next::Perform(_)));
}

#[test]
fn groups_of_the_sweep() {
    let hour = 3600;
    let now = 1000 * 24 * hour;
    let objects = || {
        Reply::Objects(vec![
            object("uploads/old/owner.txt", 1, now - 90 * 24 * hour - 1),
            object("uploads/part/x", 1, now - 12 * hour - 1),
            object("uploads/old/a/b", 1, now - 91 * 24 * hour),
            object("uploads/live/x", 1, now - 13 * hour),
            object("uploads/live/y", 1, now - 12 * hour),
            object("uploads/kept/owner.txt", 1, now - 90 * 24 * hour),
            object("uploads/stray", 1, -5),
            S3ListedObject {
                key: Some("uploads/part/y".to_string()),
                size: None,
                last_modified_secs: None,
            },
        ])
    };
    let sweep = |rest: Vec<Reply>| {
        let mut heard = vec![time(now), Reply::Failed(fail()), objects()];
        heard.extend(rest);
        perform_cleanup(&None, &None, &heard)
    };
    assert!(matches!(
        performs(sweep(vec![])),
        Action::Get { key } if key == "uploads/old/owner.txt"
    ));
    assert!(matches!(
        performs(sweep(vec![bytes(b"alice")])),
        Action::Get { key } if key == "users/alice/public_shares.json"
    ));
    assert!(matches!(
        performs(sweep(vec![bytes(b"alice"), bytes(b"[{\"uuid\":\"old\"}]")])),
        Action::Put { body, .. } if body == b"[]"
    ));
    let wanted =
        vec!["uploads/old/owner.txt", "uploads/old/a/b", "uploads/part/x", "uploads/stray"];
    for rest in [vec![absent()], vec![bytes(b" ")], vec![bytes(b"alice"), absent()]] {
        match performs(sweep(rest)) {
            Action::DeleteBatch { keys } => assert_eq!(keys, wanted),
            _ => panic!("the objects are removed"),
        }
    }
    succeeds(sweep(vec![absent(), Reply::Done]));
    assert!(matches!(
        sweep(vec![absent(), Reply::Failed(fail())]),
        Next::Done(Answer::SweepFailed { message }) if message == "Told"
    ));
}

#[test]
fn sweeps_that_break_off() {
    let uploads = |begun: i64| {
        Reply::Uploads(vec![ListedUpload {
            key: Some("uploads/k".to_string()),
            upload_id: Some("i".to_string()),
            initiated_secs: Some(begun),
        }])
    };
    let sweep = |heard: Vec<Reply>| perform_cleanup(&None, &None, &heard);
    assert!(matches!(
        performs(sweep(vec![time(43_201), uploads(0)])),
        Action::AbortUpload { key, upload_id } if key == "uploads/k" && upload_id == "i"
    ));
    assert!(matches!(
        performs(sweep(vec![time(43_200), uploads(0)])),
        Action::ListAll { prefix } if prefix == "uploads/"
    ));
    breaks_off(sweep(vec![time(0), uploads(i64::MIN)]));
    assert!(matches!(
        sweep(vec![time(0), Reply::Failed(fail()), Reply::Failed(fail())]),
        Next::Done(Answer::SweepFailed { message }) if message == "Told"
    ));
    succeeds(sweep(vec![time(0), Reply::Failed(fail()), Reply::Objects(vec![])]));
    breaks_off(sweep(vec![time(i64::MIN), Reply::Failed(fail()), Reply::Objects(vec![
        object("uploads/a", 0, 1),
    ])]));
    mishears(sweep(vec![Reply::Done]));
}
