use s3_share::api::{answer, Request};
use s3_share::clock::UtcTime;
use s3_share::cleanup::perform_cleanup;
use s3_share::gate::{Header, Headers, Site};
use s3_share::ids::{fresh_id, fresh_secret};
use s3_share::profile::ChangePasswordRequest;
use s3_share::protocol::{
    Action, Answer, FieldReply, FileReply, ListedUpload, Next, ObjectReply, Reply, ServiceError,
    SessionsReply,
};
use s3_share::session::UserSession;
use s3_share::storage::{CompletedPart, S3ListedObject};
use s3_share::uploads::UploadFinishReq;
use std::collections::BTreeMap;

const NOW: i64 = 1_700_000_000;

/// A bucket that does what it is asked.
struct Bucket {
    objects: BTreeMap<String, (String, Vec<u8>, i64)>,
    sessions: BTreeMap<String, Vec<UserSession>>,
    uploads: BTreeMap<String, (String, BTreeMap<i32, Vec<u8>>, i64)>,
    now: i64,
    form: Vec<(Option<String>, Vec<u8>)>,
    part: Vec<u8>,
    refuse_puts: bool,
}

fn failed() -> ServiceError {
    ServiceError { display: "display".to_string(), debug: "debug".to_string() }
}

fn copies(v: &Vec<UserSession>) -> Vec<UserSession> {
    v.iter().map(|s| s.copy()).collect()
}

impl Bucket {
    fn new() -> Self {
        Bucket {
            objects: BTreeMap::new(),
            sessions: BTreeMap::new(),
            uploads: BTreeMap::new(),
            now: NOW,
            form: Vec::new(),
            part: Vec::new(),
            refuse_puts: false,
        }
    }

    fn list(&self, prefix: &str) -> Vec<S3ListedObject> {
        self.objects
            .iter()
            .filter(|(k, _)| k.starts_with(prefix))
            .map(|(k, o)| S3ListedObject {
                key: Some(k.clone()),
                size: Some(o.1.len() as i64),
                last_modified_secs: Some(o.2),
            })
            .collect()
    }

    fn put(&mut self, key: String, content_type: String, body: Vec<u8>) -> Reply {
        if self.refuse_puts {
            return Reply::Failed(failed());
        }
        self.objects.insert(key, (content_type, body, self.now));
        Reply::Done
    }

    fn perform(&mut self, action: Action) -> Reply {
        match action {
            Action::Get { key } => Reply::Object(match self.objects.get(&key) {
                Some(o) => ObjectReply::Bytes(o.1.clone()),
                None => ObjectReply::Absent,
            }),
            Action::GetSessions { key } => Reply::Sessions(match self.sessions.get(&key) {
                Some(v) => SessionsReply::Loaded(copies(v)),
                None => SessionsReply::Absent,
            }),
            Action::Put { key, content_type, body } => self.put(key, content_type, body),
            Action::PutInBackground { key, content_type, body } => {
                self.put(key, content_type, body);
                Reply::Done
            }
            Action::PutSessions { key, sessions } => {
                self.sessions.insert(key, sessions);
                Reply::Done
            }
            Action::Head { key } => Reply::Exists(self.objects.contains_key(&key)),
            Action::Delete { key } => {
                self.objects.remove(&key);
                Reply::Done
            }
            Action::DeleteBatch { keys } => {
                assert!(keys.len() <= 1000);
                for key in keys {
                    assert!(self.objects.remove(&key).is_some());
                }
                Reply::Done
            }
            Action::ListAll { prefix } => Reply::Objects(self.list(&prefix)),
            Action::ListPage { prefix } => Reply::Objects(self.list(&prefix)),
            Action::ListUploads { prefix } => Reply::Uploads(
                self.uploads
                    .iter()
                    .filter(|(_, u)| u.0.starts_with(&prefix))
                    .map(|(id, u)| ListedUpload {
                        key: Some(u.0.clone()),
                        upload_id: Some(id.clone()),
                        initiated_secs: Some(u.2),
                    })
                    .collect(),
            ),
            Action::CreateUpload { key, .. } => {
                let id = fresh_id();
                self.uploads.insert(id.clone(), (key, BTreeMap::new(), self.now));
                Reply::UploadId(Some(id))
            }
            Action::UploadPart { upload_id, part_number, .. } => {
                let part = self.part.clone();
                self.uploads.get_mut(&upload_id).unwrap().1.insert(part_number, part);
                Reply::ETag(Some(format!("tag-{}", part_number)))
            }
            Action::CompleteUpload { key, upload_id, parts } => {
                let upload = self.uploads.remove(&upload_id).unwrap();
                assert_eq!(parts.len(), upload.1.len());
                let body = upload.1.into_values().flatten().collect();
                self.put(key, "application/octet-stream".to_string(), body)
            }
            Action::AbortUpload { upload_id, .. } => {
                self.uploads.remove(&upload_id);
                Reply::Done
            }
            Action::NextField => match self.form.first() {
                None => Reply::Field(FieldReply::End),
                Some((None, _)) => {
                    self.form.remove(0);
                    Reply::Field(FieldReply::Unnamed)
                }
                Some((Some(name), _)) => {
                    let name = name.clone();
                    if name.trim().is_empty() {
                        self.form.remove(0);
                    }
                    Reply::Field(FieldReply::Named(name))
                }
            },
            Action::StoreField { key, content_type } => {
                let (_, body) = self.form.remove(0);
                let size = body.len() as i64;
                match self.put(key, content_type, body) {
                    Reply::Done => Reply::Stored(size),
                    other => other,
                }
            }
            Action::Fetch { key, range } => match self.objects.get(&key) {
                Some(o) => Reply::File(FileReply {
                    content_type: Some(o.0.clone()),
                    content_length: Some(o.1.len() as i64),
                    content_range: range,
                }),
                None => Reply::Failed(failed()),
            },
            Action::FreshId => Reply::Id(fresh_id()),
            Action::FreshSecret => Reply::Secret(fresh_secret()),
            Action::Clock => Reply::Time(UtcTime { secs: self.now, nanos: 0 }),
        }
    }

    fn run(&mut self, token: Option<&str>, request: Request) -> Answer {
        let site = Site { jwt_secret: b"secret".to_vec(), admin_token: Some("root".to_string()) };
        let headers = headers(token);
        let mut heard = Vec::new();
        loop {
            match answer(&site, &headers, &request, &heard) {
                Next::Perform(action) => heard.push(self.perform(action)),
                Next::Done(done) => return done,
                Next::Crash | Next::Misheard => panic!("the request broke off"),
            }
        }
    }

    fn sweep(&mut self) -> Answer {
        let mut heard = Vec::new();
        loop {
            match perform_cleanup(&None, &Some("24".to_string()), &heard) {
                Next::Perform(action) => heard.push(self.perform(action)),
                Next::Done(done) => return done,
                Next::Crash | Next::Misheard => panic!("the sweep broke off"),
            }
        }
    }

    fn register_and_login(&mut self, name: &str, key: &str) -> String {
        let username = name.to_string();
        let auth_key = key.to_string();
        assert!(matches!(
            self.run(None, Request::Register { username, auth_key }),
            Answer::Success
        ));
        self.login(name, key)
    }

    fn login(&mut self, name: &str, key: &str) -> String {
        let username = name.to_string();
        let auth_key = key.to_string();
        match self.run(None, Request::Login { username, auth_key }) {
            Answer::LoggedIn { token, .. } => token,
            _ => panic!("not logged in"),
        }
    }

    fn upload(&mut self, token: &str, files: &[(&str, &str)]) -> String {
        self.form = files
            .iter()
            .map(|(n, b)| (Some(n.to_string()), b.as_bytes().to_vec()))
            .collect();
        match self.run(Some(token), Request::UploadFiles) {
            Answer::ShareUploaded { uuid, .. } => uuid,
            _ => panic!("not uploaded"),
        }
    }

    fn keys(&self) -> Vec<String> {
        self.objects.keys().cloned().collect()
    }
}

fn headers(token: Option<&str>) -> Headers {
    Headers {
        authorization: match token {
            Some(t) => Header::Text(format!("Bearer {}", t)),
            None => Header::Missing,
        },
        range: Header::Missing,
        user_agent: Header::Text("agent".to_string()),
        forwarded_for: Header::Missing,
        real_ip: Header::Text("9.9.9.9".to_string()),
    }
}

fn refusal(a: Answer) -> (u16, String) {
    match a {
        Answer::Refused { status, message } => (status, message),
        _ => panic!("not refused"),
    }
}

fn refused_with(a: Answer, status: u16, message: &str) {
    assert_eq!(refusal(a), (status, message.to_string()));
}

fn index(b: &Bucket, user: &str) -> Vec<serde_json::Value> {
    let key = format!("users/{}/public_shares.json", user);
    serde_json::from_slice(&b.objects[&key].1).unwrap()
}

#[test]
fn registered_user_logs_in_and_no_one_else() {
    let mut b = Bucket::new();
    b.register_and_login(" alice ", "key1");
    assert!(b.keys().contains(&"users/alice.json".to_string()));
    assert_eq!(
        b.objects["users/alice.json"].1,
        br#"{"password_hash":"f1d97b451dc8049ed9ee82991b0c747878e8e04dcaedcfa71da427b26b904f2d"}"#
    );
    let wrong = Request::Login { username: "alice".to_string(), auth_key: "key2".to_string() };
    refused_with(b.run(None, wrong), 401, "Invalid username or password");
    let nobody = Request::Login { username: "bob".to_string(), auth_key: "key1".to_string() };
    refused_with(b.run(None, nobody), 401, "Invalid username or password");
    let again = Request::Register { username: "alice".to_string(), auth_key: "key3".to_string() };
    refused_with(b.run(None, again), 400, "Username is already taken");
}

#[test]
fn login_lists_a_session() {
    let mut b = Bucket::new();
    let token = b.register_and_login("alice", "key1");
    match b.run(Some(&token), Request::GetSessions) {
        Answer::Sessions { sessions } => {
            assert_eq!(sessions.len(), 1);
            assert!(sessions[0].is_current);
            let s = &sessions[0].session;
            assert_eq!(s.created_at, NOW);
            assert_eq!(s.user_agent, "agent");
            assert_eq!(s.ip, "9.9.9.9");
            assert_eq!(s.expires_at, 0);
            assert_eq!(s.name, None);
            assert!(token.contains(&s.id));
        }
        _ => panic!("no sessions"),
    }
}

#[test]
fn uploaded_share_is_shown_fetched_and_removed() {
    let mut b = Bucket::new();
    let token = b.register_and_login("alice", "key1");
    let uuid = b.upload(&token, &[("a.txt", "hello"), ("dir/b.png", "xy"), ("metadata.enc", "m")]);
    assert_eq!(b.objects[&format!("uploads/{}/a.txt", uuid)].0, "text/plain");
    assert_eq!(b.objects[&format!("uploads/{}/dir/b.png", uuid)].0, "image/png");
    assert_eq!(b.objects[&format!("uploads/{}/owner.txt", uuid)].1, b"alice");
    let entries = index(&b, "alice");
    assert_eq!(entries.len(), 1);
    assert_eq!(entries[0]["uuid"], uuid.as_str());
    assert_eq!(entries[0]["files_count"], 2);
    assert_eq!(entries[0]["total_size"], 8);
    assert_eq!(entries[0]["created_at"], "2023-11-14T22:13:20+00:00");
    match b.run(None, Request::GetShare { uuid: uuid.clone() }) {
        Answer::Share { uuid: u, upload_time, expires_at, files, owner } => {
            assert_eq!(u, uuid);
            assert_eq!(upload_time, UtcTime { secs: NOW, nanos: 0 });
            assert_eq!(expires_at, UtcTime { secs: NOW + 90 * 86400, nanos: 0 });
            let shown: Vec<(&str, i64)> =
                files.iter().map(|f| (f.name.as_str(), f.size)).collect();
            assert_eq!(shown, vec![("a.txt", 5), ("dir/b.png", 2), ("metadata.enc", 1)]);
            assert_eq!(owner, "alice");
        }
        _ => panic!("no share"),
    }
    let fetch = Request::Download { uuid: uuid.clone(), filename: "a.txt".to_string() };
    match b.run(None, fetch) {
        Answer::File { status, content_type, content_length, content_disposition, .. } => {
            assert_eq!(status, 200);
            assert_eq!(content_type, "text/plain");
            assert_eq!(content_length, Some(5));
            assert_eq!(content_disposition, "inline; filename*=UTF-8''a%2Etxt");
        }
        _ => panic!("no file"),
    }
    let stranger = b.register_and_login("mallory", "key2");
    let remove = Request::DeleteShare { uuid: uuid.clone() };
    refused_with(b.run(Some(&stranger), remove), 403, "You do not own this share");
    let remove = Request::DeleteShare { uuid: uuid.clone() };
    assert!(matches!(
        b.run(Some(&token), remove),
        Answer::Status { status } if status == "deleted"
    ));
    assert!(b.list("uploads/").is_empty());
    assert!(index(&b, "alice").is_empty());
    let gone = Request::GetShare { uuid: uuid.clone() };
    refused_with(b.run(None, gone), 404, "Share not found or expired");
    let gone = Request::Download { uuid, filename: "a.txt".to_string() };
    assert!(matches!(b.run(None, gone), Answer::FileMissing));
}

#[test]
fn upload_without_files_leaves_nothing() {
    let mut b = Bucket::new();
    let token = b.register_and_login("alice", "key1");
    b.form = vec![(None, vec![1]), (Some("  ".to_string()), vec![2])];
    refused_with(b.run(Some(&token), Request::UploadFiles), 400, "No files uploaded");
    assert!(b.list("uploads/").is_empty());
    b.form = vec![(Some("a".to_string()), vec![1])];
    b.refuse_puts = true;
    refused_with(
        b.run(Some(&token), Request::UploadFiles),
        500,
        "Failed to upload to S3: debug",
    );
    assert!(b.list("uploads/").is_empty());
}

#[test]
fn share_in_several_requests() {
    let mut b = Bucket::new();
    let token = b.register_and_login("alice", "key1");
    let uuid = match b.run(Some(&token), Request::UploadInit) {
        Answer::ShareBegun { uuid } => uuid,
        _ => panic!("not begun"),
    };
    assert_eq!(b.objects[&format!("uploads/{}/.active", uuid)].1, b"active");
    assert!(matches!(
        b.run(Some(&token), Request::UploadPing { uuid: uuid.clone() }),
        Answer::Status { status } if status == "ok"
    ));
    b.form = vec![
        (Some("a.bin".to_string()), vec![0; 10]),
        (Some("metadata.enc".to_string()), vec![0; 3]),
        (Some("a.bin.thumb.enc".to_string()), vec![0; 4]),
    ];
    match b.run(Some(&token), Request::UploadFile { uuid: uuid.clone() }) {
        Answer::FilesStored { files } => {
            assert_eq!(files, vec!["a.bin", "metadata.enc", "a.bin.thumb.enc"])
        }
        _ => panic!("not stored"),
    }
    let file_name = "big.bin".to_string();
    let begin = Request::MultipartInit { uuid: uuid.clone(), file_name: file_name.clone() };
    let upload_id = match b.run(Some(&token), begin) {
        Answer::UploadBegun { upload_id } => upload_id,
        _ => panic!("not begun"),
    };
    for (n, data) in [(2, b"two".to_vec()), (1, b"one".to_vec())] {
        b.part = data;
        let part = Request::MultipartPart {
            uuid: uuid.clone(),
            upload_id: upload_id.clone(),
            part_number: n,
            file_name: file_name.clone(),
        };
        assert!(matches!(
            b.run(Some(&token), part),
            Answer::PartStored { part_number, e_tag }
                if part_number == n && e_tag == format!("tag-{}", n)
        ));
    }
    let complete = Request::MultipartComplete {
        uuid: uuid.clone(),
        upload_id,
        file_name: file_name.clone(),
        parts: vec![
            CompletedPart { e_tag: "tag-1".to_string(), part_number: 1 },
            CompletedPart { e_tag: "tag-2".to_string(), part_number: 2 },
        ],
    };
    assert!(matches!(
        b.run(Some(&token), complete),
        Answer::Status { status } if status == "ok"
    ));
    assert_eq!(b.objects[&format!("uploads/{}/big.bin", uuid)].1, b"onetwo");
    let req = UploadFinishReq { files_count: None, total_size: None };
    match b.run(Some(&token), Request::UploadFinish { uuid: uuid.clone(), req }) {
        Answer::ShareUploaded { uuid: u, files } => {
            assert_eq!(u, uuid);
            assert_eq!(files, vec!["a.bin", "a.bin.thumb.enc", "big.bin", "metadata.enc"]);
        }
        _ => panic!("not finished"),
    }
    let entries = index(&b, "alice");
    assert_eq!(entries[0]["files_count"], 2);
    assert_eq!(entries[0]["total_size"], 16);
    let req = UploadFinishReq { files_count: Some(7), total_size: Some(-3) };
    b.run(Some(&token), Request::UploadFinish { uuid: uuid.clone(), req });
    let entries = index(&b, "alice");
    assert_eq!(entries.len(), 2);
    assert_eq!(entries[1]["files_count"], 7);
    assert_eq!(entries[1]["total_size"], -3);
    assert!(matches!(
        b.run(Some(&token), Request::UploadAbort { uuid }),
        Answer::Status { status } if status == "aborted"
    ));
    assert!(b.list("uploads/").is_empty());
}

#[test]
fn saved_shares_and_picture_come_back() {
    let mut b = Bucket::new();
    let token = b.register_and_login("alice", "key1");
    assert!(matches!(
        b.run(Some(&token), Request::GetShares),
        Answer::SharesText { shares_enc } if shares_enc.is_empty()
    ));
    let save = Request::SaveShares { shares_enc: " 00ffA1 ".to_string() };
    assert!(matches!(b.run(Some(&token), save), Answer::Success));
    assert!(matches!(
        b.run(Some(&token), Request::GetShares),
        Answer::SharesText { shares_enc } if shares_enc == "00ffa1"
    ));
    let odd = Request::SaveShares { shares_enc: "+B0a5".to_string() };
    assert!(matches!(b.run(Some(&token), odd), Answer::Success));
    assert!(matches!(
        b.run(Some(&token), Request::GetShares),
        Answer::SharesText { shares_enc } if shares_enc == "0b0a"
    ));
    let bad = Request::SaveShares { shares_enc: "0x".to_string() };
    refused_with(b.run(Some(&token), bad), 400, "Invalid encrypted payload hex encoding");

    let picture = |e: &str, p: &str| Request::SaveProfile {
        pfp_enc: e.to_string(),
        pfp: p.to_string(),
    };
    assert!(matches!(b.run(Some(&token), picture("", "beef")), Answer::Success));
    assert!(matches!(
        b.run(Some(&token), Request::GetProfile),
        Answer::Profile { username, pfp_enc } if username == "alice" && pfp_enc == "beef"
    ));
    assert!(matches!(b.run(Some(&token), picture("cafe", "beef")), Answer::Success));
    let login = Request::Login { username: "alice".to_string(), auth_key: "key1".to_string() };
    assert!(matches!(
        b.run(None, login),
        Answer::LoggedIn { pfp_enc, .. } if pfp_enc == "cafe"
    ));
    refused_with(
        b.run(Some(&token), picture("zz", "")),
        400,
        "Invalid encrypted payload hex encoding",
    );
    let large = "00".repeat(12_000_001);
    refused_with(b.run(Some(&token), picture(&large, "")), 400, "Profile picture too large");
    assert!(matches!(b.run(Some(&token), picture(" ", "")), Answer::Success));
    assert!(!b.objects.contains_key("users/alice/pfp.enc"));
}

#[test]
fn picture_in_the_record_is_taken_out() {
    let mut b = Bucket::new();
    let token = b.register_and_login("alice", "key1");
    let record = br#"{"pfp":"old","password_hash":"h","n":1}"#.to_vec();
    b.objects.insert("users/alice.json".to_string(), ("".to_string(), record, NOW));
    let save = Request::SaveProfile { pfp_enc: "".to_string(), pfp: "".to_string() };
    assert!(matches!(b.run(Some(&token), save), Answer::Success));
    assert_eq!(b.objects["users/alice.json"].1, br#"{"n":1,"password_hash":"h"}"#);
}

#[test]
fn new_password_counts_and_ends_other_sessions() {
    let mut b = Bucket::new();
    let token = b.register_and_login("alice", "key1");
    let other = b.login("alice", "key1");
    let change = |old: &str, new: &str, shares: &str, pfp: Option<&str>| Request::ChangePassword {
        req: ChangePasswordRequest {
            current_auth_key: old.to_string(),
            new_auth_key: new.to_string(),
            new_shares_enc: shares.to_string(),
            new_pfp_enc: pfp.map(|p| p.to_string()),
        },
    };
    refused_with(
        b.run(Some(&token), change("nope", "key2", "aa", None)),
        401,
        "Incorrect current password",
    );
    assert!(matches!(
        b.run(Some(&token), change("key1", "key2", "aabb", Some("11zz22"))),
        Answer::Success
    ));
    assert_eq!(b.objects["users/alice/shares.enc"].1, vec![0xaa, 0xbb]);
    assert_eq!(b.objects["users/alice/pfp.enc"].1, vec![0x11, 0x22]);
    refused_with(
        b.run(Some(&other), Request::GetProfile),
        401,
        "Invalid or expired session",
    );
    assert!(matches!(b.run(Some(&token), Request::GetProfile), Answer::Profile { .. }));
    let old = Request::Login { username: "alice".to_string(), auth_key: "key1".to_string() };
    refused_with(b.run(None, old), 401, "Invalid username or password");
    b.login("alice", "key2");
    refused_with(
        b.run(Some(&token), change("key2", "key3", "xy", None)),
        400,
        "Invalid encrypted payload hex encoding",
    );
    b.login("alice", "key3");
    assert!(matches!(
        b.run(Some(&token), change("key3", "key3", "", Some(""))),
        Answer::Success
    ));
    assert!(!b.objects.contains_key("users/alice/pfp.enc"));
}

#[test]
fn sessions_are_named_and_revoked() {
    let mut b = Bucket::new();
    let token = b.register_and_login("alice", "key1");
    let other = b.login("alice", "key1");
    let id = other.split('.').nth(2).unwrap().to_string();
    let name = Request::RenameSession { session_id: id.clone(), name: " phone ".to_string() };
    assert!(matches!(b.run(Some(&token), name), Answer::Success));
    match b.run(Some(&token), Request::GetSessions) {
        Answer::Sessions { sessions } => {
            assert_eq!(sessions.len(), 2);
            assert_eq!(sessions[1].session.name, Some("phone".to_string()));
            assert!(!sessions[1].is_current);
        }
        _ => panic!("no sessions"),
    }
    let revoke = Request::RevokeSession { session_id: id };
    assert!(matches!(b.run(Some(&token), revoke), Answer::Success));
    refused_with(b.run(Some(&other), Request::GetShares), 401, "Invalid or expired session");
    let missing = Request::RevokeSession { session_id: "none".to_string() };
    assert!(matches!(b.run(Some(&token), missing), Answer::Success));
    assert_eq!(b.sessions["users/alice/sessions.json"].len(), 1);
}

#[test]
fn removed_account_takes_its_shares_along() {
    let mut b = Bucket::new();
    let alice = b.register_and_login("alice", "key1");
    let bob = b.register_and_login("bob", "key2");
    b.upload(&alice, &[("a.txt", "1")]);
    b.upload(&alice, &[("b.txt", "2")]);
    let kept = b.upload(&bob, &[("c.txt", "3")]);
    assert!(matches!(b.run(Some(&alice), Request::DeleteAccount), Answer::Success));
    assert_eq!(
        b.keys(),
        vec![
            format!("uploads/{}/c.txt", kept),
            format!("uploads/{}/owner.txt", kept),
            "users/bob.json".to_string(),
            "users/bob/public_shares.json".to_string(),
        ]
    );
}

#[test]
fn administrator_sees_and_removes() {
    let mut b = Bucket::new();
    let alice = b.register_and_login("alice", "key1");
    let uuid = b.upload(&alice, &[("a.txt", "hello")]);
    refused_with(b.run(Some("nope"), Request::AdminStats), 403, "Invalid admin token");
    refused_with(b.run(Some(&alice), Request::AdminStats), 403, "Invalid admin token");
    refused_with(b.run(Some(&alice), Request::AdminLogin), 403, "Invalid admin token");
    let admin = match b.run(Some("root"), Request::AdminLogin) {
        Answer::AdminLoggedIn { token } => token,
        _ => panic!("not logged in"),
    };
    for token in ["root", admin.as_str()] {
        match b.run(Some(token), Request::AdminStats) {
            Answer::Stats { users } => {
                assert_eq!(users.len(), 1);
                assert_eq!(users[0].username, "alice");
                assert_eq!(users[0].total_size, 5);
                assert_eq!(users[0].shares.len(), 1);
            }
            _ => panic!("no stats"),
        }
    }
    match b.run(Some(&admin), Request::AdminSessions) {
        Answer::Sessions { sessions } => {
            assert_eq!(sessions.len(), 1);
            assert!(sessions[0].is_current);
            assert_eq!(sessions[0].session.ip, "Unknown");
        }
        _ => panic!("no sessions"),
    }
    let of_alice = Request::AdminUserSessions { username: "alice".to_string() };
    match b.run(Some("root"), of_alice) {
        Answer::Sessions { sessions } => {
            assert_eq!(sessions.len(), 1);
            assert!(!sessions[0].is_current);
        }
        _ => panic!("no sessions"),
    }
    let remove = Request::AdminDeleteShare { uuid: uuid.clone() };
    assert!(matches!(b.run(Some(&admin), remove), Answer::Success));
    assert!(b.list("uploads/").is_empty());
    assert!(index(&b, "alice").is_empty());
    let id = alice.split('.').nth(2).unwrap().to_string();
    let revoke =
        Request::AdminRevokeUserSession { username: "alice".to_string(), session_id: id };
    assert!(matches!(b.run(Some(&admin), revoke), Answer::Success));
    refused_with(b.run(Some(&alice), Request::GetShares), 401, "Invalid or expired session");
    let blank = Request::AdminDeleteUser { username: " ".to_string() };
    refused_with(b.run(Some(&admin), blank), 400, "Username is empty");
    let remove = Request::AdminDeleteUser { username: " alice ".to_string() };
    assert!(matches!(b.run(Some(&admin), remove), Answer::Success));
    assert!(b.list("users/").is_empty());
    let id = admin.split('.').nth(2).unwrap().to_string();
    let name = Request::AdminRenameSession { session_id: id.clone(), name: "desk".to_string() };
    assert!(matches!(b.run(Some(&admin), name), Answer::Success));
    assert_eq!(b.sessions["admin/sessions.json"][0].name, Some("desk".to_string()));
    let revoke = Request::AdminRevokeSession { session_id: id };
    assert!(matches!(b.run(Some("root"), revoke), Answer::Success));
    refused_with(b.run(Some(&admin), Request::AdminStats), 403, "Invalid admin token");
}

#[test]
fn share_without_an_owner_is_taken_out_of_all_indices() {
    let mut b = Bucket::new();
    let alice = b.register_and_login("alice", "key1");
    let uuid = b.upload(&alice, &[("a.txt", "hello")]);
    b.objects.remove(&format!("uploads/{}/owner.txt", uuid));
    let remove = Request::AdminDeleteShare { uuid };
    assert!(matches!(b.run(Some("root"), remove), Answer::Success));
    assert!(index(&b, "alice").is_empty());
}

#[test]
fn sweep_removes_what_is_expired() {
    let mut b = Bucket::new();
    let alice = b.register_and_login("alice", "key1");
    let old = b.upload(&alice, &[("a.txt", "1")]);
    b.objects.insert("uploads/p/f".to_string(), ("".to_string(), vec![], NOW));
    b.uploads.insert("u1".to_string(), ("uploads/p/g".to_string(), BTreeMap::new(), NOW));
    b.now = NOW + 86400;
    assert!(matches!(b.sweep(), Answer::Success));
    assert!(b.objects.contains_key("uploads/p/f"));
    assert!(b.uploads.contains_key("u1"));
    b.now = NOW + 86401;
    assert!(matches!(b.sweep(), Answer::Success));
    assert!(!b.objects.contains_key("uploads/p/f"));
    assert!(!b.uploads.contains_key("u1"));
    b.now = NOW + 90 * 86400;
    let young = b.upload(&alice, &[("b.txt", "2")]);
    assert!(matches!(b.sweep(), Answer::Success));
    assert!(b.objects.contains_key(&format!("uploads/{}/a.txt", old)));
    b.now = NOW + 90 * 86400 + 1;
    assert!(matches!(b.sweep(), Answer::Success));
    assert!(!b.objects.contains_key(&format!("uploads/{}/a.txt", old)));
    assert!(b.objects.contains_key(&format!("uploads/{}/b.txt", young)));
    let entries = index(&b, "alice");
    assert_eq!(entries.len(), 1);
    assert_eq!(entries[0]["uuid"], young.as_str());
}

#[test]
fn many_objects_are_removed_by_batches() {
    let mut b = Bucket::new();
    let alice = b.register_and_login("alice", "key1");
    let names: Vec<String> = (0..2500).map(|n| format!("f{}", n)).collect();
    let files: Vec<(&str, &str)> = names.iter().map(|n| (n.as_str(), "x")).collect();
    let uuid = b.upload(&alice, &files);
    assert_eq!(b.list("uploads/").len(), 2501);
    assert!(matches!(
        b.run(Some(&alice), Request::DeleteShare { uuid }),
        Answer::Status { .. }
    ));
    assert!(b.list("uploads/").is_empty());
}

#[test]
fn looking_leaves_the_bucket_as_it_is() {
    let mut b = Bucket::new();
    let alice = b.register_and_login("alice", "key1");
    let uuid = b.upload(&alice, &[("a.txt", "hello")]);
    let before = b.objects.clone();
    b.run(None, Request::GetShare { uuid: uuid.clone() });
    b.run(None, Request::Download { uuid, filename: "a.txt".to_string() });
    b.run(Some(&alice), Request::GetShares);
    b.run(Some(&alice), Request::GetProfile);
    b.run(Some(&alice), Request::GetSessions);
    b.run(Some("root"), Request::AdminStats);
    b.run(Some("root"), Request::AdminUserSessions { username: "alice".to_string() });
    b.run(Some("root"), Request::AdminSessions);
    assert!(b.objects == before);
    assert_eq!(b.sessions.len(), 1);
}

#[test]
fn users_with_similar_names_keep_apart() {
    let mut b = Bucket::new();
    let ann = b.register_and_login("ann", "key1");
    let anna = b.register_and_login("anna", "key2");
    let save = |s: &str| Request::SaveShares { shares_enc: s.to_string() };
    b.run(Some(&ann), save("01"));
    b.run(Some(&anna), save("02"));
    assert!(matches!(b.run(Some(&ann), Request::DeleteAccount), Answer::Success));
    assert!(matches!(
        b.run(Some(&anna), Request::GetShares),
        Answer::SharesText { shares_enc } if shares_enc == "02"
    ));
}
