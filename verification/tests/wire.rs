use s3_share::protocol::{Answer, SessionEntry, UserStats};
use s3_share::session::UserSession;
use s3_share::wire::{answer_document, answer_headers, answer_status, answer_text};

fn document(a: Answer) -> String {
    serde_json::to_string(&answer_document(a).unwrap()).unwrap()
}

fn s(text: &str) -> String {
    text.to_string()
}

#[test]
fn statuses_of_answers() {
    assert_eq!(answer_status(&Answer::Refused { status: 418, message: s("x") }), 418);
    assert_eq!(answer_status(&Answer::Success), 200);
    assert_eq!(answer_status(&Answer::FileMissing), 404);
    assert_eq!(answer_status(&Answer::ShareBegun { uuid: s("u") }), 200);
    let file = Answer::File {
        status: 206,
        content_type: s("t"),
        content_length: None,
        content_range: None,
        content_disposition: s("d"),
    };
    assert_eq!(answer_status(&file), 206);
    assert!(answer_document(file).is_none());
}

#[test]
fn texts_of_answers() {
    assert_eq!(answer_text(&Answer::FileMissing), Some(s("File not found")));
    assert_eq!(answer_text(&Answer::Refused { status: 400, message: s("no") }), Some(s("no")));
    assert_eq!(answer_text(&Answer::Success), None);
}

#[test]
fn headers_of_files() {
    let lines = |length: Option<i64>, range: Option<String>| -> Vec<(String, String)> {
        let file = Answer::File {
            status: 200,
            content_type: s("text/css"),
            content_length: length,
            content_range: range,
            content_disposition: s("inline"),
        };
        answer_headers(&file).into_iter().map(|l| (l.name, l.value)).collect()
    };
    assert_eq!(
        lines(Some(12), Some(s("bytes 0-11/40"))),
        vec![
            (s("content-type"), s("text/css")),
            (s("content-length"), s("12")),
            (s("content-range"), s("bytes 0-11/40")),
            (s("accept-ranges"), s("bytes")),
            (s("content-disposition"), s("inline")),
        ]
    );
    assert_eq!(
        lines(None, None),
        vec![
            (s("content-type"), s("text/css")),
            (s("accept-ranges"), s("bytes")),
            (s("content-disposition"), s("inline")),
        ]
    );
    assert!(answer_headers(&Answer::FileMissing).is_empty());
}

#[test]
fn documents_of_uploads() {
    assert_eq!(document(Answer::Status { status: s("ok") }), r#"{"status":"ok"}"#);
    assert_eq!(
        document(Answer::ShareUploaded { uuid: s("u"), files: vec![s("a"), s("b\"")] }),
        r#"{"files":["a","b\""],"uuid":"u"}"#
    );
    assert_eq!(document(Answer::ShareBegun { uuid: s("u") }), r#"{"uuid":"u"}"#);
    assert_eq!(
        document(Answer::FilesStored { files: vec![] }),
        r#"{"status":"ok","uploaded":[]}"#
    );
    assert_eq!(document(Answer::UploadBegun { upload_id: s("i") }), r#"{"upload_id":"i"}"#);
    assert_eq!(
        document(Answer::PartStored { part_number: -3, e_tag: s("t") }),
        r#"{"e_tag":"t","part_number":-3}"#
    );
}

#[test]
fn documents_of_users() {
    assert_eq!(document(Answer::SharesText { shares_enc: s("ff") }), r#"{"shares_enc":"ff"}"#);
    assert_eq!(
        document(Answer::LoggedIn { token: s("t"), pfp_enc: s("p") }),
        r#"{"pfp":"p","pfp_enc":"p","token":"t"}"#
    );
    assert_eq!(document(Answer::AdminLoggedIn { token: s("t") }), r#"{"token":"t"}"#);
    assert_eq!(
        document(Answer::Profile { username: s("u"), pfp_enc: s("") }),
        r#"{"pfp":"","pfp_enc":"","username":"u"}"#
    );
    let entry = |name: Option<String>, is_current: bool| SessionEntry {
        session: UserSession {
            id: s("i"),
            created_at: 5,
            user_agent: s("a"),
            ip: s("p"),
            expires_at: 0,
            name,
        },
        is_current,
    };
    assert_eq!(
        document(Answer::Sessions { sessions: vec![entry(None, true), entry(Some(s("n")), false)] }),
        concat_lines(&[
            r#"[{"created_at":5,"expires_at":0,"id":"i","ip":"p","is_current":true,"name":null,"user_agent":"a"},"#,
            r#"{"created_at":5,"expires_at":0,"id":"i","ip":"p","is_current":false,"name":"n","user_agent":"a"}]"#,
        ])
    );
    let users = vec![UserStats {
        username: s("u"),
        total_size: 9,
        shares: vec![serde_json::Value::from(1.5), serde_json::Value::Null],
    }];
    assert_eq!(
        document(Answer::Stats { users }),
        r#"[{"shares":[1.5,null],"total_size":9,"username":"u"}]"#
    );
}

fn concat_lines(lines: &[&str]) -> String {
    lines.concat()
}
