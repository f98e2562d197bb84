use s3_share::assets::find_asset;
use s3_share::clock::utc_now;
use s3_share::protocol::{Action, Answer, Next, ObjectReply, Reply, ServiceError};
use s3_share::setup::{choose_port, load_secret};

fn some(s: &str) -> Option<String> {
    Some(s.to_string())
}

fn secret(n: Next) -> Vec<u8> {
    match n {
        Next::Done(Answer::Secret { secret }) => secret,
        _ => panic!("no secret"),
    }
}

#[test]
fn port_is_read_or_the_usual_one() {
    assert_eq!(choose_port(&some("80")), 80);
    assert_eq!(choose_port(&some("65535")), 65535);
    assert_eq!(choose_port(&some("65536")), 8000);
    assert_eq!(choose_port(&some(" 80")), 8000);
    assert_eq!(choose_port(&some("")), 8000);
    assert_eq!(choose_port(&None), 8000);
}

#[test]
fn given_secret_is_used() {
    assert_eq!(secret(load_secret(&some("täst"), &vec![])), "täst".as_bytes());
}

#[test]
fn stored_secret_is_used() {
    assert!(matches!(
        load_secret(&None, &vec![]),
        Next::Perform(Action::Get { key }) if key == "config/jwt_secret.bin"
    ));
    let heard = vec![Reply::Object(ObjectReply::Bytes(vec![1, 2, 3]))];
    assert_eq!(secret(load_secret(&None, &heard)), vec![1, 2, 3]);
}

#[test]
fn missing_secret_is_made_and_stored() {
    let broken = ServiceError { display: "d".to_string(), debug: "e".to_string() };
    for first in [ObjectReply::Absent, ObjectReply::BodyFailed(broken)] {
        let mut heard = vec![Reply::Object(first)];
        assert!(matches!(load_secret(&None, &heard), Next::Perform(Action::FreshSecret)));
        heard.push(Reply::Secret(vec![7; 32]));
        assert!(matches!(
            load_secret(&None, &heard),
            Next::Perform(Action::Put { key, content_type, body })
                if key == "config/jwt_secret.bin"
                    && content_type == "application/octet-stream"
                    && body == vec![7; 32]
        ));
        let e = ServiceError { display: "d".to_string(), debug: "e".to_string() };
        heard.push(Reply::Failed(e));
        assert_eq!(secret(load_secret(&None, &heard)), vec![7; 32]);
    }
}

#[test]
fn reply_of_another_kind_ends_the_start() {
    assert!(matches!(load_secret(&None, &vec![Reply::Done]), Next::Misheard));
}

#[test]
fn files_of_the_frontend() {
    let page = find_asset("/shares");
    assert_eq!(page.file, "index.html");
    assert_eq!(page.content_type, "text/html; charset=utf-8");
    assert_eq!(page.cache_control, None);
    let worker = find_asset("/sw.js");
    assert_eq!(worker.file, "sw.js");
    assert_eq!(worker.cache_control, some("no-cache"));
    assert_eq!(worker.worker_scope, some("/"));
    let style = find_asset("/assets/fonts-inline.css");
    assert_eq!(style.file, "vendor/fonts_inline.css");
    assert_eq!(style.content_type, "text/css; charset=utf-8");
    assert_eq!(style.cache_control, some("public, max-age=31536000, immutable"));
    assert_eq!(find_asset("/assets/jszip.js").file, "vendor/jszip.min.js");
    assert_eq!(find_asset("/assets/fflate.js").file, "vendor/fflate.umd.js");
    assert_eq!(find_asset("/assets/marked.js").file, "vendor/marked.min.js");
    assert_eq!(find_asset("/assets/streamsaver.js").file, "vendor/streamsaver.min.js");
    assert_eq!(find_asset("/assets/streamsaver-sw.js").file, "vendor/streamsaver_sw.js");
    assert_eq!(find_asset("/assets/streamsaver-mitm.html").file, "vendor/mitm.html");
}

#[test]
fn clock_shows_the_present() {
    let t = utc_now();
    assert!(t.secs > 1_600_000_000);
    assert!(t.nanos < 1_000_000_000);
}
