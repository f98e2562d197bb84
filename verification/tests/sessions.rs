use s3_share::session::{
    keep_session, name_for_session, remove_session, rename_session, session_exists, UserSession,
};

fn session(id: &str, name: Option<&str>) -> UserSession {
    UserSession {
        id: id.to_string(),
        created_at: 5,
        user_agent: "agent".to_string(),
        ip: "1.2.3.4".to_string(),
        expires_at: 0,
        name: name.map(|n| n.to_string()),
    }
}

fn ids(v: &Vec<UserSession>) -> Vec<&str> {
    v.iter().map(|s| s.id.as_str()).collect()
}

#[test]
fn revoked_session_leaves_the_others() {
    let v = vec![session("a", None), session("b", None), session("a", Some("x"))];
    assert_eq!(ids(&remove_session(&v, "a")), vec!["b"]);
    assert_eq!(ids(&remove_session(&v, "c")), vec!["a", "b", "a"]);
    assert!(session_exists(&v, "b"));
    assert!(!session_exists(&remove_session(&v, "b"), "b"));
}

#[test]
fn only_the_kept_session_stays() {
    let v = vec![session("a", None), session("b", None), session("c", None)];
    assert_eq!(ids(&keep_session(&v, "b")), vec!["b"]);
    assert_eq!(ids(&keep_session(&v, "x")), Vec::<&str>::new());
}

#[test]
fn first_session_with_the_id_is_renamed() {
    let v = vec![session("a", None), session("b", None), session("b", None)];
    let name = Some("laptop".to_string());
    let r = rename_session(&v, "b", &name).unwrap();
    assert_eq!(r[0].name, None);
    assert_eq!(r[1].name, name);
    assert_eq!(r[2].name, None);
    assert_eq!(ids(&r), vec!["a", "b", "b"]);
    assert_eq!(r[1].ip, "1.2.3.4");
    assert!(rename_session(&v, "x", &name).is_none());
}

#[test]
fn session_names_are_cut_to_size() {
    assert_eq!(name_for_session("  my phone "), Some("my phone".to_string()));
    assert_eq!(name_for_session(" \t "), None);
    assert_eq!(name_for_session(""), None);
    let long = "ä".repeat(40);
    assert_eq!(name_for_session(&long), Some("ä".repeat(32)));
    let spaced = format!("{} x", "a".repeat(31));
    assert_eq!(name_for_session(&spaced), Some(format!("{} ", "a".repeat(31))));
}
