//! Accounts: registering, and logging in.

use vstd::prelude::*;
use vstd::utf8::encode_utf8;
use crate::crypto::{hash_auth_key, stored_hash};
use crate::deletion::{is_settled, settled};
use crate::gate::{header_or, header_text, sessions_heard, sessions_of, Header, Headers, Site};
use crate::hex::{hex_encode, hex_text};
use crate::json::{
    json_insert, json_object, json_parse, json_parsed, json_print, json_printed, json_text,
    json_text_member, json_tree, reads_back, text_member, JsonTree,
};
use crate::keys::{make_user_key, make_user_object, user_key, user_object};
use crate::model::views;
use crate::protocol::{
    ask_get, ask_put_json, readable, readable_flow, refuse, refuse_with, refused, Action,
    ActionView, Answer, AnswerView, Flow, FlowView, Next, NextView, ObjectReply, Reply,
    SessionsReply,
};
use crate::session::{SessionView, UserSession};
use crate::text::{ascii_letter_or_digit, characters, letter_or_number, same, trim, trimmed};
use crate::token::{generate_token, token_text, TokenView};

verus! {

// ---------------------------------------------------------------------------
// Names and records of users
// ---------------------------------------------------------------------------

/// Whether a name is neither too short nor too long: 3 to 30 bytes of UTF-8.
pub open spec fn name_length_fits(name: Seq<char>) -> bool {
    3 <= encode_utf8(name).len() <= 30
}

/// Whether a name consists of letters, numbers, dashes and underscores.
pub open spec fn name_chars_fit(name: Seq<char>) -> bool {
    forall|i: int|
        0 <= i < name.len() ==> (letter_or_number(#[trigger] name[i]) || name[i] == '-' || name[i]
            == '_')
}

/// Whether a name has no ASCII character but letters, digits, dashes and underscores.
pub open spec fn name_is_plain(name: Seq<char>) -> bool {
    forall|i: int|
        0 <= i < name.len() && #[trigger] name[i] <= '\u{7f}' ==> (ascii_letter_or_digit(name[i])
            || name[i] == '-' || name[i] == '_')
}

/// Whether a name is neither too short nor too long.
fn check_name_length(name: &str) -> (r: bool)
    ensures
        r == name_length_fits(name@),
{
    let bytes = name.as_bytes_vec();
    3 <= bytes.len() && bytes.len() <= 30
}

/// Whether a name consists of letters, numbers, dashes and underscores.
fn check_name_chars(name: &str) -> (r: bool)
    ensures
        r == name_chars_fit(name@),
        r ==> name_is_plain(name@),
{
    let chars = characters(name);
    let mut i: usize = 0;
    while i < chars.len()
        invariant
            i <= chars@.len(),
            chars@ == name@,
            forall|j: int|
                0 <= j < i ==> (letter_or_number(#[trigger] name@[j]) || name@[j] == '-' || name@[j]
                    == '_'),
            forall|j: int|
                0 <= j < i && #[trigger] name@[j] <= '\u{7f}' ==> (ascii_letter_or_digit(name@[j])
                    || name@[j] == '-' || name@[j] == '_'),
        decreases chars@.len() - i,
    {
        let c = chars[i];
        if !(c.is_alphanumeric() || c == '-' || c == '_') {
            proof {
                assert(name@[i as int] == c);
            }
            return false;
        }
        i = i + 1;
    }
    true
}

/// The record of a new user.
pub open spec fn user_record(password_hash: Seq<char>) -> JsonTree {
    JsonTree::Object(
        Map::<Seq<char>, JsonTree>::empty().insert(
            "password_hash"@,
            JsonTree::Text(password_hash),
        ),
    )
}

/// The bytes of the record of a new user.
fn make_user_record(auth_key: &str) -> (r: Vec<u8>)
    ensures
        r@ == json_printed(user_record(stored_hash(auth_key@))),
        reads_back(r@),
{
    let mut record = json_object();
    json_insert(&mut record, "password_hash", json_text(hash_auth_key(auth_key)));
    json_print(&record)
}

/// The record of a user that was asked for, or why there is none.
pub open spec fn user_heard(reply: Reply, status: int, absent: Seq<char>) -> Result<
    JsonTree,
    NextView,
> {
    match reply {
        Reply::Object(ObjectReply::Absent) => Err(refused(status, absent)),
        Reply::Object(ObjectReply::BodyFailed(e)) => Err(refused(500, e.display@)),
        Reply::Object(ObjectReply::Bytes(b)) => match json_parsed(b@) {
            Ok(t) => Ok(t),
            Err(message) => Err(refused(500, message)),
        },
        _ => Err(NextView::Misheard),
    }
}

/// The record of a user that was asked for, or why there is none.
pub fn read_user(reply: &Reply, status: u16, absent: &str) -> (r: Result<serde_json::Value, Next>)
    ensures
        match r {
            Ok(v) => user_heard(*reply, status as int, absent@) == Ok::<JsonTree, NextView>(
                json_tree(v),
            ),
            Err(n) => user_heard(*reply, status as int, absent@) == Err::<JsonTree, NextView>(n@)
                && readable(n@),
        },
{
    match reply {
        Reply::Object(ObjectReply::Absent) => Err(refuse(status, absent)),
        Reply::Object(ObjectReply::BodyFailed(e)) => Err(refuse(500, e.display.as_str())),
        Reply::Object(ObjectReply::Bytes(b)) => match json_parse(b.as_slice()) {
            Ok(v) => Ok(v),
            Err(message) => Err(refuse(500, message.as_str())),
        },
        _ => Err(Next::Misheard),
    }
}

/// Whether a record and an authentication key belong together, or why not.
pub open spec fn password_check(
    record: JsonTree,
    auth_key: Seq<char>,
    wrong: Seq<char>,
) -> Option<NextView> {
    match text_member(record, "password_hash"@) {
        None => Some(refused(500, "Invalid user profile data in S3"@)),
        Some(hash) => if hash == stored_hash(auth_key) {
            None
        } else {
            Some(refused(401, wrong))
        },
    }
}

/// Whether a record and an authentication key belong together, or why not.
pub fn check_password(record: &serde_json::Value, auth_key: &str, wrong: &str) -> (r: Option<Next>)
    ensures
        match r {
            Some(n) => password_check(json_tree(*record), auth_key@, wrong@) == Some(n@)
                && readable(n@),
            None => password_check(json_tree(*record), auth_key@, wrong@) is None,
        },
{
    match json_text_member(record, "password_hash") {
        None => Some(refuse(500, "Invalid user profile data in S3")),
        Some(hash) => {
            let computed = hash_auth_key(auth_key);
            if same(hash.as_str(), computed.as_str()) {
                None
            } else {
                Some(refuse(401, wrong))
            }
        },
    }
}

// ---------------------------------------------------------------------------
// Registering
// ---------------------------------------------------------------------------

/// Makes an account, where the name fits and is free. The key itself is not stored.
pub open spec fn register_user_next(
    username: Seq<char>,
    auth_key: Seq<char>,
    heard: Seq<Reply>,
) -> NextView {
    let name = trimmed(username);
    if !name_length_fits(name) {
        refused(400, "Username must be between 3 and 30 characters"@)
    } else if !name_chars_fit(name) {
        refused(400, "Username can only contain letters, numbers, dashes, and underscores"@)
    } else if heard.len() == 0 {
        NextView::Perform(ActionView::Head { key: user_key(name) })
    } else {
        match heard[0] {
            Reply::Exists(true) => refused(400, "Username is already taken"@),
            Reply::Exists(false) => if heard.len() <= 1 {
                NextView::Perform(
                    ActionView::Put {
                        key: user_key(name),
                        content_type: "application/json"@,
                        body: json_printed(user_record(stored_hash(auth_key))),
                    },
                )
            } else {
                match heard[1] {
                    Reply::Done => NextView::Done(AnswerView::Success),
                    Reply::Failed(e) => refused(500, "Failed to save user: "@ + e.debug@),
                    _ => NextView::Misheard,
                }
            },
            _ => NextView::Misheard,
        }
    }
}

/// Makes an account.
pub fn register_user(username: &str, auth_key: &str, heard: &Vec<Reply>) -> (r: Next)
    ensures
        r@ == register_user_next(username@, auth_key@, heard@),
        r@ is Perform ==> name_is_plain(trimmed(username@)),
        readable(r@),
{
    let name = trim(username);
    if !check_name_length(name.as_str()) {
        return refuse(400, "Username must be between 3 and 30 characters");
    }
    if !check_name_chars(name.as_str()) {
        return refuse(
            400,
            "Username can only contain letters, numbers, dashes, and underscores",
        );
    }
    let key = make_user_key(name.as_str());
    if heard.len() == 0 {
        return Next::Perform(Action::Head { key });
    }
    match &heard[0] {
        Reply::Exists(true) => {
            return refuse(400, "Username is already taken");
        },
        Reply::Exists(false) => {},
        _ => {
            return Next::Misheard;
        },
    }
    if heard.len() <= 1 {
        return ask_put_json(key, make_user_record(auth_key));
    }
    match &heard[1] {
        Reply::Done => Next::Done(Answer::Success),
        Reply::Failed(e) => refuse_with(500, "Failed to save user: ", e.debug.as_str()),
        _ => Next::Misheard,
    }
}

// ---------------------------------------------------------------------------
// Profile pictures
// ---------------------------------------------------------------------------

/// The encrypted profile picture of a user in hexadecimal; nothing where it cannot be had.
pub open spec fn profile_picture(username: Seq<char>, heard: Seq<Reply>, at: int) -> FlowView<
    Seq<char>,
> {
    if at >= heard.len() {
        FlowView::Stop(
            NextView::Perform(ActionView::Get { key: user_object(username, "pfp.enc"@) }),
        )
    } else {
        match heard[at] {
            Reply::Object(ObjectReply::Bytes(b)) => FlowView::Go(hex_text(b@), at + 1),
            Reply::Object(_) => FlowView::Go(Seq::empty(), at + 1),
            _ => FlowView::Stop(NextView::Misheard),
        }
    }
}

/// The encrypted profile picture of a user in hexadecimal.
pub fn fetch_user_pfp_enc(username: &str, heard: &Vec<Reply>, at: usize) -> (r: Flow<String>)
    requires
        at <= heard@.len(),
    ensures
        r@ == profile_picture(username@, heard@, at as int),
        r matches Flow::Go(_, a) ==> at < a <= heard@.len(),
        readable_flow(r@),
{
    if at >= heard.len() {
        return Flow::Stop(ask_get(make_user_object(username, "pfp.enc")));
    }
    match &heard[at] {
        Reply::Object(ObjectReply::Bytes(b)) => Flow::Go(hex_encode(b.as_slice()), at + 1),
        Reply::Object(_) => Flow::Go(String::new(), at + 1),
        _ => Flow::Stop(Next::Misheard),
    }
}

// ---------------------------------------------------------------------------
// Logging in
// ---------------------------------------------------------------------------

/// Whether a reply says how storing sessions ended.
pub open spec fn sessions_settled(r: Reply) -> bool {
    settled(r) || r is NotEncoded
}

/// Whether a reply says how storing sessions ended.
pub fn are_sessions_settled(r: &Reply) -> (b: bool)
    ensures
        b == sessions_settled(*r),
{
    match r {
        Reply::NotEncoded(_) => true,
        _ => is_settled(r),
    }
}

/// A new session, which does not expire.
pub open spec fn new_session(
    id: Seq<char>,
    created_at: int,
    user_agent: Seq<char>,
    ip: Seq<char>,
) -> SessionView {
    SessionView { id, created_at, user_agent, ip, expires_at: 0, name: None }
}

/// The address that a request comes from, as far as its headers say.
pub open spec fn client_address(headers: Headers) -> Seq<char> {
    match headers.forwarded_for {
        Header::Text(s) => s@,
        _ => header_text(headers.real_ip, "Unknown"@),
    }
}

/// The address that a request comes from, as far as its headers say.
fn read_client_address(headers: &Headers) -> (r: String)
    ensures
        r@ == client_address(*headers),
{
    match &headers.forwarded_for {
        Header::Text(s) => s.clone(),
        _ => header_or(&headers.real_ip, "Unknown"),
    }
}

/// The list of sessions that were heard of, and a new one.
pub fn sessions_with(
    reply: &SessionsReply,
    id: &str,
    created_at: i64,
    user_agent: String,
    ip: String,
) -> (r: Vec<UserSession>)
    ensures
        views(r@) == sessions_heard(*reply).push(
            new_session(id@, created_at as int, user_agent@, ip@),
        ),
{
    let mut r = sessions_of(reply);
    let ghost before = r@;
    r.push(
        UserSession {
            id: id.to_owned(),
            created_at,
            user_agent,
            ip,
            expires_at: 0,
            name: None,
        },
    );
    proof {
        assert(views(r@) =~= views(before).push(
            new_session(id@, created_at as int, user_agent@, ip@),
        ));
    }
    r
}

/// What follows a password that was accepted: a session with a new id is listed, whatever comes of
/// it, and its token goes to the client.
pub open spec fn begin_session(
    site: Site,
    headers: Headers,
    name: Seq<char>,
    heard: Seq<Reply>,
) -> NextView {
    if heard.len() <= 1 {
        NextView::Perform(ActionView::FreshId)
    } else {
        match heard[1] {
            Reply::Id(id) => if heard.len() <= 2 {
                NextView::Perform(ActionView::Clock)
            } else {
                match heard[2] {
                    Reply::Time(now) => if heard.len() <= 3 {
                        NextView::Perform(
                            ActionView::GetSessions { key: user_object(name, "sessions.json"@) },
                        )
                    } else {
                        match heard[3] {
                            Reply::Sessions(reply) => if heard.len() <= 4 {
                                NextView::Perform(
                                    ActionView::PutSessions {
                                        key: user_object(name, "sessions.json"@),
                                        sessions: sessions_heard(reply).push(
                                            new_session(
                                                id@,
                                                now.secs as int,
                                                header_text(headers.user_agent, "Unknown"@),
                                                client_address(headers),
                                            ),
                                        ),
                                    },
                                )
                            } else if !sessions_settled(heard[4]) {
                                NextView::Misheard
                            } else {
                                match profile_picture(name, heard, 5) {
                                    FlowView::Stop(n) => n,
                                    FlowView::Go(pfp_enc, _) => NextView::Done(
                                        AnswerView::LoggedIn {
                                            token: token_text(
                                                TokenView {
                                                    username: name,
                                                    expiry: 0,
                                                    session_id: id@,
                                                },
                                                site.jwt_secret@,
                                            ),
                                            pfp_enc,
                                        },
                                    ),
                                }
                            },
                            _ => NextView::Misheard,
                        }
                    },
                    _ => NextView::Misheard,
                }
            },
            _ => NextView::Misheard,
        }
    }
}

/// Logs a user in.
pub open spec fn login_user_next(
    site: Site,
    headers: Headers,
    username: Seq<char>,
    auth_key: Seq<char>,
    heard: Seq<Reply>,
) -> NextView {
    let name = trimmed(username);
    if heard.len() == 0 {
        NextView::Perform(ActionView::Get { key: user_key(name) })
    } else {
        match user_heard(heard[0], 401, "Invalid username or password"@) {
            Err(n) => n,
            Ok(record) => match password_check(record, auth_key, "Invalid username or password"@) {
                Some(n) => n,
                None => begin_session(site, headers, name, heard),
            },
        }
    }
}

/// What follows a password that was accepted.
fn do_begin_session(site: &Site, headers: &Headers, name: &str, heard: &Vec<Reply>) -> (r: Next)
    ensures
        r@ == begin_session(*site, *headers, name@, heard@),
        readable(r@),
{
    if heard.len() <= 1 {
        return Next::Perform(Action::FreshId);
    }
    let id = match &heard[1] {
        Reply::Id(id) => id,
        _ => {
            return Next::Misheard;
        },
    };
    if heard.len() <= 2 {
        return Next::Perform(Action::Clock);
    }
    let now = match &heard[2] {
        Reply::Time(now) => *now,
        _ => {
            return Next::Misheard;
        },
    };
    let key = make_user_object(name, "sessions.json");
    if heard.len() <= 3 {
        return Next::Perform(Action::GetSessions { key });
    }
    let reply = match &heard[3] {
        Reply::Sessions(reply) => reply,
        _ => {
            return Next::Misheard;
        },
    };
    if heard.len() <= 4 {
        let sessions = sessions_with(
            reply,
            id.as_str(),
            now.secs,
            header_or(&headers.user_agent, "Unknown"),
            read_client_address(headers),
        );
        return Next::Perform(Action::PutSessions { key, sessions });
    }
    if !are_sessions_settled(&heard[4]) {
        return Next::Misheard;
    }
    match fetch_user_pfp_enc(name, heard, 5) {
        Flow::Stop(n) => n,
        Flow::Go(pfp_enc, _) => Next::Done(
            Answer::LoggedIn {
                token: generate_token(name, site.jwt_secret.as_slice(), 0, id.as_str()),
                pfp_enc,
            },
        ),
    }
}

/// Logs a user in.
pub fn login_user(
    site: &Site,
    headers: &Headers,
    username: &str,
    auth_key: &str,
    heard: &Vec<Reply>,
) -> (r: Next)
    ensures
        r@ == login_user_next(*site, *headers, username@, auth_key@, heard@),
        readable(r@),
{
    let name = trim(username);
    if heard.len() == 0 {
        return ask_get(make_user_key(name.as_str()));
    }
    let record = match read_user(&heard[0], 401, "Invalid username or password") {
        Ok(record) => record,
        Err(n) => {
            return n;
        },
    };
    match check_password(&record, auth_key, "Invalid username or password") {
        Some(n) => n,
        None => do_begin_session(site, headers, name.as_str(), heard),
    }
}

} // verus!
