//! What a user keeps: encrypted shares, a profile picture, a password, the account itself.

use vstd::prelude::*;
use crate::account::{
    are_sessions_settled, check_password, fetch_user_pfp_enc, password_check, profile_picture,
    read_user, sessions_settled, user_heard,
};
use crate::crypto::{hash_auth_key, stored_hash};
use crate::deletion::{delete_s3_prefix, delete_share_objects, is_settled, prefix_deletion, settled};
use crate::gate::{
    caller, sessions_heard, sessions_of, verify_session, Caller, CallerView, Headers, Site,
};
use crate::hex::{
    hex_decode, hex_decode_lossy, hex_encode, hex_read, hex_read_lossy, hex_text, HexRead, HexView,
};
use crate::json::{
    json_insert, json_parse, json_parsed, json_print, json_printed, json_remove, json_text,
    json_tree, member, reads_back, with_member, without_member, JsonTree,
};
use crate::keys::{
    make_user_key, make_user_object, make_user_prefix, share_prefix, user_key, user_object,
    user_prefix,
};
use crate::model::{opt_view, views};
use crate::protocol::{
    ask_get, ask_put_bytes, ask_put_json, readable, readable_flow, refuse, refuse_with, refused,
    Action, ActionView, Answer, AnswerView, Flow, FlowView, Next, NextView, ObjectReply, Reply,
};
use crate::session::{keep_session, only_session};
use crate::shares::{ids_of, index_key, listed_shares, make_index_key, read_shares, share_ids};
use crate::text::{trim, trimmed};

verus! {

// ---------------------------------------------------------------------------
// The encrypted list of shares
// ---------------------------------------------------------------------------

/// The caller's encrypted list of shares in hexadecimal; empty where there is none.
pub open spec fn get_user_shares_next(site: Site, headers: Headers, heard: Seq<Reply>) -> NextView {
    match caller(site, headers, heard) {
        FlowView::Stop(n) => n,
        FlowView::Go(c, _) => if heard.len() <= 1 {
            NextView::Perform(ActionView::Get { key: user_object(c.username, "shares.enc"@) })
        } else {
            match heard[1] {
                Reply::Object(ObjectReply::Absent) => NextView::Done(
                    AnswerView::SharesText { shares_enc: Seq::empty() },
                ),
                Reply::Object(ObjectReply::BodyFailed(e)) => refused(500, e.display@),
                Reply::Object(ObjectReply::Bytes(b)) => NextView::Done(
                    AnswerView::SharesText { shares_enc: hex_text(b@) },
                ),
                _ => NextView::Misheard,
            }
        },
    }
}

/// The caller's encrypted list of shares.
pub fn get_user_shares(site: &Site, headers: &Headers, heard: &Vec<Reply>) -> (r: Next)
    ensures
        r@ == get_user_shares_next(*site, *headers, heard@),
        readable(r@),
{
    let c = match verify_session(site, headers, heard) {
        Flow::Stop(n) => {
            return n;
        },
        Flow::Go(c, _) => c,
    };
    if heard.len() <= 1 {
        return ask_get(make_user_object(c.username.as_str(), "shares.enc"));
    }
    match &heard[1] {
        Reply::Object(ObjectReply::Absent) => Next::Done(
            Answer::SharesText { shares_enc: String::new() },
        ),
        Reply::Object(ObjectReply::BodyFailed(e)) => refuse(500, e.display.as_str()),
        Reply::Object(ObjectReply::Bytes(b)) => Next::Done(
            Answer::SharesText { shares_enc: hex_encode(b.as_slice()) },
        ),
        _ => Next::Misheard,
    }
}

/// The bytes that a payload stands for, or why it stands for none.
pub open spec fn payload_bytes(payload: Seq<char>) -> Result<Seq<u8>, NextView> {
    match hex_read(trimmed(payload)) {
        HexView::Bytes(b) => Ok(b),
        HexView::BadDigit => Err(refused(400, "Invalid encrypted payload hex encoding"@)),
        HexView::Cut => Err(NextView::Crash),
    }
}

/// The bytes that a payload stands for, or why it stands for none.
fn read_payload(payload: &str) -> (r: Result<Vec<u8>, Next>)
    ensures
        match r {
            Ok(b) => payload_bytes(payload@) == Ok::<Seq<u8>, NextView>(b@),
            Err(n) => payload_bytes(payload@) == Err::<Seq<u8>, NextView>(n@) && readable(n@),
        },
{
    match hex_decode(trim(payload).as_str()) {
        HexRead::Bytes(b) => Ok(b),
        HexRead::BadDigit => Err(refuse(400, "Invalid encrypted payload hex encoding")),
        HexRead::Cut => Err(Next::Crash),
    }
}

/// Replaces the caller's encrypted list of shares.
pub open spec fn save_user_shares_next(
    site: Site,
    headers: Headers,
    shares_enc: Seq<char>,
    heard: Seq<Reply>,
) -> NextView {
    match caller(site, headers, heard) {
        FlowView::Stop(n) => n,
        FlowView::Go(c, _) => match payload_bytes(shares_enc) {
            Err(n) => n,
            Ok(bytes) => if heard.len() <= 1 {
                NextView::Perform(
                    ActionView::Put {
                        key: user_object(c.username, "shares.enc"@),
                        content_type: "application/octet-stream"@,
                        body: bytes,
                    },
                )
            } else {
                match heard[1] {
                    Reply::Done => NextView::Done(AnswerView::Success),
                    Reply::Failed(e) => refused(500, "Failed to save shares to S3: "@ + e.debug@),
                    _ => NextView::Misheard,
                }
            },
        },
    }
}

/// Replaces the caller's encrypted list of shares.
pub fn save_user_shares(site: &Site, headers: &Headers, shares_enc: &str, heard: &Vec<Reply>) -> (r:
    Next)
    ensures
        r@ == save_user_shares_next(*site, *headers, shares_enc@, heard@),
        readable(r@),
{
    let c = match verify_session(site, headers, heard) {
        Flow::Stop(n) => {
            return n;
        },
        Flow::Go(c, _) => c,
    };
    let bytes = match read_payload(shares_enc) {
        Ok(b) => b,
        Err(n) => {
            return n;
        },
    };
    if heard.len() <= 1 {
        return ask_put_bytes(
            make_user_object(c.username.as_str(), "shares.enc"),
            bytes,
        );
    }
    match &heard[1] {
        Reply::Done => Next::Done(Answer::Success),
        Reply::Failed(e) => refuse_with(500, "Failed to save shares to S3: ", e.debug.as_str()),
        _ => Next::Misheard,
    }
}

// ---------------------------------------------------------------------------
// The profile
// ---------------------------------------------------------------------------

/// The caller's name and encrypted profile picture.
pub open spec fn get_user_profile_next(site: Site, headers: Headers, heard: Seq<Reply>) -> NextView {
    match caller(site, headers, heard) {
        FlowView::Stop(n) => n,
        FlowView::Go(c, _) => match profile_picture(c.username, heard, 1) {
            FlowView::Stop(n) => n,
            FlowView::Go(pfp_enc, _) => NextView::Done(
                AnswerView::Profile { username: c.username, pfp_enc },
            ),
        },
    }
}

/// The caller's name and encrypted profile picture.
pub fn get_user_profile(site: &Site, headers: &Headers, heard: &Vec<Reply>) -> (r: Next)
    ensures
        r@ == get_user_profile_next(*site, *headers, heard@),
        readable(r@),
{
    let c = match verify_session(site, headers, heard) {
        Flow::Stop(n) => {
            return n;
        },
        Flow::Go(c, _) => c,
    };
    match fetch_user_pfp_enc(c.username.as_str(), heard, 1) {
        Flow::Stop(n) => n,
        Flow::Go(pfp_enc, _) => Next::Done(Answer::Profile { username: c.username, pfp_enc }),
    }
}

/// The record that replaces one with a picture in it.
pub open spec fn without_picture(bytes: Seq<u8>) -> Option<JsonTree> {
    match json_parsed(bytes) {
        Ok(record) => if member(record, "pfp"@) is Some {
            Some(without_member(record, "pfp"@))
        } else {
            None
        },
        Err(_) => None,
    }
}

/// The bytes of the record that replaces one with a picture in it.
fn drop_picture(bytes: &Vec<u8>) -> (r: Option<Vec<u8>>)
    ensures
        match r {
            Some(b) => reads_back(b@) && (without_picture(bytes@) matches Some(t) && b@
                == json_printed(t)),
            None => without_picture(bytes@) is None,
        },
{
    match json_parse(bytes.as_slice()) {
        Ok(record) => {
            let mut record = record;
            if json_remove(&mut record, "pfp") {
                Some(json_print(&record))
            } else {
                None
            }
        },
        Err(_) => None,
    }
}

/// Takes a picture out of the record of a user, where the record can be had and has one; whatever
/// comes of it.
pub open spec fn picture_removal(username: Seq<char>, heard: Seq<Reply>, at: int) -> FlowView<()> {
    if at >= heard.len() {
        FlowView::Stop(NextView::Perform(ActionView::Get { key: user_key(username) }))
    } else {
        match heard[at] {
            Reply::Object(ObjectReply::Bytes(b)) => match without_picture(b@) {
                Some(record) => if at + 1 >= heard.len() {
                    FlowView::Stop(
                        NextView::Perform(
                            ActionView::Put {
                                key: user_key(username),
                                content_type: "application/json"@,
                                body: json_printed(record),
                            },
                        ),
                    )
                } else if settled(heard[at + 1]) {
                    FlowView::Go((), at + 2)
                } else {
                    FlowView::Stop(NextView::Misheard)
                },
                None => FlowView::Go((), at + 1),
            },
            Reply::Object(_) => FlowView::Go((), at + 1),
            _ => FlowView::Stop(NextView::Misheard),
        }
    }
}

/// Takes a picture out of the record of a user.
fn do_picture_removal(username: &str, heard: &Vec<Reply>, at: usize) -> (r: Flow<()>)
    requires
        at <= heard@.len(),
    ensures
        r@ == picture_removal(username@, heard@, at as int),
        r matches Flow::Go(_, a) ==> at < a <= heard@.len(),
        readable_flow(r@),
{
    if at >= heard.len() {
        return Flow::Stop(ask_get(make_user_key(username)));
    }
    match &heard[at] {
        Reply::Object(ObjectReply::Bytes(b)) => match drop_picture(b) {
            Some(body) => {
                if at + 1 >= heard.len() {
                    return Flow::Stop(ask_put_json(make_user_key(username), body));
                }
                if is_settled(&heard[at + 1]) {
                    Flow::Go((), at + 2)
                } else {
                    Flow::Stop(Next::Misheard)
                }
            },
            None => Flow::Go((), at + 1),
        },
        Reply::Object(_) => Flow::Go((), at + 1),
        _ => Flow::Stop(Next::Misheard),
    }
}

/// How many bytes an encrypted profile picture has at most.
pub const PICTURE_LIMIT: usize = 12_000_000;

/// Replaces a profile picture, or removes it where the payload is blank.
pub open spec fn store_picture(
    username: Seq<char>,
    payload: Seq<char>,
    heard: Seq<Reply>,
    at: int,
) -> NextView {
    if trimmed(payload).len() == 0 {
        if at >= heard.len() {
            NextView::Perform(ActionView::Delete { key: user_object(username, "pfp.enc"@) })
        } else if settled(heard[at]) {
            NextView::Done(AnswerView::Success)
        } else {
            NextView::Misheard
        }
    } else {
        match payload_bytes(payload) {
            Err(n) => n,
            Ok(bytes) => if bytes.len() > PICTURE_LIMIT {
                refused(400, "Profile picture too large"@)
            } else if at >= heard.len() {
                NextView::Perform(
                    ActionView::Put {
                        key: user_object(username, "pfp.enc"@),
                        content_type: "application/octet-stream"@,
                        body: bytes,
                    },
                )
            } else {
                match heard[at] {
                    Reply::Done => NextView::Done(AnswerView::Success),
                    Reply::Failed(e) => refused(
                        500,
                        "Failed to update profile picture: "@ + e.debug@,
                    ),
                    _ => NextView::Misheard,
                }
            },
        }
    }
}

/// Replaces a profile picture, or removes it where the payload is blank.
fn do_store_picture(username: &str, payload: &str, heard: &Vec<Reply>, at: usize) -> (r: Next)
    requires
        at <= heard@.len(),
    ensures
        r@ == store_picture(username@, payload@, heard@, at as int),
        readable(r@),
{
    let key = make_user_object(username, "pfp.enc");
    if trim(payload).as_str().is_empty() {
        if at >= heard.len() {
            return Next::Perform(Action::Delete { key });
        }
        return if is_settled(&heard[at]) {
            Next::Done(Answer::Success)
        } else {
            Next::Misheard
        };
    }
    let bytes = match read_payload(payload) {
        Ok(b) => b,
        Err(n) => {
            return n;
        },
    };
    if bytes.len() > PICTURE_LIMIT {
        return refuse(400, "Profile picture too large");
    }
    if at >= heard.len() {
        return ask_put_bytes(key, bytes);
    }
    match &heard[at] {
        Reply::Done => Next::Done(Answer::Success),
        Reply::Failed(e) => refuse_with(
            500,
            "Failed to update profile picture: ",
            e.debug.as_str(),
        ),
        _ => Next::Misheard,
    }
}

/// Replaces or removes the caller's profile picture. `pfp` stands in for an empty `pfp_enc`.
pub open spec fn save_user_profile_next(
    site: Site,
    headers: Headers,
    pfp_enc: Seq<char>,
    pfp: Seq<char>,
    heard: Seq<Reply>,
) -> NextView {
    match caller(site, headers, heard) {
        FlowView::Stop(n) => n,
        FlowView::Go(c, _) => match picture_removal(c.username, heard, 1) {
            FlowView::Stop(n) => n,
            FlowView::Go(_, at) => store_picture(
                c.username,
                if pfp_enc.len() > 0 {
                    pfp_enc
                } else {
                    pfp
                },
                heard,
                at,
            ),
        },
    }
}

/// Replaces or removes the caller's profile picture.
pub fn save_user_profile(
    site: &Site,
    headers: &Headers,
    pfp_enc: &str,
    pfp: &str,
    heard: &Vec<Reply>,
) -> (r: Next)
    ensures
        r@ == save_user_profile_next(*site, *headers, pfp_enc@, pfp@, heard@),
        readable(r@),
{
    let c = match verify_session(site, headers, heard) {
        Flow::Stop(n) => {
            return n;
        },
        Flow::Go(c, _) => c,
    };
    let at: usize = match do_picture_removal(c.username.as_str(), heard, 1) {
        Flow::Stop(n) => {
            return n;
        },
        Flow::Go(_, at) => at,
    };
    let payload = if !pfp_enc.is_empty() {
        pfp_enc
    } else {
        pfp
    };
    do_store_picture(c.username.as_str(), payload, heard, at)
}

// ---------------------------------------------------------------------------
// The password
// ---------------------------------------------------------------------------

/// What a client says to change a password.
pub struct ChangePasswordRequest {
    pub current_auth_key: String,
    pub new_auth_key: String,
    pub new_shares_enc: String,
    pub new_pfp_enc: Option<String>,
}

/// A record with another password.
pub open spec fn record_with(record: JsonTree, auth_key: Seq<char>) -> JsonTree {
    with_member(record, "password_hash"@, JsonTree::Text(stored_hash(auth_key)))
}

/// The bytes of a record with another password.
fn make_record_with(record: serde_json::Value, auth_key: &str) -> (r: Vec<u8>)
    ensures
        r@ == json_printed(record_with(json_tree(record), auth_key@)),
        reads_back(r@),
{
    let mut record = record;
    json_insert(&mut record, "password_hash", json_text(hash_auth_key(auth_key)));
    json_print(&record)
}

/// Replaces the picture that comes with a new password, or removes it where the payload is blank;
/// whatever comes of it. What cannot be read in the payload is passed over.
pub open spec fn renew_picture(
    username: Seq<char>,
    payload: Option<Seq<char>>,
    heard: Seq<Reply>,
    at: int,
) -> FlowView<()> {
    match payload {
        None => FlowView::Go((), at),
        Some(text) => if trimmed(text).len() == 0 {
            if at >= heard.len() {
                FlowView::Stop(
                    NextView::Perform(ActionView::Delete { key: user_object(username, "pfp.enc"@) }),
                )
            } else if settled(heard[at]) {
                FlowView::Go((), at + 1)
            } else {
                FlowView::Stop(NextView::Misheard)
            }
        } else {
            match hex_read_lossy(trimmed(text)) {
                HexView::Bytes(bytes) => if at >= heard.len() {
                    FlowView::Stop(
                        NextView::Perform(
                            ActionView::Put {
                                key: user_object(username, "pfp.enc"@),
                                content_type: "application/octet-stream"@,
                                body: bytes,
                            },
                        ),
                    )
                } else if settled(heard[at]) {
                    FlowView::Go((), at + 1)
                } else {
                    FlowView::Stop(NextView::Misheard)
                },
                _ => FlowView::Stop(NextView::Crash),
            }
        },
    }
}

/// Replaces the picture that comes with a new password.
fn do_renew_picture(
    username: &str,
    payload: &Option<String>,
    heard: &Vec<Reply>,
    at: usize,
) -> (r: Flow<()>)
    requires
        at <= heard@.len(),
    ensures
        r@ == renew_picture(username@, opt_view(*payload), heard@, at as int),
        r matches Flow::Go(_, a) ==> at <= a <= heard@.len(),
        readable_flow(r@),
{
    let text = match payload {
        Some(p) => trim(p.as_str()),
        None => {
            return Flow::Go((), at);
        },
    };
    let key = make_user_object(username, "pfp.enc");
    if text.as_str().is_empty() {
        if at >= heard.len() {
            return Flow::Stop(Next::Perform(Action::Delete { key }));
        }
    } else {
        match hex_decode_lossy(text.as_str()) {
            HexRead::Bytes(bytes) => {
                if at >= heard.len() {
                    return Flow::Stop(ask_put_bytes(key, bytes));
                }
            },
            _ => {
                return Flow::Stop(Next::Crash);
            },
        }
    }
    if is_settled(&heard[at]) {
        Flow::Go((), at + 1)
    } else {
        Flow::Stop(Next::Misheard)
    }
}

/// Ends every session of a user but one; whatever comes of it.
pub open spec fn end_other_sessions(c: CallerView, heard: Seq<Reply>, at: int) -> NextView {
    if at >= heard.len() {
        NextView::Perform(ActionView::GetSessions { key: user_object(c.username, "sessions.json"@) })
    } else {
        match heard[at] {
            Reply::Sessions(reply) => if at + 1 >= heard.len() {
                NextView::Perform(
                    ActionView::PutSessions {
                        key: user_object(c.username, "sessions.json"@),
                        sessions: only_session(sessions_heard(reply), c.session_id),
                    },
                )
            } else if sessions_settled(heard[at + 1]) {
                NextView::Done(AnswerView::Success)
            } else {
                NextView::Misheard
            },
            _ => NextView::Misheard,
        }
    }
}

/// Ends every session of a user but one.
fn do_end_other_sessions(c: &Caller, heard: &Vec<Reply>, at: usize) -> (r: Next)
    requires
        at <= heard@.len(),
    ensures
        r@ == end_other_sessions(c@, heard@, at as int),
        readable(r@),
{
    let key = make_user_object(c.username.as_str(), "sessions.json");
    if at >= heard.len() {
        return Next::Perform(Action::GetSessions { key });
    }
    match &heard[at] {
        Reply::Sessions(reply) => {
            if at + 1 >= heard.len() {
                let sessions = keep_session(&sessions_of(reply), c.session_id.as_str());
                return Next::Perform(Action::PutSessions { key, sessions });
            }
            if are_sessions_settled(&heard[at + 1]) {
                Next::Done(Answer::Success)
            } else {
                Next::Misheard
            }
        },
        _ => Next::Misheard,
    }
}

/// What follows a current password that was accepted: the new password is stored, then the shares
/// and the picture as they are encrypted under it, and every other session ends.
pub open spec fn renew_password(
    c: CallerView,
    record: JsonTree,
    req: ChangePasswordRequest,
    heard: Seq<Reply>,
) -> NextView {
    if heard.len() <= 2 {
        NextView::Perform(
            ActionView::Put {
                key: user_key(c.username),
                content_type: "application/json"@,
                body: json_printed(record_with(record, req.new_auth_key@)),
            },
        )
    } else {
        match heard[2] {
            Reply::Failed(e) => refused(500, "Failed to update profile: "@ + e.debug@),
            Reply::Done => match payload_bytes(req.new_shares_enc@) {
                Err(n) => n,
                Ok(bytes) => if heard.len() <= 3 {
                    NextView::Perform(
                        ActionView::Put {
                            key: user_object(c.username, "shares.enc"@),
                            content_type: "application/octet-stream"@,
                            body: bytes,
                        },
                    )
                } else {
                    match heard[3] {
                        Reply::Failed(e) => refused(
                            500,
                            "Failed to save new shares: "@ + e.debug@,
                        ),
                        Reply::Done => match renew_picture(
                            c.username,
                            opt_view(req.new_pfp_enc),
                            heard,
                            4,
                        ) {
                            FlowView::Stop(n) => n,
                            FlowView::Go(_, at) => end_other_sessions(c, heard, at),
                        },
                        _ => NextView::Misheard,
                    }
                },
            },
            _ => NextView::Misheard,
        }
    }
}

/// Changes the caller's password.
pub open spec fn change_password_next(
    site: Site,
    headers: Headers,
    req: ChangePasswordRequest,
    heard: Seq<Reply>,
) -> NextView {
    match caller(site, headers, heard) {
        FlowView::Stop(n) => n,
        FlowView::Go(c, _) => if heard.len() <= 1 {
            NextView::Perform(ActionView::Get { key: user_key(c.username) })
        } else {
            match user_heard(heard[1], 404, "User profile not found"@) {
                Err(n) => n,
                Ok(record) => match password_check(
                    record,
                    req.current_auth_key@,
                    "Incorrect current password"@,
                ) {
                    Some(n) => n,
                    None => renew_password(c, record, req, heard),
                },
            }
        },
    }
}

/// What follows a current password that was accepted.
fn do_renew_password(
    c: &Caller,
    record: serde_json::Value,
    req: &ChangePasswordRequest,
    heard: &Vec<Reply>,
) -> (r: Next)
    requires
        heard@.len() >= 2,
    ensures
        r@ == renew_password(c@, json_tree(record), *req, heard@),
        readable(r@),
{
    if heard.len() <= 2 {
        return ask_put_json(
            make_user_key(c.username.as_str()),
            make_record_with(record, req.new_auth_key.as_str()),
        );
    }
    match &heard[2] {
        Reply::Done => {},
        Reply::Failed(e) => {
            return refuse_with(500, "Failed to update profile: ", e.debug.as_str());
        },
        _ => {
            return Next::Misheard;
        },
    }
    let bytes = match read_payload(req.new_shares_enc.as_str()) {
        Ok(b) => b,
        Err(n) => {
            return n;
        },
    };
    if heard.len() <= 3 {
        return ask_put_bytes(
            make_user_object(c.username.as_str(), "shares.enc"),
            bytes,
        );
    }
    match &heard[3] {
        Reply::Done => {},
        Reply::Failed(e) => {
            return refuse_with(500, "Failed to save new shares: ", e.debug.as_str());
        },
        _ => {
            return Next::Misheard;
        },
    }
    match do_renew_picture(c.username.as_str(), &req.new_pfp_enc, heard, 4) {
        Flow::Stop(n) => n,
        Flow::Go(_, at) => do_end_other_sessions(c, heard, at),
    }
}

/// Changes the caller's password.
pub fn user_change_password(
    site: &Site,
    headers: &Headers,
    req: &ChangePasswordRequest,
    heard: &Vec<Reply>,
) -> (r: Next)
    ensures
        r@ == change_password_next(*site, *headers, *req, heard@),
        readable(r@),
{
    let c = match verify_session(site, headers, heard) {
        Flow::Stop(n) => {
            return n;
        },
        Flow::Go(c, _) => c,
    };
    if heard.len() <= 1 {
        return ask_get(make_user_key(c.username.as_str()));
    }
    let record = match read_user(&heard[1], 404, "User profile not found") {
        Ok(record) => record,
        Err(n) => {
            return n;
        },
    };
    match check_password(&record, req.current_auth_key.as_str(), "Incorrect current password") {
        Some(n) => n,
        None => do_renew_password(&c, record, req, heard),
    }
}

// ---------------------------------------------------------------------------
// The account
// ---------------------------------------------------------------------------

/// Removes everything stored for the shares from place `i` on; whatever comes of it.
pub open spec fn remove_shares(
    ids: Seq<Seq<char>>,
    i: int,
    heard: Seq<Reply>,
    at: int,
) -> FlowView<()>
    decreases ids.len() - i,
{
    if i < 0 || i >= ids.len() {
        FlowView::Go((), at)
    } else {
        match prefix_deletion(share_prefix(ids[i]), heard, at) {
            FlowView::Stop(n) => FlowView::Stop(n),
            FlowView::Go(_, at) => remove_shares(ids, i + 1, heard, at),
        }
    }
}

/// Removes everything stored for some shares.
fn do_remove_shares(ids: &Vec<String>, heard: &Vec<Reply>, start: usize) -> (r: Flow<()>)
    requires
        start <= heard@.len(),
    ensures
        r@ == remove_shares(views(ids@), 0, heard@, start as int),
        r matches Flow::Go(_, a) ==> start <= a <= heard@.len(),
        readable_flow(r@),
{
    let ghost all = views(ids@);
    let mut at: usize = start;
    let mut i: usize = 0;
    while i < ids.len()
        invariant
            i <= ids@.len(),
            all == views(ids@),
            start <= at <= heard@.len(),
            remove_shares(all, i as int, heard@, at as int) == remove_shares(
                all,
                0,
                heard@,
                start as int,
            ),
        decreases ids@.len() - i,
    {
        proof {
            assert(all[i as int] == ids@[i as int]@);
        }
        match delete_share_objects(ids[i].as_str(), heard, at) {
            Flow::Stop(n) => {
                return Flow::Stop(n);
            },
            Flow::Go(_, next) => {
                at = next;
            },
        }
        i = i + 1;
    }
    Flow::Go((), at)
}

/// The shares in an index that was asked for; none where it cannot be had or read.
pub open spec fn indexed_shares(reply: ObjectReply) -> Seq<Seq<char>> {
    match reply {
        ObjectReply::Bytes(b) => match listed_shares(b@) {
            Some(entries) => share_ids(entries),
            None => Seq::empty(),
        },
        _ => Seq::empty(),
    }
}

/// The shares in an index that was asked for.
fn read_indexed_shares(reply: &ObjectReply) -> (r: Vec<String>)
    ensures
        views(r@) == indexed_shares(*reply),
{
    let none: Vec<String> = Vec::new();
    proof {
        assert(views(none@) =~= Seq::<Seq<char>>::empty());
    }
    match reply {
        ObjectReply::Bytes(b) => match read_shares(b) {
            Some(entries) => ids_of(&entries),
            None => none,
        },
        _ => none,
    }
}

/// Removes an account: the shares in its index, its record, and everything stored for the user;
/// whatever comes of each.
pub open spec fn account_removal(username: Seq<char>, heard: Seq<Reply>, at: int) -> NextView {
    if at >= heard.len() {
        NextView::Perform(ActionView::Get { key: index_key(username) })
    } else {
        match heard[at] {
            Reply::Object(reply) => match remove_shares(indexed_shares(reply), 0, heard, at + 1) {
                FlowView::Stop(n) => n,
                FlowView::Go(_, at) => if at >= heard.len() {
                    NextView::Perform(ActionView::Delete { key: user_key(username) })
                } else if !settled(heard[at]) {
                    NextView::Misheard
                } else {
                    match prefix_deletion(user_prefix(username), heard, at + 1) {
                        FlowView::Stop(n) => n,
                        FlowView::Go(_, _) => NextView::Done(AnswerView::Success),
                    }
                },
            },
            _ => NextView::Misheard,
        }
    }
}

/// Removes an account.
pub fn remove_account(username: &str, heard: &Vec<Reply>, at: usize) -> (r: Next)
    requires
        at <= heard@.len(),
    ensures
        r@ == account_removal(username@, heard@, at as int),
        readable(r@),
{
    if at >= heard.len() {
        return ask_get(make_index_key(username));
    }
    let ids = match &heard[at] {
        Reply::Object(reply) => read_indexed_shares(reply),
        _ => {
            return Next::Misheard;
        },
    };
    let at: usize = match do_remove_shares(&ids, heard, at + 1) {
        Flow::Stop(n) => {
            return n;
        },
        Flow::Go(_, at) => at,
    };
    if at >= heard.len() {
        return Next::Perform(Action::Delete { key: make_user_key(username) });
    }
    if !is_settled(&heard[at]) {
        return Next::Misheard;
    }
    match delete_s3_prefix(make_user_prefix(username).as_str(), heard, at + 1) {
        Flow::Stop(n) => n,
        Flow::Go(_, _) => Next::Done(Answer::Success),
    }
}

/// Removes the caller's account.
pub open spec fn delete_account_next(site: Site, headers: Headers, heard: Seq<Reply>) -> NextView {
    match caller(site, headers, heard) {
        FlowView::Stop(n) => n,
        FlowView::Go(c, _) => account_removal(c.username, heard, 1),
    }
}

/// Removes the caller's account.
pub fn user_delete_account(site: &Site, headers: &Headers, heard: &Vec<Reply>) -> (r: Next)
    ensures
        r@ == delete_account_next(*site, *headers, heard@),
        readable(r@),
{
    match verify_session(site, headers, heard) {
        Flow::Stop(n) => n,
        Flow::Go(c, _) => remove_account(c.username.as_str(), heard, 1),
    }
}

} // verus!
