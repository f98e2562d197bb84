//! Laws of accounts: passwords, tokens, sessions, and what is stored for a user.

use vstd::prelude::*;
use vstd::utf8::{
    decode_utf8, encode_utf8, encode_utf8_decode_utf8, encode_utf8_valid_utf8, valid_utf8,
};
use crate::account::{
    begin_session, client_address, login_user_next, name_is_plain, new_session, profile_picture,
    register_user_next, user_record,
};
use crate::admin::admin_login_next;
use crate::crypto::stored_hash;
use crate::devices::{revoke_session, sessions_key};
use crate::gate::{
    admin, admin_bearer, caller, header_text, no_session, session_token, sessions_heard, CallerView,
    Header, Headers, Site,
};
use crate::hex::{hex_reads_back, hex_text, lemma_hex_chars};
use crate::json::{
    lemma_plain_member, lemma_raw_value_key, member, plain, raw_value_key, reads_as, text_member,
    JsonTree,
};
use crate::keys::{user_key, user_object};
use crate::laws_scope::lemma_begins;
use crate::model::views;
use crate::profile::{
    change_password_next, end_other_sessions, get_user_shares_next, payload_bytes, picture_removal,
    record_with, save_user_profile_next, save_user_shares_next, ChangePasswordRequest,
    PICTURE_LIMIT,
};
use crate::protocol::{
    readable, refused, ActionView, AnswerView, FlowView, NextView, ObjectReply, Reply,
    SessionsReply,
};
use crate::session::{
    has_session, kept_sessions_have_the_id, revoked_session_is_gone, without_session, SessionView,
};
use crate::text::{lemma_trimmed_is, trimmed};
use crate::token::{token_content, token_cuts_character, token_reads_back, token_text, TokenView};

verus! {

// ---------------------------------------------------------------------------
// Passwords
// ---------------------------------------------------------------------------

/// Whether a request hears the bytes of an object at a place.
pub open spec fn hears_bytes(heard: Seq<Reply>, at: int, bytes: Seq<u8>) -> bool {
    &&& 0 <= at < heard.len()
    &&& heard[at] matches Reply::Object(ObjectReply::Bytes(b))
    &&& b@ == bytes
}

/// A record keeps its digest under a key that marks nothing.
proof fn lemma_password_key()
    ensures
        "password_hash"@ != raw_value_key(),
{
    reveal_strlit("password_hash");
    lemma_raw_value_key();
}

/// The record that registering stores lets the user in with the same key, and with no key of
/// another digest.
pub proof fn registered_users_log_in(
    username: Seq<char>,
    auth_key: Seq<char>,
    registering: Seq<Reply>,
    site: Site,
    headers: Headers,
    given_name: Seq<char>,
    given_key: Seq<char>,
    heard: Seq<Reply>,
)
    requires
        readable(register_user_next(username, auth_key, registering)),
        trimmed(given_name) == trimmed(username),
    ensures
        register_user_next(username, auth_key, registering) matches NextView::Perform(
            ActionView::Put { key, body, .. },
        ) ==> {
            &&& login_user_next(site, headers, given_name, given_key, Seq::empty())
                == NextView::Perform(ActionView::Get { key })
            &&& hears_bytes(heard, 0, body) ==> login_user_next(
                site,
                headers,
                given_name,
                given_key,
                heard,
            ) == if stored_hash(given_key) == stored_hash(auth_key) {
                begin_session(site, headers, trimmed(username), heard)
            } else {
                refused(401, "Invalid username or password"@)
            }
        },
{
    let record = user_record(stored_hash(auth_key));
    let none = JsonTree::Object(Map::<Seq<char>, JsonTree>::empty());
    assert(plain(none, 127));
    lemma_password_key();
    lemma_plain_member(none, "password_hash"@, JsonTree::Text(stored_hash(auth_key)), 127);
    assert(plain(record, 127));
}

/// A name that is taken is not registered again: nothing is stored.
pub proof fn taken_names_stay(username: Seq<char>, auth_key: Seq<char>, heard: Seq<Reply>)
    requires
        heard.len() > 0,
        heard[0] == Reply::Exists(true),
    ensures
        register_user_next(username, auth_key, heard) matches NextView::Done(a) && a is Refused,
{
}

/// The record that changing a password stores lets the user in with the new key, and with no key
/// of another digest; every other member of the record stays.
pub proof fn the_new_password_counts(
    site: Site,
    headers: Headers,
    req: ChangePasswordRequest,
    changing: Seq<Reply>,
    record: JsonTree,
    later_headers: Headers,
    given_name: Seq<char>,
    given_key: Seq<char>,
    heard: Seq<Reply>,
)
    requires
        readable(change_password_next(site, headers, req, changing)),
        changing.len() == 2,
        changing[1] matches Reply::Object(ObjectReply::Bytes(b)) && reads_as(b@, record),
        plain(record, 127),
        caller(site, headers, changing) matches FlowView::Go(c, _) && trimmed(given_name)
            == c.username,
    ensures
        change_password_next(site, headers, req, changing) matches NextView::Perform(
            ActionView::Put { key, body, .. },
        ) ==> {
            &&& login_user_next(site, later_headers, given_name, given_key, Seq::empty())
                == NextView::Perform(ActionView::Get { key })
            &&& hears_bytes(heard, 0, body) ==> login_user_next(
                site,
                later_headers,
                given_name,
                given_key,
                heard,
            ) == if stored_hash(given_key) == stored_hash(req.new_auth_key@) {
                begin_session(site, later_headers, trimmed(given_name), heard)
            } else {
                refused(401, "Invalid username or password"@)
            }
        },
        forall|name: Seq<char>|
            name != "password_hash"@ ==> #[trigger] member(
                record_with(record, req.new_auth_key@),
                name,
            ) == member(record, name),
{
    lemma_password_key();
    lemma_plain_member(
        record,
        "password_hash"@,
        JsonTree::Text(stored_hash(req.new_auth_key@)),
        127,
    );
    assert(plain(record_with(record, req.new_auth_key@), 127));
}

/// Nothing is stored for a change of password unless the key that was given matches the record.
pub proof fn the_old_password_is_asked_for(
    site: Site,
    headers: Headers,
    req: ChangePasswordRequest,
    heard: Seq<Reply>,
    record: JsonTree,
)
    requires
        heard.len() >= 2,
        heard[1] matches Reply::Object(ObjectReply::Bytes(b)) && reads_as(b@, record),
        text_member(record, "password_hash"@) != Some(
            stored_hash(req.current_auth_key@),
        ),
    ensures
        change_password_next(site, headers, req, heard) matches NextView::Done(a) ==> a is Refused,
        !(change_password_next(site, headers, req, heard) is Perform),
{
}

// ---------------------------------------------------------------------------
// Tokens and sessions
// ---------------------------------------------------------------------------

/// Whether a request carries a token.
pub open spec fn carries(headers: Headers, token: Seq<char>) -> bool {
    headers.authorization matches Header::Text(s) && s@ == "Bearer "@ + token
}

/// Whether a request hears a list of sessions first.
pub open spec fn hears_sessions(heard: Seq<Reply>, sessions: Seq<SessionView>) -> bool {
    &&& heard.len() > 0
    &&& heard[0] matches Reply::Sessions(SessionsReply::Loaded(v))
    &&& views(v@) == sessions
}

/// A request that carries a token says so.
pub proof fn lemma_carries(headers: Headers, token: Seq<char>)
    requires
        carries(headers, token),
    ensures
        session_token(headers) == Ok::<Seq<char>, AnswerView>(token),
        admin_bearer(headers) == Ok::<Seq<char>, AnswerView>(token),
{
    let prefix = "Bearer "@;
    lemma_begins(prefix, token);
    assert((prefix + token).skip(prefix.len() as int) =~= token);
}

/// A session that was just listed is listed.
proof fn lemma_pushed_session(sessions: Seq<SessionView>, s: SessionView)
    ensures
        has_session(sessions.push(s), s.id),
{
    assert(sessions.push(s)[sessions.len() as int].id == s.id);
}

/// The token that a login gives out is accepted by every later request, as long as the list of
/// sessions is the one that the login stored; the caller is the user who logged in.
pub proof fn login_tokens_are_accepted(
    site: Site,
    headers: Headers,
    username: Seq<char>,
    auth_key: Seq<char>,
    heard: Seq<Reply>,
    id: String,
    later_headers: Headers,
    later: Seq<Reply>,
)
    requires
        heard.len() > 4,
        heard[1] == Reply::Id(id),
        !id@.contains('.'),
    ensures
        login_user_next(site, headers, username, auth_key, heard) matches NextView::Done(
            AnswerView::LoggedIn { token, .. },
        ) ==> (login_user_next(
            site,
            headers,
            username,
            auth_key,
            heard.take(4),
        ) matches NextView::Perform(ActionView::PutSessions { key, sessions }) && key
            == sessions_key(trimmed(username)) && (carries(later_headers, token) ==> {
            &&& caller(site, later_headers, Seq::empty()) == FlowView::<CallerView>::Stop(
                NextView::Perform(ActionView::GetSessions { key }),
            )
            &&& hears_sessions(later, sessions) ==> caller(site, later_headers, later)
                == FlowView::Go(
                CallerView { username: trimmed(username), session_id: id@ },
                1,
            )
        })),
{
    let name = trimmed(username);
    let t = TokenView { username: name, expiry: 0, session_id: id@ };
    let token = token_text(t, site.jwt_secret@);
    token_reads_back(t, site.jwt_secret@);
    if carries(later_headers, token) {
        lemma_carries(later_headers, token);
    }
    let before = heard.take(4);
    assert(before[0] == heard[0] && before[1] == heard[1] && before[2] == heard[2] && before[3]
        == heard[3]);
    if let Reply::Sessions(reply) = heard[3] {
        if let Reply::Time(now) = heard[2] {
            lemma_pushed_session(
                sessions_heard(reply),
                new_session(
                    id@,
                    now.secs as int,
                    header_text(headers.user_agent, "Unknown"@),
                    client_address(headers),
                ),
            );
        }
    }
}

/// The token that the administrator's login gives out is accepted as the administrator's, as long
/// as the list of sessions is the one that the login stored.
pub proof fn admin_tokens_are_accepted(
    site: Site,
    headers: Headers,
    heard: Seq<Reply>,
    id: String,
    later_headers: Headers,
    later: Seq<Reply>,
)
    requires
        heard.len() > 3,
        heard[0] == Reply::Id(id),
        !id@.contains('.'),
    ensures
        admin_login_next(site, headers, heard) matches NextView::Done(
            AnswerView::AdminLoggedIn { token },
        ) ==> (admin_login_next(site, headers, heard.take(3)) matches NextView::Perform(
            ActionView::PutSessions { key, sessions },
        ) && (carries(later_headers, token) && hears_sessions(later, sessions) ==> admin(
            site,
            later_headers,
            later,
        ) is Go)),
{
    let t = TokenView { username: "admin"@, expiry: 0, session_id: id@ };
    let token = token_text(t, site.jwt_secret@);
    token_reads_back(t, site.jwt_secret@);
    if carries(later_headers, token) {
        lemma_carries(later_headers, token);
    }
    let before = heard.take(3);
    assert(before[0] == heard[0] && before[1] == heard[1] && before[2] == heard[2]);
    if let Reply::Sessions(reply) = heard[2] {
        if let Reply::Time(now) = heard[1] {
            lemma_pushed_session(
                sessions_heard(reply),
                new_session(
                    id@,
                    now.secs as int,
                    header_text(headers.user_agent, "Unknown"@),
                    header_text(headers.forwarded_for, "Unknown"@),
                ),
            );
        }
    }
}

/// A token is refused where the list of sessions does not hold its session.
pub proof fn unlisted_sessions_are_refused(
    site: Site,
    headers: Headers,
    token: Seq<char>,
    t: TokenView,
    sessions: Seq<SessionView>,
    heard: Seq<Reply>,
)
    requires
        carries(headers, token),
        token_content(token, site.jwt_secret@) == Some(t),
        !token_cuts_character(token),
        hears_sessions(heard, sessions),
        !has_session(sessions, t.session_id),
    ensures
        caller(site, headers, heard) == FlowView::<CallerView>::Stop(no_session()),
{
    lemma_carries(headers, token);
}

/// After a session is revoked, the list that is stored does not hold it, and holds every other
/// session that was there: its token is refused, all others are accepted as before.
pub proof fn revoking_ends_one_session(
    key: Seq<char>,
    id: Seq<char>,
    heard: Seq<Reply>,
    at: int,
    reply: SessionsReply,
)
    requires
        0 <= at,
        heard.len() == at + 1,
        heard[at] == Reply::Sessions(reply),
    ensures
        match revoke_session(key, id, heard, at) {
            NextView::Perform(ActionView::PutSessions { key: k, sessions }) => {
                &&& k == key
                &&& !has_session(sessions, id)
                &&& forall|other: Seq<char>|
                    other != id ==> (#[trigger] has_session(sessions, other) == has_session(
                        sessions_heard(reply),
                        other,
                    ))
            },
            n => n == NextView::Done(AnswerView::Success) && !has_session(
                sessions_heard(reply),
                id,
            ),
        },
{
    let sessions = sessions_heard(reply);
    revoked_session_is_gone(sessions, id);
    lemma_shorter_without(sessions, id);
}

/// A list gets shorter exactly where it held the session.
pub proof fn lemma_shorter_without(sessions: Seq<SessionView>, id: Seq<char>)
    ensures
        without_session(sessions, id).len() <= sessions.len(),
        (without_session(sessions, id).len() < sessions.len()) == has_session(sessions, id),
    decreases sessions.len(),
{
    reveal(Seq::filter);
    if sessions.len() > 0 {
        let rest = sessions.drop_last();
        lemma_shorter_without(rest, id);
        if has_session(rest, id) {
            let i = choose|i: int| 0 <= i < rest.len() && (#[trigger] rest[i]).id == id;
            assert(sessions[i].id == id);
        }
        if sessions.last().id == id {
            assert(sessions[sessions.len() - 1].id == id);
        } else if has_session(sessions, id) {
            let i = choose|i: int| 0 <= i < sessions.len() && (#[trigger] sessions[i]).id == id;
            assert(rest[i].id == id);
        }
    }
}

/// After a password was changed, the list of sessions that is stored holds the session of the
/// caller, where it was there, and no other.
pub proof fn changing_the_password_ends_the_other_sessions(
    c: CallerView,
    heard: Seq<Reply>,
    at: int,
    reply: SessionsReply,
)
    requires
        0 <= at,
        heard.len() == at + 1,
        heard[at] == Reply::Sessions(reply),
    ensures
        end_other_sessions(c, heard, at) matches NextView::Perform(
            ActionView::PutSessions { key, sessions },
        ) && key == sessions_key(c.username) && has_session(sessions, c.session_id) == has_session(
            sessions_heard(reply),
            c.session_id,
        ) && (forall|id: Seq<char>| #[trigger] has_session(sessions, id) ==> id == c.session_id),
{
    kept_sessions_have_the_id(sessions_heard(reply), c.session_id);
}

// ---------------------------------------------------------------------------
// What is stored for a user
// ---------------------------------------------------------------------------

/// A registered name holds no `/`.
proof fn lemma_plain_name(name: Seq<char>)
    requires
        name_is_plain(name),
    ensures
        !name.contains('/'),
{
    if name.contains('/') {
        let i = choose|i: int| 0 <= i < name.len() && name[i] == '/';
        assert(name[i] <= '\u{7f}');
    }
}

/// No object of a user has the key of an object, or of the record, of another user.
pub proof fn users_do_not_share_keys(a: Seq<char>, b: Seq<char>, x: Seq<char>, y: Seq<char>)
    requires
        name_is_plain(a),
        name_is_plain(b),
    ensures
        user_object(a, x) == user_object(b, y) ==> a == b && x == y,
        user_key(a) == user_key(b) ==> a == b,
        user_key(a) != user_object(b, y),
{
    lemma_plain_name(a);
    lemma_plain_name(b);
    let p = "users/"@.len() as int;
    let m = a.len() as int;
    let n = b.len() as int;
    reveal_strlit("/");
    reveal_strlit(".json");
    let left = user_object(a, x);
    let right = user_object(b, y);
    if left == right {
        if m < n {
            assert(left[p + m] == '/');
            assert(right[p + m] == b[m]);
        }
        if n < m {
            assert(right[p + n] == '/');
            assert(left[p + n] == a[n]);
        }
        assert(a =~= left.subrange(p, p + m));
        assert(b =~= right.subrange(p, p + n));
        assert(x =~= left.skip(p + m + 1));
        assert(y =~= right.skip(p + n + 1));
    }
    if user_key(a) == user_key(b) {
        assert(a =~= user_key(a).subrange(p, user_key(a).len() - 5));
        assert(b =~= user_key(b).subrange(p, user_key(b).len() - 5));
    }
    if user_key(a) == right {
        let i = p + n;
        assert(right[i] == '/');
        assert(user_key(a)[i] == '/');
        if n < m {
            assert(user_key(a)[i] == a[n]);
        } else {
            let k = i - p - m;
            assert(".json"@.len() == 5);
            assert(user_key(a).len() == p + m + 5);
            assert(i < right.len());
            assert(0 <= k < 5);
            assert(user_key(a)[i] == ".json"@[k]);
            assert(k == 0 || k == 1 || k == 2 || k == 3 || k == 4);
        }
    }
}

/// Hexadecimal text has no white space at its ends.
proof fn lemma_hex_trimmed(bytes: Seq<u8>)
    ensures
        trimmed(hex_text(bytes)) == hex_text(bytes),
{
    if bytes.len() > 0 {
        lemma_hex_chars(bytes, 0);
        lemma_hex_chars(bytes, hex_text(bytes).len() - 1);
    }
    lemma_trimmed_is(hex_text(bytes));
}

/// Text that is the hexadecimal notation of some bytes reads as these bytes.
proof fn lemma_payload_text(payload: Seq<char>, bytes: Seq<u8>)
    requires
        payload_bytes(payload) == Ok::<Seq<u8>, NextView>(bytes),
    ensures
        (exists|b: Seq<u8>| payload == #[trigger] hex_text(b)) ==> hex_text(bytes) == payload,
{
    if exists|b: Seq<u8>| payload == #[trigger] hex_text(b) {
        let b = choose|b: Seq<u8>| payload == #[trigger] hex_text(b);
        hex_reads_back(b);
        lemma_hex_trimmed(b);
    }
}

/// The encrypted list of shares that a user saves is the one that they are given later: the
/// hexadecimal notation of the bytes that the payload stands for, and so the payload itself where
/// it is such a notation.
pub proof fn saved_shares_come_back(
    site: Site,
    headers: Headers,
    payload: Seq<char>,
    bytes: Seq<u8>,
    saving: Seq<Reply>,
    later_headers: Headers,
    heard: Seq<Reply>,
)
    requires
        payload_bytes(payload) == Ok::<Seq<u8>, NextView>(bytes),
        saving.len() == 1,
        caller(site, headers, saving) is Go,
        caller(site, later_headers, heard) is Go,
        caller(site, headers, saving)->Go_0.username == caller(
            site,
            later_headers,
            heard,
        )->Go_0.username,
    ensures
        save_user_shares_next(site, headers, payload, saving) matches NextView::Perform(
            ActionView::Put { key, body, .. },
        ) && body == bytes && get_user_shares_next(site, later_headers, heard.take(1))
            == NextView::Perform(ActionView::Get { key }) && (hears_bytes(heard, 1, body)
            ==> get_user_shares_next(site, later_headers, heard) == NextView::Done(
            AnswerView::SharesText { shares_enc: hex_text(bytes) },
        )),
        (exists|b: Seq<u8>| payload == #[trigger] hex_text(b)) ==> hex_text(bytes) == payload,
{
    lemma_payload_text(payload, bytes);
    assert(heard.take(1)[0] == heard[0]);
}

/// The encrypted profile picture that a user saves is the one that they are given later, in the
/// hexadecimal notation of the bytes that the payload stands for.
pub proof fn saved_pictures_come_back(
    site: Site,
    headers: Headers,
    pfp_enc: Seq<char>,
    pfp: Seq<char>,
    payload: Seq<char>,
    bytes: Seq<u8>,
    saving: Seq<Reply>,
    heard: Seq<Reply>,
    at: int,
)
    requires
        payload == (if pfp_enc.len() > 0 {
            pfp_enc
        } else {
            pfp
        }),
        trimmed(payload).len() > 0,
        payload_bytes(payload) == Ok::<Seq<u8>, NextView>(bytes),
        bytes.len() <= PICTURE_LIMIT,
        caller(site, headers, saving) is Go,
        picture_removal(caller(site, headers, saving)->Go_0.username, saving, 1) == FlowView::Go(
            (),
            saving.len() as int,
        ),
    ensures
        save_user_profile_next(site, headers, pfp_enc, pfp, saving) matches NextView::Perform(
            ActionView::Put { key, body, .. },
        ) && body == bytes && profile_picture(
            caller(site, headers, saving)->Go_0.username,
            Seq::empty(),
            0,
        ) == FlowView::<Seq<char>>::Stop(NextView::Perform(ActionView::Get { key })) && (
        hears_bytes(heard, at, body) ==> profile_picture(
            caller(site, headers, saving)->Go_0.username,
            heard,
            at,
        ) == FlowView::Go(hex_text(bytes), at + 1)),
        (exists|b: Seq<u8>| payload == #[trigger] hex_text(b)) ==> hex_text(bytes) == payload,
{
    lemma_payload_text(payload, bytes);
}

} // verus!
