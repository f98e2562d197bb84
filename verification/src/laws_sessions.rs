//! Laws of sessions: how they are begun, kept, shown, ended and named, and who they let in.

use vstd::prelude::*;
use vstd::utf8::{decode_utf8, encode_utf8, valid_utf8};
use crate::api::{answer_next, Request};
use crate::clock::UtcTime;
use crate::crypto::{hmac_sha256, stored_hash};
use crate::devices::sessions_key;
use crate::gate::{admin, caller, sessions_heard, CallerView, Header, Headers, Site};
use crate::hex::{hex_read, hex_text, HexView};
use crate::json::{json_parsed, reads_as, text_member, JsonTree};
use crate::laws_accounts::{carries, hears_sessions, lemma_carries, lemma_shorter_without};
use crate::laws_removals::lemma_index_key;
use crate::number::{decimal, i64_number};
use crate::protocol::{
    ActionView, AnswerView, FlowView, NextView, ObjectReply, Reply, SessionEntryView, SessionsReply,
};
use crate::session::{has_session, session_place, SessionView};
use crate::text::{pieces, trimmed};
use crate::token::{token_content, token_cuts_character, token_text, TokenView};

verus! {

// ---------------------------------------------------------------------------
// Who is let in
// ---------------------------------------------------------------------------

/// The sessions of a list that was heard of; none where no list was loaded.
pub open spec fn listed(reply: SessionsReply) -> Seq<SessionView> {
    match reply {
        SessionsReply::Loaded(v) => Seq::new(v@.len(), |i: int| v@[i]@),
        _ => Seq::empty(),
    }
}

/// The list that the requests go by is the one that was heard of.
pub proof fn lemma_listed(reply: SessionsReply)
    ensures
        sessions_heard(reply) == listed(reply),
{
    assert(sessions_heard(reply) =~= listed(reply));
}

/// A token that is signed looks up the sessions of the user it names. Where one of them has the id
/// that it names, the request is that user's; where none has, it is refused.
pub proof fn signed_tokens_of_listed_sessions_are_accepted(
    site: Site,
    headers: Headers,
    token: Seq<char>,
    t: TokenView,
    heard: Seq<Reply>,
    reply: SessionsReply,
)
    requires
        carries(headers, token),
        token_content(token, site.jwt_secret@) == Some(t),
        !token_cuts_character(token),
    ensures
        heard.len() == 0 ==> caller(site, headers, heard)
            == FlowView::<CallerView>::Stop(
            NextView::Perform(
                ActionView::GetSessions {
                    key: "users/"@ + t.username + "/sessions.json"@,
                },
            ),
        ),
        heard.len() > 0 && heard[0] == Reply::Sessions(reply) ==> caller(site, headers, heard) == (
        if exists|i: int|
            0 <= i < listed(reply).len() && (#[trigger] listed(reply)[i]).id == t.session_id {
            FlowView::Go(CallerView { username: t.username, session_id: t.session_id }, 1)
        } else {
            FlowView::Stop(
                NextView::Done(
                    AnswerView::Refused {
                        status: 401,
                        message: "Invalid or expired session"@,
                    },
                ),
            )
        }),
{
    lemma_carries(headers, token);
    lemma_index_key(t.username);
    lemma_listed(reply);
}

/// A token is accepted exactly where it is four parts between dots: a name in hexadecimal, an
/// expiry, a session id, and as the last part the keyed digest of name, expiry and id in
/// hexadecimal.
pub proof fn tokens_are_accepted_where_signed(token: Seq<char>, secret: Seq<u8>, t: TokenView)
    ensures
        ({
            let parts = pieces(token, '.');
            (token_content(token, secret) == Some(t)) == {
                &&& parts.len() == 4
                &&& hex_read(parts[0]) matches HexView::Bytes(name)
                    && valid_utf8(name) && decode_utf8(name) == t.username
                &&& i64_number(parts[1]) == Some(t.expiry)
                &&& parts[2] == t.session_id
                &&& parts[3] == hex_text(
                    hmac_sha256(
                        secret,
                        encode_utf8(
                            t.username + ":"@ + decimal(t.expiry) + ":"@
                                + t.session_id,
                        ),
                    ),
                )
            }
        }),
{
}

/// The token of a session is its four parts with dots between them.
pub proof fn tokens_are_four_parts(t: TokenView, secret: Seq<u8>)
    ensures
        token_text(t, secret) == hex_text(encode_utf8(t.username)) + "."@ + decimal(
            t.expiry,
        ) + "."@ + t.session_id + "."@ + hex_text(
            hmac_sha256(
                secret,
                encode_utf8(
                    t.username + ":"@ + decimal(t.expiry) + ":"@ + t.session_id,
                ),
            ),
        ),
{
}

/// A token whose name would be taken apart inside a character makes a request break off.
pub proof fn tokens_that_cut_characters_break_off(
    site: Site,
    headers: Headers,
    token: Seq<char>,
    heard: Seq<Reply>,
)
    requires
        carries(headers, token),
    ensures
        ({
            let parts = pieces(token, '.');
            token_cuts_character(token) == (parts.len() == 4 && i64_number(parts[1]) is Some
                && hex_read(parts[0]) is Cut)
        }),
        token_cuts_character(token) ==> caller(site, headers, heard) == FlowView::<
            CallerView,
        >::Stop(NextView::Crash),
        token_cuts_character(token) ==> (site.admin_token matches Some(a) && a@ != token
            ==> admin(site, headers, heard) == FlowView::<()>::Stop(NextView::Crash)),
{
    lemma_carries(headers, token);
}

/// The administrator's token is let in at once. A token that is signed for the user `admin` looks
/// up the administrator's sessions, and is let in where one of them has the id that it names.
pub proof fn administrators_are_accepted(
    site: Site,
    headers: Headers,
    token: Seq<char>,
    heard: Seq<Reply>,
    reply: SessionsReply,
)
    requires
        site.admin_token is Some,
        carries(headers, token),
    ensures
        token == site.admin_token->0@ ==> admin(site, headers, heard) == FlowView::Go(
            (),
            0,
        ),
        token != site.admin_token->0@ && !token_cuts_character(token) ==> (token_content(
            token,
            site.jwt_secret@,
        ) matches Some(t) ==> (t.username == "admin"@ ==> {
            &&& heard.len() == 0 ==> admin(site, headers, heard) == FlowView::<()>::Stop(
                NextView::Perform(ActionView::GetSessions { key: "admin/sessions.json"@ }),
            )
            &&& heard.len() > 0 && heard[0] == Reply::Sessions(reply) ==> admin(
                site,
                headers,
                heard,
            ) == (if exists|i: int|
                0 <= i < listed(reply).len() && (#[trigger] listed(reply)[i]).id == t.session_id {
                FlowView::Go((), 1)
            } else {
                FlowView::Stop(
                    NextView::Done(
                        AnswerView::Refused { status: 403, message: "Invalid admin token"@ },
                    ),
                )
            })
        })),
{
    lemma_carries(headers, token);
    lemma_listed(reply);
}

// ---------------------------------------------------------------------------
// Beginning a session
// ---------------------------------------------------------------------------

/// Whether a list of sessions is another one, unchanged and in order, with a new one at the end.
pub open spec fn extends(
    sessions: Seq<SessionView>,
    before: Seq<SessionView>,
    id: Seq<char>,
    created_at: int,
    user_agent: Seq<char>,
    ip: Seq<char>,
) -> bool {
    &&& sessions.len() == before.len() + 1
    &&& forall|i: int| 0 <= i < before.len() ==> #[trigger] sessions[i] == before[i]
    &&& sessions.last().id == id
    &&& sessions.last().created_at == created_at
    &&& sessions.last().user_agent == user_agent
    &&& sessions.last().ip == ip
    &&& sessions.last().expires_at == 0
    &&& sessions.last().name is None
}

/// The text of a header, or `Unknown` where it cannot be had.
pub open spec fn said(h: Header) -> Seq<char> {
    match h {
        Header::Text(s) => s@,
        _ => "Unknown"@,
    }
}

/// Logging in reads the record of the user and compares the digest of the key. Whoever has the
/// right key gets a new session: its id, the time and the list of sessions are asked for, and the
/// list is stored with every session that was in it and the new one at the end. Then the picture is
/// read, and the answer holds a token for the user and the session, and the picture.
pub proof fn logins_begin_a_session(
    site: Site,
    headers: Headers,
    username: String,
    auth_key: String,
    heard: Seq<Reply>,
    record: JsonTree,
    id: String,
    now: UtcTime,
    reply: SessionsReply,
)
    requires
        heard.len() > 0,
        heard[0] matches Reply::Object(ObjectReply::Bytes(b))
            && reads_as(b@, record),
        text_member(record, "password_hash"@) == Some(
            stored_hash(auth_key@),
        ),
        heard.len() > 1 ==> heard[1] == Reply::Id(id),
        heard.len() > 2 ==> heard[2] == Reply::Time(now),
        heard.len() > 3 ==> heard[3] == Reply::Sessions(reply),
        heard.len() > 4 ==> heard[4] is Done || heard[4] is Failed || heard[4] is NotEncoded,
    ensures
        ({
            let name = trimmed(username@);
            let key = "users/"@ + name + "/sessions.json"@;
            let n = answer_next(
                site,
                headers,
                (Request::Login { username, auth_key }),
                heard,
            );
            if heard.len() == 1 {
                n == NextView::Perform(ActionView::FreshId)
            } else if heard.len() == 2 {
                n == NextView::Perform(ActionView::Clock)
            } else if heard.len() == 3 {
                n == NextView::Perform(ActionView::GetSessions { key })
            } else if heard.len() == 4 {
                n matches NextView::Perform(ActionView::PutSessions { key: k, sessions }) && k
                    == key && extends(
                    sessions,
                    listed(reply),
                    id@,
                    now.secs as int,
                    said(headers.user_agent),
                    match headers.forwarded_for {
                        Header::Text(s) => s@,
                        _ => said(headers.real_ip),
                    },
                )
            } else if heard.len() == 5 {
                n == NextView::Perform(
                    ActionView::Get { key: "users/"@ + name + "/"@ + "pfp.enc"@ },
                )
            } else {
                heard[5] matches Reply::Object(picture) ==> n == NextView::Done(
                    AnswerView::LoggedIn {
                        token: token_text(
                            TokenView { username: name, expiry: 0, session_id: id@ },
                            site.jwt_secret@,
                        ),
                        pfp_enc: match picture {
                            ObjectReply::Bytes(b) => hex_text(b@),
                            _ => Seq::empty(),
                        },
                    },
                )
            }
        }),
{
    lemma_index_key(trimmed(username@));
    lemma_listed(reply);
}

/// Before a session is begun: the record of the user is read by the name without white space at its
/// ends; without one, and with the wrong key, no session is begun.
pub proof fn logins_need_the_right_key(
    site: Site,
    headers: Headers,
    username: String,
    auth_key: String,
    heard: Seq<Reply>,
)
    ensures
        ({
            let n = answer_next(site, headers, (Request::Login { username, auth_key }), heard);
            if heard.len() == 0 {
                n == NextView::Perform(
                    ActionView::Get { key: "users/"@ + trimmed(username@) + ".json"@ },
                )
            } else {
                match heard[0] {
                    Reply::Object(ObjectReply::Absent) => n == NextView::Done(
                        AnswerView::Refused {
                            status: 401,
                            message: "Invalid username or password"@,
                        },
                    ),
                    Reply::Object(ObjectReply::BodyFailed(e)) => n == NextView::Done(
                        AnswerView::Refused { status: 500, message: e.display@ },
                    ),
                    Reply::Object(ObjectReply::Bytes(b)) => match json_parsed(b@) {
                        Err(message) => n == NextView::Done(
                            AnswerView::Refused { status: 500, message },
                        ),
                        Ok(record) => match text_member(record, "password_hash"@) {
                            None => n == NextView::Done(
                                AnswerView::Refused {
                                    status: 500,
                                    message: "Invalid user profile data in S3"@,
                                },
                            ),
                            Some(hash) => hash != stored_hash(auth_key@) ==> n == NextView::Done(
                                AnswerView::Refused {
                                    status: 401,
                                    message: "Invalid username or password"@,
                                },
                            ),
                        },
                    },
                    _ => true,
                }
            }
        }),
{
}

/// A token that was accepted before a login of the same user is accepted after it.
pub proof fn tokens_outlive_logins(
    site: Site,
    headers: Headers,
    username: String,
    auth_key: String,
    heard: Seq<Reply>,
    reply: SessionsReply,
    other_headers: Headers,
    before: Seq<Reply>,
    after: Seq<Reply>,
)
    requires
        heard.len() == 4,
        heard[3] == Reply::Sessions(reply),
        before.len() > 0,
        before[0] == Reply::Sessions(reply),
        caller(site, other_headers, before) is Go,
    ensures
        answer_next(site, headers, (Request::Login { username, auth_key }), heard)
            matches NextView::Perform(ActionView::PutSessions { sessions, .. })
            ==> (hears_sessions(after, sessions) ==> caller(
            site,
            other_headers,
            after,
        ) == caller(site, other_headers, before)),
{
    if let NextView::Perform(ActionView::PutSessions { sessions, .. }) = answer_next(
        site,
        headers,
        (Request::Login { username, auth_key }),
        heard,
    ) {
        let old = sessions_heard(reply);
        let id = caller(site, other_headers, before)->Go_0.session_id;
        if hears_sessions(after, sessions) {
            lemma_listed(reply);
            let i = choose|i: int| 0 <= i < old.len() && (#[trigger] old[i]).id == id;
            assert(sessions[i] == old[i]);
        }
    }
}

/// The administrator logs in with the administrator's token alone, and gets a new session: the list
/// of the administrator's sessions is stored with every session that was in it and the new one at
/// the end. The answer holds a token for the user `admin` and the session; where the list could not
/// be stored, there is none.
pub proof fn admin_logins_begin_a_session(
    site: Site,
    headers: Headers,
    heard: Seq<Reply>,
    id: String,
    now: UtcTime,
    reply: SessionsReply,
)
    requires
        site.admin_token matches Some(token) && carries(headers, token@),
        heard.len() > 0 ==> heard[0] == Reply::Id(id),
        heard.len() > 1 ==> heard[1] == Reply::Time(now),
        heard.len() > 2 ==> heard[2] == Reply::Sessions(reply),
    ensures
        ({
            let key = "admin/sessions.json"@;
            let n = answer_next(site, headers, Request::AdminLogin, heard);
            if heard.len() == 0 {
                n == NextView::Perform(ActionView::FreshId)
            } else if heard.len() == 1 {
                n == NextView::Perform(ActionView::Clock)
            } else if heard.len() == 2 {
                n == NextView::Perform(ActionView::GetSessions { key })
            } else if heard.len() == 3 {
                n matches NextView::Perform(ActionView::PutSessions { key: k, sessions }) && k
                    == key && extends(
                    sessions,
                    listed(reply),
                    id@,
                    now.secs as int,
                    said(headers.user_agent),
                    said(headers.forwarded_for),
                )
            } else {
                match heard[3] {
                    Reply::Done | Reply::NotEncoded(_) => n == NextView::Done(
                        AnswerView::AdminLoggedIn {
                            token: token_text(
                                TokenView { username: "admin"@, expiry: 0, session_id: id@ },
                                site.jwt_secret@,
                            ),
                        },
                    ),
                    Reply::Failed(e) => n == NextView::Done(
                        AnswerView::Refused {
                            status: 500,
                            message: "Failed to save admin session: "@ + e.debug@,
                        },
                    ),
                    _ => true,
                }
            }
        }),
{
    lemma_carries(headers, site.admin_token->0@);
    lemma_listed(reply);
}

/// Without the administrator's token no one logs in as the administrator.
pub proof fn admin_logins_need_the_token(
    site: Site,
    headers: Headers,
    token: Seq<char>,
    heard: Seq<Reply>,
)
    requires
        site.admin_token is Some,
    ensures
        ({
            let n = answer_next(site, headers, Request::AdminLogin, heard);
            &&& headers.authorization is Missing ==> n == NextView::Done(
                AnswerView::Refused { status: 401, message: "Authorization header missing"@ },
            )
            &&& headers.authorization is Unreadable ==> n == NextView::Done(
                AnswerView::Refused { status: 400, message: "Invalid authorization characters"@ },
            )
            &&& carries(headers, token) && token != site.admin_token->0@ ==> n == NextView::Done(
                AnswerView::Refused { status: 403, message: "Invalid admin token"@ },
            )
        }),
{
    if carries(headers, token) {
        lemma_carries(headers, token);
    }
}

// ---------------------------------------------------------------------------
// Showing, ending and naming sessions
// ---------------------------------------------------------------------------

/// Which list of sessions a request is about, and the place at which it hears of it.
pub open spec fn sessions_asked_for(
    site: Site,
    headers: Headers,
    request: Request,
    heard: Seq<Reply>,
) -> Option<(Seq<char>, int)> {
    match request {
        Request::GetSessions | Request::RevokeSession { .. } | Request::RenameSession { .. } => match
            caller(site, headers, heard) {
            FlowView::Go(c, at) => Some(("users/"@ + c.username + "/sessions.json"@, at)),
            _ => None,
        },
        Request::AdminUserSessions { username } => match admin(site, headers, heard) {
            FlowView::Go(_, at) => Some(("users/"@ + username@ + "/sessions.json"@, at)),
            _ => None,
        },
        Request::AdminRevokeUserSession { username, .. } => match admin(site, headers, heard) {
            FlowView::Go(_, at) => Some(("users/"@ + username@ + "/sessions.json"@, at)),
            _ => None,
        },
        Request::AdminSessions | Request::AdminRevokeSession { .. } | Request::AdminRenameSession {
            ..
        } => match admin(site, headers, heard) {
            FlowView::Go(_, at) => Some(("admin/sessions.json"@, at)),
            _ => None,
        },
        _ => None,
    }
}

/// The list keys of users.
proof fn lemma_sessions_keys(site: Site, headers: Headers, request: Request, heard: Seq<Reply>)
    ensures
        caller(site, headers, heard) matches FlowView::Go(c, at) ==> at == 1
            && sessions_key(c.username) == "users/"@ + c.username
            + "/sessions.json"@,
        request matches Request::AdminUserSessions { username } ==> sessions_key(username@)
            == "users/"@ + username@ + "/sessions.json"@,
        request matches Request::AdminRevokeUserSession { username, .. } ==> sessions_key(
            username@,
        ) == "users/"@ + username@ + "/sessions.json"@,
{
    if let FlowView::Go(c, _) = caller(site, headers, heard) {
        lemma_index_key(c.username);
    }
    if let Request::AdminUserSessions { username } = request {
        lemma_index_key(username@);
    }
    if let Request::AdminRevokeUserSession { username, .. } = request {
        lemma_index_key(username@);
    }
}

/// A request about sessions reads the list that it is about: that of the caller, that of the user
/// that the administrator names, or that of the administrator.
pub proof fn lists_of_sessions_are_read_first(
    site: Site,
    headers: Headers,
    request: Request,
    heard: Seq<Reply>,
)
    ensures
        sessions_asked_for(site, headers, request, heard) matches Some((key, at)) ==> (heard.len()
            <= at ==> answer_next(site, headers, request, heard) == NextView::Perform(
            ActionView::GetSessions { key },
        )),
{
    lemma_sessions_keys(site, headers, request, heard);
}

/// Whether a list for the client shows some sessions, each as it is and in order, and marks those
/// with the given id as the current one.
pub open spec fn shows(
    shown: Seq<SessionEntryView>,
    sessions: Seq<SessionView>,
    current: Option<Seq<char>>,
) -> bool {
    &&& shown.len() == sessions.len()
    &&& forall|i: int|
        0 <= i < sessions.len() ==> (#[trigger] shown[i]).session == sessions[i]
            && shown[i].is_current == (current == Some(sessions[i].id))
}

/// A list of sessions is shown whole and in order. A user sees their own session marked, and so
/// does the administrator among the administrator's; no session of another user is marked.
pub proof fn sessions_are_shown_as_listed(
    site: Site,
    headers: Headers,
    request: Request,
    heard: Seq<Reply>,
    key: Seq<char>,
    at: int,
    reply: SessionsReply,
)
    requires
        request is GetSessions || request is AdminUserSessions || request is AdminSessions,
        sessions_asked_for(site, headers, request, heard) == Some((key, at)),
        0 <= at < heard.len(),
        heard[at] == Reply::Sessions(reply),
    ensures
        match request {
            Request::GetSessions => answer_next(site, headers, request, heard)
                matches NextView::Done(AnswerView::Sessions { sessions }) && shows(
                sessions,
                listed(reply),
                Some(caller(site, headers, heard)->Go_0.session_id),
            ),
            Request::AdminUserSessions { .. } => answer_next(site, headers, request, heard)
                matches NextView::Done(AnswerView::Sessions { sessions }) && shows(
                sessions,
                listed(reply),
                None,
            ),
            _ => forall|token: Seq<char>|
                carries(headers, token) && !token_cuts_character(token) ==> (answer_next(
                    site,
                    headers,
                    request,
                    heard,
                ) matches NextView::Done(AnswerView::Sessions { sessions }) && shows(
                    sessions,
                    listed(reply),
                    match #[trigger] token_content(token, site.jwt_secret@) {
                        Some(t) => Some(t.session_id),
                        None => None,
                    },
                )),
        },
{
    lemma_listed(reply);
    if request is AdminSessions {
        assert forall|token: Seq<char>|
            carries(headers, token) && !token_cuts_character(token) implies (answer_next(
            site,
            headers,
            request,
            heard,
        ) matches NextView::Done(AnswerView::Sessions { sessions }) && shows(
            sessions,
            listed(reply),
            match #[trigger] token_content(token, site.jwt_secret@) {
                Some(t) => Some(t.session_id),
                None => None,
            },
        )) by {
            lemma_carries(headers, token);
        }
    }
}

/// The session that a request is to end.
pub open spec fn session_to_end(request: Request) -> Option<Seq<char>> {
    match request {
        Request::RevokeSession { session_id } => Some(session_id@),
        Request::AdminRevokeUserSession { session_id, .. } => Some(session_id@),
        Request::AdminRevokeSession { session_id } => Some(session_id@),
        _ => None,
    }
}

/// Ending a session stores the list with every session but those with its id, unchanged and in
/// order. Where no session has the id, nothing is stored, and that is a success too.
pub proof fn ended_sessions_leave_the_list(
    site: Site,
    headers: Headers,
    request: Request,
    heard: Seq<Reply>,
    key: Seq<char>,
    at: int,
    reply: SessionsReply,
    id: Seq<char>,
)
    requires
        session_to_end(request) == Some(id),
        sessions_asked_for(site, headers, request, heard) == Some((key, at)),
        0 <= at < heard.len(),
        heard[at] == Reply::Sessions(reply),
    ensures
        ({
            let n = answer_next(site, headers, request, heard);
            let there = exists|i: int|
                0 <= i < listed(reply).len() && (#[trigger] listed(reply)[i]).id == id;
            if !there {
                n == NextView::Done(AnswerView::Success)
            } else if heard.len() == at + 1 {
                n == NextView::Perform(
                    ActionView::PutSessions {
                        key,
                        sessions: listed(reply).filter(|s: SessionView| s.id != id),
                    },
                )
            } else {
                match heard[at + 1] {
                    Reply::Done => n == NextView::Done(AnswerView::Success),
                    Reply::NotEncoded(message) => n == NextView::Done(
                        AnswerView::Refused { status: 500, message: message@ },
                    ),
                    Reply::Failed(e) => n == NextView::Done(
                        AnswerView::Refused {
                            status: 500,
                            message: "Failed to update sessions: "@ + e.debug@,
                        },
                    ),
                    _ => true,
                }
            }
        }),
{
    lemma_listed(reply);
    lemma_sessions_keys(site, headers, request, heard);
    lemma_shorter_without(listed(reply), id);
}

/// The session that a request is to name, and the name.
pub open spec fn session_to_name(request: Request) -> Option<(Seq<char>, Seq<char>)> {
    match request {
        Request::RenameSession { session_id, name } => Some((session_id@, name@)),
        Request::AdminRenameSession { session_id, name } => Some((session_id@, name@)),
        _ => None,
    }
}

/// Naming a session stores the list with all sessions in order and nothing changed but the name of
/// the first one with the id: it becomes the first 32 characters of the given one without white
/// space at its ends, or none where that is blank. Where no session has the id, nothing is stored,
/// and that is a success too.
pub proof fn named_sessions_stay_in_the_list(
    site: Site,
    headers: Headers,
    request: Request,
    heard: Seq<Reply>,
    key: Seq<char>,
    at: int,
    reply: SessionsReply,
    id: Seq<char>,
    name: Seq<char>,
    first: int,
)
    requires
        session_to_name(request) == Some((id, name)),
        sessions_asked_for(site, headers, request, heard) == Some((key, at)),
        0 <= at < heard.len(),
        heard[at] == Reply::Sessions(reply),
        0 <= first <= listed(reply).len(),
        forall|i: int| 0 <= i < first ==> (#[trigger] listed(reply)[i]).id != id,
        first < listed(reply).len() ==> listed(reply)[first].id == id,
    ensures
        ({
            let n = answer_next(site, headers, request, heard);
            let text = trimmed(name);
            let short = if text.len() <= 32 {
                text
            } else {
                text.take(32)
            };
            if first == listed(reply).len() {
                n == NextView::Done(AnswerView::Success)
            } else if heard.len() == at + 1 {
                n matches NextView::Perform(ActionView::PutSessions { key: k, sessions }) && {
                    &&& k == key
                    &&& sessions.len() == listed(reply).len()
                    &&& forall|i: int|
                        0 <= i < sessions.len() && i != first ==> #[trigger] sessions[i] == listed(
                            reply,
                        )[i]
                    &&& sessions[first] == SessionView {
                        name: if short.len() == 0 {
                            None
                        } else {
                            Some(short)
                        },
                        ..listed(reply)[first]
                    }
                }
            } else {
                match heard[at + 1] {
                    Reply::Done => n == NextView::Done(AnswerView::Success),
                    Reply::NotEncoded(message) => n == NextView::Done(
                        AnswerView::Refused { status: 500, message: message@ },
                    ),
                    Reply::Failed(e) => n == NextView::Done(
                        AnswerView::Refused {
                            status: 500,
                            message: (if request is RenameSession {
                                "Failed to update session: "@
                            } else {
                                "Failed to update admin session: "@
                            }) + e.debug@,
                        },
                    ),
                    _ => true,
                }
            }
        }),
{
    lemma_listed(reply);
    lemma_sessions_keys(site, headers, request, heard);
    lemma_first_place(listed(reply), id, first);
    if first < listed(reply).len() {
        assert(listed(reply)[first].id == id);
        assert(has_session(listed(reply), id));
    }
}

/// The first session with an id is at its place.
proof fn lemma_first_place(sessions: Seq<SessionView>, id: Seq<char>, first: int)
    requires
        0 <= first <= sessions.len(),
        forall|i: int| 0 <= i < first ==> (#[trigger] sessions[i]).id != id,
        first < sessions.len() ==> sessions[first].id == id,
    ensures
        session_place(sessions, id) == first,
    decreases sessions.len(),
{
    if sessions.len() > 0 && first > 0 {
        let rest = sessions.skip(1);
        assert(sessions[0].id != id);
        assert forall|i: int| 0 <= i < first - 1 implies (#[trigger] rest[i]).id != id by {
            assert(sessions[i + 1] == rest[i]);
        }
        lemma_first_place(rest, id, first - 1);
    }
}

} // verus!
