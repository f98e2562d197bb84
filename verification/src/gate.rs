//! Who may do what: session tokens of users, and the administrator's token.

use vstd::prelude::*;
use crate::keys::{make_user_object, user_object};
use crate::model::views;
use crate::protocol::{
    readable_flow, refuse, refused, Action, ActionView, Answer, AnswerView, Flow, FlowView, Next,
    NextView, Reply, SessionsReply,
};
use crate::session::{copy_sessions, has_session, session_exists, SessionView, UserSession};
use crate::text::{after_prefix, same, strip_prefix};
use crate::token::{token_content, token_cuts_character, token_is_cut, verify_token_signature};

verus! {

/// A header of a request.
pub enum Header {
    Missing,
    /// It holds more than visible ASCII.
    Unreadable,
    Text(String),
}

/// The headers that requests look at.
pub struct Headers {
    pub authorization: Header,
    pub range: Header,
    pub user_agent: Header,
    pub forwarded_for: Header,
    pub real_ip: Header,
}

/// What the server is run with.
pub struct Site {
    /// The secret that signs tokens.
    pub jwt_secret: Vec<u8>,
    /// The administrator's token; without one there is no administration.
    pub admin_token: Option<String>,
}

/// A user with a session.
pub struct Caller {
    pub username: String,
    pub session_id: String,
}

/// A user with a session, over sequences.
pub struct CallerView {
    pub username: Seq<char>,
    pub session_id: Seq<char>,
}

impl View for Caller {
    type V = CallerView;

    open spec fn view(&self) -> CallerView {
        CallerView { username: self.username@, session_id: self.session_id@ }
    }
}

/// The text of a header, or `otherwise`.
pub open spec fn header_text(h: Header, otherwise: Seq<char>) -> Seq<char> {
    match h {
        Header::Text(s) => s@,
        _ => otherwise,
    }
}

/// The text of a header, or `otherwise`.
pub fn header_or(h: &Header, otherwise: &str) -> (r: String)
    ensures
        r@ == header_text(*h, otherwise@),
{
    match h {
        Header::Text(s) => s.clone(),
        _ => otherwise.to_owned(),
    }
}

/// The token of an `Authorization` header, or a refusal.
pub open spec fn bearer(
    authorization: Header,
    missing: Seq<char>,
    unreadable: Seq<char>,
) -> Result<Seq<char>, AnswerView> {
    match authorization {
        Header::Missing => Err(AnswerView::Refused { status: 401, message: missing }),
        Header::Unreadable => Err(AnswerView::Refused { status: 400, message: unreadable }),
        Header::Text(s) => match after_prefix(s@, "Bearer "@) {
            Some(token) => Ok(token),
            None => Err(
                AnswerView::Refused {
                    status: 401,
                    message: "Authorization scheme must be Bearer"@,
                },
            ),
        },
    }
}

/// The token of an `Authorization` header, or a refusal.
fn read_bearer(authorization: &Header, missing: &str, unreadable: &str) -> (r: Result<
    String,
    Answer,
>)
    ensures
        match r {
            Ok(t) => bearer(*authorization, missing@, unreadable@) == Ok::<Seq<char>, AnswerView>(
                t@,
            ),
            Err(a) => bearer(*authorization, missing@, unreadable@) == Err::<
                Seq<char>,
                AnswerView,
            >(a@),
        },
{
    match authorization {
        Header::Missing => Err(Answer::Refused { status: 401, message: missing.to_owned() }),
        Header::Unreadable => Err(Answer::Refused { status: 400, message: unreadable.to_owned() }),
        Header::Text(s) => match strip_prefix(s.as_str(), "Bearer ") {
            Some(token) => Ok(token),
            None => Err(
                Answer::Refused {
                    status: 401,
                    message: "Authorization scheme must be Bearer".to_owned(),
                },
            ),
        },
    }
}

/// The session token that a request carries, or a refusal.
pub open spec fn session_token(headers: Headers) -> Result<Seq<char>, AnswerView> {
    bearer(
        headers.authorization,
        "Authorization header is missing"@,
        "Invalid authorization header characters"@,
    )
}

/// The session token that a request carries, or a refusal.
pub fn extract_token(headers: &Headers) -> (r: Result<String, Answer>)
    ensures
        match r {
            Ok(t) => session_token(*headers) == Ok::<Seq<char>, AnswerView>(t@),
            Err(a) => session_token(*headers) == Err::<Seq<char>, AnswerView>(a@),
        },
{
    read_bearer(
        &headers.authorization,
        "Authorization header is missing",
        "Invalid authorization header characters",
    )
}

/// The sessions that were heard of, where there is a list of them.
pub open spec fn loaded(reply: SessionsReply) -> Option<Seq<SessionView>> {
    match reply {
        SessionsReply::Loaded(v) => Some(views(v@)),
        _ => None,
    }
}

/// The sessions that were heard of; none where there is no list of them.
pub open spec fn sessions_heard(reply: SessionsReply) -> Seq<SessionView> {
    match loaded(reply) {
        Some(sessions) => sessions,
        None => Seq::empty(),
    }
}

/// The sessions that were heard of; none where there is no list of them.
pub fn sessions_of(reply: &SessionsReply) -> (r: Vec<UserSession>)
    ensures
        views(r@) == sessions_heard(*reply),
{
    match reply {
        SessionsReply::Loaded(v) => copy_sessions(v),
        _ => {
            let none: Vec<UserSession> = Vec::new();
            proof {
                assert(views(none@) =~= Seq::<SessionView>::empty());
            }
            none
        },
    }
}

/// Whether the sessions that were heard of list the id.
pub open spec fn session_listed(reply: SessionsReply, id: Seq<char>) -> bool {
    match loaded(reply) {
        Some(sessions) => has_session(sessions, id),
        None => false,
    }
}

/// Whether the sessions that were heard of list the id.
fn is_session_listed(reply: &SessionsReply, id: &str) -> (r: bool)
    ensures
        r == session_listed(*reply, id@),
{
    match reply {
        SessionsReply::Loaded(v) => session_exists(v, id),
        _ => false,
    }
}

/// What a caller without a session is answered.
pub open spec fn no_session() -> NextView {
    refused(401, "Invalid or expired session"@)
}

/// Who makes a request: the user whose token is signed and whose session is still listed. Takes in
/// one reply.
pub open spec fn caller(site: Site, headers: Headers, heard: Seq<Reply>) -> FlowView<CallerView> {
    match session_token(headers) {
        Err(a) => FlowView::Stop(NextView::Done(a)),
        Ok(token) => if token_cuts_character(token) {
            FlowView::Stop(NextView::Crash)
        } else {
            match token_content(token, site.jwt_secret@) {
                None => FlowView::Stop(no_session()),
                Some(t) => if heard.len() == 0 {
                    FlowView::Stop(
                        NextView::Perform(
                            ActionView::GetSessions {
                                key: user_object(t.username, "sessions.json"@),
                            },
                        ),
                    )
                } else {
                    match heard[0] {
                        Reply::Sessions(reply) => if session_listed(reply, t.session_id) {
                            FlowView::Go(
                                CallerView { username: t.username, session_id: t.session_id },
                                1,
                            )
                        } else {
                            FlowView::Stop(no_session())
                        },
                        _ => FlowView::Stop(NextView::Misheard),
                    }
                },
            }
        },
    }
}

/// Who makes a request.
pub fn verify_session(site: &Site, headers: &Headers, heard: &Vec<Reply>) -> (r: Flow<Caller>)
    ensures
        r@ == caller(*site, *headers, heard@),
        r matches Flow::Go(_, at) ==> at == 1 && heard@.len() >= 1,
        readable_flow(r@),
{
    let token = match extract_token(headers) {
        Ok(t) => t,
        Err(a) => {
            return Flow::Stop(Next::Done(a));
        },
    };
    if token_is_cut(token.as_str()) {
        return Flow::Stop(Next::Crash);
    }
    match verify_token_signature(token.as_str(), site.jwt_secret.as_slice()) {
        None => Flow::Stop(refuse(401, "Invalid or expired session")),
        Some((username, _, session_id)) => {
            if heard.len() == 0 {
                return Flow::Stop(
                    Next::Perform(
                        Action::GetSessions {
                            key: make_user_object(username.as_str(), "sessions.json"),
                        },
                    ),
                );
            }
            match &heard[0] {
                Reply::Sessions(reply) => if is_session_listed(reply, session_id.as_str()) {
                    Flow::Go(Caller { username, session_id }, 1)
                } else {
                    Flow::Stop(refuse(401, "Invalid or expired session"))
                },
                _ => Flow::Stop(Next::Misheard),
            }
        },
    }
}

// ---------------------------------------------------------------------------
// The administrator
// ---------------------------------------------------------------------------

/// The token of a request to the administration, or a refusal.
pub open spec fn admin_bearer(headers: Headers) -> Result<Seq<char>, AnswerView> {
    bearer(
        headers.authorization,
        "Authorization header missing"@,
        "Invalid authorization characters"@,
    )
}

/// What a caller who is not the administrator is answered.
pub open spec fn not_admin() -> NextView {
    refused(403, "Invalid admin token"@)
}

/// Whether a token is that of a session of the user `admin` that is still listed. Takes in one
/// reply where the token is signed for that user.
pub open spec fn admin_session_check(
    token: Seq<char>,
    site: Site,
    heard: Seq<Reply>,
) -> FlowView<bool> {
    if token_cuts_character(token) {
        FlowView::Stop(NextView::Crash)
    } else {
        match token_content(token, site.jwt_secret@) {
            None => FlowView::Go(false, 0),
            Some(t) => if t.username != "admin"@ {
                FlowView::Go(false, 0)
            } else if heard.len() == 0 {
                FlowView::Stop(
                    NextView::Perform(ActionView::GetSessions { key: "admin/sessions.json"@ }),
                )
            } else {
                match heard[0] {
                    Reply::Sessions(reply) => FlowView::Go(session_listed(reply, t.session_id), 1),
                    _ => FlowView::Stop(NextView::Misheard),
                }
            },
        }
    }
}

/// Whether a token is that of a session of the user `admin` that is still listed.
pub fn verify_admin_session(token: &str, site: &Site, heard: &Vec<Reply>) -> (r: Flow<bool>)
    ensures
        r@ == admin_session_check(token@, *site, heard@),
        r matches Flow::Go(_, at) ==> at <= 1 && at <= heard@.len(),
        readable_flow(r@),
{
    if token_is_cut(token) {
        return Flow::Stop(Next::Crash);
    }
    match verify_token_signature(token, site.jwt_secret.as_slice()) {
        None => Flow::Go(false, 0),
        Some((username, _, session_id)) => {
            if !same(username.as_str(), "admin") {
                return Flow::Go(false, 0);
            }
            if heard.len() == 0 {
                return Flow::Stop(
                    Next::Perform(Action::GetSessions { key: "admin/sessions.json".to_owned() }),
                );
            }
            match &heard[0] {
                Reply::Sessions(reply) => Flow::Go(
                    is_session_listed(reply, session_id.as_str()),
                    1,
                ),
                _ => Flow::Stop(Next::Misheard),
            }
        },
    }
}

/// Whether a request comes from the administrator: it carries the administrator's token, or the
/// token of a session of the user `admin` that is still listed. Takes in one reply for the latter
/// and none for the former.
pub open spec fn admin(site: Site, headers: Headers, heard: Seq<Reply>) -> FlowView<()> {
    match site.admin_token {
        None => FlowView::Stop(refused(403, "Admin panel is disabled"@)),
        Some(admin_token) => match admin_bearer(headers) {
            Err(a) => FlowView::Stop(NextView::Done(a)),
            Ok(token) => if token == admin_token@ {
                FlowView::Go((), 0)
            } else {
                match admin_session_check(token, site, heard) {
                    FlowView::Stop(n) => FlowView::Stop(n),
                    FlowView::Go(true, at) => FlowView::Go((), at),
                    FlowView::Go(false, _) => FlowView::Stop(not_admin()),
                }
            },
        },
    }
}

/// The token of a request to the administration, or a refusal.
pub fn extract_admin_token(headers: &Headers) -> (r: Result<String, Answer>)
    ensures
        match r {
            Ok(t) => admin_bearer(*headers) == Ok::<Seq<char>, AnswerView>(t@),
            Err(a) => admin_bearer(*headers) == Err::<Seq<char>, AnswerView>(a@),
        },
{
    read_bearer(
        &headers.authorization,
        "Authorization header missing",
        "Invalid authorization characters",
    )
}

/// Whether a request comes from the administrator.
pub fn verify_admin(site: &Site, headers: &Headers, heard: &Vec<Reply>) -> (r: Flow<()>)
    ensures
        r@ == admin(*site, *headers, heard@),
        r matches Flow::Go(_, at) ==> at <= 1 && at <= heard@.len(),
        readable_flow(r@),
{
    let admin_token = match &site.admin_token {
        Some(t) => t,
        None => {
            return Flow::Stop(refuse(403, "Admin panel is disabled"));
        },
    };
    let token = match extract_admin_token(headers) {
        Ok(t) => t,
        Err(a) => {
            return Flow::Stop(Next::Done(a));
        },
    };
    if same(token.as_str(), admin_token.as_str()) {
        return Flow::Go((), 0);
    }
    match verify_admin_session(token.as_str(), site, heard) {
        Flow::Stop(n) => Flow::Stop(n),
        Flow::Go(true, at) => Flow::Go((), at),
        Flow::Go(false, _) => Flow::Stop(refuse(403, "Invalid admin token")),
    }
}

} // verus!
