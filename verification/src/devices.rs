//! The lists of sessions: looking at them, ending a session, naming a session.

use vstd::prelude::*;
use crate::gate::{
    admin, admin_bearer, caller, extract_admin_token, sessions_heard, sessions_of, verify_admin,
    verify_session, Headers, Site,
};
use crate::keys::{make_user_object, user_object};
use crate::model::{opt_view, views};
use crate::protocol::{
    readable, refuse, refuse_with, refused, Action, ActionView, Answer, AnswerView, Flow, FlowView,
    Next, NextView, Reply, SessionEntry, SessionEntryView, SessionsReply,
};
use crate::session::{
    has_session, name_for_session, remove_session, rename_session, session_name, with_name,
    without_session, SessionView, UserSession,
};
use crate::text::same;
use crate::token::{token_content, token_cuts_character, token_is_cut, verify_token_signature};

verus! {

/// The sessions of a list as the client sees them, the current one marked.
pub open spec fn session_entries(
    sessions: Seq<SessionView>,
    current: Option<Seq<char>>,
) -> Seq<SessionEntryView> {
    Seq::new(
        sessions.len(),
        |i: int|
            SessionEntryView {
                session: sessions[i],
                is_current: current == Some(sessions[i].id),
            },
    )
}

/// The sessions of a list as the client sees them.
fn make_session_entries(reply: &SessionsReply, current: &Option<String>) -> (r: Vec<SessionEntry>)
    ensures
        views(r@) == session_entries(sessions_heard(*reply), opt_view(*current)),
{
    let sessions = sessions_of(reply);
    let ghost all = views(sessions@);
    let ghost wanted = session_entries(all, opt_view(*current));
    let mut r: Vec<SessionEntry> = Vec::new();
    for session in it: sessions
        invariant
            it.seq() == sessions@,
            all == views(sessions@),
            wanted == session_entries(all, opt_view(*current)),
            views(r@) == wanted.take(it.index()),
    {
        let ghost before = r@;
        let ghost i = it.index();
        let is_current = match current {
            Some(id) => same(id.as_str(), session.id.as_str()),
            None => false,
        };
        r.push(SessionEntry { session, is_current });
        proof {
            assert(session@ == all[i]);
            assert(views(r@) =~= views(before).push(wanted[i]));
            assert(wanted.take(i + 1) =~= wanted.take(i).push(wanted[i]));
        }
    }
    proof {
        assert(wanted.take(wanted.len() as int) =~= wanted);
    }
    r
}

/// Shows a list of sessions.
pub open spec fn list_sessions(
    key: Seq<char>,
    current: Option<Seq<char>>,
    heard: Seq<Reply>,
    at: int,
) -> NextView {
    if at >= heard.len() {
        NextView::Perform(ActionView::GetSessions { key })
    } else {
        match heard[at] {
            Reply::Sessions(reply) => NextView::Done(
                AnswerView::Sessions { sessions: session_entries(sessions_heard(reply), current) },
            ),
            _ => NextView::Misheard,
        }
    }
}

/// Shows a list of sessions.
fn do_list_sessions(key: String, current: &Option<String>, heard: &Vec<Reply>, at: usize) -> (r:
    Next)
    requires
        at <= heard@.len(),
    ensures
        r@ == list_sessions(key@, opt_view(*current), heard@, at as int),
        readable(r@),
{
    if at >= heard.len() {
        return Next::Perform(Action::GetSessions { key });
    }
    match &heard[at] {
        Reply::Sessions(reply) => Next::Done(
            Answer::Sessions { sessions: make_session_entries(reply, current) },
        ),
        _ => Next::Misheard,
    }
}

/// Stores a changed list of sessions.
pub open spec fn store_sessions(
    key: Seq<char>,
    sessions: Seq<SessionView>,
    failure: Seq<char>,
    heard: Seq<Reply>,
    at: int,
) -> NextView {
    if at >= heard.len() {
        NextView::Perform(ActionView::PutSessions { key, sessions })
    } else {
        match heard[at] {
            Reply::Done => NextView::Done(AnswerView::Success),
            Reply::NotEncoded(message) => refused(500, message@),
            Reply::Failed(e) => refused(500, failure + e.debug@),
            _ => NextView::Misheard,
        }
    }
}

/// Stores a changed list of sessions.
fn do_store_sessions(
    key: String,
    sessions: Vec<UserSession>,
    failure: &str,
    heard: &Vec<Reply>,
    at: usize,
) -> (r: Next)
    requires
        at <= heard@.len(),
    ensures
        r@ == store_sessions(key@, views(sessions@), failure@, heard@, at as int),
        readable(r@),
{
    if at >= heard.len() {
        return Next::Perform(Action::PutSessions { key, sessions });
    }
    match &heard[at] {
        Reply::Done => Next::Done(Answer::Success),
        Reply::NotEncoded(message) => refuse(500, message.as_str()),
        Reply::Failed(e) => refuse_with(500, failure, e.debug.as_str()),
        _ => Next::Misheard,
    }
}

/// Ends the sessions of a list that have the id. A list without it is not written.
pub open spec fn revoke_session(
    key: Seq<char>,
    id: Seq<char>,
    heard: Seq<Reply>,
    at: int,
) -> NextView {
    if at >= heard.len() {
        NextView::Perform(ActionView::GetSessions { key })
    } else {
        match heard[at] {
            Reply::Sessions(reply) => {
                let sessions = sessions_heard(reply);
                let kept = without_session(sessions, id);
                if kept.len() < sessions.len() {
                    store_sessions(key, kept, "Failed to update sessions: "@, heard, at + 1)
                } else {
                    NextView::Done(AnswerView::Success)
                }
            },
            _ => NextView::Misheard,
        }
    }
}

/// Ends the sessions of a list that have the id.
fn do_revoke_session(key: String, id: &str, heard: &Vec<Reply>, at: usize) -> (r: Next)
    requires
        at <= heard@.len(),
    ensures
        r@ == revoke_session(key@, id@, heard@, at as int),
        readable(r@),
{
    if at >= heard.len() {
        return Next::Perform(Action::GetSessions { key });
    }
    match &heard[at] {
        Reply::Sessions(reply) => {
            let sessions = sessions_of(reply);
            let kept = remove_session(&sessions, id);
            proof {
                assert(kept@.len() == views(kept@).len());
                assert(sessions@.len() == views(sessions@).len());
            }
            if kept.len() < sessions.len() {
                do_store_sessions(key, kept, "Failed to update sessions: ", heard, at + 1)
            } else {
                Next::Done(Answer::Success)
            }
        },
        _ => Next::Misheard,
    }
}

/// Names the first session of a list that has the id. A list without it is not written.
pub open spec fn name_session(
    key: Seq<char>,
    id: Seq<char>,
    name: Seq<char>,
    failure: Seq<char>,
    heard: Seq<Reply>,
    at: int,
) -> NextView {
    if at >= heard.len() {
        NextView::Perform(ActionView::GetSessions { key })
    } else {
        match heard[at] {
            Reply::Sessions(reply) => {
                let sessions = sessions_heard(reply);
                if has_session(sessions, id) {
                    store_sessions(
                        key,
                        with_name(sessions, id, session_name(name)),
                        failure,
                        heard,
                        at + 1,
                    )
                } else {
                    NextView::Done(AnswerView::Success)
                }
            },
            _ => NextView::Misheard,
        }
    }
}

/// Names the first session of a list that has the id.
fn do_name_session(
    key: String,
    id: &str,
    name: &str,
    failure: &str,
    heard: &Vec<Reply>,
    at: usize,
) -> (r: Next)
    requires
        at <= heard@.len(),
    ensures
        r@ == name_session(key@, id@, name@, failure@, heard@, at as int),
        readable(r@),
{
    if at >= heard.len() {
        return Next::Perform(Action::GetSessions { key });
    }
    match &heard[at] {
        Reply::Sessions(reply) => {
            let sessions = sessions_of(reply);
            match rename_session(&sessions, id, &name_for_session(name)) {
                Some(renamed) => do_store_sessions(key, renamed, failure, heard, at + 1),
                None => Next::Done(Answer::Success),
            }
        },
        _ => Next::Misheard,
    }
}

// ---------------------------------------------------------------------------
// A user's own sessions
// ---------------------------------------------------------------------------

/// Where the sessions of a user are listed.
pub open spec fn sessions_key(username: Seq<char>) -> Seq<char> {
    user_object(username, "sessions.json"@)
}

/// Shows the caller's sessions.
pub open spec fn get_user_sessions_next(
    site: Site,
    headers: Headers,
    heard: Seq<Reply>,
) -> NextView {
    match caller(site, headers, heard) {
        FlowView::Stop(n) => n,
        FlowView::Go(c, _) => list_sessions(
            sessions_key(c.username),
            Some(c.session_id),
            heard,
            1,
        ),
    }
}

/// Shows the caller's sessions.
pub fn get_user_sessions(site: &Site, headers: &Headers, heard: &Vec<Reply>) -> (r: Next)
    ensures
        r@ == get_user_sessions_next(*site, *headers, heard@),
        readable(r@),
{
    match verify_session(site, headers, heard) {
        Flow::Stop(n) => n,
        Flow::Go(c, _) => {
            let key = make_user_object(c.username.as_str(), "sessions.json");
            do_list_sessions(key, &Some(c.session_id), heard, 1)
        },
    }
}

/// Ends a session of the caller.
pub open spec fn revoke_user_session_next(
    site: Site,
    headers: Headers,
    session_id: Seq<char>,
    heard: Seq<Reply>,
) -> NextView {
    match caller(site, headers, heard) {
        FlowView::Stop(n) => n,
        FlowView::Go(c, _) => revoke_session(sessions_key(c.username), session_id, heard, 1),
    }
}

/// Ends a session of the caller.
pub fn revoke_user_session(
    site: &Site,
    headers: &Headers,
    session_id: &str,
    heard: &Vec<Reply>,
) -> (r: Next)
    ensures
        r@ == revoke_user_session_next(*site, *headers, session_id@, heard@),
        readable(r@),
{
    match verify_session(site, headers, heard) {
        Flow::Stop(n) => n,
        Flow::Go(c, _) => {
            let key = make_user_object(c.username.as_str(), "sessions.json");
            do_revoke_session(key, session_id, heard, 1)
        },
    }
}

/// Names a session of the caller.
pub open spec fn rename_user_session_next(
    site: Site,
    headers: Headers,
    session_id: Seq<char>,
    name: Seq<char>,
    heard: Seq<Reply>,
) -> NextView {
    match caller(site, headers, heard) {
        FlowView::Stop(n) => n,
        FlowView::Go(c, _) => name_session(
            sessions_key(c.username),
            session_id,
            name,
            "Failed to update session: "@,
            heard,
            1,
        ),
    }
}

/// Names a session of the caller.
pub fn rename_user_session(
    site: &Site,
    headers: &Headers,
    session_id: &str,
    name: &str,
    heard: &Vec<Reply>,
) -> (r: Next)
    ensures
        r@ == rename_user_session_next(*site, *headers, session_id@, name@, heard@),
        readable(r@),
{
    match verify_session(site, headers, heard) {
        Flow::Stop(n) => n,
        Flow::Go(c, _) => {
            let key = make_user_object(c.username.as_str(), "sessions.json");
            do_name_session(key, session_id, name, "Failed to update session: ", heard, 1)
        },
    }
}

// ---------------------------------------------------------------------------
// Sessions in the hands of the administrator
// ---------------------------------------------------------------------------

/// Shows a user's sessions to the administrator.
pub open spec fn admin_get_user_sessions_next(
    site: Site,
    headers: Headers,
    username: Seq<char>,
    heard: Seq<Reply>,
) -> NextView {
    match admin(site, headers, heard) {
        FlowView::Stop(n) => n,
        FlowView::Go(_, at) => list_sessions(sessions_key(username), None, heard, at),
    }
}

/// Shows a user's sessions to the administrator.
pub fn admin_get_user_sessions(
    site: &Site,
    headers: &Headers,
    username: &str,
    heard: &Vec<Reply>,
) -> (r: Next)
    ensures
        r@ == admin_get_user_sessions_next(*site, *headers, username@, heard@),
        readable(r@),
{
    match verify_admin(site, headers, heard) {
        Flow::Stop(n) => n,
        Flow::Go(_, at) => {
            do_list_sessions(make_user_object(username, "sessions.json"), &None, heard, at)
        },
    }
}

/// Ends a session of a user for the administrator.
pub open spec fn admin_revoke_user_session_next(
    site: Site,
    headers: Headers,
    username: Seq<char>,
    session_id: Seq<char>,
    heard: Seq<Reply>,
) -> NextView {
    match admin(site, headers, heard) {
        FlowView::Stop(n) => n,
        FlowView::Go(_, at) => revoke_session(sessions_key(username), session_id, heard, at),
    }
}

/// Ends a session of a user for the administrator.
pub fn admin_revoke_user_session(
    site: &Site,
    headers: &Headers,
    username: &str,
    session_id: &str,
    heard: &Vec<Reply>,
) -> (r: Next)
    ensures
        r@ == admin_revoke_user_session_next(*site, *headers, username@, session_id@, heard@),
        readable(r@),
{
    match verify_admin(site, headers, heard) {
        Flow::Stop(n) => n,
        Flow::Go(_, at) => {
            do_revoke_session(make_user_object(username, "sessions.json"), session_id, heard, at)
        },
    }
}

/// The session whose token a request of the administrator carries, if it is one.
pub open spec fn admin_session(site: Site, headers: Headers) -> Option<Seq<char>> {
    match admin_bearer(headers) {
        Ok(token) => match token_content(token, site.jwt_secret@) {
            Some(t) => Some(t.session_id),
            None => None,
        },
        Err(_) => None,
    }
}

/// Whether reading the token of a request of the administrator would take a character apart.
pub open spec fn admin_token_cut(headers: Headers) -> bool {
    match admin_bearer(headers) {
        Ok(token) => token_cuts_character(token),
        Err(_) => false,
    }
}

/// Shows the administrator's sessions.
pub open spec fn admin_get_sessions_next(
    site: Site,
    headers: Headers,
    heard: Seq<Reply>,
) -> NextView {
    match admin(site, headers, heard) {
        FlowView::Stop(n) => n,
        FlowView::Go(_, at) => if at < heard.len() && admin_token_cut(headers) {
            NextView::Crash
        } else {
            list_sessions("admin/sessions.json"@, admin_session(site, headers), heard, at)
        },
    }
}

/// Shows the administrator's sessions.
pub fn admin_get_sessions(site: &Site, headers: &Headers, heard: &Vec<Reply>) -> (r: Next)
    ensures
        r@ == admin_get_sessions_next(*site, *headers, heard@),
        readable(r@),
{
    let at: usize = match verify_admin(site, headers, heard) {
        Flow::Stop(n) => {
            return n;
        },
        Flow::Go(_, at) => at,
    };
    let key = "admin/sessions.json".to_owned();
    if at >= heard.len() {
        return Next::Perform(Action::GetSessions { key });
    }
    let current = match extract_admin_token(headers) {
        Ok(token) => {
            if token_is_cut(token.as_str()) {
                return Next::Crash;
            }
            match verify_token_signature(token.as_str(), site.jwt_secret.as_slice()) {
                Some((_, _, session_id)) => Some(session_id),
                None => None,
            }
        },
        Err(_) => None,
    };
    do_list_sessions(key, &current, heard, at)
}

/// Ends a session of the administrator.
pub open spec fn admin_revoke_session_next(
    site: Site,
    headers: Headers,
    session_id: Seq<char>,
    heard: Seq<Reply>,
) -> NextView {
    match admin(site, headers, heard) {
        FlowView::Stop(n) => n,
        FlowView::Go(_, at) => revoke_session("admin/sessions.json"@, session_id, heard, at),
    }
}

/// Ends a session of the administrator.
pub fn admin_revoke_session(
    site: &Site,
    headers: &Headers,
    session_id: &str,
    heard: &Vec<Reply>,
) -> (r: Next)
    ensures
        r@ == admin_revoke_session_next(*site, *headers, session_id@, heard@),
        readable(r@),
{
    match verify_admin(site, headers, heard) {
        Flow::Stop(n) => n,
        Flow::Go(_, at) => {
            do_revoke_session("admin/sessions.json".to_owned(), session_id, heard, at)
        },
    }
}

/// Names a session of the administrator.
pub open spec fn admin_rename_session_next(
    site: Site,
    headers: Headers,
    session_id: Seq<char>,
    name: Seq<char>,
    heard: Seq<Reply>,
) -> NextView {
    match admin(site, headers, heard) {
        FlowView::Stop(n) => n,
        FlowView::Go(_, at) => name_session(
            "admin/sessions.json"@,
            session_id,
            name,
            "Failed to update admin session: "@,
            heard,
            at,
        ),
    }
}

/// Names a session of the administrator.
pub fn admin_rename_session(
    site: &Site,
    headers: &Headers,
    session_id: &str,
    name: &str,
    heard: &Vec<Reply>,
) -> (r: Next)
    ensures
        r@ == admin_rename_session_next(*site, *headers, session_id@, name@, heard@),
        readable(r@),
{
    match verify_admin(site, headers, heard) {
        Flow::Stop(n) => n,
        Flow::Go(_, at) => {
            let key = "admin/sessions.json".to_owned();
            do_name_session(key, session_id, name, "Failed to update admin session: ", heard, at)
        },
    }
}

} // verus!
