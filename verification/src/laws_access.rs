//! Laws of access: who is served, and what the others are answered.

use vstd::prelude::*;
use crate::api::{answer_next, for_admin, for_users, Request};
use crate::devices::sessions_key;
use crate::gate::{
    admin, admin_bearer, caller, no_session, not_admin, session_listed, session_token, Header,
    Headers, Site,
};
use crate::protocol::{refused, ActionView, AnswerView, FlowView, NextView, Reply};
use crate::text::after_prefix;
use crate::token::{token_content, token_cuts_character};

verus! {

/// A request for users is answered only to a caller with a session: all that is done for anyone
/// else is to look up the sessions of the user that a signed token names.
pub proof fn only_callers_are_served(
    site: Site,
    headers: Headers,
    request: Request,
    heard: Seq<Reply>,
)
    requires
        for_users(request),
        !(caller(site, headers, heard) is Go),
    ensures
        match answer_next(site, headers, request, heard) {
            NextView::Perform(a) => {
                &&& session_token(headers) matches Ok(token)
                &&& token_content(token, site.jwt_secret@) matches Some(t)
                &&& a == (ActionView::GetSessions { key: sessions_key(t.username) })
                &&& heard.len() == 0
            },
            NextView::Done(a) => a is Refused,
            NextView::Crash | NextView::Misheard => true,
        },
{
}

/// A caller's token is signed, and their session is listed.
pub proof fn callers_have_a_session(site: Site, headers: Headers, heard: Seq<Reply>)
    ensures
        caller(site, headers, heard) matches FlowView::Go(c, _) ==> {
            &&& session_token(headers) matches Ok(token)
            &&& token_content(token, site.jwt_secret@) matches Some(t)
            &&& t.username == c.username
            &&& t.session_id == c.session_id
            &&& heard[0] matches Reply::Sessions(reply)
            &&& session_listed(reply, c.session_id)
        },
{
}

/// Without a token, with one that is not signed, and with one whose session is not listed, a
/// request for users is answered 401; a header that cannot be read is answered 400.
pub proof fn strangers_are_refused(
    site: Site,
    headers: Headers,
    request: Request,
    heard: Seq<Reply>,
)
    requires
        for_users(request),
    ensures
        ({
            let n = answer_next(site, headers, request, heard);
            match headers.authorization {
                Header::Missing => n == refused(401, "Authorization header is missing"@),
                Header::Unreadable => n == refused(
                    400,
                    "Invalid authorization header characters"@,
                ),
                Header::Text(s) => match after_prefix(s@, "Bearer "@) {
                    None => n == refused(401, "Authorization scheme must be Bearer"@),
                    Some(token) => !token_cuts_character(token) ==> match token_content(
                        token,
                        site.jwt_secret@,
                    ) {
                        None => n == no_session(),
                        Some(t) => heard.len() > 0 && (heard[0] matches Reply::Sessions(reply)
                            && !session_listed(reply, t.session_id)) ==> n == no_session(),
                    },
                },
            }
        }),
{
}

/// Without a token, a request for the administrator is answered 401; with one that is neither the
/// administrator's nor that of a listed session of the user `admin`, it is answered 403; a header
/// that cannot be read is answered 400.
pub proof fn others_than_the_administrator_are_refused(
    site: Site,
    headers: Headers,
    request: Request,
    heard: Seq<Reply>,
)
    requires
        for_admin(request),
        site.admin_token is Some,
    ensures
        ({
            let n = answer_next(site, headers, request, heard);
            match headers.authorization {
                Header::Missing => n == refused(401, "Authorization header missing"@),
                Header::Unreadable => n == refused(400, "Invalid authorization characters"@),
                Header::Text(s) => match after_prefix(s@, "Bearer "@) {
                    None => n == refused(401, "Authorization scheme must be Bearer"@),
                    Some(token) => token != site.admin_token->0@ && !token_cuts_character(token)
                        ==> match token_content(token, site.jwt_secret@) {
                        None => n == not_admin(),
                        Some(t) => {
                            &&& t.username != "admin"@ ==> n == not_admin()
                            &&& heard.len() > 0 && (heard[0] matches Reply::Sessions(reply)
                                && !session_listed(reply, t.session_id)) ==> n == not_admin()
                        },
                    },
                },
            }
        }),
{
}

/// A request for the administrator is answered to no one else: all that is done for anyone else is
/// to look up the administrator's sessions for a signed token of the user `admin`.
pub proof fn only_the_administrator_is_served(
    site: Site,
    headers: Headers,
    request: Request,
    heard: Seq<Reply>,
)
    requires
        for_admin(request),
        !(admin(site, headers, heard) is Go),
    ensures
        match answer_next(site, headers, request, heard) {
            NextView::Perform(a) => {
                &&& admin_bearer(headers) matches Ok(token)
                &&& token_content(token, site.jwt_secret@) matches Some(t)
                &&& t.username == "admin"@
                &&& a == (ActionView::GetSessions { key: "admin/sessions.json"@ })
                &&& heard.len() == 0
            },
            NextView::Done(a) => a is Refused,
            NextView::Crash | NextView::Misheard => true,
        },
{
}

/// Without an administrator's token on the server there is no administration, nor any way to log
/// in to it.
pub proof fn no_token_no_administration(
    site: Site,
    headers: Headers,
    request: Request,
    heard: Seq<Reply>,
)
    requires
        site.admin_token is None,
        for_admin(request) || request is AdminLogin,
    ensures
        answer_next(site, headers, request, heard) == refused(403, "Admin panel is disabled"@),
{
}

/// Only the administrator's token itself opens a session of the administrator.
pub proof fn admin_sessions_need_the_token(site: Site, headers: Headers, heard: Seq<Reply>)
    requires
        answer_next(site, headers, Request::AdminLogin, heard) is Perform || answer_next(
            site,
            headers,
            Request::AdminLogin,
            heard,
        ) matches NextView::Done(AnswerView::AdminLoggedIn { .. }),
    ensures
        site.admin_token matches Some(t) && (admin_bearer(headers) matches Ok(token) && token
            == t@),
{
}

} // verus!
