//! What the administrator does: logging in, looking at users, removing shares and users.

use vstd::prelude::*;
use crate::account::{new_session, sessions_with};
use crate::deletion::{delete_share_objects, prefix_deletion, Outcome, OutcomeView};
use crate::gate::{
    admin, admin_bearer, extract_admin_token, header_or, header_text, not_admin, sessions_heard,
    verify_admin, Headers, Site,
};
use crate::keys::{make_share_key, share_key, share_prefix};
use crate::model::views;
use crate::profile::{account_removal, remove_account};
use crate::protocol::{
    ask_get, readable, readable_flow, refuse, refuse_with, refused, Action, ActionView, Answer,
    AnswerView, Flow, FlowView, Next, NextView, Reply, UserStats, UserStatsView,
};
use crate::shares::{
    index_entries, index_key, index_removal, make_index_key, read_index,
    remove_share_from_user_index, sizes_total, total_size,
};
use crate::sharing::{owner_heard, owner_of};
use crate::storage::S3ListedObject;
use crate::text::{
    after_prefix, before_suffix, contains_char, ends_with, finishes, same, strip_prefix,
    strip_suffix, trim, trimmed,
};
use crate::token::{generate_token, token_text, TokenView};

verus! {

// ---------------------------------------------------------------------------
// Logging in
// ---------------------------------------------------------------------------

/// What follows the administrator's token: a session with a new id is listed, and its token goes
/// to the client.
pub open spec fn begin_admin_session(site: Site, headers: Headers, heard: Seq<Reply>) -> NextView {
    if heard.len() == 0 {
        NextView::Perform(ActionView::FreshId)
    } else {
        match heard[0] {
            Reply::Id(id) => if heard.len() <= 1 {
                NextView::Perform(ActionView::Clock)
            } else {
                match heard[1] {
                    Reply::Time(now) => if heard.len() <= 2 {
                        NextView::Perform(ActionView::GetSessions { key: "admin/sessions.json"@ })
                    } else {
                        match heard[2] {
                            Reply::Sessions(reply) => if heard.len() <= 3 {
                                NextView::Perform(
                                    ActionView::PutSessions {
                                        key: "admin/sessions.json"@,
                                        sessions: sessions_heard(reply).push(
                                            new_session(
                                                id@,
                                                now.secs as int,
                                                header_text(headers.user_agent, "Unknown"@),
                                                header_text(headers.forwarded_for, "Unknown"@),
                                            ),
                                        ),
                                    },
                                )
                            } else if heard[3] is Done || heard[3] is NotEncoded {
                                NextView::Done(
                                    AnswerView::AdminLoggedIn {
                                        token: token_text(
                                            TokenView {
                                                username: "admin"@,
                                                expiry: 0,
                                                session_id: id@,
                                            },
                                            site.jwt_secret@,
                                        ),
                                    },
                                )
                            } else {
                                match heard[3] {
                                    Reply::Failed(e) => refused(
                                        500,
                                        "Failed to save admin session: "@ + e.debug@,
                                    ),
                                    _ => NextView::Misheard,
                                }
                            },
                            _ => NextView::Misheard,
                        }
                    },
                    _ => NextView::Misheard,
                }
            },
            _ => NextView::Misheard,
        }
    }
}

/// Gives the administrator a session for their token.
pub open spec fn admin_login_next(site: Site, headers: Headers, heard: Seq<Reply>) -> NextView {
    match site.admin_token {
        None => refused(403, "Admin panel is disabled"@),
        Some(admin_token) => match admin_bearer(headers) {
            Err(a) => NextView::Done(a),
            Ok(token) => if token == admin_token@ {
                begin_admin_session(site, headers, heard)
            } else {
                not_admin()
            },
        },
    }
}

/// What follows the administrator's token.
fn do_begin_admin_session(site: &Site, headers: &Headers, heard: &Vec<Reply>) -> (r: Next)
    ensures
        r@ == begin_admin_session(*site, *headers, heard@),
        readable(r@),
{
    if heard.len() == 0 {
        return Next::Perform(Action::FreshId);
    }
    let id = match &heard[0] {
        Reply::Id(id) => id,
        _ => {
            return Next::Misheard;
        },
    };
    if heard.len() <= 1 {
        return Next::Perform(Action::Clock);
    }
    let now = match &heard[1] {
        Reply::Time(now) => *now,
        _ => {
            return Next::Misheard;
        },
    };
    let key = "admin/sessions.json".to_owned();
    if heard.len() <= 2 {
        return Next::Perform(Action::GetSessions { key });
    }
    let reply = match &heard[2] {
        Reply::Sessions(reply) => reply,
        _ => {
            return Next::Misheard;
        },
    };
    if heard.len() <= 3 {
        let sessions = sessions_with(
            reply,
            id.as_str(),
            now.secs,
            header_or(&headers.user_agent, "Unknown"),
            header_or(&headers.forwarded_for, "Unknown"),
        );
        return Next::Perform(Action::PutSessions { key, sessions });
    }
    match &heard[3] {
        Reply::Done => {},
        Reply::NotEncoded(_) => {},
        Reply::Failed(e) => {
            return refuse_with(500, "Failed to save admin session: ", e.debug.as_str());
        },
        _ => {
            return Next::Misheard;
        },
    }
    Next::Done(
        Answer::AdminLoggedIn {
            token: generate_token("admin", site.jwt_secret.as_slice(), 0, id.as_str()),
        },
    )
}

/// Gives the administrator a session for their token.
pub fn admin_login(site: &Site, headers: &Headers, heard: &Vec<Reply>) -> (r: Next)
    ensures
        r@ == admin_login_next(*site, *headers, heard@),
        readable(r@),
{
    let admin_token = match &site.admin_token {
        Some(t) => t,
        None => {
            return refuse(403, "Admin panel is disabled");
        },
    };
    match extract_admin_token(headers) {
        Err(a) => Next::Done(a),
        Ok(token) => if same(token.as_str(), admin_token.as_str()) {
            do_begin_admin_session(site, headers, heard)
        } else {
            refuse(403, "Invalid admin token")
        },
    }
}

// ---------------------------------------------------------------------------
// Looking at users
// ---------------------------------------------------------------------------

/// The user whose record has the key, if it is one: the record of a user stands directly under
/// `users/`.
pub open spec fn record_owner_name(key: Seq<char>) -> Option<Seq<char>> {
    match after_prefix(key, "users/"@) {
        Some(rest) => if finishes(key, ".json"@) && !rest.contains('/') {
            match before_suffix(rest, ".json"@) {
                Some(name) => Some(name),
                None => Some(rest),
            }
        } else {
            None
        },
        None => None,
    }
}

/// The users whose records are among some listed objects.
pub open spec fn account_names(objects: Seq<S3ListedObject>) -> Seq<Seq<char>>
    decreases objects.len(),
{
    if objects.len() == 0 {
        Seq::empty()
    } else {
        let before = account_names(objects.drop_last());
        match objects.last().key {
            Some(key) => match record_owner_name(key@) {
                Some(name) => before.push(name),
                None => before,
            },
            None => before,
        }
    }
}

/// The user whose record has the key, if it is one.
fn read_record_owner_name(key: &String) -> (r: Option<String>)
    ensures
        match r {
            Some(name) => record_owner_name(key@) == Some(name@),
            None => record_owner_name(key@) is None,
        },
{
    match strip_prefix(key.as_str(), "users/") {
        Some(rest) => if ends_with(key.as_str(), ".json") && !contains_char(rest.as_str(), '/') {
            match strip_suffix(rest.as_str(), ".json") {
                Some(name) => Some(name),
                None => Some(rest),
            }
        } else {
            None
        },
        None => None,
    }
}

/// The users whose records are among some listed objects.
fn read_account_names(objects: &Vec<S3ListedObject>) -> (r: Vec<String>)
    ensures
        views(r@) == account_names(objects@),
{
    let mut r: Vec<String> = Vec::new();
    let mut i: usize = 0;
    proof {
        assert(views(r@) =~= account_names(objects@.take(0)));
    }
    while i < objects.len()
        invariant
            i <= objects@.len(),
            views(r@) == account_names(objects@.take(i as int)),
        decreases objects@.len() - i,
    {
        let ghost before = r@;
        proof {
            assert(objects@.take(i + 1).drop_last() =~= objects@.take(i as int));
            assert(objects@.take(i + 1).last() == objects@[i as int]);
        }
        if let Some(key) = &objects[i].key {
            if let Some(name) = read_record_owner_name(key) {
                r.push(name);
                proof {
                    assert(views(r@) =~= views(before).push(name@));
                }
            }
        }
        i = i + 1;
    }
    proof {
        assert(objects@.take(objects@.len() as int) =~= objects@);
    }
    r
}

/// What is said of the users from place `i` on, after what was said of those before: the entries
/// of their index and the sum of the sizes in it.
pub open spec fn user_stats(
    names: Seq<Seq<char>>,
    i: int,
    said: Seq<UserStatsView>,
    heard: Seq<Reply>,
    at: int,
) -> NextView
    decreases names.len() - i,
{
    if i < 0 || i >= names.len() {
        NextView::Done(AnswerView::Stats { users: said })
    } else if at >= heard.len() {
        NextView::Perform(ActionView::Get { key: index_key(names[i]) })
    } else {
        match heard[at] {
            Reply::Object(reply) => match sizes_total(index_entries(reply)) {
                Some(total_size) => user_stats(
                    names,
                    i + 1,
                    said.push(
                        UserStatsView {
                            username: names[i],
                            total_size,
                            shares: index_entries(reply),
                        },
                    ),
                    heard,
                    at + 1,
                ),
                None => NextView::Crash,
            },
            _ => NextView::Misheard,
        }
    }
}

/// What is said of some users.
fn do_user_stats(names: &Vec<String>, heard: &Vec<Reply>, start: usize) -> (r: Next)
    requires
        start <= heard@.len(),
    ensures
        r@ == user_stats(views(names@), 0, Seq::empty(), heard@, start as int),
        readable(r@),
{
    let ghost all = views(names@);
    let mut said: Vec<UserStats> = Vec::new();
    let mut at: usize = start;
    let mut i: usize = 0;
    proof {
        assert(views(said@) =~= Seq::<UserStatsView>::empty());
    }
    while i < names.len()
        invariant
            i <= names@.len(),
            all == views(names@),
            start <= at <= heard@.len(),
            user_stats(all, i as int, views(said@), heard@, at as int) == user_stats(
                all,
                0,
                Seq::empty(),
                heard@,
                start as int,
            ),
        decreases names@.len() - i,
    {
        proof {
            assert(all[i as int] == names@[i as int]@);
        }
        if at >= heard.len() {
            return ask_get(make_index_key(names[i].as_str()));
        }
        match &heard[at] {
            Reply::Object(reply) => {
                let shares = read_index(reply);
                match total_size(&shares) {
                    Some(total_size) => {
                        let ghost before = said@;
                        let stats = UserStats { username: names[i].clone(), total_size, shares };
                        let ghost one = stats@;
                        said.push(stats);
                        proof {
                            assert(views(said@) =~= views(before).push(one));
                        }
                    },
                    None => {
                        return Next::Crash;
                    },
                }
            },
            _ => {
                return Next::Misheard;
            },
        }
        at = at + 1;
        i = i + 1;
    }
    Next::Done(Answer::Stats { users: said })
}

/// What the administrator sees of all users.
pub open spec fn admin_get_stats_next(site: Site, headers: Headers, heard: Seq<Reply>) -> NextView {
    match admin(site, headers, heard) {
        FlowView::Stop(n) => n,
        FlowView::Go(_, at) => if at >= heard.len() {
            NextView::Perform(ActionView::ListAll { prefix: "users/"@ })
        } else {
            match heard[at] {
                Reply::Objects(objects) => user_stats(
                    account_names(objects@),
                    0,
                    Seq::empty(),
                    heard,
                    at + 1,
                ),
                Reply::Failed(e) => refused(500, e.display@),
                _ => NextView::Misheard,
            }
        },
    }
}

/// What the administrator sees of all users.
pub fn admin_get_stats(site: &Site, headers: &Headers, heard: &Vec<Reply>) -> (r: Next)
    ensures
        r@ == admin_get_stats_next(*site, *headers, heard@),
        readable(r@),
{
    let at: usize = match verify_admin(site, headers, heard) {
        Flow::Stop(n) => {
            return n;
        },
        Flow::Go(_, at) => at,
    };
    if at >= heard.len() {
        return Next::Perform(Action::ListAll { prefix: "users/".to_owned() });
    }
    match &heard[at] {
        Reply::Objects(objects) => {
            let names = read_account_names(objects);
            do_user_stats(&names, heard, at + 1)
        },
        Reply::Failed(e) => refuse(500, e.display.as_str()),
        _ => Next::Misheard,
    }
}

// ---------------------------------------------------------------------------
// Removing a share
// ---------------------------------------------------------------------------

/// The user whose index has the key, if it is one.
pub open spec fn index_owner(key: Seq<char>) -> Option<Seq<char>> {
    match after_prefix(key, "users/"@) {
        Some(rest) => before_suffix(rest, "/public_shares.json"@),
        None => None,
    }
}

/// The user whose index has the key, if it is one.
fn read_index_owner(key: &String) -> (r: Option<String>)
    ensures
        match r {
            Some(name) => index_owner(key@) == Some(name@),
            None => index_owner(key@) is None,
        },
{
    match strip_prefix(key.as_str(), "users/") {
        Some(rest) => strip_suffix(rest.as_str(), "/public_shares.json"),
        None => None,
    }
}

/// Takes a share out of the indices among some listed objects, from place `i` on.
pub open spec fn removal_from_all(
    objects: Seq<S3ListedObject>,
    i: int,
    uuid: Seq<char>,
    heard: Seq<Reply>,
    at: int,
) -> FlowView<()>
    decreases objects.len() - i,
{
    if i < 0 || i >= objects.len() {
        FlowView::Go((), at)
    } else {
        let owner = match objects[i].key {
            Some(key) => index_owner(key@),
            None => None,
        };
        match owner {
            Some(name) => match index_removal(name, uuid, heard, at) {
                FlowView::Stop(n) => FlowView::Stop(n),
                FlowView::Go(_, at) => removal_from_all(objects, i + 1, uuid, heard, at),
            },
            None => removal_from_all(objects, i + 1, uuid, heard, at),
        }
    }
}

/// Takes a share out of the indices among some listed objects.
fn do_removal_from_all(
    objects: &Vec<S3ListedObject>,
    uuid: &str,
    heard: &Vec<Reply>,
    start: usize,
) -> (r: Flow<()>)
    requires
        start <= heard@.len(),
    ensures
        r@ == removal_from_all(objects@, 0, uuid@, heard@, start as int),
        r matches Flow::Go(_, a) ==> start <= a <= heard@.len(),
        readable_flow(r@),
{
    let mut at: usize = start;
    let mut i: usize = 0;
    while i < objects.len()
        invariant
            i <= objects@.len(),
            start <= at <= heard@.len(),
            removal_from_all(objects@, i as int, uuid@, heard@, at as int) == removal_from_all(
                objects@,
                0,
                uuid@,
                heard@,
                start as int,
            ),
        decreases objects@.len() - i,
    {
        if let Some(key) = &objects[i].key {
            if let Some(name) = read_index_owner(key) {
                match remove_share_from_user_index(name.as_str(), uuid, heard, at) {
                    Flow::Stop(n) => {
                        return Flow::Stop(n);
                    },
                    Flow::Go(_, next) => {
                        at = next;
                    },
                }
            }
        }
        i = i + 1;
    }
    Flow::Go((), at)
}

/// Takes a share that was removed out of the index of its owner, or out of all indices that one
/// page lists where the owner is not known.
pub open spec fn forget_share(
    owner: Seq<char>,
    uuid: Seq<char>,
    heard: Seq<Reply>,
    at: int,
) -> FlowView<()> {
    if owner.len() > 0 {
        index_removal(owner, uuid, heard, at)
    } else if at >= heard.len() {
        FlowView::Stop(NextView::Perform(ActionView::ListPage { prefix: "users/"@ }))
    } else {
        match heard[at] {
            Reply::Objects(objects) => removal_from_all(objects@, 0, uuid, heard, at + 1),
            Reply::Failed(_) => FlowView::Go((), at + 1),
            _ => FlowView::Stop(NextView::Misheard),
        }
    }
}

/// Removes a share for the administrator.
pub open spec fn admin_delete_share_next(
    site: Site,
    headers: Headers,
    uuid: Seq<char>,
    heard: Seq<Reply>,
) -> NextView {
    match admin(site, headers, heard) {
        FlowView::Stop(n) => n,
        FlowView::Go(_, at) => if at >= heard.len() {
            NextView::Perform(ActionView::Get { key: share_key(uuid, "owner.txt"@) })
        } else {
            match heard[at] {
                Reply::Object(reply) => match prefix_deletion(share_prefix(uuid), heard, at + 1) {
                    FlowView::Stop(n) => n,
                    FlowView::Go(OutcomeView::Failed(message), _) => refused(500, message),
                    FlowView::Go(OutcomeView::Done, at) => match forget_share(
                        owner_heard(reply),
                        uuid,
                        heard,
                        at,
                    ) {
                        FlowView::Stop(n) => n,
                        FlowView::Go(_, _) => NextView::Done(AnswerView::Success),
                    },
                },
                _ => NextView::Misheard,
            }
        },
    }
}

/// Takes a share that was removed out of the index of its owner, or out of all.
fn do_forget_share(owner: &str, uuid: &str, heard: &Vec<Reply>, at: usize) -> (r: Flow<()>)
    requires
        at <= heard@.len(),
    ensures
        r@ == forget_share(owner@, uuid@, heard@, at as int),
        r matches Flow::Go(_, a) ==> at <= a <= heard@.len(),
        readable_flow(r@),
{
    if !owner.is_empty() {
        return remove_share_from_user_index(owner, uuid, heard, at);
    }
    if at >= heard.len() {
        return Flow::Stop(Next::Perform(Action::ListPage { prefix: "users/".to_owned() }));
    }
    match &heard[at] {
        Reply::Objects(objects) => do_removal_from_all(objects, uuid, heard, at + 1),
        Reply::Failed(_) => Flow::Go((), at + 1),
        _ => Flow::Stop(Next::Misheard),
    }
}

/// Removes a share for the administrator.
pub fn admin_delete_share(site: &Site, headers: &Headers, uuid: &str, heard: &Vec<Reply>) -> (r:
    Next)
    ensures
        r@ == admin_delete_share_next(*site, *headers, uuid@, heard@),
        readable(r@),
{
    let at: usize = match verify_admin(site, headers, heard) {
        Flow::Stop(n) => {
            return n;
        },
        Flow::Go(_, at) => at,
    };
    if at >= heard.len() {
        return ask_get(make_share_key(uuid, "owner.txt"));
    }
    let owner = match &heard[at] {
        Reply::Object(reply) => owner_of(reply),
        _ => {
            return Next::Misheard;
        },
    };
    let at: usize = match delete_share_objects(uuid, heard, at + 1) {
        Flow::Stop(n) => {
            return n;
        },
        Flow::Go(Outcome::Failed(message), _) => {
            return Next::Done(Answer::Refused { status: 500, message });
        },
        Flow::Go(Outcome::Done, at) => at,
    };
    match do_forget_share(owner.as_str(), uuid, heard, at) {
        Flow::Stop(n) => n,
        Flow::Go(_, _) => Next::Done(Answer::Success),
    }
}

// ---------------------------------------------------------------------------
// Removing a user
// ---------------------------------------------------------------------------

/// Removes a user for the administrator.
pub open spec fn admin_delete_user_next(
    site: Site,
    headers: Headers,
    username: Seq<char>,
    heard: Seq<Reply>,
) -> NextView {
    match admin(site, headers, heard) {
        FlowView::Stop(n) => n,
        FlowView::Go(_, at) => if trimmed(username).len() == 0 {
            refused(400, "Username is empty"@)
        } else {
            account_removal(trimmed(username), heard, at)
        },
    }
}

/// Removes a user for the administrator.
pub fn admin_delete_user(site: &Site, headers: &Headers, username: &str, heard: &Vec<Reply>) -> (r:
    Next)
    ensures
        r@ == admin_delete_user_next(*site, *headers, username@, heard@),
        readable(r@),
{
    match verify_admin(site, headers, heard) {
        Flow::Stop(n) => n,
        Flow::Go(_, at) => {
            let name = trim(username);
            if name.as_str().is_empty() {
                return refuse(400, "Username is empty");
            }
            remove_account(name.as_str(), heard, at)
        },
    }
}

} // verus!
