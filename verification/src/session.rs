//! Sessions of users and of administrators.

use vstd::prelude::*;
use crate::model::{clone_opt, opt_view, views};
use crate::text::{first_chars, same, take_chars, trim, trimmed};

verus! {

/// A session.
pub struct UserSession {
    pub id: String,
    pub created_at: i64,
    pub user_agent: String,
    pub ip: String,
    pub expires_at: i64,
    pub name: Option<String>,
}

/// What a session says.
pub struct SessionView {
    pub id: Seq<char>,
    pub created_at: int,
    pub user_agent: Seq<char>,
    pub ip: Seq<char>,
    pub expires_at: int,
    pub name: Option<Seq<char>>,
}

impl View for UserSession {
    type V = SessionView;

    open spec fn view(&self) -> SessionView {
        SessionView {
            id: self.id@,
            created_at: self.created_at as int,
            user_agent: self.user_agent@,
            ip: self.ip@,
            expires_at: self.expires_at as int,
            name: opt_view(self.name),
        }
    }
}

impl UserSession {
    /// A copy of the session.
    pub fn copy(&self) -> (r: UserSession)
        ensures
            r == *self,
    {
        UserSession {
            id: self.id.clone(),
            created_at: self.created_at,
            user_agent: self.user_agent.clone(),
            ip: self.ip.clone(),
            expires_at: self.expires_at,
            name: clone_opt(&self.name),
        }
    }
}

/// Whether one of some sessions has the id.
pub open spec fn has_session(sessions: Seq<SessionView>, id: Seq<char>) -> bool {
    exists|i: int| 0 <= i < sessions.len() && (#[trigger] sessions[i]).id == id
}

/// Some sessions without those that have the id.
pub open spec fn without_session(sessions: Seq<SessionView>, id: Seq<char>) -> Seq<SessionView> {
    sessions.filter(|s: SessionView| s.id != id)
}

/// Those of some sessions that have the id.
pub open spec fn only_session(sessions: Seq<SessionView>, id: Seq<char>) -> Seq<SessionView> {
    sessions.filter(|s: SessionView| s.id == id)
}

/// The name that a session is given for a text: its first 32 characters, without white space at
/// the ends of the text; none where nothing is left.
pub open spec fn session_name(text: Seq<char>) -> Option<Seq<char>> {
    let name = first_chars(trimmed(text), 32);
    if name.len() == 0 {
        None
    } else {
        Some(name)
    }
}

/// Where the first session with the id stands; the number of sessions if there is none.
pub open spec fn session_place(sessions: Seq<SessionView>, id: Seq<char>) -> int
    decreases sessions.len(),
{
    if sessions.len() == 0 || sessions[0].id == id {
        0
    } else {
        1 + session_place(sessions.skip(1), id)
    }
}

/// Some sessions, the first one with the id renamed.
pub open spec fn with_name(
    sessions: Seq<SessionView>,
    id: Seq<char>,
    name: Option<Seq<char>>,
) -> Seq<SessionView> {
    let i = session_place(sessions, id);
    if 0 <= i < sessions.len() {
        sessions.update(i, SessionView { name, ..sessions[i] })
    } else {
        sessions
    }
}

/// `session_place` is the first place with the id.
pub proof fn lemma_session_place(sessions: Seq<SessionView>, id: Seq<char>)
    ensures
        0 <= session_place(sessions, id) <= sessions.len(),
        forall|j: int|
            0 <= j < session_place(sessions, id) ==> (#[trigger] sessions[j]).id != id,
        session_place(sessions, id) < sessions.len() ==> sessions[session_place(sessions, id)].id
            == id,
        (session_place(sessions, id) < sessions.len()) == has_session(sessions, id),
    decreases sessions.len(),
{
    if sessions.len() > 0 && sessions[0].id != id {
        let rest = sessions.skip(1);
        lemma_session_place(rest, id);
        assert forall|j: int| 0 <= j < session_place(sessions, id) implies (
        #[trigger] sessions[j]).id != id by {
            if j > 0 {
                assert(rest[j - 1] == sessions[j]);
            }
        }
        if has_session(sessions, id) {
            let j = choose|j: int| 0 <= j < sessions.len() && (#[trigger] sessions[j]).id == id;
            assert(rest[j - 1].id == id);
        }
    }
}

/// The first place with the id is its `session_place`.
proof fn lemma_session_place_is(sessions: Seq<SessionView>, id: Seq<char>, i: int)
    requires
        0 <= i <= sessions.len(),
        forall|j: int| 0 <= j < i ==> (#[trigger] sessions[j]).id != id,
        i < sessions.len() ==> sessions[i].id == id,
    ensures
        session_place(sessions, id) == i,
{
    lemma_session_place(sessions, id);
}

/// Where the first session with the id stands; the number of sessions if there is none.
fn find_session(sessions: &Vec<UserSession>, id: &str) -> (r: usize)
    ensures
        r == session_place(views(sessions@), id@),
        r <= sessions@.len(),
        (r < sessions@.len()) == has_session(views(sessions@), id@),
{
    let mut i: usize = 0;
    while i < sessions.len() && !same(sessions[i].id.as_str(), id)
        invariant
            i <= sessions@.len(),
            forall|j: int| 0 <= j < i ==> (#[trigger] views(sessions@)[j]).id != id@,
        decreases sessions@.len() - i,
    {
        i = i + 1;
    }
    proof {
        lemma_session_place_is(views(sessions@), id@, i as int);
        lemma_session_place(views(sessions@), id@);
    }
    i
}

/// Whether one of some sessions has the id.
pub fn session_exists(sessions: &Vec<UserSession>, id: &str) -> (r: bool)
    ensures
        r == has_session(views(sessions@), id@),
{
    find_session(sessions, id) < sessions.len()
}

/// A copy of some sessions.
pub fn copy_sessions(sessions: &Vec<UserSession>) -> (r: Vec<UserSession>)
    ensures
        r@ == sessions@,
{
    let mut r: Vec<UserSession> = Vec::new();
    let mut i: usize = 0;
    while i < sessions.len()
        invariant
            i <= sessions@.len(),
            r@ == sessions@.take(i as int),
        decreases sessions@.len() - i,
    {
        proof {
            assert(sessions@.take(i + 1) =~= sessions@.take(i as int).push(sessions@[i as int]));
        }
        r.push(sessions[i].copy());
        i = i + 1;
    }
    proof {
        assert(sessions@.take(sessions@.len() as int) =~= sessions@);
    }
    r
}

/// Those of some sessions that have the id, or the others.
fn sessions_where(sessions: &Vec<UserSession>, id: &str, have: bool) -> (r: Vec<UserSession>)
    ensures
        views(r@) == views(sessions@).filter(|s: SessionView| (s.id == id@) == have),
{
    let ghost all = views(sessions@);
    let ghost p = |s: SessionView| (s.id == id@) == have;
    let mut r: Vec<UserSession> = Vec::new();
    let mut i: usize = 0;
    proof {
        reveal(Seq::filter);
        assert(views(r@) =~= all.take(0).filter(p));
    }
    while i < sessions.len()
        invariant
            i <= sessions@.len(),
            all == views(sessions@),
            p == (|s: SessionView| (s.id == id@) == have),
            views(r@) == all.take(i as int).filter(p),
        decreases sessions@.len() - i,
    {
        let ghost before = r@;
        if same(sessions[i].id.as_str(), id) == have {
            r.push(sessions[i].copy());
            proof {
                assert(views(r@) =~= views(before).push(sessions@[i as int]@));
            }
        }
        proof {
            reveal(Seq::filter);
            assert(all.take(i + 1).drop_last() =~= all.take(i as int));
            assert(all.take(i + 1).last() == sessions@[i as int]@);
        }
        i = i + 1;
    }
    proof {
        assert(all.take(all.len() as int) =~= all);
    }
    r
}

/// Some sessions without those that have the id.
pub fn remove_session(sessions: &Vec<UserSession>, id: &str) -> (r: Vec<UserSession>)
    ensures
        views(r@) == without_session(views(sessions@), id@),
{
    let r = sessions_where(sessions, id, false);
    proof {
        let p = |s: SessionView| (s.id == id@) == false;
        let q = |s: SessionView| s.id != id@;
        assert(p =~= q);
    }
    r
}

/// Those of some sessions that have the id.
pub fn keep_session(sessions: &Vec<UserSession>, id: &str) -> (r: Vec<UserSession>)
    ensures
        views(r@) == only_session(views(sessions@), id@),
{
    let r = sessions_where(sessions, id, true);
    proof {
        let p = |s: SessionView| (s.id == id@) == true;
        let q = |s: SessionView| s.id == id@;
        assert(p =~= q);
    }
    r
}

/// The name that a session is given for a text.
pub fn name_for_session(text: &str) -> (r: Option<String>)
    ensures
        opt_view(r) == session_name(text@),
{
    let name = take_chars(trim(text).as_str(), 32);
    if name.as_str().is_empty() {
        None
    } else {
        Some(name)
    }
}

/// Some sessions, the first one with the id renamed, and whether there was one.
pub fn rename_session(sessions: &Vec<UserSession>, id: &str, name: &Option<String>) -> (r: Option<
    Vec<UserSession>,
>)
    ensures
        match r {
            Some(v) => has_session(views(sessions@), id@) && views(v@) == with_name(
                views(sessions@),
                id@,
                opt_view(*name),
            ),
            None => !has_session(views(sessions@), id@),
        },
{
    let i = find_session(sessions, id);
    if i == sessions.len() {
        return None;
    }
    let mut r = copy_sessions(sessions);
    let s = sessions[i].copy();
    r[i] =
    UserSession {
        id: s.id,
        created_at: s.created_at,
        user_agent: s.user_agent,
        ip: s.ip,
        expires_at: s.expires_at,
        name: clone_opt(name),
    };
    proof {
        assert(views(r@) =~= with_name(views(sessions@), id@, opt_view(*name)));
    }
    Some(r)
}

// ---------------------------------------------------------------------------
// Laws
// ---------------------------------------------------------------------------

/// After a session is revoked no session has its id, and every other session stays.
pub proof fn revoked_session_is_gone(sessions: Seq<SessionView>, id: Seq<char>)
    ensures
        !has_session(without_session(sessions, id), id),
        forall|other: Seq<char>|
            other != id ==> (#[trigger] has_session(without_session(sessions, id), other)
                == has_session(sessions, other)),
    decreases sessions.len(),
{
    reveal(Seq::filter);
    let kept = without_session(sessions, id);
    if sessions.len() > 0 {
        let rest = sessions.drop_last();
        let last = sessions.last();
        revoked_session_is_gone(rest, id);
        let kept_rest = without_session(rest, id);
        if last.id != id {
            assert(kept =~= kept_rest.push(last));
            assert(kept.last() == last);
        } else {
            assert(kept =~= kept_rest);
        }
        assert(!has_session(kept, id)) by {
            if has_session(kept, id) {
                let i = choose|i: int| 0 <= i < kept.len() && (#[trigger] kept[i]).id == id;
                assert(i < kept_rest.len() ==> kept_rest[i].id == id);
            }
        }
        assert forall|other: Seq<char>| other != id implies (#[trigger] has_session(kept, other)
            == has_session(sessions, other)) by {
            assert(has_session(kept_rest, other) == has_session(rest, other));
            if has_session(sessions, other) {
                let i = choose|i: int|
                    0 <= i < sessions.len() && (#[trigger] sessions[i]).id == other;
                if i < rest.len() {
                    assert(rest[i].id == other);
                    let j = choose|j: int|
                        0 <= j < kept_rest.len() && (#[trigger] kept_rest[j]).id == other;
                    assert(kept[j].id == other);
                } else {
                    assert(kept[kept.len() - 1].id == other);
                }
            }
            if has_session(kept, other) {
                let j = choose|j: int| 0 <= j < kept.len() && (#[trigger] kept[j]).id == other;
                if j < kept_rest.len() {
                    assert(kept_rest[j].id == other);
                    let i = choose|i: int| 0 <= i < rest.len() && (#[trigger] rest[i]).id == other;
                    assert(sessions[i].id == other);
                } else {
                    assert(sessions[sessions.len() - 1].id == other);
                }
            }
        }
    }
}

/// Where only the sessions with an id are kept, every session has that id.
pub proof fn kept_sessions_have_the_id(sessions: Seq<SessionView>, id: Seq<char>)
    ensures
        forall|i: int|
            0 <= i < only_session(sessions, id).len() ==> (#[trigger] only_session(
                sessions,
                id,
            )[i]).id == id,
        has_session(only_session(sessions, id), id) == has_session(sessions, id),
    decreases sessions.len(),
{
    reveal(Seq::filter);
    let kept = only_session(sessions, id);
    if sessions.len() > 0 {
        let rest = sessions.drop_last();
        let last = sessions.last();
        kept_sessions_have_the_id(rest, id);
        let kept_rest = only_session(rest, id);
        if last.id == id {
            assert(kept =~= kept_rest.push(last));
            assert(kept[kept.len() - 1].id == id);
            assert(sessions[sessions.len() - 1].id == id);
        } else {
            assert(kept =~= kept_rest);
            if has_session(sessions, id) {
                let i = choose|i: int| 0 <= i < sessions.len() && (#[trigger] sessions[i]).id == id;
                assert(rest[i].id == id);
            }
            if has_session(rest, id) {
                let i = choose|i: int| 0 <= i < rest.len() && (#[trigger] rest[i]).id == id;
                assert(sessions[i].id == id);
            }
        }
    }
}

/// Renaming a session changes no id, and no name but that of the first session with the id.
pub proof fn renaming_keeps_the_rest(
    sessions: Seq<SessionView>,
    id: Seq<char>,
    name: Option<Seq<char>>,
)
    ensures
        with_name(sessions, id, name).len() == sessions.len(),
        forall|i: int|
            0 <= i < sessions.len() ==> {
                let s = #[trigger] with_name(sessions, id, name)[i];
                if i == session_place(sessions, id) {
                    s == SessionView { name, ..sessions[i] }
                } else {
                    s == sessions[i]
                }
            },
{
}

/// A name that a session is given has between 1 and 32 characters.
pub proof fn session_names_are_short(text: Seq<char>)
    ensures
        session_name(text) matches Some(name) ==> 0 < name.len() <= 32,
{
}

} // verus!
