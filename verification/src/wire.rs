//! Answers as they go to the client: a status, and the headers, text or JSON document that each has.

use vstd::prelude::*;
use crate::json::{
    json_bool, json_i64, json_insert, json_list, json_null, json_object, json_text, json_tree,
    json_trees, JsonTree,
};
use crate::model::{opt_view, views};
use crate::number::{decimal, i64_text};
use crate::protocol::{
    Answer, AnswerView, SessionEntry, SessionEntryView, UserStats, UserStatsView,
};

verus! {

// ---------------------------------------------------------------------------
// Documents
// ---------------------------------------------------------------------------

/// The object without members.
pub open spec fn no_members() -> Map<Seq<char>, JsonTree> {
    Map::empty()
}

/// An object with one member.
pub open spec fn one(a: Seq<char>, x: JsonTree) -> JsonTree {
    JsonTree::Object(no_members().insert(a, x))
}

/// An object with two members.
pub open spec fn two(a: Seq<char>, x: JsonTree, b: Seq<char>, y: JsonTree) -> JsonTree {
    JsonTree::Object(no_members().insert(a, x).insert(b, y))
}

/// An object with three members.
pub open spec fn three(
    a: Seq<char>,
    x: JsonTree,
    b: Seq<char>,
    y: JsonTree,
    c: Seq<char>,
    z: JsonTree,
) -> JsonTree {
    JsonTree::Object(no_members().insert(a, x).insert(b, y).insert(c, z))
}

/// A list of texts.
pub open spec fn text_list(v: Seq<Seq<char>>) -> JsonTree {
    JsonTree::Array(Seq::new(v.len(), |i: int| JsonTree::Text(v[i])))
}

/// A session in a list for the client.
pub open spec fn session_document(e: SessionEntryView) -> JsonTree {
    JsonTree::Object(
        no_members().insert("id"@, JsonTree::Text(e.session.id)).insert(
            "created_at"@,
            JsonTree::Int(e.session.created_at),
        ).insert("user_agent"@, JsonTree::Text(e.session.user_agent)).insert(
            "ip"@,
            JsonTree::Text(e.session.ip),
        ).insert("expires_at"@, JsonTree::Int(e.session.expires_at)).insert(
            "is_current"@,
            JsonTree::Bool(e.is_current),
        ).insert(
            "name"@,
            match e.session.name {
                Some(name) => JsonTree::Text(name),
                None => JsonTree::Null,
            },
        ),
    )
}

/// What an administrator sees of a user.
pub open spec fn stats_document(u: UserStatsView) -> JsonTree {
    three(
        "username"@,
        JsonTree::Text(u.username),
        "total_size"@,
        JsonTree::Int(u.total_size),
        "shares"@,
        JsonTree::Array(u.shares),
    )
}

/// The JSON document of an answer. A refusal and a file have none; that of a share, which holds
/// dates, is not made here.
pub open spec fn document(a: AnswerView) -> Option<JsonTree> {
    match a {
        AnswerView::Status { status } => Some(one("status"@, JsonTree::Text(status))),
        AnswerView::ShareUploaded { uuid, files } => Some(
            two("uuid"@, JsonTree::Text(uuid), "files"@, text_list(files)),
        ),
        AnswerView::ShareBegun { uuid } => Some(one("uuid"@, JsonTree::Text(uuid))),
        AnswerView::FilesStored { files } => Some(
            two("status"@, JsonTree::Text("ok"@), "uploaded"@, text_list(files)),
        ),
        AnswerView::UploadBegun { upload_id } => Some(
            one("upload_id"@, JsonTree::Text(upload_id)),
        ),
        AnswerView::PartStored { part_number, e_tag } => Some(
            two("part_number"@, JsonTree::Int(part_number), "e_tag"@, JsonTree::Text(e_tag)),
        ),
        AnswerView::SharesText { shares_enc } => Some(
            one("shares_enc"@, JsonTree::Text(shares_enc)),
        ),
        AnswerView::LoggedIn { token, pfp_enc } => Some(
            three(
                "token"@,
                JsonTree::Text(token),
                "pfp_enc"@,
                JsonTree::Text(pfp_enc),
                "pfp"@,
                JsonTree::Text(pfp_enc),
            ),
        ),
        AnswerView::AdminLoggedIn { token } => Some(one("token"@, JsonTree::Text(token))),
        AnswerView::Profile { username, pfp_enc } => Some(
            three(
                "username"@,
                JsonTree::Text(username),
                "pfp_enc"@,
                JsonTree::Text(pfp_enc),
                "pfp"@,
                JsonTree::Text(pfp_enc),
            ),
        ),
        AnswerView::Sessions { sessions } => Some(
            JsonTree::Array(Seq::new(sessions.len(), |i: int| session_document(sessions[i]))),
        ),
        AnswerView::Stats { users } => Some(
            JsonTree::Array(Seq::new(users.len(), |i: int| stats_document(users[i]))),
        ),
        _ => None,
    }
}

/// The status of an answer.
pub open spec fn status_of(a: AnswerView) -> int {
    match a {
        AnswerView::Refused { status, .. } => status,
        AnswerView::File { status, .. } => status,
        AnswerView::FileMissing => 404,
        _ => 200,
    }
}

/// The status of an answer.
pub fn answer_status(a: &Answer) -> (r: u16)
    ensures
        r == status_of(a@),
{
    match a {
        Answer::Refused { status, .. } => *status,
        Answer::File { status, .. } => *status,
        Answer::FileMissing => 404,
        _ => 200,
    }
}

// ---------------------------------------------------------------------------
// Texts and headers
// ---------------------------------------------------------------------------

/// The text of an answer that is one: a refusal, or that a file is missing.
pub open spec fn text_of(a: AnswerView) -> Option<Seq<char>> {
    match a {
        AnswerView::Refused { message, .. } => Some(message),
        AnswerView::FileMissing => Some("File not found"@),
        _ => None,
    }
}

/// The text of an answer that is one.
pub fn answer_text(a: &Answer) -> (r: Option<String>)
    ensures
        opt_view(r) == text_of(a@),
{
    match a {
        Answer::Refused { message, .. } => Some(message.clone()),
        Answer::FileMissing => Some("File not found".to_owned()),
        _ => None,
    }
}

/// A header of an answer.
pub struct HeaderLine {
    pub name: String,
    pub value: String,
}

/// A header of an answer, over sequences.
pub struct HeaderLineView {
    pub name: Seq<char>,
    pub value: Seq<char>,
}

impl View for HeaderLine {
    type V = HeaderLineView;

    open spec fn view(&self) -> HeaderLineView {
        HeaderLineView { name: self.name@, value: self.value@ }
    }
}

/// The headers with one more.
pub open spec fn with_line(
    lines: Seq<HeaderLineView>,
    name: Seq<char>,
    value: Seq<char>,
) -> Seq<HeaderLineView> {
    lines.push(HeaderLineView { name, value })
}

/// The headers that an answer sets, in order. Only a file has any: its type, its length and the
/// range of it where they are known, that ranges can be asked for, and what it is called.
pub open spec fn headers_of(a: AnswerView) -> Seq<HeaderLineView> {
    match a {
        AnswerView::File {
            content_type,
            content_length,
            content_range,
            content_disposition,
            ..
        } => {
            let typed = with_line(Seq::empty(), "content-type"@, content_type);
            let sized = match content_length {
                Some(n) => with_line(typed, "content-length"@, decimal(n as int)),
                None => typed,
            };
            let ranged = match content_range {
                Some(range) => with_line(sized, "content-range"@, range),
                None => sized,
            };
            with_line(
                with_line(ranged, "accept-ranges"@, "bytes"@),
                "content-disposition"@,
                content_disposition,
            )
        },
        _ => Seq::empty(),
    }
}

/// Adds a header.
fn add_line(lines: &mut Vec<HeaderLine>, name: &str, value: String)
    ensures
        views(final(lines)@) == with_line(views(old(lines)@), name@, value@),
{
    let ghost before = lines@;
    lines.push(HeaderLine { name: name.to_owned(), value });
    proof {
        assert(views(lines@) =~= with_line(views(before), name@, value@));
    }
}

/// The headers that an answer sets, in order.
pub fn answer_headers(a: &Answer) -> (r: Vec<HeaderLine>)
    ensures
        views(r@) == headers_of(a@),
{
    let mut lines: Vec<HeaderLine> = Vec::new();
    proof {
        assert(views(lines@) =~= Seq::<HeaderLineView>::empty());
    }
    if let Answer::File {
        content_type,
        content_length,
        content_range,
        content_disposition,
        ..
    } = a {
        add_line(&mut lines, "content-type", content_type.clone());
        if let Some(n) = content_length {
            add_line(&mut lines, "content-length", i64_text(*n));
        }
        if let Some(range) = content_range {
            add_line(&mut lines, "content-range", range.clone());
        }
        add_line(&mut lines, "accept-ranges", "bytes".to_owned());
        add_line(&mut lines, "content-disposition", content_disposition.clone());
    }
    lines
}

/// A file is offered by ranges, and one that is missing is told so with the status 404.
pub proof fn files_offer_ranges(a: AnswerView)
    ensures
        a is File ==> headers_of(a).contains(
            HeaderLineView { name: "accept-ranges"@, value: "bytes"@ },
        ),
        a is FileMissing ==> status_of(a) == 404 && text_of(a) == Some("File not found"@),
{
    if a is File {
        let lines = headers_of(a);
        assert(lines[lines.len() - 2] == HeaderLineView { name: "accept-ranges"@, value: "bytes"@ });
    }
}

// ---------------------------------------------------------------------------
// Making documents
// ---------------------------------------------------------------------------

/// An object with one text for a member.
fn make_one(a: &str, x: String) -> (r: serde_json::Value)
    ensures
        json_tree(r) == one(a@, JsonTree::Text(x@)),
{
    let mut r = json_object();
    json_insert(&mut r, a, json_text(x));
    r
}

/// An object with two members.
fn make_two(a: &str, x: serde_json::Value, b: &str, y: serde_json::Value) -> (r: serde_json::Value)
    ensures
        json_tree(r) == two(a@, json_tree(x), b@, json_tree(y)),
{
    let mut r = json_object();
    json_insert(&mut r, a, x);
    json_insert(&mut r, b, y);
    r
}

/// An object with three members.
fn make_three(
    a: &str,
    x: serde_json::Value,
    b: &str,
    y: serde_json::Value,
    c: &str,
    z: serde_json::Value,
) -> (r: serde_json::Value)
    ensures
        json_tree(r) == three(a@, json_tree(x), b@, json_tree(y), c@, json_tree(z)),
{
    let mut r = make_two(a, x, b, y);
    json_insert(&mut r, c, z);
    r
}

/// A list of texts.
fn make_text_list(v: Vec<String>) -> (r: serde_json::Value)
    ensures
        json_tree(r) == text_list(views(v@)),
{
    let ghost wanted = Seq::new(v@.len(), |i: int| JsonTree::Text(v@[i]@));
    let mut list: Vec<serde_json::Value> = Vec::new();
    for s in it: v
        invariant
            it.seq() == v@,
            wanted == Seq::new(v@.len(), |i: int| JsonTree::Text(v@[i]@)),
            json_trees(list@) == wanted.take(it.index()),
    {
        let ghost before = list@;
        let ghost i = it.index();
        list.push(json_text(s));
        proof {
            assert(json_trees(list@) =~= json_trees(before).push(wanted[i]));
            assert(wanted.take(i + 1) =~= wanted.take(i).push(wanted[i]));
        }
    }
    proof {
        assert(wanted.take(wanted.len() as int) =~= wanted);
        assert(JsonTree::Array(wanted) == text_list(views(v@))) by {
            assert(wanted =~= Seq::new(views(v@).len(), |i: int| JsonTree::Text(views(v@)[i])));
        }
    }
    json_list(list)
}

/// A session in a list for the client.
fn make_session_document(e: SessionEntry) -> (r: serde_json::Value)
    ensures
        json_tree(r) == session_document(e@),
{
    let mut r = json_object();
    json_insert(&mut r, "id", json_text(e.session.id));
    json_insert(&mut r, "created_at", json_i64(e.session.created_at));
    json_insert(&mut r, "user_agent", json_text(e.session.user_agent));
    json_insert(&mut r, "ip", json_text(e.session.ip));
    json_insert(&mut r, "expires_at", json_i64(e.session.expires_at));
    json_insert(&mut r, "is_current", json_bool(e.is_current));
    let name = match e.session.name {
        Some(name) => json_text(name),
        None => json_null(),
    };
    json_insert(&mut r, "name", name);
    r
}

/// What an administrator sees of a user.
fn make_stats_document(u: UserStats) -> (r: serde_json::Value)
    ensures
        json_tree(r) == stats_document(u@),
{
    make_three(
        "username",
        json_text(u.username),
        "total_size",
        json_i64(u.total_size),
        "shares",
        json_list(u.shares),
    )
}

/// The sessions of a list.
fn make_session_list(v: Vec<SessionEntry>) -> (r: serde_json::Value)
    ensures
        json_tree(r) == JsonTree::Array(
            Seq::new(views(v@).len(), |i: int| session_document(views(v@)[i])),
        ),
{
    let ghost wanted = Seq::new(views(v@).len(), |i: int| session_document(views(v@)[i]));
    let mut list: Vec<serde_json::Value> = Vec::new();
    for e in it: v
        invariant
            it.seq() == v@,
            wanted == Seq::new(views(v@).len(), |i: int| session_document(views(v@)[i])),
            json_trees(list@) == wanted.take(it.index()),
    {
        let ghost before = list@;
        let ghost i = it.index();
        list.push(make_session_document(e));
        proof {
            assert(json_trees(list@) =~= json_trees(before).push(wanted[i]));
            assert(wanted.take(i + 1) =~= wanted.take(i).push(wanted[i]));
        }
    }
    proof {
        assert(wanted.take(wanted.len() as int) =~= wanted);
    }
    json_list(list)
}

/// What an administrator sees of some users.
fn make_stats_list(v: Vec<UserStats>) -> (r: serde_json::Value)
    ensures
        json_tree(r) == JsonTree::Array(
            Seq::new(views(v@).len(), |i: int| stats_document(views(v@)[i])),
        ),
{
    let ghost wanted = Seq::new(views(v@).len(), |i: int| stats_document(views(v@)[i]));
    let mut list: Vec<serde_json::Value> = Vec::new();
    for u in it: v
        invariant
            it.seq() == v@,
            wanted == Seq::new(views(v@).len(), |i: int| stats_document(views(v@)[i])),
            json_trees(list@) == wanted.take(it.index()),
    {
        let ghost before = list@;
        let ghost i = it.index();
        list.push(make_stats_document(u));
        proof {
            assert(json_trees(list@) =~= json_trees(before).push(wanted[i]));
            assert(wanted.take(i + 1) =~= wanted.take(i).push(wanted[i]));
        }
    }
    proof {
        assert(wanted.take(wanted.len() as int) =~= wanted);
    }
    json_list(list)
}

/// The JSON document of an answer.
pub fn answer_document(a: Answer) -> (r: Option<serde_json::Value>)
    ensures
        match r {
            Some(v) => document(a@) == Some(json_tree(v)),
            None => document(a@) is None,
        },
{
    match a {
        Answer::Status { status } => Some(make_one("status", status)),
        Answer::ShareUploaded { uuid, files } => Some(
            make_two("uuid", json_text(uuid), "files", make_text_list(files)),
        ),
        Answer::ShareBegun { uuid } => Some(make_one("uuid", uuid)),
        Answer::FilesStored { files } => Some(
            make_two("status", json_text("ok".to_owned()), "uploaded", make_text_list(files)),
        ),
        Answer::UploadBegun { upload_id } => Some(make_one("upload_id", upload_id)),
        Answer::PartStored { part_number, e_tag } => Some(
            make_two("part_number", json_i64(part_number as i64), "e_tag", json_text(e_tag)),
        ),
        Answer::SharesText { shares_enc } => Some(make_one("shares_enc", shares_enc)),
        Answer::LoggedIn { token, pfp_enc } => {
            let pfp = pfp_enc.clone();
            Some(
                make_three(
                    "token",
                    json_text(token),
                    "pfp_enc",
                    json_text(pfp_enc),
                    "pfp",
                    json_text(pfp),
                ),
            )
        },
        Answer::AdminLoggedIn { token } => Some(make_one("token", token)),
        Answer::Profile { username, pfp_enc } => {
            let pfp = pfp_enc.clone();
            Some(
                make_three(
                    "username",
                    json_text(username),
                    "pfp_enc",
                    json_text(pfp_enc),
                    "pfp",
                    json_text(pfp),
                ),
            )
        },
        Answer::Sessions { sessions } => Some(make_session_list(sessions)),
        Answer::Stats { users } => Some(make_stats_list(users)),
        _ => None,
    }
}

} // verus!
