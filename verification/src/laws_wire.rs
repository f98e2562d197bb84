//! Laws of answers: what a client finds in the status, the headers, the text and the document of an
//! answer.

use vstd::prelude::*;
use crate::json::JsonTree;
use crate::number::decimal;
use crate::protocol::{AnswerView, SessionEntryView};
use crate::wire::{
    document, headers_of, one, session_document, status_of, text_list, text_of, three, two,
};

verus! {

/// Whether a document is an object with one member.
pub open spec fn has_one(t: JsonTree, a: Seq<char>, x: JsonTree) -> bool {
    t matches JsonTree::Object(m) && m.dom() == set![a] && m[a] == x
}

/// Whether a document is an object with two members.
pub open spec fn has_two(
    t: JsonTree,
    a: Seq<char>,
    x: JsonTree,
    b: Seq<char>,
    y: JsonTree,
) -> bool {
    t matches JsonTree::Object(m) && m.dom() == set![a, b] && m[a] == x && m[b] == y
}

/// Whether a document is an object with three members.
pub open spec fn has_three(
    t: JsonTree,
    a: Seq<char>,
    x: JsonTree,
    b: Seq<char>,
    y: JsonTree,
    c: Seq<char>,
    z: JsonTree,
) -> bool {
    t matches JsonTree::Object(m) && m.dom() == set![a, b, c] && m[a] == x && m[b] == y && m[c] == z
}

/// Whether a document is a list of some texts.
pub open spec fn is_text_list(t: JsonTree, texts: Seq<Seq<char>>) -> bool {
    t matches JsonTree::Array(items) && items.len() == texts.len() && forall|i: int|
        0 <= i < texts.len() ==> #[trigger] items[i] == JsonTree::Text(texts[i])
}

/// The members of objects differ.
proof fn lemma_members_differ()
    ensures
        "uuid"@ != "files"@,
        "status"@ != "uploaded"@,
        "part_number"@ != "e_tag"@,
        "token"@ != "pfp_enc"@,
        "token"@ != "pfp"@,
        "pfp_enc"@ != "pfp"@,
        "username"@ != "pfp_enc"@,
        "username"@ != "pfp"@,
        "username"@ != "total_size"@,
        "username"@ != "shares"@,
        "total_size"@ != "shares"@,
{
    reveal_strlit("uuid");
    reveal_strlit("files");
    reveal_strlit("status");
    reveal_strlit("uploaded");
    reveal_strlit("part_number");
    reveal_strlit("e_tag");
    reveal_strlit("token");
    reveal_strlit("pfp_enc");
    reveal_strlit("pfp");
    reveal_strlit("username");
    reveal_strlit("total_size");
    reveal_strlit("shares");
    assert("uuid"@.len() == 4 && "files"@.len() == 5);
    assert("status"@.len() == 6 && "uploaded"@.len() == 8);
    assert("part_number"@.len() == 11 && "e_tag"@.len() == 5);
    assert("token"@.len() == 5 && "pfp_enc"@.len() == 7 && "pfp"@.len() == 3);
    assert("username"@.len() == 8 && "total_size"@.len() == 10 && "shares"@.len() == 6);
}

/// An object with two members has them.
proof fn lemma_two(a: Seq<char>, x: JsonTree, b: Seq<char>, y: JsonTree)
    requires
        a != b,
    ensures
        has_two(two(a, x, b, y), a, x, b, y),
{
    if let JsonTree::Object(m) = two(a, x, b, y) {
        assert(m.dom() =~= set![a, b]);
    }
}

/// An object with three members has them.
proof fn lemma_three(
    a: Seq<char>,
    x: JsonTree,
    b: Seq<char>,
    y: JsonTree,
    c: Seq<char>,
    z: JsonTree,
)
    requires
        a != b,
        a != c,
        b != c,
    ensures
        has_three(three(a, x, b, y, c, z), a, x, b, y, c, z),
{
    if let JsonTree::Object(m) = three(a, x, b, y, c, z) {
        assert(m.dom() =~= set![a, b, c]);
    }
}

/// The document of an answer holds everything that the answer says, each under its name, and
/// nothing else. A refusal, a file and a bare success have none.
#[verifier::spinoff_prover]
pub proof fn documents_say_what_is_answered(a: AnswerView)
    ensures
        match (a, document(a)) {
            (AnswerView::Status { status }, d) => d matches Some(t) && has_one(
                t,
                "status"@,
                JsonTree::Text(status),
            ),
            (AnswerView::ShareUploaded { uuid, files }, d) => d matches Some(
                JsonTree::Object(m),
            ) && m.dom() == set!["uuid"@, "files"@] && m["uuid"@] == JsonTree::Text(uuid)
                && is_text_list(m["files"@], files),
            (AnswerView::ShareBegun { uuid }, d) => d matches Some(t) && has_one(
                t,
                "uuid"@,
                JsonTree::Text(uuid),
            ),
            (AnswerView::FilesStored { files }, d) => d matches Some(JsonTree::Object(m))
                && m.dom() == set!["status"@, "uploaded"@] && m["status"@] == JsonTree::Text("ok"@)
                && is_text_list(m["uploaded"@], files),
            (AnswerView::UploadBegun { upload_id }, d) => d matches Some(t) && has_one(
                t,
                "upload_id"@,
                JsonTree::Text(upload_id),
            ),
            (AnswerView::PartStored { part_number, e_tag }, d) => d matches Some(t) && has_two(
                t,
                "part_number"@,
                JsonTree::Int(part_number),
                "e_tag"@,
                JsonTree::Text(e_tag),
            ),
            (AnswerView::SharesText { shares_enc }, d) => d matches Some(t) && has_one(
                t,
                "shares_enc"@,
                JsonTree::Text(shares_enc),
            ),
            (AnswerView::LoggedIn { token, pfp_enc }, d) => d matches Some(t) && has_three(
                t,
                "token"@,
                JsonTree::Text(token),
                "pfp_enc"@,
                JsonTree::Text(pfp_enc),
                "pfp"@,
                JsonTree::Text(pfp_enc),
            ),
            (AnswerView::AdminLoggedIn { token }, d) => d matches Some(t) && has_one(
                t,
                "token"@,
                JsonTree::Text(token),
            ),
            (AnswerView::Profile { username, pfp_enc }, d) => d matches Some(t) && has_three(
                t,
                "username"@,
                JsonTree::Text(username),
                "pfp_enc"@,
                JsonTree::Text(pfp_enc),
                "pfp"@,
                JsonTree::Text(pfp_enc),
            ),
            (AnswerView::Sessions { sessions }, d) => d matches Some(JsonTree::Array(items))
                && items.len() == sessions.len() && forall|i: int|
                0 <= i < items.len() ==> is_session_document(#[trigger] items[i], sessions[i]),
            (AnswerView::Stats { users }, d) => d matches Some(JsonTree::Array(items))
                && items.len() == users.len() && forall|i: int|
                0 <= i < items.len() ==> has_three(
                    #[trigger] items[i],
                    "username"@,
                    JsonTree::Text(users[i].username),
                    "total_size"@,
                    JsonTree::Int(users[i].total_size),
                    "shares"@,
                    JsonTree::Array(users[i].shares),
                ),
            (_, d) => d is None,
        },
{
    lemma_members_differ();
    match a {
        AnswerView::Status { status } => {
            lemma_one("status"@, JsonTree::Text(status));
        },
        AnswerView::ShareUploaded { uuid, files } => {
            lemma_two("uuid"@, JsonTree::Text(uuid), "files"@, text_list(files));
        },
        AnswerView::ShareBegun { uuid } => {
            lemma_one("uuid"@, JsonTree::Text(uuid));
        },
        AnswerView::FilesStored { files } => {
            lemma_two("status"@, JsonTree::Text("ok"@), "uploaded"@, text_list(files));
        },
        AnswerView::UploadBegun { upload_id } => {
            lemma_one("upload_id"@, JsonTree::Text(upload_id));
        },
        AnswerView::PartStored { part_number, e_tag } => {
            lemma_two(
                "part_number"@,
                JsonTree::Int(part_number),
                "e_tag"@,
                JsonTree::Text(e_tag),
            );
        },
        AnswerView::SharesText { shares_enc } => {
            lemma_one("shares_enc"@, JsonTree::Text(shares_enc));
        },
        AnswerView::LoggedIn { token, pfp_enc } => {
            lemma_three(
                "token"@,
                JsonTree::Text(token),
                "pfp_enc"@,
                JsonTree::Text(pfp_enc),
                "pfp"@,
                JsonTree::Text(pfp_enc),
            );
        },
        AnswerView::AdminLoggedIn { token } => {
            lemma_one("token"@, JsonTree::Text(token));
        },
        AnswerView::Profile { username, pfp_enc } => {
            lemma_three(
                "username"@,
                JsonTree::Text(username),
                "pfp_enc"@,
                JsonTree::Text(pfp_enc),
                "pfp"@,
                JsonTree::Text(pfp_enc),
            );
        },
        AnswerView::Sessions { sessions } => {
            assert forall|i: int| 0 <= i < sessions.len() implies is_session_document(
                session_document(#[trigger] sessions[i]),
                sessions[i],
            ) by {
                lemma_session_document(sessions[i]);
            }
            if let Some(JsonTree::Array(items)) = document(a) {
                assert forall|i: int| 0 <= i < items.len() implies is_session_document(
                    #[trigger] items[i],
                    sessions[i],
                ) by {
                    lemma_session_document(sessions[i]);
                }
            }
        },
        AnswerView::Stats { users } => {
            if let Some(JsonTree::Array(items)) = document(a) {
                assert forall|i: int| 0 <= i < items.len() implies has_three(
                    #[trigger] items[i],
                    "username"@,
                    JsonTree::Text(users[i].username),
                    "total_size"@,
                    JsonTree::Int(users[i].total_size),
                    "shares"@,
                    JsonTree::Array(users[i].shares),
                ) by {
                    lemma_three(
                        "username"@,
                        JsonTree::Text(users[i].username),
                        "total_size"@,
                        JsonTree::Int(users[i].total_size),
                        "shares"@,
                        JsonTree::Array(users[i].shares),
                    );
                }
            }
        },
        _ => {},
    }
}

/// An object with one member has it.
proof fn lemma_one(a: Seq<char>, x: JsonTree)
    ensures
        has_one(one(a, x), a, x),
{
    if let JsonTree::Object(m) = one(a, x) {
        assert(m.dom() =~= set![a]);
    }
}

/// Whether a document shows a session: everything that is known of it, and whether it is the current
/// one.
pub open spec fn is_session_document(
    t: JsonTree,
    e: SessionEntryView,
) -> bool {
    t matches JsonTree::Object(m) && {
        &&& m.dom() == set![
            "id"@,
            "created_at"@,
            "user_agent"@,
            "ip"@,
            "expires_at"@,
            "is_current"@,
            "name"@,
        ]
        &&& m["id"@] == JsonTree::Text(e.session.id)
        &&& m["created_at"@] == JsonTree::Int(e.session.created_at)
        &&& m["user_agent"@] == JsonTree::Text(e.session.user_agent)
        &&& m["ip"@] == JsonTree::Text(e.session.ip)
        &&& m["expires_at"@] == JsonTree::Int(e.session.expires_at)
        &&& m["is_current"@] == JsonTree::Bool(e.is_current)
        &&& m["name"@] == match e.session.name {
            Some(name) => JsonTree::Text(name),
            None => JsonTree::Null,
        }
    }
}

/// The document of a session shows it.
proof fn lemma_session_document(e: SessionEntryView)
    ensures
        is_session_document(session_document(e), e),
{
    reveal_strlit("id");
    reveal_strlit("created_at");
    reveal_strlit("user_agent");
    reveal_strlit("ip");
    reveal_strlit("expires_at");
    reveal_strlit("is_current");
    reveal_strlit("name");
    assert("id"@[1] == 'd' && "ip"@[1] == 'p');
    assert("created_at"@[0] == 'c' && "user_agent"@[0] == 'u' && "expires_at"@[0] == 'e'
        && "is_current"@[0] == 'i');
    if let JsonTree::Object(m) = session_document(e) {
        assert(m.dom() =~= set![
            "id"@,
            "created_at"@,
            "user_agent"@,
            "ip"@,
            "expires_at"@,
            "is_current"@,
            "name"@,
        ]);
    }
}

/// An answer has the status that it was given, or 404 where a file is missing, and otherwise that
/// of success; its text is the message of a refusal or that of a missing file.
pub proof fn statuses_and_texts_say_what_is_answered(a: AnswerView)
    ensures
        match a {
            AnswerView::Refused { status, message } => status_of(a) == status
                && text_of(a) == Some(message),
            AnswerView::File { status, .. } => status_of(a) == status && text_of(a) is None,
            AnswerView::FileMissing => status_of(a) == 404 && text_of(a) == Some("File not found"@),
            _ => status_of(a) == 200 && text_of(a) is None,
        },
{
}

/// A file has its type, its length and its range where they are known, the word that ranges can be
/// asked for, and its name, in this order; no other answer sets a header.
pub proof fn headers_say_what_is_answered(a: AnswerView)
    ensures
        match a {
            AnswerView::File {
                content_type,
                content_length,
                content_range,
                content_disposition,
                ..
            } => {
                let lines = headers_of(a);
                let k = (if content_length is Some {
                    1int
                } else {
                    0
                });
                let m = k + (if content_range is Some {
                    1int
                } else {
                    0
                });
                &&& lines.len() == 3 + m
                &&& lines[0].name == "content-type"@ && lines[0].value == content_type
                &&& content_length matches Some(n) ==> lines[1].name == "content-length"@
                    && lines[1].value == decimal(n as int)
                &&& content_range matches Some(range) ==> lines[1 + k].name == "content-range"@
                    && lines[1 + k].value == range
                &&& lines[1 + m].name == "accept-ranges"@ && lines[1 + m].value == "bytes"@
                &&& lines[2 + m].name == "content-disposition"@ && lines[2 + m].value
                    == content_disposition
            },
            _ => headers_of(a).len() == 0,
        },
{
}

} // verus!
