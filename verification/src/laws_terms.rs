//! Laws of the words that the other laws are written in: keys, names of objects, replies, headers.

use vstd::prelude::*;
use vstd::utf8::{decode_utf8, encode_utf8, valid_utf8};
use crate::account::{
    client_address, name_chars_fit, name_length_fits, new_session, sessions_settled, user_record,
};
use crate::crypto::{sha256, stored_hash};
use crate::deletion::settled;
use crate::devices::sessions_key;
use crate::gate::{bearer, header_text, loaded, session_listed, sessions_heard, Header, Headers};
use crate::hex::hex_text;
use crate::json::{
    i64_member, json_list_parsed, member, text_member, with_member, without_member, JsonTree,
};
use crate::keys::{share_key, share_prefix, user_key, user_object, user_prefix};
use crate::laws_scope::lemma_begins;
use crate::model::views;
use crate::protocol::{refused, AnswerView, NextView, ObjectReply, Reply, SessionsReply};
use crate::shares::{entry_size, index_entries, index_key, is_share};
use crate::sharing::{owner_heard, recorded_owner};
use crate::text::{after_prefix, before_suffix, begins, finishes, letter_or_number, trimmed};
use crate::uploads::{active_key, is_companion, is_marker, relative};

verus! {

/// Everything of a share is stored under `uploads/` and its id, and everything of a user under
/// `users/` and their name, each thing at a place of its own.
pub proof fn objects_have_their_places(uuid: Seq<char>, username: Seq<char>, name: Seq<char>)
    ensures
        share_prefix(uuid) == "uploads/"@ + uuid + "/"@,
        share_key(uuid, name) == "uploads/"@ + uuid + "/"@ + name,
        active_key(uuid) == "uploads/"@ + uuid + "/"@ + ".active"@,
        user_key(username) == "users/"@ + username + ".json"@,
        user_prefix(username) == "users/"@ + username + "/"@,
        user_object(username, name) == "users/"@ + username + "/"@ + name,
        index_key(username) == "users/"@ + username + "/"@ + "public_shares.json"@,
        sessions_key(username) == "users/"@ + username + "/"@ + "sessions.json"@,
{
}

/// An object of a share is called what is left of its key; an object elsewhere by its whole key.
/// The record of the owner and the marker of an upload under way are no files, and the companions
/// of files are the list of them and their thumbnails.
pub proof fn objects_have_their_names(uuid: Seq<char>, name: Seq<char>, key: Seq<char>)
    ensures
        relative(share_key(uuid, name), share_prefix(uuid)) == name,
        !begins(key, share_prefix(uuid)) ==> relative(key, share_prefix(uuid)) == key,
        is_marker(name) == (name == "owner.txt"@ || name == ".active"@),
        is_companion(name) == (name == "metadata.enc"@ || (exists|stem: Seq<char>|
            name == #[trigger] (stem + ".thumb.enc"@))),
{
    lemma_begins(share_prefix(uuid), name);
    assert(share_key(uuid, name).skip(share_prefix(uuid).len() as int) =~= name);
    let end = ".thumb.enc"@;
    if end.len() <= name.len() && name.skip(name.len() - end.len()) == end {
        let stem = name.take(name.len() - end.len());
        assert(name =~= stem + end);
    }
    if exists|stem: Seq<char>| name == #[trigger] (stem + ".thumb.enc"@) {
        let stem = choose|stem: Seq<char>| name == #[trigger] (stem + ".thumb.enc"@);
        assert(name.skip(name.len() - end.len()) =~= end);
    }
}

/// A text begins with another exactly where it is that text and something more, and what comes
/// after the prefix is the rest.
pub proof fn prefixes_are_taken_off(prefix: Seq<char>, rest: Seq<char>, s: Seq<char>)
    ensures
        after_prefix(prefix + rest, prefix) == Some(rest),
        begins(s, prefix) == (exists|r: Seq<char>| s == #[trigger] (prefix + r)),
        after_prefix(s, prefix) is Some ==> s == prefix + after_prefix(s, prefix)->0,
{
    lemma_begins(prefix, rest);
    assert((prefix + rest).skip(prefix.len() as int) =~= rest);
    if begins(s, prefix) {
        assert(s =~= prefix + s.skip(prefix.len() as int));
    }
    if exists|r: Seq<char>| s == #[trigger] (prefix + r) {
        let r = choose|r: Seq<char>| s == #[trigger] (prefix + r);
        lemma_begins(prefix, r);
    }
}

/// A call is over where it succeeded or failed; one that stores sessions also where they could not
/// be written as text.
pub proof fn calls_end_well_or_badly(r: Reply)
    ensures
        settled(r) == (r is Done || r is Failed),
        sessions_settled(r) == (r is Done || r is Failed || r is NotEncoded),
{
}

/// A refusal ends a request with its status and message.
pub proof fn refusals_end_requests(status: int, message: Seq<char>)
    ensures
        refused(status, message) == NextView::Done(AnswerView::Refused { status, message }),
{
}

/// The token of a header is what comes after `Bearer `.
pub proof fn tokens_are_taken_from_headers(
    h: Header,
    token: Seq<char>,
    missing: Seq<char>,
    unreadable: Seq<char>,
)
    requires
        h matches Header::Text(s) && s@ == "Bearer "@ + token,
    ensures
        bearer(h, missing, unreadable) == Ok::<Seq<char>, AnswerView>(token),
{
    prefixes_are_taken_off("Bearer "@, token, Seq::empty());
}

/// A session is listed where the list that was loaded has one with its id; where no list was
/// loaded there are no sessions.
pub proof fn listed_sessions_are_in_the_list(reply: SessionsReply, id: Seq<char>)
    ensures
        match reply {
            SessionsReply::Loaded(v) => {
                &&& loaded(reply) == Some(views(v@))
                &&& sessions_heard(reply).len() == v@.len()
                &&& forall|i: int|
                    0 <= i < v@.len() ==> #[trigger] sessions_heard(reply)[i] == v@[i]@
                &&& session_listed(reply, id) == exists|i: int|
                    0 <= i < v@.len() && (#[trigger] v@[i]).id@ == id
            },
            _ => sessions_heard(reply).len() == 0 && !session_listed(reply, id),
        },
{
    if let SessionsReply::Loaded(v) = reply {
        let all = views(v@);
        if session_listed(reply, id) {
            let i = choose|i: int| 0 <= i < all.len() && (#[trigger] all[i]).id == id;
            assert(v@[i].id@ == id);
        }
        if exists|i: int| 0 <= i < v@.len() && (#[trigger] v@[i]).id@ == id {
            let i = choose|i: int| 0 <= i < v@.len() && (#[trigger] v@[i]).id@ == id;
            assert(all[i].id == id);
        }
    }
}

/// A new session has the id, time, agent and address it was begun with; it never expires and has
/// no name.
pub proof fn new_sessions_are_as_begun(
    id: Seq<char>,
    created_at: int,
    user_agent: Seq<char>,
    ip: Seq<char>,
)
    ensures
        ({
            let s = new_session(id, created_at, user_agent, ip);
            &&& s.id == id
            &&& s.created_at == created_at
            &&& s.user_agent == user_agent
            &&& s.ip == ip
            &&& s.expires_at == 0
            &&& s.name is None
        }),
{
}

/// A client's address is what the proxies say it is, or else what the nearest one says, or else not
/// known; a header that cannot be read says nothing.
pub proof fn addresses_come_from_headers(headers: Headers, h: Header, otherwise: Seq<char>)
    ensures
        header_text(h, otherwise) == (match h {
            Header::Text(s) => s@,
            Header::Missing | Header::Unreadable => otherwise,
        }),
        client_address(headers) == (match (headers.forwarded_for, headers.real_ip) {
            (Header::Text(s), _) => s@,
            (_, Header::Text(s)) => s@,
            _ => "Unknown"@,
        }),
{
}

/// What is stored for a password is the digest of the key and the salt, in hexadecimal, as the only
/// member of the record.
pub proof fn passwords_are_stored_as_digests(auth_key: Seq<char>, hash: Seq<char>)
    ensures
        stored_hash(auth_key) == hex_text(
            sha256(encode_utf8(auth_key) + encode_utf8("server-salt-dill-share"@)),
        ),
        user_record(hash) matches JsonTree::Object(members) && members.dom() == set![
            "password_hash"@,
        ] && members["password_hash"@] == JsonTree::Text(hash),
{
    if let JsonTree::Object(members) = user_record(hash) {
        assert(members.dom() =~= set!["password_hash"@]);
    }
}

/// The name of a user takes 3 to 30 bytes and consists of letters, numbers, dashes and underscores.
pub proof fn names_are_short_and_simple(name: Seq<char>)
    ensures
        name_length_fits(name) == (3 <= encode_utf8(name).len() <= 30),
        name_chars_fit(name) == !(exists|i: int|
            0 <= i < name.len() && !letter_or_number(#[trigger] name[i]) && name[i] != '-'
                && name[i] != '_'),
{
}

/// An owner is named by the text of the record without white space at its ends; a record that is no
/// text, or cannot be had, names no one.
pub proof fn owners_are_read_from_records(bytes: Seq<u8>, reply: ObjectReply)
    ensures
        valid_utf8(bytes) ==> recorded_owner(bytes) == trimmed(decode_utf8(bytes)),
        !valid_utf8(bytes) ==> recorded_owner(bytes).len() == 0,
        owner_heard(reply) == (match reply {
            ObjectReply::Bytes(b) => recorded_owner(b@),
            ObjectReply::Absent | ObjectReply::BodyFailed(_) => Seq::empty(),
        }),
{
    assert(trimmed(Seq::<char>::empty()).len() == 0);
}

/// The entries of an index are those of the JSON list that was read; an index that cannot be had or
/// is no list has none. An entry is that of a share where it names its id, and counts for the size
/// that it names.
pub proof fn indices_are_read_as_lists(reply: ObjectReply, entry: JsonTree, uuid: Seq<char>)
    ensures
        match reply {
            ObjectReply::Bytes(b) => match json_list_parsed(b@) {
                Some(entries) => index_entries(reply) == entries,
                None => index_entries(reply).len() == 0,
            },
            _ => index_entries(reply).len() == 0,
        },
        is_share(entry, uuid) == (entry matches JsonTree::Object(members) && members.contains_key(
            "uuid"@,
        ) && members["uuid"@] == JsonTree::Text(uuid)),
        entry_size(entry) == (match entry {
            JsonTree::Object(members) => if members.contains_key("total_size"@) {
                match members["total_size"@] {
                    JsonTree::Int(n) => if i64::MIN <= n <= i64::MAX {
                        n
                    } else {
                        0
                    },
                    _ => 0,
                }
            } else {
                0
            },
            _ => 0,
        }),
{
}

/// A member of a document is read where the document is an object that has it and it is of the kind
/// that is asked for; setting a member of an object, and taking one out, leaves all others.
pub proof fn members_are_read_and_set(t: JsonTree, key: Seq<char>, item: JsonTree, name: Seq<char>)
    ensures
        match t {
            JsonTree::Object(m) => {
                &&& member(t, key) == (if m.contains_key(key) {
                    Some(m[key])
                } else {
                    None
                })
                &&& member(with_member(t, key, item), name) == (if name == key {
                    Some(item)
                } else {
                    member(t, name)
                })
                &&& member(without_member(t, key), name) == (if name == key {
                    None
                } else {
                    member(t, name)
                })
            },
            _ => member(t, key) is None && with_member(t, key, item) == t && without_member(t, key)
                == t,
        },
        text_member(t, key) == (match member(t, key) {
            Some(JsonTree::Text(s)) => Some(s),
            _ => None,
        }),
        i64_member(t, key) == (match member(t, key) {
            Some(JsonTree::Int(n)) if i64::MIN <= n <= i64::MAX => Some(n),
            _ => None,
        }),
{
}

/// A text ends with another exactly where it is something and then that text, and what comes before
/// the suffix is the rest.
pub proof fn suffixes_are_taken_off(stem: Seq<char>, suffix: Seq<char>, s: Seq<char>)
    ensures
        before_suffix(stem + suffix, suffix) == Some(stem),
        finishes(s, suffix) == (exists|r: Seq<char>| s == #[trigger] (r + suffix)),
        before_suffix(s, suffix) is Some ==> s == before_suffix(s, suffix)->0 + suffix,
{
    let t = stem + suffix;
    assert(t.skip(t.len() - suffix.len()) =~= suffix);
    assert(t.take(t.len() - suffix.len()) =~= stem);
    if finishes(s, suffix) {
        assert(s =~= s.take(s.len() - suffix.len()) + suffix);
    }
    if exists|r: Seq<char>| s == #[trigger] (r + suffix) {
        let r = choose|r: Seq<char>| s == #[trigger] (r + suffix);
        assert(s.skip(s.len() - suffix.len()) =~= suffix);
    }
}

} // verus!
