//! The index of a user's shares: a JSON list with one entry per share.

use vstd::prelude::*;
use crate::deletion::{is_settled, settled};
use crate::json::{
    i64_member, json_i64, json_i64_member, json_insert, json_list_parsed, json_object,
    json_parse_list, json_print_list, json_printed, json_text, json_text_member, json_tree,
    json_trees, json_usize, reads_back, text_member, JsonTree,
};
use crate::keys::{make_user_object, user_object};
use crate::model::views;
use crate::protocol::{
    ask_get, ask_put_json, readable_flow, ActionView, Flow, FlowView, Next, NextView, ObjectReply,
    Reply,
};
use crate::text::same;

verus! {

/// The entry of a share.
pub open spec fn share_entry(
    uuid: Seq<char>,
    files_count: int,
    total_size: int,
    created_at: Seq<char>,
) -> JsonTree {
    JsonTree::Object(
        Map::<Seq<char>, JsonTree>::empty().insert("uuid"@, JsonTree::Text(uuid)).insert(
            "files_count"@,
            JsonTree::Int(files_count),
        ).insert("total_size"@, JsonTree::Int(total_size)).insert(
            "created_at"@,
            JsonTree::Text(created_at),
        ),
    )
}

/// The entry of a share.
pub fn make_share_entry(
    uuid: &str,
    files_count: usize,
    total_size: i64,
    created_at: &str,
) -> (r: serde_json::Value)
    ensures
        json_tree(r) == share_entry(uuid@, files_count as int, total_size as int, created_at@),
{
    let mut r = json_object();
    json_insert(&mut r, "uuid", json_text(uuid.to_owned()));
    json_insert(&mut r, "files_count", json_usize(files_count));
    json_insert(&mut r, "total_size", json_i64(total_size));
    json_insert(&mut r, "created_at", json_text(created_at.to_owned()));
    r
}

/// The entries that some bytes list, where they are a JSON list.
pub open spec fn listed_shares(bytes: Seq<u8>) -> Option<Seq<JsonTree>> {
    json_list_parsed(bytes)
}

/// The entries of an index that was asked for; none where it could not be had or read.
pub open spec fn index_entries(reply: ObjectReply) -> Seq<JsonTree> {
    match reply {
        ObjectReply::Bytes(b) => match listed_shares(b@) {
            Some(items) => items,
            None => Seq::empty(),
        },
        _ => Seq::empty(),
    }
}

/// The entries that some bytes list.
pub fn read_shares(bytes: &Vec<u8>) -> (r: Option<Vec<serde_json::Value>>)
    ensures
        match r {
            Some(v) => listed_shares(bytes@) == Some(json_trees(v@)),
            None => listed_shares(bytes@) is None,
        },
{
    json_parse_list(bytes.as_slice())
}

/// The entries of an index that was asked for.
pub fn read_index(reply: &ObjectReply) -> (r: Vec<serde_json::Value>)
    ensures
        json_trees(r@) == index_entries(*reply),
{
    let none: Vec<serde_json::Value> = Vec::new();
    proof {
        assert(json_trees(none@) =~= Seq::<JsonTree>::empty());
    }
    match reply {
        ObjectReply::Bytes(b) => match read_shares(b) {
            Some(v) => v,
            None => none,
        },
        _ => none,
    }
}

/// The bytes of an index with one more entry.
pub open spec fn index_with(entries: Seq<JsonTree>, entry: JsonTree) -> Seq<u8> {
    json_printed(JsonTree::Array(entries.push(entry)))
}

/// The bytes of an index with one more entry.
pub fn write_index_with(entries: Vec<serde_json::Value>, entry: serde_json::Value) -> (r: Vec<u8>)
    ensures
        r@ == index_with(json_trees(entries@), json_tree(entry)),
        reads_back(r@),
{
    let ghost before = entries@;
    let mut all = entries;
    all.push(entry);
    proof {
        assert(json_trees(all@) =~= json_trees(before).push(json_tree(entry)));
    }
    json_print_list(&all)
}

/// Whether an entry is that of the share `uuid`.
pub open spec fn is_share(entry: JsonTree, uuid: Seq<char>) -> bool {
    text_member(entry, "uuid"@) == Some(uuid)
}

/// Some entries without those of the share `uuid`.
pub open spec fn without_share(entries: Seq<JsonTree>, uuid: Seq<char>) -> Seq<JsonTree> {
    entries.filter(|t: JsonTree| !is_share(t, uuid))
}

/// Some entries without those of the share `uuid`.
fn remove_share(entries: Vec<serde_json::Value>, uuid: &str) -> (r: Vec<serde_json::Value>)
    ensures
        json_trees(r@) == without_share(json_trees(entries@), uuid@),
{
    let ghost all = json_trees(entries@);
    let ghost p = |t: JsonTree| !is_share(t, uuid@);
    let mut r: Vec<serde_json::Value> = Vec::new();
    proof {
        reveal(Seq::filter);
        assert(json_trees(r@) =~= all.take(0).filter(p));
    }
    for entry in it: entries
        invariant
            it.seq() == entries@,
            all == json_trees(entries@),
            p == (|t: JsonTree| !is_share(t, uuid@)),
            json_trees(r@) == all.take(it.index()).filter(p),
    {
        let ghost before = r@;
        let ghost i = it.index();
        let mine = match json_text_member(&entry, "uuid") {
            Some(u) => same(u.as_str(), uuid),
            None => false,
        };
        proof {
            reveal(Seq::filter);
            assert(all.take(i + 1).drop_last() =~= all.take(i));
            assert(all.take(i + 1).last() == json_tree(entry));
        }
        if !mine {
            r.push(entry);
            proof {
                assert(json_trees(r@) =~= json_trees(before).push(json_tree(entry)));
            }
        }
    }
    proof {
        assert(all.take(all.len() as int) =~= all);
    }
    r
}

/// The ids of some shares, by their entries.
pub open spec fn share_ids(entries: Seq<JsonTree>) -> Seq<Seq<char>>
    decreases entries.len(),
{
    if entries.len() == 0 {
        Seq::empty()
    } else {
        match text_member(entries.last(), "uuid"@) {
            Some(u) => share_ids(entries.drop_last()).push(u),
            None => share_ids(entries.drop_last()),
        }
    }
}

/// The ids of some shares, by their entries.
pub fn ids_of(entries: &Vec<serde_json::Value>) -> (r: Vec<String>)
    ensures
        views(r@) == share_ids(json_trees(entries@)),
{
    let ghost all = json_trees(entries@);
    let mut r: Vec<String> = Vec::new();
    let mut i: usize = 0;
    proof {
        assert(views(r@) =~= share_ids(all.take(0)));
    }
    while i < entries.len()
        invariant
            i <= entries@.len(),
            all == json_trees(entries@),
            views(r@) == share_ids(all.take(i as int)),
        decreases entries@.len() - i,
    {
        let ghost before = r@;
        proof {
            assert(all.take(i + 1).drop_last() =~= all.take(i as int));
            assert(all.take(i + 1).last() == json_tree(entries@[i as int]));
        }
        if let Some(u) = json_text_member(&entries[i], "uuid") {
            r.push(u);
            proof {
                assert(views(r@) =~= views(before).push(u@));
            }
        }
        i = i + 1;
    }
    proof {
        assert(all.take(all.len() as int) =~= all);
    }
    r
}

/// The size that an entry states, or zero.
pub open spec fn entry_size(entry: JsonTree) -> int {
    match i64_member(entry, "total_size"@) {
        Some(n) => n,
        None => 0,
    }
}

/// The sum of the sizes that some entries state, where no sum on the way leaves `i64`.
pub open spec fn sizes_total(entries: Seq<JsonTree>) -> Option<int>
    decreases entries.len(),
{
    if entries.len() == 0 {
        Some(0)
    } else {
        match sizes_total(entries.drop_last()) {
            Some(t) => if i64::MIN <= t + entry_size(entries.last()) <= i64::MAX {
                Some(t + entry_size(entries.last()))
            } else {
                None
            },
            None => None,
        }
    }
}

/// Where a sum over the first entries leaves `i64`, the sum over all has none.
proof fn lemma_sizes_total_none(entries: Seq<JsonTree>, i: int)
    requires
        0 <= i <= entries.len(),
        sizes_total(entries.take(i)) is None,
    ensures
        sizes_total(entries) is None,
    decreases entries.len() - i,
{
    if i == entries.len() {
        assert(entries.take(i) =~= entries);
    } else {
        assert(entries.take(i + 1).drop_last() =~= entries.take(i));
        lemma_sizes_total_none(entries, i + 1);
    }
}

/// The sum of the sizes that some entries state.
pub fn total_size(entries: &Vec<serde_json::Value>) -> (r: Option<i64>)
    ensures
        match r {
            Some(n) => sizes_total(json_trees(entries@)) == Some(n as int),
            None => sizes_total(json_trees(entries@)) is None,
        },
{
    let ghost all = json_trees(entries@);
    let mut total: i64 = 0;
    let mut i: usize = 0;
    while i < entries.len()
        invariant
            i <= entries@.len(),
            all == json_trees(entries@),
            sizes_total(all.take(i as int)) == Some(total as int),
        decreases entries@.len() - i,
    {
        let size: i64 = match json_i64_member(&entries[i], "total_size") {
            Some(n) => n,
            None => 0,
        };
        proof {
            assert(all.take(i + 1).drop_last() =~= all.take(i as int));
            assert(all.take(i + 1).last() == json_tree(entries@[i as int]));
        }
        match total.checked_add(size) {
            Some(t) => {
                total = t;
            },
            None => {
                proof {
                    lemma_sizes_total_none(all, i + 1);
                }
                return None;
            },
        }
        i = i + 1;
    }
    proof {
        assert(all.take(all.len() as int) =~= all);
    }
    Some(total)
}

// ---------------------------------------------------------------------------
// Taking a share out of an index
// ---------------------------------------------------------------------------

/// The index of a user's shares.
pub open spec fn index_key(username: Seq<char>) -> Seq<char> {
    user_object(username, "public_shares.json"@)
}

/// The index of a user's shares.
pub fn make_index_key(username: &str) -> (r: String)
    ensures
        r@ == index_key(username@),
{
    make_user_object(username, "public_shares.json")
}

/// Takes a share out of the index of a user, where the index can be had and read; whatever comes
/// of writing it back.
pub open spec fn index_removal(
    username: Seq<char>,
    uuid: Seq<char>,
    heard: Seq<Reply>,
    at: int,
) -> FlowView<()> {
    if username.len() == 0 {
        FlowView::Go((), at)
    } else if at >= heard.len() {
        FlowView::Stop(NextView::Perform(ActionView::Get { key: index_key(username) }))
    } else {
        match heard[at] {
            Reply::Object(ObjectReply::Bytes(b)) => match listed_shares(b@) {
                Some(entries) => if at + 1 >= heard.len() {
                    FlowView::Stop(
                        NextView::Perform(
                            ActionView::Put {
                                key: index_key(username),
                                content_type: "application/json"@,
                                body: json_printed(JsonTree::Array(without_share(entries, uuid))),
                            },
                        ),
                    )
                } else if settled(heard[at + 1]) {
                    FlowView::Go((), at + 2)
                } else {
                    FlowView::Stop(NextView::Misheard)
                },
                None => FlowView::Go((), at + 1),
            },
            Reply::Object(_) => FlowView::Go((), at + 1),
            _ => FlowView::Stop(NextView::Misheard),
        }
    }
}

/// Takes a share out of the index of a user.
pub fn remove_share_from_user_index(
    username: &str,
    uuid: &str,
    heard: &Vec<Reply>,
    at: usize,
) -> (r: Flow<()>)
    requires
        at <= heard@.len(),
    ensures
        r@ == index_removal(username@, uuid@, heard@, at as int),
        r matches Flow::Go(_, a) ==> at <= a <= heard@.len(),
        readable_flow(r@),
{
    if username.is_empty() {
        return Flow::Go((), at);
    }
    let key = make_index_key(username);
    if at >= heard.len() {
        return Flow::Stop(ask_get(key));
    }
    match &heard[at] {
        Reply::Object(ObjectReply::Bytes(b)) => match read_shares(b) {
            Some(entries) => {
                if at + 1 >= heard.len() {
                    let kept = remove_share(entries, uuid);
                    return Flow::Stop(ask_put_json(key, json_print_list(&kept)));
                }
                if is_settled(&heard[at + 1]) {
                    Flow::Go((), at + 2)
                } else {
                    Flow::Stop(Next::Misheard)
                }
            },
            None => Flow::Go((), at + 1),
        },
        Reply::Object(_) => Flow::Go((), at + 1),
        _ => Flow::Stop(Next::Misheard),
    }
}

} // verus!
