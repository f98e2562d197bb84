//! Laws of shares: owners, indices, files, ranges.

use vstd::prelude::*;
use vstd::utf8::{encode_utf8, encode_utf8_decode_utf8, encode_utf8_valid_utf8};
use crate::clock::{in_calendar, later, rfc3339, UtcTime};
use crate::deletion::prefix_deletion;
use crate::gate::{caller, Header, Headers, Site};
use crate::json::{
    i64_member, lemma_plain_list, lemma_plain_member, lemma_raw_value_key, plain, text_member,
    with_member, JsonTree,
};
use crate::keys::{share_key, share_prefix};
use crate::laws_scope::{lemma_begins, lemma_deletion_never_done, lemma_form_never_done};
use crate::media::media_type;
use crate::number::{decimal, is_digit, lemma_nat_text, u64_number};
use crate::protocol::{
    readable_flow, ActionView, AnswerView, FieldReply, FlowView, NextView, ObjectReply, Reply,
    ShareFileView,
};
use crate::shares::{
    entry_size, index_entries, index_key, index_removal, is_share, listed_shares, share_entry,
    share_ids, without_share,
};
use crate::sharing::{
    download_file_next, find_files, range_text, range_wanted, recorded_owner, requested_range,
    with_file, FoundView, RangeView,
};
use crate::storage::S3ListedObject;
use crate::text::{
    lemma_pieces_first, lemma_pieces_last, lemma_trimmed_is, pieces, trimmed,
    trimming_twice_changes_nothing,
};
use crate::uploads::{
    is_marker, record_owner, record_share, relative, share_upload, store_form, upload_files_next,
    FormView,
};

verus! {

// ---------------------------------------------------------------------------
// Owners
// ---------------------------------------------------------------------------

/// The record that an upload stores names the user who uploaded, at the place where the record is
/// looked for when the share is to be removed. A login gives out names without white space at
/// their ends.
pub proof fn uploaders_own_their_shares(given_name: Seq<char>, uuid: Seq<char>, heard: Seq<Reply>)
    ensures
        record_owner(trimmed(given_name), uuid, heard, heard.len() as int) matches FlowView::Stop(
            NextView::Perform(ActionView::Put { key, body, .. }),
        ) && key == share_key(uuid, "owner.txt"@) && recorded_owner(body) == trimmed(given_name),
{
    trimming_twice_changes_nothing(given_name);
    encode_utf8_valid_utf8(trimmed(given_name));
    encode_utf8_decode_utf8(trimmed(given_name));
}

// ---------------------------------------------------------------------------
// Indices
// ---------------------------------------------------------------------------

/// The entry of a share says what it was made for.
pub proof fn entries_say_what_they_were_made_for(
    uuid: Seq<char>,
    files_count: int,
    total_size: int,
    created_at: Seq<char>,
)
    requires
        i64::MIN <= total_size <= i64::MAX,
        0 <= files_count <= i64::MAX,
    ensures
        ({
            let entry = share_entry(uuid, files_count, total_size, created_at);
            &&& text_member(entry, "uuid"@) == Some(uuid)
            &&& i64_member(entry, "files_count"@) == Some(files_count)
            &&& i64_member(entry, "total_size"@) == Some(total_size)
            &&& text_member(entry, "created_at"@) == Some(created_at)
            &&& entry_size(entry) == total_size
        }),
{
    lemma_entry_names_differ();
}

/// The names of the members of an entry differ.
pub proof fn lemma_entry_names_differ()
    ensures
        "uuid"@ != "files_count"@,
        "uuid"@ != "total_size"@,
        "uuid"@ != "created_at"@,
        "files_count"@ != "total_size"@,
        "files_count"@ != "created_at"@,
        "total_size"@ != "created_at"@,
{
    reveal_strlit("uuid");
    reveal_strlit("files_count");
    reveal_strlit("total_size");
    reveal_strlit("created_at");
    assert("uuid"@.len() == 4);
    assert("files_count"@.len() == 11);
    assert("total_size"@.len() == 10);
    assert("created_at"@.len() == 10);
    assert("total_size"@[0] == 't');
    assert("created_at"@[0] == 'c');
}

/// An entry is a plain document.
proof fn lemma_entry_is_plain(
    uuid: Seq<char>,
    files_count: int,
    total_size: int,
    created_at: Seq<char>,
    depth: nat,
)
    requires
        0 <= files_count <= u64::MAX,
        i64::MIN <= total_size <= i64::MAX,
        depth > 0,
    ensures
        plain(share_entry(uuid, files_count, total_size, created_at), depth),
{
    let t0 = JsonTree::Object(Map::<Seq<char>, JsonTree>::empty());
    assert(plain(t0, depth));
    lemma_raw_value_key();
    reveal_strlit("uuid");
    reveal_strlit("files_count");
    reveal_strlit("total_size");
    reveal_strlit("created_at");
    lemma_plain_member(t0, "uuid"@, JsonTree::Text(uuid), depth);
    let t1 = with_member(t0, "uuid"@, JsonTree::Text(uuid));
    lemma_plain_member(t1, "files_count"@, JsonTree::Int(files_count), depth);
    let t2 = with_member(t1, "files_count"@, JsonTree::Int(files_count));
    lemma_plain_member(t2, "total_size"@, JsonTree::Int(total_size), depth);
    let t3 = with_member(t2, "total_size"@, JsonTree::Int(total_size));
    lemma_plain_member(t3, "created_at"@, JsonTree::Text(created_at), depth);
}

/// A share that was uploaded is listed in the index of its owner, after the shares that were there.
pub proof fn uploaded_shares_are_listed(
    username: Seq<char>,
    uuid: Seq<char>,
    files_count: int,
    total_size: int,
    heard: Seq<Reply>,
    at: int,
    reply: ObjectReply,
    now: UtcTime,
)
    requires
        0 <= at,
        heard.len() == at + 2,
        heard[at] == Reply::Object(reply),
        heard[at + 1] == Reply::Time(now),
        rfc3339(now.secs as int, now.nanos as int) is Some,
        0 <= files_count <= u64::MAX,
        i64::MIN <= total_size <= i64::MAX,
        plain(JsonTree::Array(index_entries(reply)), 127),
        readable_flow(record_share(username, uuid, files_count, total_size, heard, at)),
    ensures
        record_share(username, uuid, files_count, total_size, heard, at) matches FlowView::Stop(
            NextView::Perform(ActionView::Put { key, body, .. }),
        ) && key == index_key(username) && (listed_shares(body) matches Some(entries)
            && entries.len() == index_entries(reply).len() + 1 && entries.drop_last()
            == index_entries(reply) && is_share(entries.last(), uuid)),
{
    let created_at = rfc3339(now.secs as int, now.nanos as int)->0;
    let entry = share_entry(uuid, files_count, total_size, created_at);
    let before = index_entries(reply);
    let entries = before.push(entry);
    lemma_entry_names_differ();
    lemma_entry_is_plain(uuid, files_count, total_size, created_at, 126);
    lemma_plain_list(before, 127);
    assert forall|i: int| 0 <= i < entries.len() implies plain(#[trigger] entries[i], 126) by {
        if i < before.len() {
            assert(entries[i] == before[i]);
            assert(plain(before[i], 126));
        }
    }
    lemma_plain_list(entries, 127);
    assert(entries.drop_last() =~= before);
}

/// After a share is taken out of an index, the index that is stored lists it no more, and lists
/// every other share as before.
pub proof fn removed_shares_are_not_listed(
    username: Seq<char>,
    uuid: Seq<char>,
    heard: Seq<Reply>,
    at: int,
    reply: ObjectReply,
)
    requires
        0 <= at,
        heard.len() == at + 1,
        heard[at] == Reply::Object(reply),
        plain(JsonTree::Array(index_entries(reply)), 127),
        readable_flow(index_removal(username, uuid, heard, at)),
    ensures
        index_removal(username, uuid, heard, at) matches FlowView::Stop(
            NextView::Perform(ActionView::Put { key, body, .. }),
        ) ==> key == index_key(username) && (listed_shares(body) matches Some(entries) && entries
            == without_share(index_entries(reply), uuid)),
        share_ids(without_share(index_entries(reply), uuid)) == share_ids(
            index_entries(reply),
        ).filter(|u: Seq<char>| u != uuid),
{
    let entries = index_entries(reply);
    lemma_without_share(entries, uuid);
    let kept = without_share(entries, uuid);
    lemma_plain_list(entries, 127);
    assert forall|i: int| 0 <= i < kept.len() implies plain(#[trigger] kept[i], 126) by {
        assert(entries.contains(kept[i]));
        let j = choose|j: int| 0 <= j < entries.len() && entries[j] == kept[i];
        assert(plain(entries[j], 126));
    }
    lemma_plain_list(kept, 127);
}

/// Taking a share out of some entries takes its id out of their ids, and keeps the other entries.
proof fn lemma_without_share(entries: Seq<JsonTree>, uuid: Seq<char>)
    ensures
        share_ids(without_share(entries, uuid)) == share_ids(entries).filter(
            |u: Seq<char>| u != uuid,
        ),
        forall|i: int|
            0 <= i < without_share(entries, uuid).len() ==> entries.contains(
                #[trigger] without_share(entries, uuid)[i],
            ),
    decreases entries.len(),
{
    reveal(Seq::filter);
    let p = |u: Seq<char>| u != uuid;
    if entries.len() > 0 {
        let rest = entries.drop_last();
        let last = entries.last();
        lemma_without_share(rest, uuid);
        let kept_rest = without_share(rest, uuid);
        let kept = without_share(entries, uuid);
        let ids = share_ids(rest);
        if let Some(u) = text_member(last, "uuid"@) {
            assert(ids.push(u).drop_last() =~= ids);
            assert(ids.push(u).last() == u);
        }
        if is_share(last, uuid) {
            assert(kept =~= kept_rest);
        } else {
            assert(kept =~= kept_rest.push(last));
            assert(kept.drop_last() =~= kept_rest);
        }
        assert forall|i: int| 0 <= i < kept.len() implies entries.contains(
            #[trigger] kept[i],
        ) by {
            if i < kept_rest.len() {
                assert(kept[i] == kept_rest[i]);
                let j = choose|j: int| 0 <= j < rest.len() && rest[j] == kept_rest[i];
                assert(entries[j] == kept[i]);
            } else {
                assert(entries[entries.len() - 1] == kept[i]);
            }
        }
    } else {
        assert(share_ids(entries).filter(p) =~= Seq::<Seq<char>>::empty());
    }
}

// ---------------------------------------------------------------------------
// Uploads that break off
// ---------------------------------------------------------------------------

/// A client is told that an upload broke off only after everything stored for the share was to be
/// removed, and the removal came to an end.
pub proof fn broken_uploads_are_cleared(
    site: Site,
    headers: Headers,
    uuid: String,
    heard: Seq<Reply>,
)
    requires
        caller(site, headers, heard) is Go,
        heard.len() > 1,
        heard[1] == Reply::Id(uuid),
        upload_files_next(site, headers, heard) matches NextView::Done(AnswerView::Refused { .. }),
    ensures
        ({
            let username = caller(site, headers, heard)->Go_0.username;
            share_upload(username, uuid@, heard, 2) matches FlowView::Go(upload, at)
                && upload is Broken && prefix_deletion(share_prefix(uuid@), heard, at) is Go
        }),
{
    let username = caller(site, headers, heard)->Go_0.username;
    lemma_form_never_done(uuid@, Seq::empty(), heard, 2);
    if let FlowView::Go(_, at) = share_upload(username, uuid@, heard, 2) {
        lemma_deletion_never_done(share_prefix(uuid@), heard, at);
    }
}

// ---------------------------------------------------------------------------
// Files
// ---------------------------------------------------------------------------

/// The files of a share among its listed objects from place `i` on: those with a key, a size and a
/// time that are no markers.
pub open spec fn visible_files(objects: Seq<S3ListedObject>, i: int, prefix: Seq<char>) -> Seq<
    ShareFileView,
>
    decreases objects.len() - i,
{
    if i < 0 || i >= objects.len() {
        Seq::empty()
    } else {
        let rest = visible_files(objects, i + 1, prefix);
        match (objects[i].key, objects[i].size, objects[i].last_modified_secs) {
            (Some(key), Some(size), Some(_)) => if is_marker(relative(key@, prefix)) {
                rest
            } else {
                seq![ShareFileView { name: relative(key@, prefix), size: size as int }] + rest
            },
            _ => rest,
        }
    }
}

/// Whether an object is a file that was stored at a time of the calendar.
pub open spec fn file_time(o: S3ListedObject, prefix: Seq<char>) -> Option<UtcTime> {
    match (o.key, o.size, o.last_modified_secs) {
        (Some(key), Some(_), Some(secs)) => if is_marker(relative(key@, prefix)) {
            None
        } else {
            Some(UtcTime { secs, nanos: 0 })
        },
        _ => None,
    }
}

/// Looking at a share shows exactly its files, and as its time one that none of them is later
/// than.
pub proof fn shares_show_their_files(
    objects: Seq<S3ListedObject>,
    i: int,
    prefix: Seq<char>,
    found: FoundView,
    heard: Seq<Reply>,
    at: int,
)
    requires
        0 <= i <= objects.len(),
    ensures
        find_files(objects, i, prefix, found, heard, at) matches FlowView::Go(f, _) ==> {
            &&& f.files == found.files + visible_files(objects, i, prefix)
            &&& found.latest matches Some(l) ==> (f.latest matches Some(m) && !later(l, m))
            &&& forall|j: int|
                i <= j < objects.len() && in_calendar(
                    (#[trigger] objects[j]).last_modified_secs->0 as int,
                ) ==> (file_time(objects[j], prefix) matches Some(t) ==> (f.latest matches Some(m)
                    && !later(t, m)))
        },
    decreases objects.len() - i,
{
    if i < objects.len() {
        if let (Some(key), Some(size), Some(secs)) = (
            objects[i].key,
            objects[i].size,
            objects[i].last_modified_secs,
        ) {
            let name = relative(key@, prefix);
            let file = ShareFileView { name, size: size as int };
            let t = UtcTime { secs, nanos: 0 };
            let more = with_file(found, name, size as int, t);
            shares_show_their_files(objects, i + 1, prefix, more, heard, at);
            let rest = visible_files(objects, i + 1, prefix);
            assert(found.files.push(file) + rest =~= found.files + (seq![file] + rest));
            if at < heard.len() {
                if let Reply::Time(now) = heard[at] {
                    let more = with_file(found, name, size as int, now);
                    shares_show_their_files(objects, i + 1, prefix, more, heard, at + 1);
                }
            }
        }
        shares_show_their_files(objects, i + 1, prefix, found, heard, at);
    } else {
        assert(found.files + Seq::<ShareFileView>::empty() =~= found.files);
    }
}

/// A file that an upload stores under a path is shown under that path, unless the path is that of a
/// marker, and is fetched from where it was stored.
pub proof fn stored_files_are_shown_and_fetched(
    headers: Headers,
    uuid: Seq<char>,
    path: Seq<char>,
    o: S3ListedObject,
)
    requires
        o.key matches Some(key) && key@ == share_key(uuid, path),
        o.size is Some,
        o.last_modified_secs is Some,
    ensures
        visible_files(seq![o], 0, share_prefix(uuid)) == (if is_marker(path) {
            Seq::empty()
        } else {
            seq![ShareFileView { name: path, size: o.size->0 as int }]
        }),
        download_file_next(headers, uuid, path, Seq::empty()) == NextView::Perform(
            ActionView::Fetch { key: share_key(uuid, path), range: range_wanted(headers.range) },
        ),
{
    let prefix = share_prefix(uuid);
    lemma_begins(prefix, path);
    assert((prefix + path).skip(prefix.len() as int) =~= path);
    let objects = seq![o];
    assert(visible_files(objects, 1, prefix) =~= Seq::<ShareFileView>::empty());
    assert(objects[0] == o);
    assert(visible_files(objects, 0, prefix) =~= if is_marker(path) {
        Seq::empty()
    } else {
        seq![ShareFileView { name: path, size: o.size->0 as int }]
    });
}

/// The path under which an upload in one request stores a file is that of the client.
pub proof fn uploads_store_files_by_their_path(uuid: Seq<char>, path: String, heard: Seq<Reply>)
    requires
        heard.len() > 0,
        heard.last() == Reply::Field(FieldReply::Named(path)),
        trimmed(path@).len() > 0,
    ensures
        store_form(uuid, Seq::empty(), heard, heard.len() - 1) == FlowView::<FormView>::Stop(
            NextView::Perform(
                ActionView::StoreField {
                    key: share_key(uuid, path@),
                    content_type: media_type(path@),
                },
            ),
        ),
{
}

// ---------------------------------------------------------------------------
// Ranges
// ---------------------------------------------------------------------------

/// A header that asks for several ranges is answered with the whole file.
pub proof fn several_ranges_are_ignored(range: Header, ranges: Seq<char>)
    requires
        range matches Header::Text(s) && s@ == "bytes="@ + ranges,
        ranges.contains(','),
    ensures
        range_wanted(range) is None,
{
    lemma_begins("bytes="@, ranges);
    assert(("bytes="@ + ranges).skip("bytes="@.len() as int) =~= ranges);
}

/// A single range is asked of the service as the client asked for it.
#[verifier::spinoff_prover]
#[verifier::rlimit(40)]
pub proof fn single_ranges_are_passed_on(range: Header, start: int, end: int)
    requires
        0 <= start <= u64::MAX,
        0 <= end <= u64::MAX,
        range matches Header::Text(s) && s@ == "bytes="@ + (decimal(start) + "-"@ + decimal(end)),
    ensures
        requested_range(range) == Some(RangeView { start, end: Some(end) }),
        range matches Header::Text(s) && range_wanted(range) == Some(s@),
{
    let ranges = decimal(start) + "-"@ + decimal(end);
    lemma_begins("bytes="@, ranges);
    assert(("bytes="@ + ranges).skip("bytes="@.len() as int) =~= ranges);
    reveal_strlit("-");
    assert("-"@ =~= seq!['-']);
    lemma_number_text(start);
    lemma_number_text(end);
    assert(!ranges.contains(',')) by {
        if ranges.contains(',') {
            let i = choose|i: int| 0 <= i < ranges.len() && ranges[i] == ',';
            if i < decimal(start).len() {
                assert(is_digit(decimal(start)[i]));
            } else if i > decimal(start).len() {
                assert(is_digit(decimal(end)[i - decimal(start).len() - 1]));
            }
        }
    }
    lemma_pieces_first(decimal(start), '-', decimal(end));
    lemma_pieces_last(decimal(end), '-');
    assert(pieces(ranges, '-') =~= seq![decimal(start), decimal(end)]);
    if let Header::Text(s) = range {
        assert(s@ =~= range_text(RangeView { start, end: Some(end) }));
    }
}

/// The text of a natural number is digits, and reads back.
pub proof fn lemma_number_text(n: int)
    requires
        0 <= n <= u64::MAX,
    ensures
        decimal(n).len() > 0,
        forall|i: int| 0 <= i < decimal(n).len() ==> is_digit(#[trigger] decimal(n)[i]),
        !decimal(n).contains('-'),
        trimmed(decimal(n)) == decimal(n),
        u64_number(decimal(n)) == Some(n),
{
    lemma_nat_text(n as nat);
    assert(is_digit(decimal(n)[0]));
    assert(is_digit(decimal(n)[decimal(n).len() - 1]));
    lemma_trimmed_is(decimal(n));
    if decimal(n).contains('-') {
        let i = choose|i: int| 0 <= i < decimal(n).len() && decimal(n)[i] == '-';
        assert(is_digit(decimal(n)[i]));
    }
}

} // verus!
