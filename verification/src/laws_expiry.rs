//! Laws of expiry: what the settings of the sweep mean, and what a whole sweep drops, removes and
//! leaves.

use vstd::prelude::*;
use crate::cleanup::{
    abort_old_uploads, ages_fit, cleanup_next, expired_keys, expired_shares, group_expired,
    group_latest, group_names, group_owned, item, items, limit, prune_shares, sweep_objects,
    ItemView, Limits,
};
use crate::clock::UtcTime;
use crate::deletion::{delete_batches, OutcomeView, Wording};
use crate::keys::share_key;
use crate::laws_clearing::{
    batch_count, lemma_batches, lemma_filter_none, lemma_filter_skip, lemma_nth_batch,
};
use crate::laws_hearing::lemma_prune_shares_heeds;
use crate::laws_scope::{lemma_batch_is_listed, lemma_batches_never_done};
use crate::laws_sweep::{
    expired_objects_are_removed, has_expired, lemma_group_appears, lemma_group_latest,
    lemma_prune_asks, objects_of_a_share_are_one_group,
};
use crate::number::i64_number;
use crate::protocol::{ActionView, AnswerView, FlowView, ListedUpload, NextView, ObjectReply, Reply};
use crate::shares::index_removal;
use crate::sharing::recorded_owner;
use crate::storage::S3ListedObject;
use crate::text::{begins, finishes, lemma_position, position};
use crate::uploads::relative;

verus! {

// ---------------------------------------------------------------------------
// Settings
// ---------------------------------------------------------------------------

/// The number that a setting gives, or the usual one where it gives none.
pub open spec fn set_to(setting: Option<Seq<char>>, usual: int) -> int {
    match setting {
        Some(text) => match i64_number(text) {
            Some(n) => n,
            None => usual,
        },
        None => usual,
    }
}

/// How long a share is kept: as many days as are set, or 90.
pub open spec fn share_seconds(days: Option<Seq<char>>) -> int {
    set_to(days, 90) * 86400
}

/// How long an upload without an owner is kept: as many hours as are set, or 12.
pub open spec fn partial_seconds(hours: Option<Seq<char>>) -> int {
    set_to(hours, 12) * 3600
}

/// Whether the settings stay within what the machine can count.
pub open spec fn settings_fit(days: Option<Seq<char>>, hours: Option<Seq<char>>) -> bool {
    i64::MIN <= share_seconds(days) <= i64::MAX && i64::MIN <= partial_seconds(hours) <= i64::MAX
}

/// The limits that the settings give.
pub open spec fn limits_set(
    days: Option<Seq<char>>,
    hours: Option<Seq<char>>,
) -> Limits {
    Limits { share: share_seconds(days) as i64, partial: partial_seconds(hours) as i64 }
}

// ---------------------------------------------------------------------------
// Groups of objects
// ---------------------------------------------------------------------------

/// A key without `uploads/` in front.
pub open spec fn below_uploads(key: Seq<char>) -> Seq<char> {
    if begins(key, "uploads/"@) {
        key.skip("uploads/"@.len() as int)
    } else {
        key
    }
}

/// The share that an object belongs to: the part of its key before the first `/`.
pub open spec fn group_of(key: Seq<char>) -> Seq<char> {
    below_uploads(key).take(position(below_uploads(key), '/'))
}

/// Whether an object is the record of an owner.
pub open spec fn names_owner(key: Seq<char>) -> bool {
    finishes(below_uploads(key), "/owner.txt"@) || below_uploads(key) == "owner.txt"@
}

/// Whether the object `j` of a list has a key and a time, and belongs to a share.
pub open spec fn in_group(
    objects: Seq<S3ListedObject>,
    j: int,
    group: Seq<char>,
) -> bool {
    &&& 0 <= j < objects.len()
    &&& objects[j].key matches Some(key) && group_of(key@) == group
    &&& objects[j].last_modified_secs is Some
}

/// Whether a share has an owner: some object of it is the record of one.
pub open spec fn has_owner(objects: Seq<S3ListedObject>, group: Seq<char>) -> bool {
    exists|j: int| #[trigger] in_group(objects, j, group) && names_owner(objects[j].key->0@)
}

/// Whether a share is too old: every object of it was stored longer ago than it is kept, and so
/// was 1970.
pub open spec fn is_too_old(
    objects: Seq<S3ListedObject>,
    group: Seq<char>,
    now: int,
    days: Option<Seq<char>>,
    hours: Option<Seq<char>>,
) -> bool {
    let kept = if has_owner(objects, group) {
        share_seconds(days)
    } else {
        partial_seconds(hours)
    };
    now > kept && forall|j: int| #[trigger]
        in_group(objects, j, group) ==> now - objects[j].last_modified_secs->0 > kept
}

/// Whether a key is to be removed: it is that of a listed object of a share that is too old.
pub open spec fn is_to_go(
    objects: Seq<S3ListedObject>,
    key: Seq<char>,
    now: int,
    days: Option<Seq<char>>,
    hours: Option<Seq<char>>,
) -> bool {
    exists|j: int| #[trigger]
        in_group(objects, j, group_of(key)) && objects[j].key->0@ == key && is_too_old(
            objects,
            group_of(key),
            now,
            days,
            hours,
        )
}

/// An object of a share belongs to the group of the share's id, and `owner.txt` in it is the record
/// of its owner.
pub proof fn objects_belong_to_their_share(uuid: Seq<char>, name: Seq<char>)
    requires
        !uuid.contains('/'),
    ensures
        group_of("uploads/"@ + uuid + "/"@ + name) == uuid,
        names_owner("uploads/"@ + uuid + "/"@ + "owner.txt"@),
{
    objects_of_a_share_are_one_group(uuid, name, 0);
    objects_of_a_share_are_one_group(uuid, "owner.txt"@, 0);
    lemma_item(share_key(uuid, name), 0);
    lemma_item(share_key(uuid, "owner.txt"@), 0);
}

/// What is known of an object by its key.
proof fn lemma_item(key: Seq<char>, secs: int)
    ensures
        item(key, secs).group == group_of(key),
        item(key, secs).owner == names_owner(key),
        item(key, secs).key == key,
        item(key, secs).secs == secs,
{
    let rel = below_uploads(key);
    assert(relative(key, "uploads/"@) == rel);
    lemma_position(rel, '/');
    if position(rel, '/') >= rel.len() {
        assert(rel.take(rel.len() as int) =~= rel);
    }
}

/// Each item is a listed object.
proof fn lemma_item_is_listed(objects: Seq<S3ListedObject>, i: int) -> (j: int)
    requires
        0 <= i < items(objects).len(),
    ensures
        0 <= j < objects.len(),
        objects[j].key is Some,
        objects[j].last_modified_secs is Some,
        items(objects)[i] == item(objects[j].key->0@, objects[j].last_modified_secs->0 as int),
    decreases objects.len(),
{
    let rest = objects.drop_last();
    if i < items(rest).len() {
        let j = lemma_item_is_listed(rest, i);
        assert(objects[j] == rest[j]);
        j
    } else {
        objects.len() - 1
    }
}

/// Each listed object is an item.
proof fn lemma_listed_is_item(objects: Seq<S3ListedObject>, j: int) -> (i: int)
    requires
        0 <= j < objects.len(),
        objects[j].key is Some,
        objects[j].last_modified_secs is Some,
    ensures
        0 <= i < items(objects).len(),
        items(objects)[i] == item(objects[j].key->0@, objects[j].last_modified_secs->0 as int),
    decreases objects.len(),
{
    let rest = objects.drop_last();
    if j < rest.len() {
        assert(objects[j] == rest[j]);
        let i = lemma_listed_is_item(rest, j);
        assert(items(objects)[i] == items(rest)[i]);
        i
    } else {
        items(objects).len() - 1
    }
}

/// The latest time of a group is that of one of its items, or 1970.
proof fn lemma_latest_is_reached(all: Seq<ItemView>, group: Seq<char>)
    ensures
        group_latest(all, group) >= 0,
        group_latest(all, group) > 0 ==> exists|i: int|
            0 <= i < all.len() && (#[trigger] all[i]).group == group && all[i].secs
                == group_latest(all, group),
    decreases all.len(),
{
    if all.len() > 0 {
        let rest = all.drop_last();
        lemma_latest_is_reached(rest, group);
        if all.last().group == group && all.last().secs > group_latest(rest, group) {
            assert(all[all.len() - 1].secs == group_latest(all, group));
        } else if group_latest(all, group) > 0 {
            let i = choose|i: int|
                0 <= i < rest.len() && (#[trigger] rest[i]).group == group && rest[i].secs
                    == group_latest(rest, group);
            assert(all[i] == rest[i]);
        }
    }
}

/// A group is expired exactly where it is too old by the settings.
proof fn lemma_expired_is_too_old(
    objects: Seq<S3ListedObject>,
    group: Seq<char>,
    now: int,
    days: Option<Seq<char>>,
    hours: Option<Seq<char>>,
)
    requires
        settings_fit(days, hours),
    ensures
        group_owned(items(objects), group) == has_owner(objects, group),
        group_expired(items(objects), group, now, limits_set(days, hours))
            == is_too_old(objects, group, now, days, hours),
{
    let all = items(objects);
    if group_owned(all, group) {
        let i = choose|i: int|
            0 <= i < all.len() && (#[trigger] all[i]).group == group && all[i].owner;
        let j = lemma_item_is_listed(objects, i);
        lemma_item(objects[j].key->0@, objects[j].last_modified_secs->0 as int);
        assert(in_group(objects, j, group));
    }
    if has_owner(objects, group) {
        let j = choose|j: int| #[trigger]
            in_group(objects, j, group) && names_owner(objects[j].key->0@);
        lemma_item(objects[j].key->0@, objects[j].last_modified_secs->0 as int);
        let i = lemma_listed_is_item(objects, j);
        assert(all[i].group == group && all[i].owner);
    }
    let latest = group_latest(all, group);
    let kept = if has_owner(objects, group) {
        share_seconds(days)
    } else {
        partial_seconds(hours)
    };
    lemma_latest_is_reached(all, group);
    if now - latest > kept {
        assert forall|j: int| #[trigger] in_group(objects, j, group) implies now
            - objects[j].last_modified_secs->0 > kept by {
            lemma_item(objects[j].key->0@, objects[j].last_modified_secs->0 as int);
            let i = lemma_listed_is_item(objects, j);
            lemma_group_latest(all, i);
        }
    }
    if is_too_old(objects, group, now, days, hours) && latest > 0 {
        let i = choose|i: int|
            0 <= i < all.len() && (#[trigger] all[i]).group == group && all[i].secs == latest;
        let j = lemma_item_is_listed(objects, i);
        lemma_item(objects[j].key->0@, objects[j].last_modified_secs->0 as int);
        assert(in_group(objects, j, group));
    }
}

/// The keys that a sweep removes.
pub open spec fn keys_gone(
    objects: Seq<S3ListedObject>,
    now: int,
    days: Option<Seq<char>>,
    hours: Option<Seq<char>>,
) -> Seq<Seq<char>> {
    expired_keys(
        items(objects),
        group_names(items(objects)),
        now,
        limits_set(days, hours),
    )
}

/// The shares that a sweep takes out of indices.
pub open spec fn shares_gone(
    objects: Seq<S3ListedObject>,
    now: int,
    days: Option<Seq<char>>,
    hours: Option<Seq<char>>,
) -> Seq<Seq<char>> {
    expired_shares(
        items(objects),
        group_names(items(objects)),
        now,
        limits_set(days, hours),
    )
}

/// The keys that a sweep removes are exactly those that are to go by the settings; the shares that
/// it takes out of indices are exactly those with an owner that are too old, each once.
pub proof fn what_goes_is_too_old(
    objects: Seq<S3ListedObject>,
    now: int,
    days: Option<Seq<char>>,
    hours: Option<Seq<char>>,
    key: Seq<char>,
    group: Seq<char>,
)
    requires
        settings_fit(days, hours),
    ensures
        keys_gone(objects, now, days, hours).contains(key) == is_to_go(
            objects,
            key,
            now,
            days,
            hours,
        ),
        shares_gone(objects, now, days, hours).contains(group) == (has_owner(objects, group)
            && is_too_old(objects, group, now, days, hours)),
        shares_gone(objects, now, days, hours).no_duplicates(),
{
    let all = items(objects);
    let limits = limits_set(days, hours);
    let names = group_names(all);
    expired_objects_are_removed(objects, now, limits, key);
    let g = group_of(key);
    lemma_expired_is_too_old(objects, g, now, days, hours);
    if has_expired(all, key, now, limits) {
        let i = choose|i: int|
            0 <= i < all.len() && (#[trigger] all[i]).key == key && group_expired(
                all,
                all[i].group,
                now,
                limits,
            );
        let j = lemma_item_is_listed(objects, i);
        lemma_item(objects[j].key->0@, objects[j].last_modified_secs->0 as int);
        assert(in_group(objects, j, g));
    }
    if is_to_go(objects, key, now, days, hours) {
        let j = choose|j: int| #[trigger]
            in_group(objects, j, g) && objects[j].key->0@ == key && is_too_old(
                objects,
                g,
                now,
                days,
                hours,
            );
        lemma_item(objects[j].key->0@, objects[j].last_modified_secs->0 as int);
        let i = lemma_listed_is_item(objects, j);
        assert(all[i].key == key);
    }
    let p = |x: Seq<char>| group_owned(all, x) && group_expired(all, x, now, limits);
    let gone = names.filter(p);
    lemma_expired_is_too_old(objects, group, now, days, hours);
    if gone.contains(group) {
        let i = choose|i: int| 0 <= i < gone.len() && gone[i] == group;
        names.lemma_filter_pred(p, i);
    }
    if has_owner(objects, group) && is_too_old(objects, group, now, days, hours) {
        let i = choose|i: int|
            0 <= i < all.len() && (#[trigger] all[i]).group == group && all[i].owner;
        lemma_group_appears(all, i);
        let n = choose|n: int| 0 <= n < names.len() && names[n] == group;
        names.lemma_filter_contains(p, n);
    }
    lemma_names_differ(all);
    lemma_filter_differs(names, p);
}

/// Each group appears once.
proof fn lemma_names_differ(all: Seq<ItemView>)
    ensures
        group_names(all).no_duplicates(),
    decreases all.len(),
{
    if all.len() > 0 {
        lemma_names_differ(all.drop_last());
    }
}

/// What differs still differs where some of it is left out.
proof fn lemma_filter_differs(s: Seq<Seq<char>>, p: spec_fn(Seq<char>) -> bool)
    requires
        s.no_duplicates(),
    ensures
        s.filter(p).no_duplicates(),
        forall|i: int| 0 <= i < s.filter(p).len() ==> s.contains(#[trigger] s.filter(p)[i]),
    decreases s.len(),
{
    reveal(Seq::filter);
    if s.len() > 0 {
        let rest = s.drop_last();
        assert forall|i: int, j: int| 0 <= i < rest.len() && 0 <= j < rest.len() && i != j implies
            rest[i] != rest[j] by {
            assert(s[i] == rest[i] && s[j] == rest[j]);
        }
        lemma_filter_differs(rest, p);
        let kept = rest.filter(p);
        let f = s.filter(p);
        assert forall|i: int| 0 <= i < f.len() implies s.contains(#[trigger] f[i]) by {
            if i < kept.len() {
                assert(rest.contains(kept[i]));
                let n = choose|n: int| 0 <= n < rest.len() && rest[n] == kept[i];
                assert(s[n] == f[i]);
            } else {
                assert(s[s.len() - 1] == f[i]);
            }
        }
        if p(s.last()) {
            assert forall|i: int| 0 <= i < kept.len() implies kept[i] != s.last() by {
                assert(rest.contains(kept[i]));
                let n = choose|n: int| 0 <= n < rest.len() && rest[n] == kept[i];
                assert(s[n] != s[s.len() - 1]);
            }
        }
    }
}

// ---------------------------------------------------------------------------
// Unfinished uploads
// ---------------------------------------------------------------------------

/// Whether an unfinished upload is to be dropped: it has a key, an id and a time, and was begun
/// longer ago than uploads are kept.
pub open spec fn is_abandoned(
    u: ListedUpload,
    now: int,
    hours: Option<Seq<char>>,
) -> bool {
    &&& u.key is Some
    &&& u.upload_id is Some
    &&& u.initiated_secs matches Some(begun) && now - begun > partial_seconds(hours)
}

/// Whether the ages of some uploads stay within what the machine can count.
pub open spec fn upload_ages_fit(uploads: Seq<ListedUpload>, now: int) -> bool {
    forall|i: int|
        0 <= i < uploads.len() ==> ((#[trigger] uploads[i]).initiated_secs matches Some(begun)
            ==> i64::MIN <= now - begun <= i64::MAX)
}

/// The uploads that a sweep drops, after a reply to its list of unfinished uploads.
pub open spec fn abandoned(
    r: Reply,
    now: int,
    hours: Option<Seq<char>>,
) -> Option<Seq<ListedUpload>> {
    match r {
        Reply::Uploads(uploads) => if upload_ages_fit(uploads@, now) {
            Some(uploads@.filter(|u: ListedUpload| is_abandoned(u, now, hours)))
        } else {
            None
        },
        Reply::Failed(_) => Some(Seq::empty()),
        _ => None,
    }
}

/// From the upload `i` on, the abandoned ones are dropped one by one.
proof fn lemma_drops_old(
    uploads: Seq<ListedUpload>,
    i: int,
    now: int,
    hours: Option<Seq<char>>,
    heard: Seq<Reply>,
    at: int,
)
    requires
        0 <= i <= uploads.len(),
        0 <= at <= heard.len(),
        upload_ages_fit(uploads, now),
        forall|j: int|
            at <= j < heard.len() && j < at + uploads.skip(i).filter(
                |u: ListedUpload| is_abandoned(u, now, hours),
            ).len() ==> (#[trigger] heard[j]) is Done || heard[j] is Failed,
    ensures
        ({
            let rest = uploads.skip(i).filter(|u: ListedUpload| is_abandoned(u, now, hours));
            abort_old_uploads(
                uploads,
                i,
                now,
                partial_seconds(hours),
                heard,
                at,
            ) == (if at + rest.len() <= heard.len() {
                FlowView::Go((), at + rest.len())
            } else {
                FlowView::<()>::Stop(
                    NextView::Perform(
                        ActionView::AbortUpload {
                            key: rest[heard.len() - at].key->0@,
                            upload_id: rest[heard.len() - at].upload_id->0@,
                        },
                    ),
                )
            })
        }),
    decreases uploads.len() - i,
{
    let p = |u: ListedUpload| is_abandoned(u, now, hours);
    let rest = uploads.skip(i).filter(p);
    if i < uploads.len() {
        lemma_filter_skip(uploads, i, p);
        let more = uploads.skip(i + 1).filter(p);
        if p(uploads[i]) {
            assert(rest =~= seq![uploads[i]] + more);
            if at < heard.len() {
                assert(heard[at] is Done || heard[at] is Failed);
                lemma_drops_old(uploads, i + 1, now, hours, heard, at + 1);
                if at + rest.len() > heard.len() {
                    assert(rest[heard.len() - at] == more[heard.len() - at - 1]);
                }
            } else {
                assert(rest[0] == uploads[i]);
            }
        } else {
            lemma_drops_old(uploads, i + 1, now, hours, heard, at);
        }
    } else {
        lemma_filter_none(uploads.skip(i), p);
    }
}

/// A sweep asks for the time, lists the unfinished uploads, and drops every one of them that was
/// begun more hours ago than are set, in order, whether or not dropping the ones before succeeded.
/// Then it lists the objects.
pub proof fn sweeps_drop_abandoned_uploads(
    days: Option<Seq<char>>,
    hours: Option<Seq<char>>,
    heard: Seq<Reply>,
    now: UtcTime,
    n: int,
)
    requires
        heard.len() == 2 + n,
        0 <= n,
        heard[0] == Reply::Time(now),
        settings_fit(days, hours),
        abandoned(heard[1], now.secs as int, hours) matches Some(old) && n <= old.len(),
        forall|j: int| 2 <= j < heard.len() ==> (#[trigger] heard[j]) is Done || heard[j] is Failed,
    ensures
        cleanup_next(days, hours, Seq::empty()) == NextView::Perform(
            ActionView::Clock,
        ),
        cleanup_next(days, hours, heard.take(1)) == NextView::Perform(
            ActionView::ListUploads { prefix: "uploads/"@ },
        ),
        abandoned(heard[1], now.secs as int, hours) matches Some(old) && cleanup_next(
            days,
            hours,
            heard,
        ) == NextView::Perform(
            if n < old.len() {
                ActionView::AbortUpload { key: old[n].key->0@, upload_id: old[n].upload_id->0@ }
            } else {
                ActionView::ListAll { prefix: "uploads/"@ }
            },
        ),
{
    lemma_limits(days, hours);
    if let Reply::Uploads(uploads) = heard[1] {
        assert(uploads@.skip(0) =~= uploads@);
        lemma_drops_old(uploads@, 0, now.secs as int, hours, heard, 2);
    }
}

/// The settings give the limits.
proof fn lemma_limits(days: Option<Seq<char>>, hours: Option<Seq<char>>)
    requires
        settings_fit(days, hours),
    ensures
        limit(days, 90, 86400) == Some(share_seconds(days)),
        limit(hours, 12, 3600) == Some(partial_seconds(hours)),
{
}

/// Settings that the machine cannot count make the sweep break off before it does anything.
pub proof fn settings_beyond_measure_stop_the_sweep(
    days: Option<Seq<char>>,
    hours: Option<Seq<char>>,
    heard: Seq<Reply>,
)
    requires
        heard.len() > 0,
        heard[0] is Time,
        !settings_fit(days, hours),
    ensures
        cleanup_next(days, hours, heard) == NextView::Crash,
{
}

// ---------------------------------------------------------------------------
// Whole sweeps
// ---------------------------------------------------------------------------

/// Whether a sweep has heard the time and how dropping the abandoned uploads went, and hears of the
/// objects at the place `b`.
pub open spec fn lists_objects_at(
    hours: Option<Seq<char>>,
    heard: Seq<Reply>,
    now: UtcTime,
    b: int,
) -> bool {
    &&& 2 <= b < heard.len()
    &&& heard[0] == Reply::Time(now)
    &&& abandoned(heard[1], now.secs as int, hours) matches Some(old) && b == 2 + old.len()
    &&& forall|j: int| 2 <= j < b ==> (#[trigger] heard[j]) is Done || heard[j] is Failed
}

/// Whether the replies from `at` to `end` are those of taking an expired share out of the index of
/// its owner.
pub open spec fn share_is_forgotten(
    uuid: Seq<char>,
    heard: Seq<Reply>,
    at: int,
    end: int,
) -> bool {
    0 <= at < heard.len() && match heard[at] {
        Reply::Object(ObjectReply::Bytes(b)) => index_removal(
            recorded_owner(b@),
            uuid,
            heard,
            at + 1,
        ) == FlowView::Go((), end),
        Reply::Object(_) => end == at + 1,
        _ => false,
    }
}

/// Whether the first of some shares were taken out of the indices of their owners in turn, each
/// from one of the given places to the next.
pub open spec fn shares_are_forgotten(
    shares: Seq<Seq<char>>,
    heard: Seq<Reply>,
    ends: Seq<int>,
) -> bool {
    &&& 0 < ends.len() <= shares.len() + 1
    &&& forall|i: int|
        0 <= i < ends.len() - 1 ==> #[trigger] share_is_forgotten(
            shares[i],
            heard,
            ends[i],
            ends[i + 1],
        )
}

/// From the share `i` on, the shares are taken out of indices in turn.
proof fn lemma_forgets(shares: Seq<Seq<char>>, i: int, heard: Seq<Reply>, ends: Seq<int>)
    requires
        shares_are_forgotten(shares, heard, ends),
        0 <= i < ends.len(),
    ensures
        ({
            let k = ends.len() - 1;
            prune_shares(shares, i, heard, ends[i]) == prune_shares(
                shares,
                k,
                heard,
                ends[k],
            )
        }),
    decreases ends.len() - i,
{
    if i < ends.len() - 1 {
        assert(share_is_forgotten(shares[i], heard, ends[i], ends[i + 1]));
        lemma_forgets(shares, i + 1, heard, ends);
    }
}

/// What a sweep does once it has heard of the objects.
proof fn lemma_after_listing(
    days: Option<Seq<char>>,
    hours: Option<Seq<char>>,
    heard: Seq<Reply>,
    now: UtcTime,
    b: int,
)
    requires
        settings_fit(days, hours),
        lists_objects_at(hours, heard, now, b),
        0 <= now.secs,
    ensures
        cleanup_next(days, hours, heard) == sweep_objects(
            now.secs as int,
            limits_set(days, hours),
            heard,
            b,
        ),
        heard[b] matches Reply::Objects(objects) ==> ages_fit(
            items(objects@),
            group_names(items(objects@)),
            now.secs as int,
        ),
{
    lemma_limits(days, hours);
    if let Reply::Uploads(uploads) = heard[1] {
        assert(uploads@.skip(0) =~= uploads@);
        lemma_drops_old(uploads@, 0, now.secs as int, hours, heard, 2);
    }
    if let Reply::Objects(objects) = heard[b] {
        let all = items(objects@);
        let names = group_names(all);
        assert forall|i: int| 0 <= i < names.len() implies i64::MIN <= now.secs
            - #[trigger] group_latest(all, names[i]) <= i64::MAX by {
            lemma_latest_is_reached(all, names[i]);
            if group_latest(all, names[i]) > 0 {
                let n = choose|n: int|
                    0 <= n < all.len() && (#[trigger] all[n]).group == names[i] && all[n].secs
                        == group_latest(all, names[i]);
                let j = lemma_item_is_listed(objects@, n);
                lemma_item(objects@[j].key->0@, objects@[j].last_modified_secs->0 as int);
            }
        }
    }
}

/// After the objects are listed, a sweep takes every share with an owner that is too old out of the
/// index of its owner: it reads the record of the owner and, where that names someone, stores their
/// index without the share. Then it removes all that is to go, a thousand objects at a time, and
/// succeeds where every batch did; a list or a batch that fails ends it.
pub proof fn sweeps_forget_and_remove(
    days: Option<Seq<char>>,
    hours: Option<Seq<char>>,
    heard: Seq<Reply>,
    now: UtcTime,
    b: int,
    ends: Seq<int>,
    n: int,
)
    requires
        settings_fit(days, hours),
        lists_objects_at(hours, heard, now, b),
        0 <= now.secs,
    ensures
        match heard[b] {
            Reply::Failed(e) => cleanup_next(days, hours, heard) == NextView::Done(
                AnswerView::SweepFailed { message: e.debug@ },
            ),
            Reply::Objects(objects) => {
                let shares = shares_gone(objects@, now.secs as int, days, hours);
                let keys = keys_gone(objects@, now.secs as int, days, hours);
                let k = ends.len() - 1;
                let next = cleanup_next(days, hours, heard);
                ends.len() > 0 && ends[0] == b + 1 && shares_are_forgotten(shares, heard, ends)
                    && ends[k] <= heard.len() ==> if k < shares.len() {
                    if heard.len() == ends[k] {
                        next == NextView::Perform(
                            ActionView::Get { key: "uploads/"@ + shares[k] + "/"@ + "owner.txt"@ },
                        )
                    } else {
                        heard[ends[k]] matches Reply::Object(ObjectReply::Bytes(owner)) ==> (
                        index_removal(
                            recorded_owner(owner@),
                            shares[k],
                            heard,
                            ends[k] + 1,
                        ) matches FlowView::Stop(m) ==> next == m)
                    }
                } else {
                    let e = ends[k];
                    0 <= n && e + n <= heard.len() && (forall|j: int|
                        e <= j < e + n ==> (#[trigger] heard[j]) is Done) ==> {
                        &&& heard.len() == e + n && 1000 * n < keys.len() ==> next
                            == NextView::Perform(
                            ActionView::DeleteBatch {
                                keys: keys.subrange(
                                    1000 * n,
                                    if 1000 * n + 1000 <= keys.len() {
                                        1000 * n + 1000
                                    } else {
                                        keys.len() as int
                                    },
                                ),
                            },
                        )
                        &&& heard.len() > e + n && 1000 * n < keys.len() ==> (
                        heard[e + n] matches Reply::Failed(x) ==> next == NextView::Done(
                            AnswerView::SweepFailed { message: x.debug@ },
                        ))
                        &&& n == batch_count(keys.len() as int) ==> next
                            == NextView::Done(AnswerView::Success)
                    }
                }
            },
            _ => true,
        },
{
    lemma_after_listing(days, hours, heard, now, b);
    if let Reply::Objects(objects) = heard[b] {
        let shares = shares_gone(objects@, now.secs as int, days, hours);
        let keys = keys_gone(objects@, now.secs as int, days, hours);
        let k = ends.len() - 1;
        if ends.len() > 0 && ends[0] == b + 1 && shares_are_forgotten(shares, heard, ends)
            && ends[k] <= heard.len() {
            lemma_ends_grow(shares, heard, ends, k);
            lemma_forgets(shares, 0, heard, ends);
            if k == shares.len() && 0 <= n && ends[k] + n <= heard.len() && (forall|j: int|
                ends[k] <= j < ends[k] + n ==> (#[trigger] heard[j]) is Done) {
                if 1000 * n < keys.len() {
                    lemma_nth_batch(
                        keys,
                        0,
                        heard,
                        ends[k],
                        n,
                        Wording::Debug,
                    );
                }
                lemma_batches(keys, 0, heard, ends[k], Wording::Debug);
            }
        }
    }
}

/// Each share is taken out after the one before.
proof fn lemma_ends_grow(shares: Seq<Seq<char>>, heard: Seq<Reply>, ends: Seq<int>, k: int)
    requires
        shares_are_forgotten(shares, heard, ends),
        0 <= k < ends.len(),
        ends[0] >= 0,
    ensures
        ends[k] >= ends[0],
    decreases k,
{
    if k > 0 {
        lemma_ends_grow(shares, heard, ends, k - 1);
        let i = k - 1;
        assert(share_is_forgotten(shares[i], heard, ends[i], ends[i + 1]));
    }
}

/// Taking shares out of indices answers nothing.
proof fn lemma_prune_never_done(shares: Seq<Seq<char>>, i: int, heard: Seq<Reply>, at: int)
    ensures
        !(prune_shares(shares, i, heard, at) matches FlowView::Stop(NextView::Done(_))),
    decreases shares.len() - i,
{
    if 0 <= i < shares.len() && at < heard.len() {
        if let Reply::Object(reply) = heard[at] {
            lemma_prune_never_done(shares, i + 1, heard, at + 1);
            if let ObjectReply::Bytes(b) = reply {
                if let FlowView::Go(_, next) = index_removal(
                    recorded_owner(b@),
                    shares[i],
                    heard,
                    at + 1,
                ) {
                    lemma_prune_never_done(shares, i + 1, heard, next);
                }
            }
        }
    }
}

/// A sweep removes no object but those that are to go by the settings, never more than a thousand
/// at a time; and one that succeeds has removed every one of them.
pub proof fn sweeps_remove_exactly_what_is_too_old(
    days: Option<Seq<char>>,
    hours: Option<Seq<char>>,
    heard: Seq<Reply>,
    now: UtcTime,
    b: int,
    objects: Vec<S3ListedObject>,
    key: Seq<char>,
)
    requires
        settings_fit(days, hours),
        lists_objects_at(hours, heard, now, b),
        0 <= now.secs,
        heard[b] == Reply::Objects(objects),
    ensures
        cleanup_next(days, hours, heard) matches NextView::Perform(ActionView::DeleteBatch { keys })
            ==> 0 < keys.len() <= 1000 && (keys.contains(key) ==> is_to_go(
            objects@,
            key,
            now.secs as int,
            days,
            hours,
        )),
        cleanup_next(days, hours, heard) == NextView::Done(AnswerView::Success) && is_to_go(
            objects@,
            key,
            now.secs as int,
            days,
            hours,
        ) ==> exists|m: int|
            b < m < heard.len() && (cleanup_next(
                days,
                hours,
                #[trigger] heard.take(m),
            ) matches NextView::Perform(ActionView::DeleteBatch { keys }) && keys.contains(key)),
{
    let t = now.secs as int;
    let shares = shares_gone(objects@, t, days, hours);
    let keys = keys_gone(objects@, t, days, hours);
    lemma_after_listing(days, hours, heard, now, b);
    what_goes_is_too_old(objects@, t, days, hours, key, Seq::empty());
    lemma_prune_asks(shares, 0, heard, b + 1);
    lemma_prune_never_done(shares, 0, heard, b + 1);
    lemma_prune_shares_heeds(shares, 0, heard, b + 1);
    let prune = |h: Seq<Reply>| prune_shares(shares, 0, h, b + 1);
    if let FlowView::Go(_, e) = prune(heard) {
        lemma_batch_is_listed(keys, 0, heard, e, Wording::Debug);
        lemma_batches(keys, 0, heard, e, Wording::Debug);
        if cleanup_next(days, hours, heard) == NextView::Done(AnswerView::Success) && is_to_go(
            objects@,
            key,
            t,
            days,
            hours,
        ) {
            let i = choose|i: int| 0 <= i < keys.len() && keys[i] == key;
            let n = i / 1000;
            let m = e + n;
            let h = heard.take(m);
            let done = delete_batches(keys, 0, heard, e, Wording::Debug);
            lemma_batches_never_done(keys, 0, heard, e, Wording::Debug);
            assert(done matches FlowView::Go(OutcomeView::Done, _));
            assert(n < batch_count(keys.len() as int));
            assert(m < heard.len());
            assert(lists_objects_at(hours, h, now, b)) by {
                assert(h[0] == heard[0] && h[1] == heard[1]);
                assert forall|j: int| 2 <= j < b implies (#[trigger] h[j]) is Done
                    || h[j] is Failed by {
                    assert(h[j] == heard[j]);
                }
            }
            lemma_after_listing(days, hours, h, now, b);
            assert(prune(h) == prune(heard));
            assert forall|j: int| e <= j < e + n implies (#[trigger] h[j]) is Done by {
                assert(h[j] == heard[j]);
            }
            lemma_nth_batch(keys, 0, h, e, n, Wording::Debug);
            let last = if 1000 * n + 1000 <= keys.len() {
                1000 * n + 1000
            } else {
                keys.len() as int
            };
            let batch = keys.subrange(1000 * n, last);
            assert(batch[i - 1000 * n] == key);
            assert(batch.contains(key));
        }
    }
}

/// A sweep that finds nothing too old removes nothing and touches no index.
pub proof fn nothing_goes_where_nothing_is_too_old(
    days: Option<Seq<char>>,
    hours: Option<Seq<char>>,
    heard: Seq<Reply>,
    now: UtcTime,
    b: int,
    objects: Vec<S3ListedObject>,
)
    requires
        settings_fit(days, hours),
        lists_objects_at(hours, heard, now, b),
        0 <= now.secs,
        heard[b] == Reply::Objects(objects),
        forall|group: Seq<char>|
            (exists|j: int| in_group(objects@, j, group)) ==> !(#[trigger] is_too_old(
                objects@,
                group,
                now.secs as int,
                days,
                hours,
            )),
    ensures
        cleanup_next(days, hours, heard) == NextView::Done(AnswerView::Success),
{
    let t = now.secs as int;
    let shares = shares_gone(objects@, t, days, hours);
    let keys = keys_gone(objects@, t, days, hours);
    lemma_after_listing(days, hours, heard, now, b);
    if shares.len() > 0 {
        let g = shares[0];
        what_goes_is_too_old(objects@, t, days, hours, Seq::empty(), g);
        assert(shares.contains(g));
        let j = choose|j: int| #[trigger]
            in_group(objects@, j, g) && names_owner(objects@[j].key->0@);
        assert(in_group(objects@, j, g));
    }
    if keys.len() > 0 {
        what_goes_is_too_old(objects@, t, days, hours, keys[0], Seq::empty());
        assert(keys.contains(keys[0]));
        let g = group_of(keys[0]);
        let j = choose|j: int| #[trigger]
            in_group(objects@, j, g) && objects@[j].key->0@ == keys[0] && is_too_old(
                objects@,
                g,
                t,
                days,
                hours,
            );
        assert(in_group(objects@, j, g));
    }
}

} // verus!
