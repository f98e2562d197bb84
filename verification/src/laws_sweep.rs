//! Laws of the sweep: what it removes, and what it leaves.

use vstd::prelude::*;
use crate::cleanup::{
    expired_keys, expired_shares, group_expired, group_keys, group_latest, group_names, group_owned,
    item, items, limit, prune_shares, remove_expired, ItemView, Limits,
};
use crate::keys::share_key;
use crate::laws_scope::lemma_begins;
use crate::protocol::{FlowView, NextView, ObjectReply, Reply};
use crate::shares::index_removal;
use crate::sharing::{recorded_owner, SHARE_SECONDS};
use crate::storage::S3ListedObject;
use crate::text::lemma_pieces_first;

verus! {

/// Whether some objects hold one with the key whose group is expired.
pub open spec fn has_expired(all: Seq<ItemView>, key: Seq<char>, now: int, limits: Limits) -> bool {
    exists|i: int|
        0 <= i < all.len() && (#[trigger] all[i]).key == key && group_expired(
            all,
            all[i].group,
            now,
            limits,
        )
}

/// The keys of a group are those of its objects.
proof fn lemma_group_keys(all: Seq<ItemView>, group: Seq<char>, key: Seq<char>)
    ensures
        group_keys(all, group).contains(key) == (exists|i: int|
            0 <= i < all.len() && (#[trigger] all[i]).key == key && all[i].group == group),
    decreases all.len(),
{
    if all.len() > 0 {
        let rest = all.drop_last();
        let before = group_keys(rest, group);
        let keys = group_keys(all, group);
        lemma_group_keys(rest, group, key);
        if keys.contains(key) {
            let j = choose|j: int| 0 <= j < keys.len() && keys[j] == key;
            if j < before.len() {
                assert(before[j] == key);
                let i = choose|i: int|
                    0 <= i < rest.len() && (#[trigger] rest[i]).key == key && rest[i].group
                        == group;
                assert(all[i] == rest[i]);
            } else {
                assert(all[all.len() - 1].key == key);
            }
        }
        if exists|i: int|
            0 <= i < all.len() && (#[trigger] all[i]).key == key && all[i].group == group {
            let i = choose|i: int|
                0 <= i < all.len() && (#[trigger] all[i]).key == key && all[i].group == group;
            if i < rest.len() {
                assert(rest[i] == all[i]);
                let j = choose|j: int| 0 <= j < before.len() && before[j] == key;
                assert(keys[j] == key);
            } else {
                assert(keys[keys.len() - 1] == key);
            }
        }
    }
}

/// Every object's group appears among the groups.
pub proof fn lemma_group_appears(all: Seq<ItemView>, i: int)
    requires
        0 <= i < all.len(),
    ensures
        group_names(all).contains(all[i].group),
    decreases all.len(),
{
    let rest = all.drop_last();
    let before = group_names(rest);
    let names = group_names(all);
    if i < rest.len() {
        lemma_group_appears(rest, i);
        assert(rest[i] == all[i]);
        let j = choose|j: int| 0 <= j < before.len() && before[j] == all[i].group;
        assert(names[j] == all[i].group);
    } else if !before.contains(all[i].group) {
        assert(names[names.len() - 1] == all[i].group);
    }
}

/// The expired keys are the keys of the expired groups among those given.
proof fn lemma_expired_keys(
    all: Seq<ItemView>,
    groups: Seq<Seq<char>>,
    now: int,
    limits: Limits,
    key: Seq<char>,
)
    ensures
        expired_keys(all, groups, now, limits).contains(key) == (exists|g: int|
            0 <= g < groups.len() && group_expired(all, #[trigger] groups[g], now, limits)
                && group_keys(all, groups[g]).contains(key)),
    decreases groups.len(),
{
    if groups.len() > 0 {
        let rest = groups.drop_last();
        let last = groups.last();
        let before = expired_keys(all, rest, now, limits);
        let keys = expired_keys(all, groups, now, limits);
        lemma_expired_keys(all, rest, now, limits, key);
        let more = group_keys(all, last);
        if keys.contains(key) {
            let j = choose|j: int| 0 <= j < keys.len() && keys[j] == key;
            if j < before.len() {
                assert(before[j] == key);
                let g = choose|g: int|
                    0 <= g < rest.len() && group_expired(all, #[trigger] rest[g], now, limits)
                        && group_keys(all, rest[g]).contains(key);
                assert(groups[g] == rest[g]);
            } else {
                assert(more[j - before.len()] == key);
                assert(groups[groups.len() - 1] == last);
            }
        }
        if exists|g: int|
            0 <= g < groups.len() && group_expired(all, #[trigger] groups[g], now, limits)
                && group_keys(all, groups[g]).contains(key) {
            let g = choose|g: int|
                0 <= g < groups.len() && group_expired(all, #[trigger] groups[g], now, limits)
                    && group_keys(all, groups[g]).contains(key);
            if g < rest.len() {
                assert(rest[g] == groups[g]);
                let j = choose|j: int| 0 <= j < before.len() && before[j] == key;
                assert(keys[j] == key);
            } else {
                let j = choose|j: int| 0 <= j < more.len() && more[j] == key;
                assert(keys[before.len() + j] == key);
            }
        }
    }
}

/// The sweep removes an object exactly where its group is expired.
pub proof fn expired_objects_are_removed(
    objects: Seq<S3ListedObject>,
    now: int,
    limits: Limits,
    key: Seq<char>,
)
    ensures
        expired_keys(items(objects), group_names(items(objects)), now, limits).contains(key)
            == has_expired(items(objects), key, now, limits),
{
    let all = items(objects);
    let names = group_names(all);
    lemma_expired_keys(all, names, now, limits, key);
    if has_expired(all, key, now, limits) {
        let i = choose|i: int|
            0 <= i < all.len() && (#[trigger] all[i]).key == key && group_expired(
                all,
                all[i].group,
                now,
                limits,
            );
        lemma_group_appears(all, i);
        lemma_group_keys(all, all[i].group, key);
        let g = choose|g: int| 0 <= g < names.len() && names[g] == all[i].group;
        assert(group_expired(all, names[g], now, limits));
    }
    if exists|g: int|
        0 <= g < names.len() && group_expired(all, #[trigger] names[g], now, limits) && group_keys(
            all,
            names[g],
        ).contains(key) {
        let g = choose|g: int|
            0 <= g < names.len() && group_expired(all, #[trigger] names[g], now, limits)
                && group_keys(all, names[g]).contains(key);
        lemma_group_keys(all, names[g], key);
        let i = choose|i: int|
            0 <= i < all.len() && (#[trigger] all[i]).key == key && all[i].group == names[g];
        assert(group_expired(all, all[i].group, now, limits));
    }
}

/// A group is at least as new as each of its objects.
pub proof fn lemma_group_latest(all: Seq<ItemView>, i: int)
    requires
        0 <= i < all.len(),
    ensures
        group_latest(all, all[i].group) >= all[i].secs,
    decreases all.len(),
{
    let rest = all.drop_last();
    if i < rest.len() {
        assert(rest[i] == all[i]);
        lemma_group_latest(rest, i);
    }
}

/// Each object's group is the one that its key names.
proof fn lemma_items(objects: Seq<S3ListedObject>, i: int)
    requires
        0 <= i < items(objects).len(),
    ensures
        items(objects)[i] == item(items(objects)[i].key, items(objects)[i].secs),
    decreases objects.len(),
{
    if objects.len() > 0 {
        let rest = items(objects.drop_last());
        if i < rest.len() {
            lemma_items(objects.drop_last(), i);
            assert(items(objects)[i] == rest[i]);
        }
    }
}

/// Nothing of a share or of an upload is removed as long as any object of it is younger than both
/// limits.
pub proof fn young_objects_are_left(
    objects: Seq<S3ListedObject>,
    now: int,
    limits: Limits,
    young: int,
    other: int,
)
    requires
        0 <= young < items(objects).len(),
        0 <= other < items(objects).len(),
        items(objects)[young].group == items(objects)[other].group,
        now - items(objects)[young].secs <= limits.share,
        now - items(objects)[young].secs <= limits.partial,
    ensures
        !expired_keys(items(objects), group_names(items(objects)), now, limits).contains(
            items(objects)[other].key,
        ),
{
    let all = items(objects);
    let key = all[other].key;
    expired_objects_are_removed(objects, now, limits, key);
    lemma_group_latest(all, young);
    if has_expired(all, key, now, limits) {
        let i = choose|i: int|
            0 <= i < all.len() && (#[trigger] all[i]).key == key && group_expired(
                all,
                all[i].group,
                now,
                limits,
            );
        lemma_items(objects, i);
        lemma_items(objects, other);
        assert(all[i].group == all[other].group);
    }
}

/// The objects of a share make up one group, whose name is the id of the share; the record of its
/// owner makes the group one with an owner, and the marker of an upload under way is as good as a
/// file.
pub proof fn objects_of_a_share_are_one_group(uuid: Seq<char>, name: Seq<char>, secs: int)
    requires
        !uuid.contains('/'),
    ensures
        item(share_key(uuid, name), secs).group == uuid,
        item(share_key(uuid, name), secs).secs == secs,
        item(share_key(uuid, "owner.txt"@), secs).owner,
{
    let start = "uploads/"@;
    let rest = uuid + "/"@ + name;
    let key = share_key(uuid, name);
    reveal_strlit("/");
    assert("/"@ =~= seq!['/']);
    assert(key =~= start + rest);
    lemma_begins(start, rest);
    assert((start + rest).skip(start.len() as int) =~= rest);
    lemma_pieces_first(uuid, '/', name);
    let owner = "owner.txt"@;
    let end = "/owner.txt"@;
    let whole = uuid + "/"@ + owner;
    let record = share_key(uuid, owner);
    assert(record =~= start + whole);
    lemma_begins(start, whole);
    assert((start + whole).skip(start.len() as int) =~= whole);
    reveal_strlit("owner.txt");
    reveal_strlit("/owner.txt");
    assert(end =~= "/"@ + owner);
    assert(whole =~= uuid + end);
    assert(whole.skip(whole.len() - end.len()) =~= end);
}

/// Where no other number of days is set, a share is kept until the time that looking at it shows:
/// 90 days after any of its files was stored.
pub proof fn shares_are_kept_until_they_expire(
    objects: Seq<S3ListedObject>,
    now: int,
    limits: Limits,
    file: int,
    other: int,
)
    requires
        0 <= file < items(objects).len(),
        0 <= other < items(objects).len(),
        items(objects)[file].group == items(objects)[other].group,
        group_owned(items(objects), items(objects)[file].group),
        limit(None, 90, 86400) == Some(limits.share as int),
        now <= items(objects)[file].secs + SHARE_SECONDS,
    ensures
        !expired_keys(items(objects), group_names(items(objects)), now, limits).contains(
            items(objects)[other].key,
        ),
{
    let all = items(objects);
    let key = all[other].key;
    expired_objects_are_removed(objects, now, limits, key);
    lemma_group_latest(all, file);
    if has_expired(all, key, now, limits) {
        let i = choose|i: int|
            0 <= i < all.len() && (#[trigger] all[i]).key == key && group_expired(
                all,
                all[i].group,
                now,
                limits,
            );
        lemma_items(objects, i);
        lemma_items(objects, other);
        assert(all[i].group == all[other].group);
    }
}

/// Objects are removed only after the expired shares were taken out of the indices of their
/// owners.
pub proof fn indices_come_before_objects(
    objects: Seq<S3ListedObject>,
    now: int,
    limits: Limits,
    heard: Seq<Reply>,
    at: int,
)
    ensures
        remove_expired(objects, now, limits, heard, at) matches NextView::Perform(a) ==> (
        a is DeleteBatch ==> prune_shares(
            expired_shares(items(objects), group_names(items(objects)), now, limits),
            0,
            heard,
            at,
        ) is Go),
{
    lemma_prune_asks(
        expired_shares(items(objects), group_names(items(objects)), now, limits),
        0,
        heard,
        at,
    );
}

/// Taking shares out of indices removes no objects.
pub proof fn lemma_prune_asks(shares: Seq<Seq<char>>, i: int, heard: Seq<Reply>, at: int)
    ensures
        prune_shares(shares, i, heard, at) matches FlowView::Stop(NextView::Perform(a)) ==> !(
        a is DeleteBatch),
    decreases shares.len() - i,
{
    if 0 <= i < shares.len() {
        lemma_prune_asks(shares, i + 1, heard, at + 1);
        if at < heard.len() {
            if let Reply::Object(ObjectReply::Bytes(b)) = heard[at] {
                let owner = recorded_owner(b@);
                if let FlowView::Go(_, next) = index_removal(
                    owner,
                    shares[i],
                    heard,
                    at + 1,
                ) {
                    lemma_prune_asks(shares, i + 1, heard, next);
                }
            }
        }
    }
}

} // verus!
