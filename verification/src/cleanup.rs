//! The sweep that removes expired shares and abandoned uploads.

use vstd::prelude::*;
use crate::deletion::{
    delete_batches, do_delete_batches, is_settled, settled, Outcome, OutcomeView, Wording,
};
use crate::keys::{make_share_key, share_key};
use crate::model::{opt_view, views};
use crate::number::{i64_number, parse_i64};
use crate::protocol::{
    ask_get, readable, readable_flow, Action, ActionView, Answer, AnswerView, Flow, FlowView,
    ListedUpload, Next, NextView, ObjectReply, Reply,
};
use crate::shares::{index_removal, remove_share_from_user_index};
use crate::sharing::{read_owner, recorded_owner};
use crate::storage::S3ListedObject;
use crate::text::{ends_with, finishes, pieces, same, split};
use crate::uploads::{relative, relative_name};

verus! {

// ---------------------------------------------------------------------------
// Limits
// ---------------------------------------------------------------------------

/// How long shares and uploads without an owner are kept, in seconds.
pub struct Limits {
    pub share: i64,
    pub partial: i64,
}

/// A number of units that a setting gives, or else the usual one, in seconds; nothing where that
/// leaves `i64`.
pub open spec fn limit(setting: Option<Seq<char>>, usual: int, unit: int) -> Option<int> {
    let n = match setting {
        Some(s) => match i64_number(s) {
            Some(n) => n,
            None => usual,
        },
        None => usual,
    };
    if i64::MIN <= n * unit <= i64::MAX {
        Some(n * unit)
    } else {
        None
    }
}

/// A number of units that a setting gives, or else the usual one, in seconds.
fn read_limit(setting: &Option<String>, usual: i64, unit: i64) -> (r: Option<i64>)
    ensures
        match r {
            Some(n) => limit(opt_view(*setting), usual as int, unit as int) == Some(n as int),
            None => limit(opt_view(*setting), usual as int, unit as int) is None,
        },
{
    let n: i64 = match setting {
        Some(s) => match parse_i64(s.as_str()) {
            Some(n) => n,
            None => usual,
        },
        None => usual,
    };
    n.checked_mul(unit)
}

// ---------------------------------------------------------------------------
// Unfinished uploads
// ---------------------------------------------------------------------------

/// Drops the uploads of a list from place `i` on that were begun longer ago than `limit`, whatever
/// comes of it.
pub open spec fn abort_old_uploads(
    uploads: Seq<ListedUpload>,
    i: int,
    now: int,
    limit: int,
    heard: Seq<Reply>,
    at: int,
) -> FlowView<()>
    decreases uploads.len() - i,
{
    if i < 0 || i >= uploads.len() {
        FlowView::Go((), at)
    } else {
        match (uploads[i].key, uploads[i].upload_id, uploads[i].initiated_secs) {
            (Some(key), Some(upload_id), Some(begun)) => if !(i64::MIN <= now - begun <= i64::MAX) {
                FlowView::Stop(NextView::Crash)
            } else if now - begun <= limit {
                abort_old_uploads(uploads, i + 1, now, limit, heard, at)
            } else if at >= heard.len() {
                FlowView::Stop(
                    NextView::Perform(
                        ActionView::AbortUpload { key: key@, upload_id: upload_id@ },
                    ),
                )
            } else if settled(heard[at]) {
                abort_old_uploads(uploads, i + 1, now, limit, heard, at + 1)
            } else {
                FlowView::Stop(NextView::Misheard)
            },
            _ => abort_old_uploads(uploads, i + 1, now, limit, heard, at),
        }
    }
}

/// Drops the uploads of a list that were begun longer ago than `limit`.
fn do_abort_old_uploads(
    uploads: &Vec<ListedUpload>,
    now: i64,
    limit: i64,
    heard: &Vec<Reply>,
    start: usize,
) -> (r: Flow<()>)
    requires
        start <= heard@.len(),
    ensures
        r@ == abort_old_uploads(uploads@, 0, now as int, limit as int, heard@, start as int),
        r matches Flow::Go(_, a) ==> start <= a <= heard@.len(),
        readable_flow(r@),
{
    let mut at: usize = start;
    let mut i: usize = 0;
    while i < uploads.len()
        invariant
            i <= uploads@.len(),
            start <= at <= heard@.len(),
            abort_old_uploads(uploads@, i as int, now as int, limit as int, heard@, at as int)
                == abort_old_uploads(uploads@, 0, now as int, limit as int, heard@, start as int),
        decreases uploads@.len() - i,
    {
        let u = &uploads[i];
        if let (Some(key), Some(upload_id), Some(begun)) = (
            &u.key,
            &u.upload_id,
            &u.initiated_secs,
        ) {
            let age: i64 = match now.checked_sub(*begun) {
                Some(age) => age,
                None => {
                    return Flow::Stop(Next::Crash);
                },
            };
            if age > limit {
                if at >= heard.len() {
                    return Flow::Stop(
                        Next::Perform(
                            Action::AbortUpload { key: key.clone(), upload_id: upload_id.clone() },
                        ),
                    );
                }
                if !is_settled(&heard[at]) {
                    return Flow::Stop(Next::Misheard);
                }
                at = at + 1;
            }
        }
        i = i + 1;
    }
    Flow::Go((), at)
}

// ---------------------------------------------------------------------------
// Groups of objects
// ---------------------------------------------------------------------------

/// A stored object: the group it belongs to, its key, when it was stored, and whether it records
/// an owner.
pub struct Item {
    pub group: String,
    pub key: String,
    pub secs: i64,
    pub owner: bool,
}

/// A stored object, over sequences.
pub struct ItemView {
    pub group: Seq<char>,
    pub key: Seq<char>,
    pub secs: int,
    pub owner: bool,
}

impl View for Item {
    type V = ItemView;

    open spec fn view(&self) -> ItemView {
        ItemView {
            group: self.group@,
            key: self.key@,
            secs: self.secs as int,
            owner: self.owner,
        }
    }
}

/// What the sweep sees in an object: it belongs to the group that its key names after `uploads/`.
pub open spec fn item(key: Seq<char>, secs: int) -> ItemView {
    let rel = relative(key, "uploads/"@);
    ItemView {
        group: pieces(rel, '/')[0],
        key,
        secs,
        owner: finishes(rel, "/owner.txt"@) || rel == "owner.txt"@,
    }
}

/// The listed objects that have a key and a time.
pub open spec fn items(objects: Seq<S3ListedObject>) -> Seq<ItemView>
    decreases objects.len(),
{
    if objects.len() == 0 {
        Seq::empty()
    } else {
        match (objects.last().key, objects.last().last_modified_secs) {
            (Some(key), Some(secs)) => items(objects.drop_last()).push(item(key@, secs as int)),
            _ => items(objects.drop_last()),
        }
    }
}

/// The groups of some objects, in the order in which they first appear.
pub open spec fn group_names(all: Seq<ItemView>) -> Seq<Seq<char>>
    decreases all.len(),
{
    if all.len() == 0 {
        Seq::empty()
    } else {
        let before = group_names(all.drop_last());
        if before.contains(all.last().group) {
            before
        } else {
            before.push(all.last().group)
        }
    }
}

/// The keys of the objects of a group.
pub open spec fn group_keys(all: Seq<ItemView>, group: Seq<char>) -> Seq<Seq<char>>
    decreases all.len(),
{
    if all.len() == 0 {
        Seq::empty()
    } else {
        let before = group_keys(all.drop_last(), group);
        if all.last().group == group {
            before.push(all.last().key)
        } else {
            before
        }
    }
}

/// Whether a group has a record of its owner: it is a share, and no upload under way.
pub open spec fn group_owned(all: Seq<ItemView>, group: Seq<char>) -> bool {
    exists|i: int| 0 <= i < all.len() && (#[trigger] all[i]).group == group && all[i].owner
}

/// When the latest object of a group was stored; zero where all were stored before 1970.
pub open spec fn group_latest(all: Seq<ItemView>, group: Seq<char>) -> int
    decreases all.len(),
{
    if all.len() == 0 {
        0
    } else {
        let before = group_latest(all.drop_last(), group);
        if all.last().group == group && all.last().secs > before {
            all.last().secs
        } else {
            before
        }
    }
}

/// Whether a group has been left alone for longer than it is kept.
pub open spec fn group_expired(
    all: Seq<ItemView>,
    group: Seq<char>,
    now: int,
    limits: Limits,
) -> bool {
    now - group_latest(all, group) > if group_owned(all, group) {
        limits.share
    } else {
        limits.partial
    }
}

/// The keys of the objects of those groups, among some, that are expired.
pub open spec fn expired_keys(
    all: Seq<ItemView>,
    groups: Seq<Seq<char>>,
    now: int,
    limits: Limits,
) -> Seq<Seq<char>>
    decreases groups.len(),
{
    if groups.len() == 0 {
        Seq::empty()
    } else {
        let before = expired_keys(all, groups.drop_last(), now, limits);
        if group_expired(all, groups.last(), now, limits) {
            before + group_keys(all, groups.last())
        } else {
            before
        }
    }
}

/// Those groups, among some, that are expired and have an owner.
pub open spec fn expired_shares(
    all: Seq<ItemView>,
    groups: Seq<Seq<char>>,
    now: int,
    limits: Limits,
) -> Seq<Seq<char>> {
    groups.filter(|g: Seq<char>| group_owned(all, g) && group_expired(all, g, now, limits))
}

/// Whether the age of each of some groups is an `i64`.
pub open spec fn ages_fit(all: Seq<ItemView>, groups: Seq<Seq<char>>, now: int) -> bool {
    forall|i: int|
        0 <= i < groups.len() ==> i64::MIN <= now - #[trigger] group_latest(all, groups[i])
            <= i64::MAX
}

/// What the sweep sees in an object.
fn make_item(key: &String, secs: i64) -> (r: Item)
    ensures
        r@ == item(key@, secs as int),
{
    let rel = relative_name(key, "uploads/");
    let owner = ends_with(rel.as_str(), "/owner.txt") || same(rel.as_str(), "owner.txt");
    let parts = split(rel.as_str(), '/');
    proof {
        assert(pieces(rel@, '/')[0] == parts@[0]@);
    }
    Item { group: parts[0].clone(), key: key.clone(), secs, owner }
}

/// The listed objects that have a key and a time.
fn make_items(objects: &Vec<S3ListedObject>) -> (r: Vec<Item>)
    ensures
        views(r@) == items(objects@),
{
    let mut r: Vec<Item> = Vec::new();
    let mut i: usize = 0;
    proof {
        assert(views(r@) =~= items(objects@.take(0)));
    }
    while i < objects.len()
        invariant
            i <= objects@.len(),
            views(r@) == items(objects@.take(i as int)),
        decreases objects@.len() - i,
    {
        let o = &objects[i];
        let ghost before = r@;
        proof {
            assert(objects@.take(i + 1).drop_last() =~= objects@.take(i as int));
            assert(objects@.take(i + 1).last() == objects@[i as int]);
        }
        if let (Some(key), Some(secs)) = (&o.key, &o.last_modified_secs) {
            let it = make_item(key, *secs);
            r.push(it);
            proof {
                assert(views(r@) =~= views(before).push(item(key@, *secs as int)));
            }
        }
        i = i + 1;
    }
    proof {
        assert(objects@.take(objects@.len() as int) =~= objects@);
    }
    r
}

/// The objects of a share or of an upload under way.
pub struct ShareGroup {
    pub uuid: String,
    pub has_owner: bool,
    pub latest_modified_secs: i64,
    pub keys: Vec<String>,
}

/// Whether a record holds what some objects say of its group.
pub open spec fn describes(g: ShareGroup, all: Seq<ItemView>, group: Seq<char>) -> bool {
    &&& g.uuid@ == group
    &&& g.has_owner == group_owned(all, group)
    &&& g.latest_modified_secs == group_latest(all, group)
    &&& views(g.keys@) == group_keys(all, group)
}

/// Nothing is said of a group that does not appear.
proof fn lemma_absent_group(all: Seq<ItemView>, group: Seq<char>)
    requires
        !group_names(all).contains(group),
    ensures
        group_keys(all, group) == Seq::<Seq<char>>::empty(),
        !group_owned(all, group),
        group_latest(all, group) == 0,
        forall|i: int| 0 <= i < all.len() ==> (#[trigger] all[i]).group != group,
    decreases all.len(),
{
    if all.len() > 0 {
        let before = group_names(all.drop_last());
        let names = group_names(all);
        if before.contains(group) {
            let i = choose|i: int| 0 <= i < before.len() && before[i] == group;
            assert(names[i] == group);
        }
        if all.last().group == group {
            if !before.contains(group) {
                assert(names[names.len() - 1] == group);
            }
        }
        lemma_absent_group(all.drop_last(), group);
        assert forall|i: int| 0 <= i < all.len() implies (#[trigger] all[i]).group != group by {
            if i < all.len() - 1 {
                assert(all.drop_last()[i] == all[i]);
            }
        }
    }
}

/// What one more object changes of a group.
proof fn lemma_one_more(all: Seq<ItemView>, x: ItemView, group: Seq<char>)
    ensures
        group_keys(all.push(x), group) == (if x.group == group {
            group_keys(all, group).push(x.key)
        } else {
            group_keys(all, group)
        }),
        group_owned(all.push(x), group) == (group_owned(all, group) || (x.group == group
            && x.owner)),
        group_latest(all.push(x), group) == (if x.group == group && x.secs > group_latest(
            all,
            group,
        ) {
            x.secs
        } else {
            group_latest(all, group)
        }),
{
    let more = all.push(x);
    assert(more.drop_last() =~= all);
    if group_owned(all, group) {
        let i = choose|i: int|
            0 <= i < all.len() && (#[trigger] all[i]).group == group && all[i].owner;
        assert(more[i] == all[i]);
    }
    if group_owned(more, group) {
        let i = choose|i: int|
            0 <= i < more.len() && (#[trigger] more[i]).group == group && more[i].owner;
        if i < all.len() {
            assert(all[i] == more[i]);
        }
    }
    if x.group == group && x.owner {
        assert(more[all.len() as int] == x);
    }
}

/// No group appears twice.
proof fn lemma_names_distinct(all: Seq<ItemView>)
    ensures
        group_names(all).no_duplicates(),
    decreases all.len(),
{
    if all.len() > 0 {
        lemma_names_distinct(all.drop_last());
    }
}

/// Where the record of a group stands, if there is one.
fn find_group(groups: &Vec<ShareGroup>, group: &str) -> (r: Option<usize>)
    ensures
        match r {
            Some(i) => i < groups@.len() && groups@[i as int].uuid@ == group@,
            None => forall|i: int|
                0 <= i < groups@.len() ==> (#[trigger] groups@[i]).uuid@ != group@,
        },
{
    let mut i: usize = groups.len();
    while i > 0
        invariant
            i <= groups@.len(),
            forall|j: int| i <= j < groups@.len() ==> (#[trigger] groups@[j]).uuid@ != group@,
        decreases i,
    {
        if same(groups[i - 1].uuid.as_str(), group) {
            return Some(i - 1);
        }
        i = i - 1;
    }
    None
}

/// Some objects by their groups, in the order in which the groups first appear.
fn make_groups(all: &Vec<Item>) -> (r: Vec<ShareGroup>)
    ensures
        r@.len() == group_names(views(all@)).len(),
        forall|i: int|
            0 <= i < r@.len() ==> describes(
                #[trigger] r@[i],
                views(all@),
                group_names(views(all@))[i],
            ),
{
    let ghost seen = views(all@);
    let mut groups: Vec<ShareGroup> = Vec::new();
    let mut n: usize = 0;
    while n < all.len()
        invariant
            n <= all@.len(),
            seen == views(all@),
            groups@.len() == group_names(seen.take(n as int)).len(),
            forall|i: int|
                0 <= i < groups@.len() ==> describes(
                    #[trigger] groups@[i],
                    seen.take(n as int),
                    group_names(seen.take(n as int))[i],
                ),
        decreases all@.len() - n,
    {
        let x = &all[n];
        let ghost before = seen.take(n as int);
        let ghost after = seen.take(n + 1);
        let ghost names = group_names(before);
        let ghost old_groups = groups@;
        proof {
            assert(after.drop_last() =~= before);
            assert(after.last() == x@);
            assert(after =~= before.push(x@));
            lemma_names_distinct(before);
        }
        match find_group(&groups, x.group.as_str()) {
            Some(i) => {
                proof {
                    assert(names[i as int] == x.group@);
                    assert(group_names(after) == names);
                }
                if x.owner {
                    groups[i].has_owner = true;
                }
                if x.secs > groups[i].latest_modified_secs {
                    groups[i].latest_modified_secs = x.secs;
                }
                groups[i].keys.push(x.key.clone());
                proof {
                    assert(views(groups@[i as int].keys@) =~= views(
                        old_groups[i as int].keys@,
                    ).push(x.key@));
                    assert forall|j: int| 0 <= j < groups@.len() implies describes(
                        #[trigger] groups@[j],
                        after,
                        group_names(after)[j],
                    ) by {
                        assert(describes(old_groups[j], before, names[j]));
                        lemma_one_more(before, x@, names[j]);
                    }
                }
            },
            None => {
                proof {
                    if names.contains(x.group@) {
                        let j = choose|j: int| 0 <= j < names.len() && names[j] == x.group@;
                        assert(describes(old_groups[j], before, names[j]));
                    }
                    lemma_absent_group(before, x.group@);
                }
                let mut keys: Vec<String> = Vec::new();
                keys.push(x.key.clone());
                groups.push(
                    ShareGroup {
                        uuid: x.group.clone(),
                        has_owner: x.owner,
                        latest_modified_secs: if x.secs > 0 {
                            x.secs
                        } else {
                            0
                        },
                        keys,
                    },
                );
                proof {
                    assert(group_names(after) =~= names.push(x.group@));
                    assert(views(keys@) =~= Seq::<Seq<char>>::empty().push(x.key@));
                    assert forall|j: int| 0 <= j < groups@.len() implies describes(
                        #[trigger] groups@[j],
                        after,
                        group_names(after)[j],
                    ) by {
                        if j < names.len() {
                            assert(describes(old_groups[j], before, names[j]));
                            lemma_one_more(before, x@, names[j]);
                        } else {
                            lemma_one_more(before, x@, x.group@);
                        }
                    }
                }
            },
        }
        n = n + 1;
    }
    proof {
        assert(seen.take(seen.len() as int) =~= seen);
    }
    groups
}

/// What a sweep removes: the objects with these keys, and the entries of these shares.
pub struct Sweep {
    pub keys: Vec<String>,
    pub shares: Vec<String>,
}

/// What a sweep removes of some listed objects; nothing is said where an age is no `i64`.
pub fn survey(objects: &Vec<S3ListedObject>, now: i64, limits: &Limits) -> (r: Option<Sweep>)
    ensures
        ({
            let all = items(objects@);
            let names = group_names(all);
            match r {
                Some(s) => ages_fit(all, names, now as int) && views(s.keys@) == expired_keys(
                    all,
                    names,
                    now as int,
                    *limits,
                ) && views(s.shares@) == expired_shares(all, names, now as int, *limits),
                None => !ages_fit(all, names, now as int),
            }
        }),
{
    let seen = make_items(objects);
    let groups = make_groups(&seen);
    let ghost all = views(seen@);
    let ghost names = group_names(all);
    let ghost p = |g: Seq<char>|
        group_owned(all, g) && group_expired(all, g, now as int, *limits);
    let mut keys: Vec<String> = Vec::new();
    let mut shares: Vec<String> = Vec::new();
    proof {
        reveal(Seq::filter);
        assert(views(keys@) =~= expired_keys(all, names.take(0), now as int, *limits));
        assert(views(shares@) =~= names.take(0).filter(p));
    }
    for group in it: groups
        invariant
            it.seq() == groups@,
            names == group_names(all),
            p == (|g: Seq<char>|
                group_owned(all, g) && group_expired(all, g, now as int, *limits)),
            groups@.len() == names.len(),
            forall|i: int|
                0 <= i < groups@.len() ==> describes(#[trigger] groups@[i], all, names[i]),
            ages_fit(all, names.take(it.index()), now as int),
            views(keys@) == expired_keys(all, names.take(it.index()), now as int, *limits),
            views(shares@) == names.take(it.index()).filter(p),
            all == items(objects@),
    {
        let ghost n = it.index();
        let ghost old_keys = keys@;
        let ghost old_shares = shares@;
        proof {
            reveal(Seq::filter);
            assert(group == groups@[n]);
            assert(describes(group, all, names[n]));
            assert(names.take(n + 1).drop_last() =~= names.take(n));
            assert(names.take(n + 1).last() == names[n]);
        }
        let age: i64 = match now.checked_sub(group.latest_modified_secs) {
            Some(age) => age,
            None => {
                proof {
                    assert(!ages_fit(all, names, now as int)) by {
                        assert(group_latest(all, names[n]) == group.latest_modified_secs);
                    }
                }
                return None;
            },
        };
        let kept: i64 = if group.has_owner {
            limits.share
        } else {
            limits.partial
        };
        if age > kept {
            let has_owner = group.has_owner;
            let uuid = group.uuid;
            let mut more = group.keys;
            let ghost added = more@;
            keys.append(&mut more);
            proof {
                assert(views(keys@) =~= views(old_keys) + views(added));
            }
            if has_owner {
                shares.push(uuid);
                proof {
                    assert(views(shares@) =~= views(old_shares).push(names[n]));
                }
            }
        }
        proof {
            assert forall|i: int| 0 <= i < names.take(n + 1).len() implies i64::MIN <= now
                - #[trigger] group_latest(all, names.take(n + 1)[i]) <= i64::MAX by {
                if i < n {
                    assert(names.take(n)[i] == names.take(n + 1)[i]);
                }
            }
        }
    }
    proof {
        assert(names.take(names.len() as int) =~= names);
    }
    Some(Sweep { keys, shares })
}

// ---------------------------------------------------------------------------
// The sweep
// ---------------------------------------------------------------------------

/// Takes the shares from place `i` on out of the indices of their owners, where these are on
/// record.
pub open spec fn prune_shares(
    shares: Seq<Seq<char>>,
    i: int,
    heard: Seq<Reply>,
    at: int,
) -> FlowView<()>
    decreases shares.len() - i,
{
    if i < 0 || i >= shares.len() {
        FlowView::Go((), at)
    } else if at >= heard.len() {
        FlowView::Stop(
            NextView::Perform(ActionView::Get { key: share_key(shares[i], "owner.txt"@) }),
        )
    } else {
        match heard[at] {
            Reply::Object(ObjectReply::Bytes(b)) => match index_removal(
                recorded_owner(b@),
                shares[i],
                heard,
                at + 1,
            ) {
                FlowView::Stop(n) => FlowView::Stop(n),
                FlowView::Go(_, at) => prune_shares(shares, i + 1, heard, at),
            },
            Reply::Object(_) => prune_shares(shares, i + 1, heard, at + 1),
            _ => FlowView::Stop(NextView::Misheard),
        }
    }
}

/// Takes some shares out of the indices of their owners.
fn do_prune_shares(shares: &Vec<String>, heard: &Vec<Reply>, start: usize) -> (r: Flow<()>)
    requires
        start <= heard@.len(),
    ensures
        r@ == prune_shares(views(shares@), 0, heard@, start as int),
        r matches Flow::Go(_, a) ==> start <= a <= heard@.len(),
        readable_flow(r@),
{
    let ghost all = views(shares@);
    let mut at: usize = start;
    let mut i: usize = 0;
    while i < shares.len()
        invariant
            i <= shares@.len(),
            all == views(shares@),
            start <= at <= heard@.len(),
            prune_shares(all, i as int, heard@, at as int) == prune_shares(
                all,
                0,
                heard@,
                start as int,
            ),
        decreases shares@.len() - i,
    {
        let uuid = shares[i].as_str();
        proof {
            assert(all[i as int] == uuid@);
        }
        if at >= heard.len() {
            return Flow::Stop(ask_get(make_share_key(uuid, "owner.txt")));
        }
        match &heard[at] {
            Reply::Object(ObjectReply::Bytes(b)) => {
                let owner = read_owner(b);
                match remove_share_from_user_index(owner.as_str(), uuid, heard, at + 1) {
                    Flow::Stop(n) => {
                        return Flow::Stop(n);
                    },
                    Flow::Go(_, next) => {
                        at = next;
                    },
                }
            },
            Reply::Object(_) => {
                at = at + 1;
            },
            _ => {
                return Flow::Stop(Next::Misheard);
            },
        }
        i = i + 1;
    }
    Flow::Go((), at)
}

/// Removes what is expired of some listed objects: first the entries of the shares, then the
/// objects.
pub open spec fn remove_expired(
    objects: Seq<S3ListedObject>,
    now: int,
    limits: Limits,
    heard: Seq<Reply>,
    at: int,
) -> NextView {
    let all = items(objects);
    let names = group_names(all);
    if !ages_fit(all, names, now) {
        NextView::Crash
    } else {
        match prune_shares(expired_shares(all, names, now, limits), 0, heard, at) {
            FlowView::Stop(n) => n,
            FlowView::Go(_, at) => match delete_batches(
                expired_keys(all, names, now, limits),
                0,
                heard,
                at,
                Wording::Debug,
            ) {
                FlowView::Stop(n) => n,
                FlowView::Go(OutcomeView::Done, _) => NextView::Done(AnswerView::Success),
                FlowView::Go(OutcomeView::Failed(message), _) => NextView::Done(
                    AnswerView::SweepFailed { message },
                ),
            },
        }
    }
}

/// Drops the unfinished uploads that are too old, where they can be listed.
pub open spec fn drop_old_uploads(
    now: int,
    limits: Limits,
    heard: Seq<Reply>,
    at: int,
) -> FlowView<()> {
    if at >= heard.len() {
        FlowView::Stop(NextView::Perform(ActionView::ListUploads { prefix: "uploads/"@ }))
    } else {
        match heard[at] {
            Reply::Uploads(uploads) => abort_old_uploads(
                uploads@,
                0,
                now,
                limits.partial as int,
                heard,
                at + 1,
            ),
            Reply::Failed(_) => FlowView::Go((), at + 1),
            _ => FlowView::Stop(NextView::Misheard),
        }
    }
}

/// Lists what is stored, and removes what is expired.
pub open spec fn sweep_objects(
    now: int,
    limits: Limits,
    heard: Seq<Reply>,
    at: int,
) -> NextView {
    if at >= heard.len() {
        NextView::Perform(ActionView::ListAll { prefix: "uploads/"@ })
    } else {
        match heard[at] {
            Reply::Objects(objects) => remove_expired(objects@, now, limits, heard, at + 1),
            Reply::Failed(e) => NextView::Done(AnswerView::SweepFailed { message: e.debug@ }),
            _ => NextView::Misheard,
        }
    }
}

/// A sweep at a given time: drops old unfinished uploads, then removes what is expired.
pub open spec fn sweep(now: int, limits: Limits, heard: Seq<Reply>) -> NextView {
    match drop_old_uploads(now, limits, heard, 1) {
        FlowView::Stop(n) => n,
        FlowView::Go(_, at) => sweep_objects(now, limits, heard, at),
    }
}

/// A sweep: removes the shares that were stored more than `days` days ago (90 where that is no
/// number), and what has no owner and was stored more than `hours` hours ago (12).
pub open spec fn cleanup_next(
    days: Option<Seq<char>>,
    hours: Option<Seq<char>>,
    heard: Seq<Reply>,
) -> NextView {
    if heard.len() == 0 {
        NextView::Perform(ActionView::Clock)
    } else {
        match heard[0] {
            Reply::Time(t) => match (limit(days, 90, 86400), limit(hours, 12, 3600)) {
                (Some(share), Some(partial)) => sweep(
                    t.secs as int,
                    Limits { share: share as i64, partial: partial as i64 },
                    heard,
                ),
                _ => NextView::Crash,
            },
            _ => NextView::Misheard,
        }
    }
}

/// How many seconds lie between two sweeps.
pub const SWEEP_SECONDS: u64 = 3600;

/// A sweep of the store.
pub fn perform_cleanup(days: &Option<String>, hours: &Option<String>, heard: &Vec<Reply>) -> (r:
    Next)
    ensures
        r@ == cleanup_next(opt_view(*days), opt_view(*hours), heard@),
        readable(r@),
{
    if heard.len() == 0 {
        return Next::Perform(Action::Clock);
    }
    let now: i64 = match &heard[0] {
        Reply::Time(t) => t.secs,
        _ => {
            return Next::Misheard;
        },
    };
    let share: i64 = match read_limit(days, 90, 86400) {
        Some(n) => n,
        None => {
            return Next::Crash;
        },
    };
    let partial: i64 = match read_limit(hours, 12, 3600) {
        Some(n) => n,
        None => {
            return Next::Crash;
        },
    };
    let limits = Limits { share, partial };
    if heard.len() <= 1 {
        return Next::Perform(Action::ListUploads { prefix: "uploads/".to_owned() });
    }
    let aborted = match &heard[1] {
        Reply::Uploads(uploads) => do_abort_old_uploads(uploads, now, partial, heard, 2),
        Reply::Failed(_) => Flow::Go((), 2),
        _ => Flow::Stop(Next::Misheard),
    };
    let at: usize = match aborted {
        Flow::Stop(n) => {
            return n;
        },
        Flow::Go(_, at) => at,
    };
    if at >= heard.len() {
        return Next::Perform(Action::ListAll { prefix: "uploads/".to_owned() });
    }
    let found = match &heard[at] {
        Reply::Objects(objects) => survey(objects, now, &limits),
        Reply::Failed(e) => {
            return Next::Done(Answer::SweepFailed { message: e.debug.clone() });
        },
        _ => {
            return Next::Misheard;
        },
    };
    let expired = match found {
        Some(s) => s,
        None => {
            return Next::Crash;
        },
    };
    let at: usize = match do_prune_shares(&expired.shares, heard, at + 1) {
        Flow::Stop(n) => {
            return n;
        },
        Flow::Go(_, at) => at,
    };
    match do_delete_batches(&expired.keys, heard, at, Wording::Debug) {
        Flow::Stop(n) => n,
        Flow::Go(Outcome::Done, _) => Next::Done(Answer::Success),
        Flow::Go(Outcome::Failed(message), _) => Next::Done(Answer::SweepFailed { message }),
    }
}

} // verus!
