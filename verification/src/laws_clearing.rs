//! Laws of clearing a prefix: every unfinished upload is dropped, and every object is removed.

use vstd::prelude::*;
use crate::deletion::{
    abort_uploads, batch_end, delete_batches, listed_keys, prefix_deletion, OutcomeView, Wording,
};
use crate::protocol::{ActionView, FlowView, ListedUpload, NextView, Reply, ServiceError};
use crate::storage::S3ListedObject;

verus! {

/// An unfinished upload that can be dropped: one with a key and an id.
pub open spec fn droppable(u: ListedUpload) -> bool {
    u.key is Some && u.upload_id is Some
}

/// The uploads that a reply to a list of unfinished uploads names; none where the list failed.
pub open spec fn uploads_named(r: Reply) -> Option<Seq<ListedUpload>> {
    match r {
        Reply::Uploads(uploads) => Some(uploads@.filter(|u: ListedUpload| droppable(u))),
        Reply::Failed(_) => Some(Seq::empty()),
        _ => None,
    }
}

/// The keys that a reply to a list of objects names, in order.
pub open spec fn keys_named(r: Reply) -> Option<Seq<Seq<char>>> {
    match r {
        Reply::Objects(objects) => Some(
            objects@.filter(|o: S3ListedObject| o.key is Some).map_values(
                |o: S3ListedObject| o.key->0@,
            ),
        ),
        _ => None,
    }
}

/// How many batches of a thousand some keys take.
pub open spec fn batch_count(keys: int) -> int {
    (keys + 999) / 1000
}

/// Whether the replies from `at` to `end` are those of a clearing that came to a good end: the
/// uploads were listed, or could not be; dropping each of them succeeded or failed; the objects
/// were listed; and every batch of a thousand of them was removed.
pub open spec fn clearing_ends(heard: Seq<Reply>, at: int, end: int) -> bool {
    0 <= at < heard.len() && match uploads_named(heard[at]) {
        Some(uploads) => {
            let b = at + 1 + uploads.len();
            &&& b < heard.len()
            &&& forall|j: int| at < j < b ==> (#[trigger] heard[j]) is Done || heard[j] is Failed
            &&& match keys_named(heard[b]) {
                Some(keys) => {
                    &&& end == b + 1 + batch_count(keys.len() as int)
                    &&& end <= heard.len()
                    &&& forall|j: int| b < j < end ==> (#[trigger] heard[j]) is Done
                },
                None => false,
            }
        },
        None => false,
    }
}

// ---------------------------------------------------------------------------
// Unfinished uploads
// ---------------------------------------------------------------------------

/// Taking what fits out of a sequence, from the front.
pub proof fn lemma_filter_skip<A>(s: Seq<A>, i: int, p: spec_fn(A) -> bool)
    requires
        0 <= i < s.len(),
    ensures
        s.skip(i).filter(p) == (if p(s[i]) {
            seq![s[i]] + s.skip(i + 1).filter(p)
        } else {
            s.skip(i + 1).filter(p)
        }),
{
    reveal(Seq::filter);
    let one = seq![s[i]];
    assert(s.skip(i) =~= one + s.skip(i + 1));
    Seq::filter_distributes_over_add(one, s.skip(i + 1), p);
    assert(one.drop_last() =~= Seq::<A>::empty());
    assert(one.drop_last().filter(p) =~= Seq::<A>::empty());
    assert(one.filter(p) =~= if p(s[i]) {
        one
    } else {
        Seq::<A>::empty()
    });
    assert(Seq::<A>::empty() + s.skip(i + 1).filter(p) =~= s.skip(i + 1).filter(p));
}

/// Nothing is left after the last one.
pub proof fn lemma_filter_none<A>(s: Seq<A>, p: spec_fn(A) -> bool)
    requires
        s.len() == 0,
    ensures
        s.filter(p).len() == 0,
{
    reveal(Seq::filter);
}

/// From the upload `i` on, the uploads that can be dropped are dropped one by one.
proof fn lemma_drops(
    uploads: Seq<ListedUpload>,
    i: int,
    heard: Seq<Reply>,
    at: int,
)
    requires
        0 <= i <= uploads.len(),
        0 <= at <= heard.len(),
    ensures
        ({
            let rest = uploads.skip(i).filter(|u: ListedUpload| droppable(u));
            let r = abort_uploads(uploads, i, heard, at);
            &&& (forall|j: int|
                at <= j < at + rest.len() && j < heard.len() ==> (#[trigger] heard[j]) is Done
                    || heard[j] is Failed) ==> r == (if at + rest.len() <= heard.len() {
                FlowView::Go((), at + rest.len())
            } else {
                FlowView::<()>::Stop(
                    NextView::Perform(
                        ActionView::AbortUpload {
                            key: rest[heard.len() - at].key->0@,
                            upload_id: rest[heard.len() - at].upload_id->0@,
                        },
                    ),
                )
            })
            &&& r matches FlowView::Go(_, n) ==> n == at + rest.len() && n <= heard.len() && forall|
                j: int,
            |
                at <= j < n ==> (#[trigger] heard[j]) is Done || heard[j] is Failed
        }),
    decreases uploads.len() - i,
{
    let p = |u: ListedUpload| droppable(u);
    let rest = uploads.skip(i).filter(p);
    if i < uploads.len() {
        lemma_filter_skip(uploads, i, p);
        let more = uploads.skip(i + 1).filter(p);
        if droppable(uploads[i]) {
            assert(rest =~= seq![uploads[i]] + more);
            if at < heard.len() {
                lemma_drops(uploads, i + 1, heard, at + 1);
                if (forall|j: int|
                    at <= j < at + rest.len() && j < heard.len() ==> (#[trigger] heard[j]) is Done
                        || heard[j] is Failed) {
                    assert(heard[at] is Done || heard[at] is Failed);
                    if at + rest.len() > heard.len() {
                        assert(rest[heard.len() - at] == more[heard.len() - at - 1]);
                    }
                }
            } else {
                assert(rest[0] == uploads[i]);
            }
        } else {
            lemma_drops(uploads, i + 1, heard, at);
        }
    } else {
        assert(uploads.skip(i).len() == 0);
        lemma_filter_none(uploads.skip(i), p);
    }
}

/// Clearing a prefix starts with a list of the unfinished uploads under it. Then it drops every
/// listed upload that has a key and an id, in order, whether or not dropping the ones before
/// succeeded; only after as many replies are the objects listed.
pub proof fn clearing_drops_every_upload(
    prefix: Seq<char>,
    heard: Seq<Reply>,
    at: int,
    n: int,
)
    requires
        0 <= at,
        0 <= n,
        heard.len() == at + 1 + n,
        uploads_named(heard[at]) matches Some(uploads) && n <= uploads.len(),
        forall|j: int| at < j < heard.len() ==> (#[trigger] heard[j]) is Done || heard[j] is Failed,
    ensures
        prefix_deletion(prefix, heard.take(at), at) == FlowView::<
            OutcomeView,
        >::Stop(NextView::Perform(ActionView::ListUploads { prefix })),
        uploads_named(heard[at]) matches Some(uploads) && prefix_deletion(prefix, heard, at)
            == FlowView::<OutcomeView>::Stop(
            NextView::Perform(
                if n < uploads.len() {
                    ActionView::AbortUpload {
                        key: uploads[n].key->0@,
                        upload_id: uploads[n].upload_id->0@,
                    }
                } else {
                    ActionView::ListAll { prefix }
                },
            ),
        ),
{
    if let Reply::Uploads(uploads) = heard[at] {
        assert(uploads@.skip(0) =~= uploads@);
        lemma_drops(uploads@, 0, heard, at + 1);
    }
}

// ---------------------------------------------------------------------------
// Objects
// ---------------------------------------------------------------------------

/// The keys of the listed objects, in order.
pub proof fn lemma_listed_keys(objects: Seq<S3ListedObject>)
    ensures
        listed_keys(objects) == objects.filter(
            |o: S3ListedObject| o.key is Some,
        ).map_values(|o: S3ListedObject| o.key->0@),
    decreases objects.len(),
{
    reveal(Seq::filter);
    let p = |o: S3ListedObject| o.key is Some;
    let f = |o: S3ListedObject| o.key->0@;
    if objects.len() > 0 {
        lemma_listed_keys(objects.drop_last());
        let before = objects.drop_last().filter(p);
        if objects.last().key is Some {
            assert(before.push(objects.last()).map_values(f) =~= before.map_values(f).push(
                f(objects.last()),
            ));
        }
    }
    assert(listed_keys(objects) =~= objects.filter(p).map_values(f));
}

/// From the key `from` on, the keys are removed a thousand at a time.
pub proof fn lemma_batches(
    keys: Seq<Seq<char>>,
    from: int,
    heard: Seq<Reply>,
    at: int,
    wording: Wording,
)
    requires
        0 <= from <= keys.len(),
        0 <= at <= heard.len(),
    ensures
        ({
            let n = batch_count(keys.len() - from);
            let r = delete_batches(keys, from, heard, at, wording);
            &&& at + n <= heard.len() && (forall|j: int|
                at <= j < at + n ==> (#[trigger] heard[j]) is Done) ==> r == FlowView::Go(
                OutcomeView::Done,
                at + n,
            )
            &&& r matches FlowView::Go(OutcomeView::Done, m) ==> m == at + n && m <= heard.len()
                && forall|j: int| at <= j < m ==> (#[trigger] heard[j]) is Done
        }),
    decreases keys.len() - from,
{
    if from < keys.len() {
        let end = batch_end(keys.len() as int, from);
        if at < heard.len() {
            lemma_batches(keys, end, heard, at + 1, wording);
            assert(batch_count(keys.len() - from) == 1 + batch_count(keys.len() - end));
            let n = batch_count(keys.len() - from);
            if at + n <= heard.len() && (forall|j: int|
                at <= j < at + n ==> (#[trigger] heard[j]) is Done) {
                assert(heard[at] is Done);
            }
        }
    }
}

/// Once the objects under the prefix are listed, clearing removes each of them, a thousand at a
/// time and in order; a batch that fails ends it, with the message of the failure.
pub proof fn clearing_removes_every_object(
    prefix: Seq<char>,
    heard: Seq<Reply>,
    at: int,
    b: int,
    n: int,
)
    requires
        0 <= at < b,
        uploads_named(heard[at]) matches Some(uploads) && b == at + 1 + uploads.len(),
        forall|j: int| at < j < b ==> (#[trigger] heard[j]) is Done || heard[j] is Failed,
        0 <= n,
        heard.len() >= b + 1 + n,
        keys_named(heard[b]) matches Some(keys) && 1000 * n < keys.len(),
        forall|j: int| b < j <= b + n ==> (#[trigger] heard[j]) is Done,
    ensures
        keys_named(heard[b]) matches Some(keys) && {
            &&& heard.len() == b + 1 + n ==> prefix_deletion(prefix, heard, at) == FlowView::<
                OutcomeView,
            >::Stop(
                NextView::Perform(
                    ActionView::DeleteBatch {
                        keys: keys.subrange(
                            1000 * n,
                            if 1000 * n + 1000 <= keys.len() {
                                1000 * n + 1000
                            } else {
                                keys.len() as int
                            },
                        ),
                    },
                ),
            )
            &&& heard.len() > b + 1 + n ==> (heard[b + 1 + n] matches Reply::Failed(e)
                ==> prefix_deletion(prefix, heard, at) == FlowView::Go(
                OutcomeView::Failed(e.display@),
                b + 2 + n,
            ))
        },
{
    if let Reply::Uploads(uploads) = heard[at] {
        assert(uploads@.skip(0) =~= uploads@);
        lemma_drops(uploads@, 0, heard, at + 1);
    }
    if let Reply::Objects(objects) = heard[b] {
        lemma_listed_keys(objects@);
        lemma_nth_batch(listed_keys(objects@), 0, heard, b + 1, n, Wording::Display);
    }
}

/// The batch `n` of those from the key `from` on.
pub proof fn lemma_nth_batch(
    keys: Seq<Seq<char>>,
    from: int,
    heard: Seq<Reply>,
    at: int,
    n: int,
    wording: Wording,
)
    requires
        0 <= from,
        0 <= at,
        0 <= n,
        from + 1000 * n < keys.len(),
        heard.len() >= at + n,
        forall|j: int| at <= j < at + n ==> (#[trigger] heard[j]) is Done,
    ensures
        heard.len() == at + n ==> delete_batches(keys, from, heard, at, wording) == FlowView::<
            OutcomeView,
        >::Stop(
            NextView::Perform(
                ActionView::DeleteBatch {
                    keys: keys.subrange(
                        from + 1000 * n,
                        if from + 1000 * n + 1000 <= keys.len() {
                            from + 1000 * n + 1000
                        } else {
                            keys.len() as int
                        },
                    ),
                },
            ),
        ),
        heard.len() > at + n ==> (heard[at + n] matches Reply::Failed(e) ==> delete_batches(
            keys,
            from,
            heard,
            at,
            wording,
        ) == FlowView::Go(
            OutcomeView::Failed(
                if wording is Display {
                    e.display@
                } else {
                    e.debug@
                },
            ),
            at + n + 1,
        )),
    decreases n,
{
    if n > 0 {
        assert(heard[at] is Done);
        lemma_nth_batch(keys, from + 1000, heard, at + 1, n - 1, wording);
    }
}

/// A list of objects that fails ends a clearing, with the message of the failure.
pub proof fn clearing_needs_the_list(
    prefix: Seq<char>,
    heard: Seq<Reply>,
    at: int,
    b: int,
    e: ServiceError,
)
    requires
        0 <= at < b < heard.len(),
        uploads_named(heard[at]) matches Some(uploads) && b == at + 1 + uploads.len(),
        forall|j: int| at < j < b ==> (#[trigger] heard[j]) is Done || heard[j] is Failed,
        heard[b] == Reply::Failed(e),
    ensures
        prefix_deletion(prefix, heard, at) == FlowView::Go(OutcomeView::Failed(e.display@), b + 1),
{
    if let Reply::Uploads(uploads) = heard[at] {
        assert(uploads@.skip(0) =~= uploads@);
        lemma_drops(uploads@, 0, heard, at + 1);
    }
}

/// A clearing comes to a good end exactly where every listed upload was to be dropped and every
/// listed object was removed.
pub proof fn clearing_comes_to_its_end(
    prefix: Seq<char>,
    heard: Seq<Reply>,
    at: int,
    end: int,
)
    requires
        0 <= at,
    ensures
        clearing_ends(heard, at, end) == (prefix_deletion(prefix, heard, at) == FlowView::Go(
            OutcomeView::Done,
            end,
        )),
{
    if at < heard.len() {
        let b = match uploads_named(heard[at]) {
            Some(uploads) => at + 1 + uploads.len(),
            None => at,
        };
        if let Reply::Uploads(uploads) = heard[at] {
            assert(uploads@.skip(0) =~= uploads@);
            lemma_drops(uploads@, 0, heard, at + 1);
        }
        if at < b < heard.len() {
            if let Reply::Objects(objects) = heard[b] {
                lemma_listed_keys(objects@);
                lemma_batches(listed_keys(objects@), 0, heard, b + 1, Wording::Display);
            }
        }
    }
}

} // verus!
