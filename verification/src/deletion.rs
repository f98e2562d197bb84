//! Removing every object under a prefix.

use vstd::prelude::*;
use crate::keys::{make_share_prefix, share_prefix};
use crate::model::views;
use crate::protocol::{
    readable_flow, Action, ActionView, Flow, FlowView, ListedUpload, Next, NextView, Reply,
    ServiceError,
};
use crate::storage::S3ListedObject;

verus! {

/// How a part of a request ended.
pub enum Outcome {
    Done,
    /// It failed, with this message.
    Failed(String),
}

/// How a part of a request ended, over sequences.
pub enum OutcomeView {
    Done,
    Failed(Seq<char>),
}

impl View for Outcome {
    type V = OutcomeView;

    open spec fn view(&self) -> OutcomeView {
        match self {
            Outcome::Done => OutcomeView::Done,
            Outcome::Failed(m) => OutcomeView::Failed(m@),
        }
    }
}

/// How an error of the service is told.
#[derive(Clone, Copy, Debug, PartialEq, Eq, Structural)]
pub enum Wording {
    /// To a client.
    Display,
    /// In a log.
    Debug,
}

/// The text of an error.
pub open spec fn told(e: ServiceError, wording: Wording) -> Seq<char> {
    match wording {
        Wording::Display => e.display@,
        Wording::Debug => e.debug@,
    }
}

/// The text of an error.
pub fn tell(e: &ServiceError, wording: Wording) -> (r: String)
    ensures
        r@ == told(*e, wording),
{
    match wording {
        Wording::Display => e.display.clone(),
        Wording::Debug => e.debug.clone(),
    }
}

/// Whether a reply says how a call ended.
pub open spec fn settled(r: Reply) -> bool {
    match r {
        Reply::Done => true,
        Reply::Failed(_) => true,
        _ => false,
    }
}

/// Whether a reply says how a call ended.
pub fn is_settled(r: &Reply) -> (b: bool)
    ensures
        b == settled(*r),
{
    match r {
        Reply::Done => true,
        Reply::Failed(_) => true,
        _ => false,
    }
}

/// Drops the uploads of a list from place `i` on that have a key and an id, whatever comes of it.
pub open spec fn abort_uploads(
    uploads: Seq<ListedUpload>,
    i: int,
    heard: Seq<Reply>,
    at: int,
) -> FlowView<()>
    decreases uploads.len() - i,
{
    if i < 0 || i >= uploads.len() {
        FlowView::Go((), at)
    } else {
        match (uploads[i].key, uploads[i].upload_id) {
            (Some(key), Some(upload_id)) => if at >= heard.len() {
                FlowView::Stop(
                    NextView::Perform(
                        ActionView::AbortUpload { key: key@, upload_id: upload_id@ },
                    ),
                )
            } else if settled(heard[at]) {
                abort_uploads(uploads, i + 1, heard, at + 1)
            } else {
                FlowView::Stop(NextView::Misheard)
            },
            _ => abort_uploads(uploads, i + 1, heard, at),
        }
    }
}

/// Drops the uploads of a list that have a key and an id.
fn do_abort_uploads(uploads: &Vec<ListedUpload>, heard: &Vec<Reply>, start: usize) -> (r: Flow<()>)
    requires
        start <= heard@.len(),
    ensures
        r@ == abort_uploads(uploads@, 0, heard@, start as int),
        r matches Flow::Go(_, a) ==> start <= a <= heard@.len(),
        readable_flow(r@),
{
    let mut at: usize = start;
    let mut i: usize = 0;
    while i < uploads.len()
        invariant
            i <= uploads@.len(),
            start <= at <= heard@.len(),
            abort_uploads(uploads@, i as int, heard@, at as int) == abort_uploads(
                uploads@,
                0,
                heard@,
                start as int,
            ),
        decreases uploads@.len() - i,
    {
        let u = &uploads[i];
        if let Some(key) = &u.key {
            if let Some(upload_id) = &u.upload_id {
                if at >= heard.len() {
                    return Flow::Stop(
                        Next::Perform(
                            Action::AbortUpload { key: key.clone(), upload_id: upload_id.clone() },
                        ),
                    );
                }
                if !is_settled(&heard[at]) {
                    return Flow::Stop(Next::Misheard);
                }
                at = at + 1;
            }
        }
        i = i + 1;
    }
    Flow::Go((), at)
}

/// The keys of those listed objects that have one.
pub open spec fn listed_keys(objects: Seq<S3ListedObject>) -> Seq<Seq<char>>
    decreases objects.len(),
{
    if objects.len() == 0 {
        Seq::empty()
    } else {
        match objects.last().key {
            Some(k) => listed_keys(objects.drop_last()).push(k@),
            None => listed_keys(objects.drop_last()),
        }
    }
}

/// The keys of those listed objects that have one.
pub fn keys_of(objects: &Vec<S3ListedObject>) -> (r: Vec<String>)
    ensures
        views(r@) == listed_keys(objects@),
{
    let mut r: Vec<String> = Vec::new();
    let mut i: usize = 0;
    proof {
        assert(views(r@) =~= listed_keys(objects@.take(0)));
    }
    while i < objects.len()
        invariant
            i <= objects@.len(),
            views(r@) == listed_keys(objects@.take(i as int)),
        decreases objects@.len() - i,
    {
        let ghost before = r@;
        if let Some(k) = &objects[i].key {
            r.push(k.clone());
            proof {
                assert(views(r@) =~= views(before).push(k@));
            }
        }
        proof {
            assert(objects@.take(i + 1).drop_last() =~= objects@.take(i as int));
            assert(objects@.take(i + 1).last() == objects@[i as int]);
        }
        i = i + 1;
    }
    proof {
        assert(objects@.take(objects@.len() as int) =~= objects@);
    }
    r
}

/// How many objects one call removes at most.
pub const BATCH: usize = 1000;

/// The end of the batch that starts at `from`.
pub open spec fn batch_end(len: int, from: int) -> int {
    if from + BATCH < len {
        from + BATCH
    } else {
        len
    }
}

/// Removes the objects with the keys from place `from` on, batch by batch. The first batch that
/// fails ends it, with the error in the given wording.
pub open spec fn delete_batches(
    keys: Seq<Seq<char>>,
    from: int,
    heard: Seq<Reply>,
    at: int,
    wording: Wording,
) -> FlowView<OutcomeView>
    decreases keys.len() - from,
{
    if from < 0 || from >= keys.len() {
        FlowView::Go(OutcomeView::Done, at)
    } else if at >= heard.len() {
        FlowView::Stop(
            NextView::Perform(
                ActionView::DeleteBatch {
                    keys: keys.subrange(from, batch_end(keys.len() as int, from)),
                },
            ),
        )
    } else {
        match heard[at] {
            Reply::Done => delete_batches(
                keys,
                batch_end(keys.len() as int, from),
                heard,
                at + 1,
                wording,
            ),
            Reply::Failed(e) => FlowView::Go(OutcomeView::Failed(told(e, wording)), at + 1),
            _ => FlowView::Stop(NextView::Misheard),
        }
    }
}

/// Removes the objects with the keys, batch by batch.
pub fn do_delete_batches(
    keys: &Vec<String>,
    heard: &Vec<Reply>,
    start: usize,
    wording: Wording,
) -> (r: Flow<Outcome>)
    requires
        start <= heard@.len(),
    ensures
        r@ == delete_batches(views(keys@), 0, heard@, start as int, wording),
        r matches Flow::Go(_, a) ==> start <= a <= heard@.len(),
        readable_flow(r@),
{
    let ghost all = views(keys@);
    let mut at: usize = start;
    let mut from: usize = 0;
    while from < keys.len()
        invariant
            from <= keys@.len(),
            all == views(keys@),
            start <= at <= heard@.len(),
            delete_batches(all, from as int, heard@, at as int, wording) == delete_batches(
                all,
                0,
                heard@,
                start as int,
                wording,
            ),
        decreases keys@.len() - from,
    {
        let end: usize = if keys.len() - from > BATCH {
            from + BATCH
        } else {
            keys.len()
        };
        if at >= heard.len() {
            let mut batch: Vec<String> = Vec::new();
            let mut i: usize = from;
            while i < end
                invariant
                    from <= i <= end <= keys@.len(),
                    all == views(keys@),
                    views(batch@) == all.subrange(from as int, i as int),
                decreases end - i,
            {
                let ghost before = batch@;
                batch.push(keys[i].clone());
                proof {
                    assert(views(batch@) =~= views(before).push(keys@[i as int]@));
                    assert(all.subrange(from as int, i + 1) =~= all.subrange(
                        from as int,
                        i as int,
                    ).push(all[i as int]));
                }
                i = i + 1;
            }
            return Flow::Stop(Next::Perform(Action::DeleteBatch { keys: batch }));
        }
        match &heard[at] {
            Reply::Done => {},
            Reply::Failed(e) => {
                return Flow::Go(Outcome::Failed(tell(e, wording)), at + 1);
            },
            _ => {
                return Flow::Stop(Next::Misheard);
            },
        }
        at = at + 1;
        from = end;
    }
    Flow::Go(Outcome::Done, at)
}

/// Drops the unfinished uploads under a prefix, where they can be listed.
pub open spec fn drop_uploads(prefix: Seq<char>, heard: Seq<Reply>, at: int) -> FlowView<()> {
    if at >= heard.len() {
        FlowView::Stop(NextView::Perform(ActionView::ListUploads { prefix }))
    } else {
        match heard[at] {
            Reply::Uploads(uploads) => abort_uploads(uploads@, 0, heard, at + 1),
            Reply::Failed(_) => FlowView::Go((), at + 1),
            _ => FlowView::Stop(NextView::Misheard),
        }
    }
}

/// Removes the objects under a prefix. A list or a batch that fails ends it.
pub open spec fn remove_objects(prefix: Seq<char>, heard: Seq<Reply>, at: int) -> FlowView<
    OutcomeView,
> {
    if at >= heard.len() {
        FlowView::Stop(NextView::Perform(ActionView::ListAll { prefix }))
    } else {
        match heard[at] {
            Reply::Objects(objects) => delete_batches(
                listed_keys(objects@),
                0,
                heard,
                at + 1,
                Wording::Display,
            ),
            Reply::Failed(e) => FlowView::Go(OutcomeView::Failed(e.display@), at + 1),
            _ => FlowView::Stop(NextView::Misheard),
        }
    }
}

/// Removes everything under a prefix: drops the unfinished uploads, then removes the objects.
pub open spec fn prefix_deletion(prefix: Seq<char>, heard: Seq<Reply>, at: int) -> FlowView<
    OutcomeView,
> {
    match drop_uploads(prefix, heard, at) {
        FlowView::Stop(n) => FlowView::Stop(n),
        FlowView::Go(_, at) => remove_objects(prefix, heard, at),
    }
}

/// Removes everything under a prefix.
pub fn delete_s3_prefix(prefix: &str, heard: &Vec<Reply>, start: usize) -> (r: Flow<Outcome>)
    requires
        start <= heard@.len(),
    ensures
        r@ == prefix_deletion(prefix@, heard@, start as int),
        r matches Flow::Go(_, a) ==> start < a <= heard@.len(),
        readable_flow(r@),
{
    if start >= heard.len() {
        return Flow::Stop(Next::Perform(Action::ListUploads { prefix: prefix.to_owned() }));
    }
    let aborted = match &heard[start] {
        Reply::Uploads(uploads) => do_abort_uploads(uploads, heard, start + 1),
        Reply::Failed(_) => Flow::Go((), start + 1),
        _ => Flow::Stop(Next::Misheard),
    };
    let at: usize = match aborted {
        Flow::Stop(n) => {
            return Flow::Stop(n);
        },
        Flow::Go(_, at) => at,
    };
    if at >= heard.len() {
        return Flow::Stop(Next::Perform(Action::ListAll { prefix: prefix.to_owned() }));
    }
    match &heard[at] {
        Reply::Objects(objects) => {
            let keys = keys_of(objects);
            do_delete_batches(&keys, heard, at + 1, Wording::Display)
        },
        Reply::Failed(e) => Flow::Go(Outcome::Failed(e.display.clone()), at + 1),
        _ => Flow::Stop(Next::Misheard),
    }
}

/// Removes everything stored for a share.
pub fn delete_share_objects(uuid: &str, heard: &Vec<Reply>, start: usize) -> (r: Flow<Outcome>)
    requires
        start <= heard@.len(),
    ensures
        r@ == prefix_deletion(share_prefix(uuid@), heard@, start as int),
        r matches Flow::Go(_, a) ==> start < a <= heard@.len(),
        readable_flow(r@),
{
    delete_s3_prefix(make_share_prefix(uuid).as_str(), heard, start)
}

} // verus!
