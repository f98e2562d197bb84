//! Laws of scope: what a request may change.

use vstd::prelude::*;
use crate::admin::{account_names, user_stats};
use crate::api::{answer_next, for_users, Request};
use crate::clock::UtcTime;
use crate::deletion::{
    abort_uploads, batch_end, delete_batches, listed_keys, prefix_deletion, OutcomeView, Wording,
};
use crate::gate::{admin, caller, Headers, Site};
use crate::keys::{share_prefix, user_key, user_prefix};
use crate::profile::{indexed_shares, remove_shares};
use crate::protocol::{
    changes_store, ActionView, FieldReply, FlowView, ListedUpload, NextView, ObjectReply, Reply,
    UserStatsView,
};
use crate::shares::{index_entries, sizes_total};
use crate::sharing::{find_files, recorded_owner, with_file, FoundView};
use crate::storage::S3ListedObject;
use crate::text::begins;
use crate::uploads::{relative, share_upload, store_form, StoredFileView};

verus! {

// ---------------------------------------------------------------------------
// Looking
// ---------------------------------------------------------------------------

/// Whether a request only looks at something.
pub open spec fn only_looks(request: Request) -> bool {
    match request {
        Request::GetShare { .. } => true,
        Request::Download { .. } => true,
        Request::GetShares => true,
        Request::GetProfile => true,
        Request::GetSessions => true,
        Request::AdminStats => true,
        Request::AdminUserSessions { .. } => true,
        Request::AdminSessions => true,
        _ => false,
    }
}

/// Going through the objects of a share asks for nothing but the time.
proof fn lemma_find_files_asks(
    objects: Seq<S3ListedObject>,
    i: int,
    prefix: Seq<char>,
    found: FoundView,
    heard: Seq<Reply>,
    at: int,
)
    ensures
        find_files(objects, i, prefix, found, heard, at) matches FlowView::Stop(
            NextView::Perform(a),
        ) ==> a is Clock,
        !(find_files(objects, i, prefix, found, heard, at) matches FlowView::Stop(
            NextView::Done(_),
        )),
    decreases objects.len() - i,
{
    if 0 <= i < objects.len() {
        if let (Some(key), Some(size), Some(secs)) = (
            objects[i].key,
            objects[i].size,
            objects[i].last_modified_secs,
        ) {
            let name = relative(key@, prefix);
            let t = UtcTime { secs, nanos: 0 };
            let more = with_file(found, name, size as int, t);
            lemma_find_files_asks(objects, i + 1, prefix, more, heard, at);
            if let Reply::Time(t) = heard[at] {
                let more = with_file(found, name, size as int, t);
                lemma_find_files_asks(objects, i + 1, prefix, more, heard, at + 1);
            }
        }
        lemma_find_files_asks(objects, i + 1, prefix, found, heard, at);
    }
}

/// Telling of users asks for nothing but objects.
proof fn lemma_user_stats_asks(
    names: Seq<Seq<char>>,
    i: int,
    said: Seq<UserStatsView>,
    heard: Seq<Reply>,
    at: int,
)
    ensures
        user_stats(names, i, said, heard, at) matches NextView::Perform(a) ==> a is Get,
    decreases names.len() - i,
{
    if 0 <= i < names.len() && at < heard.len() {
        if let Reply::Object(reply) = heard[at] {
            let entries = index_entries(reply);
            if let Some(total_size) = sizes_total(entries) {
                let more = said.push(
                    UserStatsView { username: names[i], total_size, shares: entries },
                );
                lemma_user_stats_asks(names, i + 1, more, heard, at + 1);
            }
        }
    }
}

/// A request that only looks at something changes nothing in the store.
pub proof fn looking_changes_nothing(
    site: Site,
    headers: Headers,
    request: Request,
    heard: Seq<Reply>,
)
    requires
        only_looks(request),
    ensures
        answer_next(site, headers, request, heard) matches NextView::Perform(a) ==> !changes_store(
            a,
        ),
{
    if let Request::GetShare { uuid } = request {
        if heard.len() > 0 {
            if let Reply::Objects(objects) = heard[0] {
                let none = FoundView { files: Seq::empty(), latest: None };
                lemma_find_files_asks(objects@, 0, share_prefix(uuid@), none, heard, 1);
            }
        }
    }
    if let Request::AdminStats = request {
        if let FlowView::Go(_, at) = admin(site, headers, heard) {
            if at < heard.len() {
                if let Reply::Objects(objects) = heard[at] {
                    lemma_user_stats_asks(
                        account_names(objects@),
                        0,
                        Seq::empty(),
                        heard,
                        at + 1,
                    );
                }
            }
        }
    }
}

// ---------------------------------------------------------------------------
// Writing
// ---------------------------------------------------------------------------

/// The one object that an action writes or removes, where it is one.
pub open spec fn target(a: ActionView) -> Option<Seq<char>> {
    match a {
        ActionView::Put { key, .. } => Some(key),
        ActionView::PutInBackground { key, .. } => Some(key),
        ActionView::PutSessions { key, .. } => Some(key),
        ActionView::Delete { key } => Some(key),
        ActionView::CreateUpload { key, .. } => Some(key),
        ActionView::UploadPart { key, .. } => Some(key),
        ActionView::CompleteUpload { key, .. } => Some(key),
        ActionView::StoreField { key, .. } => Some(key),
        _ => None,
    }
}

/// The share that a request is about, where it is about one.
pub open spec fn share_in_question(request: Request, heard: Seq<Reply>) -> Option<Seq<char>> {
    match request {
        Request::UploadFiles => new_share(heard),
        Request::UploadInit => new_share(heard),
        Request::UploadPing { uuid } => Some(uuid@),
        Request::UploadFile { uuid } => Some(uuid@),
        Request::UploadFinish { uuid, .. } => Some(uuid@),
        Request::UploadAbort { uuid } => Some(uuid@),
        Request::MultipartInit { uuid, .. } => Some(uuid@),
        Request::MultipartPart { uuid, .. } => Some(uuid@),
        Request::MultipartComplete { uuid, .. } => Some(uuid@),
        Request::DeleteShare { uuid } => Some(uuid@),
        _ => None,
    }
}

/// The id that a new share was given.
pub open spec fn new_share(heard: Seq<Reply>) -> Option<Seq<char>> {
    if heard.len() > 1 {
        match heard[1] {
            Reply::Id(uuid) => Some(uuid@),
            _ => None,
        }
    } else {
        None
    }
}

/// A text begins with what it was put together from first.
pub proof fn lemma_begins(prefix: Seq<char>, rest: Seq<char>)
    ensures
        begins(prefix + rest, prefix),
{
    assert((prefix + rest).take(prefix.len() as int) =~= prefix);
}

/// Storing the files of a form writes nothing but objects of the share.
proof fn lemma_store_form_writes(
    uuid: Seq<char>,
    files: Seq<StoredFileView>,
    heard: Seq<Reply>,
    at: int,
)
    ensures
        store_form(uuid, files, heard, at) matches FlowView::Stop(NextView::Perform(a)) ==> (
        target(a) matches Some(key) ==> begins(key, share_prefix(uuid))),
    decreases heard.len() - at,
{
    if 0 <= at < heard.len() {
        lemma_store_form_writes(uuid, files, heard, at + 1);
        if let Reply::Field(FieldReply::Named(path)) = heard[at] {
            lemma_begins(share_prefix(uuid), path@);
            if at + 1 < heard.len() {
                if let Reply::Stored(size) = heard[at + 1] {
                    lemma_store_form_writes(
                        uuid,
                        files.push(StoredFileView { path: path@, size: size as int }),
                        heard,
                        at + 2,
                    );
                }
            }
        }
    }
}

/// Dropping uploads asks for nothing else.
proof fn lemma_abort_uploads_asks(
    uploads: Seq<ListedUpload>,
    i: int,
    heard: Seq<Reply>,
    at: int,
)
    ensures
        abort_uploads(uploads, i, heard, at) matches FlowView::Stop(NextView::Perform(a))
            ==> a is AbortUpload,
    decreases uploads.len() - i,
{
    if 0 <= i < uploads.len() {
        lemma_abort_uploads_asks(uploads, i + 1, heard, at + 1);
        lemma_abort_uploads_asks(uploads, i + 1, heard, at);
    }
}

/// Removing objects by batches asks for nothing else.
proof fn lemma_delete_batches_asks(
    keys: Seq<Seq<char>>,
    from: int,
    heard: Seq<Reply>,
    at: int,
    wording: Wording,
)
    ensures
        delete_batches(keys, from, heard, at, wording) matches FlowView::Stop(NextView::Perform(a))
            ==> a is DeleteBatch,
    decreases keys.len() - from,
{
    if 0 <= from < keys.len() {
        let end = batch_end(keys.len() as int, from);
        lemma_delete_batches_asks(keys, end, heard, at + 1, wording);
    }
}

/// Removing everything under a prefix lists and removes, and writes no object.
proof fn lemma_prefix_deletion_writes(prefix: Seq<char>, heard: Seq<Reply>, at: int)
    ensures
        prefix_deletion(prefix, heard, at) matches FlowView::Stop(NextView::Perform(a))
            ==> target(a) is None,
{
    if at < heard.len() {
        let mut next = at + 1;
        if let Reply::Uploads(uploads) = heard[at] {
            lemma_abort_uploads_asks(uploads@, 0, heard, at + 1);
            if let FlowView::Go(_, after) = abort_uploads(uploads@, 0, heard, at + 1) {
                next = after;
            }
        }
        if let Reply::Objects(objects) = heard[next] {
            lemma_delete_batches_asks(listed_keys(objects@), 0, heard, next + 1, Wording::Display);
        }
    }
}

/// Removing shares writes no object.
proof fn lemma_remove_shares_writes(ids: Seq<Seq<char>>, i: int, heard: Seq<Reply>, at: int)
    ensures
        remove_shares(ids, i, heard, at) matches FlowView::Stop(NextView::Perform(a))
            ==> target(a) is None,
    decreases ids.len() - i,
{
    if 0 <= i < ids.len() {
        lemma_prefix_deletion_writes(share_prefix(ids[i]), heard, at);
        if let FlowView::Go(_, next) = prefix_deletion(share_prefix(ids[i]), heard, at) {
            lemma_remove_shares_writes(ids, i + 1, heard, next);
        }
    }
}

/// Every object that a user's request writes, or removes by its key, is the user's record, an
/// object of the user, or an object of the share that the request is about.
pub proof fn users_write_what_is_theirs(
    site: Site,
    headers: Headers,
    request: Request,
    heard: Seq<Reply>,
)
    requires
        for_users(request),
    ensures
        answer_next(site, headers, request, heard) matches NextView::Perform(a) ==> (target(
            a,
        ) matches Some(key) ==> (caller(site, headers, heard) matches FlowView::Go(c, _) && {
            ||| key == user_key(c.username)
            ||| begins(key, user_prefix(c.username))
            ||| share_in_question(request, heard) matches Some(uuid) && begins(
                key,
                share_prefix(uuid),
            )
        })),
{
    if let FlowView::Go(c, _) = caller(site, headers, heard) {
        let mine = user_prefix(c.username);
        lemma_begins(mine, "sessions.json"@);
        lemma_begins(mine, "public_shares.json"@);
        lemma_begins(mine, "shares.enc"@);
        lemma_begins(mine, "pfp.enc"@);
        if let Some(uuid) = share_in_question(request, heard) {
            lemma_begins(share_prefix(uuid), "owner.txt"@);
            lemma_begins(share_prefix(uuid), ".active"@);
            lemma_store_form_writes(uuid, Seq::empty(), heard, 1);
            lemma_store_form_writes(uuid, Seq::empty(), heard, 2);
            lemma_prefix_deletion_writes(share_prefix(uuid), heard, 1);
            lemma_prefix_deletion_writes(share_prefix(uuid), heard, 2);
            if let Request::UploadFiles = request {
                if let FlowView::Go(_, at) = share_upload(
                    c.username,
                    uuid,
                    heard,
                    2,
                ) {
                    lemma_prefix_deletion_writes(share_prefix(uuid), heard, at);
                }
            }
            if let Request::MultipartInit { file_name, .. } = request {
                lemma_begins(share_prefix(uuid), file_name@);
            }
            if let Request::MultipartPart { file_name, .. } = request {
                lemma_begins(share_prefix(uuid), file_name@);
            }
            if let Request::MultipartComplete { file_name, .. } = request {
                lemma_begins(share_prefix(uuid), file_name@);
            }
        }
        if let Request::DeleteAccount = request {
            if heard.len() > 1 {
                if let Reply::Object(reply) = heard[1] {
                    let ids = indexed_shares(reply);
                    lemma_remove_shares_writes(ids, 0, heard, 2);
                    if let FlowView::Go(_, at) = remove_shares(ids, 0, heard, 2) {
                        lemma_prefix_deletion_writes(mine, heard, at + 1);
                    }
                }
            }
        }
    }
}

// ---------------------------------------------------------------------------
// Removing
// ---------------------------------------------------------------------------

/// A share is removed by a user only where the record of its owner names that user.
pub proof fn only_the_owner_removes_a_share(
    site: Site,
    headers: Headers,
    uuid: String,
    heard: Seq<Reply>,
)
    ensures
        answer_next(site, headers, (Request::DeleteShare { uuid }), heard) matches NextView::Perform(
            a,
        ) ==> (changes_store(a) ==> (caller(site, headers, heard) matches FlowView::Go(c, _)
            && heard.len() > 1 && (heard[1] matches Reply::Object(ObjectReply::Bytes(b))
            && recorded_owner(b@) == c.username))),
{
}

/// Whether a list of the service holds nothing but what is under the prefix.
pub open spec fn lists_under(r: Reply, prefix: Seq<char>) -> bool {
    match r {
        Reply::Objects(objects) => forall|i: int|
            0 <= i < objects@.len() ==> ((#[trigger] objects@[i]).key matches Some(key) ==> begins(
                key@,
                prefix,
            )),
        Reply::Uploads(uploads) => forall|i: int|
            0 <= i < uploads@.len() ==> ((#[trigger] uploads@[i]).key matches Some(key) ==> begins(
                key@,
                prefix,
            )),
        _ => true,
    }
}

/// The listed keys are under the prefix where the list is.
proof fn lemma_listed_keys_under(objects: Seq<S3ListedObject>, prefix: Seq<char>)
    requires
        forall|i: int|
            0 <= i < objects.len() ==> ((#[trigger] objects[i]).key matches Some(key) ==> begins(
                key@,
                prefix,
            )),
    ensures
        forall|i: int|
            0 <= i < listed_keys(objects).len() ==> begins(
                #[trigger] listed_keys(objects)[i],
                prefix,
            ),
    decreases objects.len(),
{
    if objects.len() > 0 {
        assert forall|i: int| 0 <= i < objects.drop_last().len() implies ((
        #[trigger] objects.drop_last()[i]).key matches Some(key) ==> begins(key@, prefix)) by {
            assert(objects.drop_last()[i] == objects[i]);
        }
        lemma_listed_keys_under(objects.drop_last(), prefix);
        let before = listed_keys(objects.drop_last());
        let keys = listed_keys(objects);
        assert(objects.last() == objects[objects.len() - 1]);
        assert forall|i: int| 0 <= i < keys.len() implies begins(#[trigger] keys[i], prefix) by {
            if i < before.len() {
                assert(keys[i] == before[i]);
            }
        }
    }
}

/// The uploads that are dropped are under the prefix where the list is.
proof fn lemma_aborted_under(
    uploads: Seq<ListedUpload>,
    i: int,
    prefix: Seq<char>,
    heard: Seq<Reply>,
    at: int,
)
    requires
        forall|j: int|
            0 <= j < uploads.len() ==> ((#[trigger] uploads[j]).key matches Some(key) ==> begins(
                key@,
                prefix,
            )),
    ensures
        abort_uploads(uploads, i, heard, at) matches FlowView::Stop(
            NextView::Perform(ActionView::AbortUpload { key, .. }),
        ) ==> begins(key, prefix),
        abort_uploads(uploads, i, heard, at) matches FlowView::Go(_, next) ==> next >= at,
    decreases uploads.len() - i,
{
    if 0 <= i < uploads.len() {
        assert(uploads[i].key matches Some(key) ==> begins(key@, prefix));
        lemma_aborted_under(uploads, i + 1, prefix, heard, at + 1);
        lemma_aborted_under(uploads, i + 1, prefix, heard, at);
    }
}

/// Each batch consists of keys of the list.
pub proof fn lemma_batch_is_listed(
    keys: Seq<Seq<char>>,
    from: int,
    heard: Seq<Reply>,
    at: int,
    wording: Wording,
)
    ensures
        delete_batches(keys, from, heard, at, wording) matches FlowView::Stop(
            NextView::Perform(ActionView::DeleteBatch { keys: batch }),
        ) ==> 0 < batch.len() <= 1000 && forall|i: int|
            0 <= i < batch.len() ==> keys.contains(#[trigger] batch[i]),
    decreases keys.len() - from,
{
    if 0 <= from < keys.len() {
        let end = batch_end(keys.len() as int, from);
        if at >= heard.len() {
            let batch = keys.subrange(from, end);
            assert forall|i: int| 0 <= i < batch.len() implies keys.contains(
                #[trigger] batch[i],
            ) by {
                assert(keys[from + i] == batch[i]);
            }
        } else {
            lemma_batch_is_listed(keys, end, heard, at + 1, wording);
        }
    }
}

/// Removing everything under a prefix removes nothing else, as long as the service lists nothing
/// else; and no more than 1000 objects by one call.
pub proof fn deletion_stays_under_the_prefix(prefix: Seq<char>, heard: Seq<Reply>, at: int)
    requires
        0 <= at,
        forall|i: int| at <= i < heard.len() ==> lists_under(#[trigger] heard[i], prefix),
    ensures
        match prefix_deletion(prefix, heard, at) {
            FlowView::Stop(NextView::Perform(a)) => match a {
                ActionView::ListUploads { prefix: p } => p == prefix,
                ActionView::ListAll { prefix: p } => p == prefix,
                ActionView::AbortUpload { key, .. } => begins(key, prefix),
                ActionView::DeleteBatch { keys } => 0 < keys.len() <= 1000 && forall|i: int|
                    0 <= i < keys.len() ==> begins(#[trigger] keys[i], prefix),
                _ => false,
            },
            FlowView::Stop(NextView::Done(_)) => false,
            _ => true,
        },
{
    if at < heard.len() {
        let mut next = at + 1;
        assert(lists_under(heard[at], prefix));
        if let Reply::Uploads(uploads) = heard[at] {
            lemma_abort_uploads_asks(uploads@, 0, heard, at + 1);
            lemma_aborted_under(uploads@, 0, prefix, heard, at + 1);
            lemma_abort_never_done(uploads@, 0, heard, at + 1);
            if let FlowView::Go(_, after) = abort_uploads(uploads@, 0, heard, at + 1) {
                next = after;
            }
        }
        if next < heard.len() {
            assert(lists_under(heard[next], prefix));
            if let Reply::Objects(objects) = heard[next] {
                let keys = listed_keys(objects@);
                lemma_listed_keys_under(objects@, prefix);
                lemma_delete_batches_asks(keys, 0, heard, next + 1, Wording::Display);
                lemma_batch_is_listed(keys, 0, heard, next + 1, Wording::Display);
                lemma_batches_never_done(keys, 0, heard, next + 1, Wording::Display);
                if let FlowView::Stop(NextView::Perform(ActionView::DeleteBatch { keys: batch })) =
                    delete_batches(keys, 0, heard, next + 1, Wording::Display) {
                    assert forall|i: int| 0 <= i < batch.len() implies begins(
                        #[trigger] batch[i],
                        prefix,
                    ) by {
                        assert(keys.contains(batch[i]));
                    }
                }
            }
        }
    }
}

/// Dropping uploads answers nothing.
proof fn lemma_abort_never_done(uploads: Seq<ListedUpload>, i: int, heard: Seq<Reply>, at: int)
    ensures
        !(abort_uploads(uploads, i, heard, at) matches FlowView::Stop(NextView::Done(_))),
    decreases uploads.len() - i,
{
    if 0 <= i < uploads.len() {
        lemma_abort_never_done(uploads, i + 1, heard, at + 1);
        lemma_abort_never_done(uploads, i + 1, heard, at);
    }
}

/// Removing objects by batches answers nothing.
pub proof fn lemma_batches_never_done(
    keys: Seq<Seq<char>>,
    from: int,
    heard: Seq<Reply>,
    at: int,
    wording: Wording,
)
    ensures
        !(delete_batches(keys, from, heard, at, wording) matches FlowView::Stop(NextView::Done(_))),
    decreases keys.len() - from,
{
    if 0 <= from < keys.len() {
        let end = batch_end(keys.len() as int, from);
        lemma_batches_never_done(keys, end, heard, at + 1, wording);
    }
}

/// Removing everything under a prefix answers nothing.
pub proof fn lemma_deletion_never_done(prefix: Seq<char>, heard: Seq<Reply>, at: int)
    ensures
        !(prefix_deletion(prefix, heard, at) matches FlowView::Stop(NextView::Done(_))),
{
    if at < heard.len() {
        let mut next = at + 1;
        if let Reply::Uploads(uploads) = heard[at] {
            lemma_abort_never_done(uploads@, 0, heard, at + 1);
            if let FlowView::Go(_, after) = abort_uploads(uploads@, 0, heard, at + 1) {
                next = after;
            }
        }
        if let Reply::Objects(objects) = heard[next] {
            lemma_batches_never_done(listed_keys(objects@), 0, heard, next + 1, Wording::Display);
        }
    }
}

/// Storing the files of a form answers nothing.
pub proof fn lemma_form_never_done(
    uuid: Seq<char>,
    files: Seq<StoredFileView>,
    heard: Seq<Reply>,
    at: int,
)
    ensures
        !(store_form(uuid, files, heard, at) matches FlowView::Stop(NextView::Done(_))),
    decreases heard.len() - at,
{
    if 0 <= at < heard.len() {
        lemma_form_never_done(uuid, files, heard, at + 1);
        if let Reply::Field(FieldReply::Named(path)) = heard[at] {
            if at + 1 < heard.len() {
                if let Reply::Stored(size) = heard[at + 1] {
                    lemma_form_never_done(
                        uuid,
                        files.push(StoredFileView { path: path@, size: size as int }),
                        heard,
                        at + 2,
                    );
                }
            }
        }
    }
}

/// Removing objects by batches goes through the keys in order, a thousand at a time: after `n`
/// batches the next one holds the thousand keys that follow, or what is left of them, and after
/// the last key nothing more is asked for.
pub proof fn batches_cover_the_keys(
    keys: Seq<Seq<char>>,
    heard: Seq<Reply>,
    at: int,
    n: int,
    wording: Wording,
)
    requires
        0 <= at,
        0 <= n,
        heard.len() == at + n,
        forall|i: int| at <= i < heard.len() ==> #[trigger] heard[i] is Done,
        n == 0 || 1000 * (n - 1) < keys.len(),
    ensures
        if 1000 * n < keys.len() {
            delete_batches(keys, 0, heard, at, wording) == FlowView::<OutcomeView>::Stop(
                NextView::Perform(
                    ActionView::DeleteBatch {
                        keys: keys.subrange(
                            1000 * n,
                            batch_end(keys.len() as int, 1000 * n),
                        ),
                    },
                ),
            )
        } else {
            delete_batches(keys, 0, heard, at, wording) == FlowView::Go(
                OutcomeView::Done,
                at + n,
            )
        },
{
    lemma_batches_from(keys, heard, at, n, 0, wording);
}

/// The same, once `done` batches have been taken.
proof fn lemma_batches_from(
    keys: Seq<Seq<char>>,
    heard: Seq<Reply>,
    at: int,
    n: int,
    done: int,
    wording: Wording,
)
    requires
        0 <= at,
        0 <= n,
        heard.len() == at + n,
        forall|i: int| at <= i < heard.len() ==> #[trigger] heard[i] is Done,
        n == 0 || 1000 * (n - 1) < keys.len(),
        0 <= done <= n,
    ensures
        ({
            let from = if 1000 * done < keys.len() {
                1000 * done
            } else {
                keys.len() as int
            };
            if 1000 * n < keys.len() {
                delete_batches(keys, from, heard, at + done, wording) == FlowView::<
                    OutcomeView,
                >::Stop(
                    NextView::Perform(
                        ActionView::DeleteBatch {
                            keys: keys.subrange(
                                1000 * n,
                                batch_end(keys.len() as int, 1000 * n),
                            ),
                        },
                    ),
                )
            } else {
                delete_batches(keys, from, heard, at + done, wording) == FlowView::Go(
                    OutcomeView::Done,
                    at + n,
                )
            }
        }),
    decreases n - done,
{
    if done < n {
        lemma_batches_from(keys, heard, at, n, done + 1, wording);
        assert(heard[at + done] is Done);
    }
}

} // verus!
