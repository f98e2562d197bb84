//! Laws of hearing: a request whose replies fit what it asked for is never at a loss.

use vstd::prelude::*;
use vstd::utf8::encode_utf8;
use crate::account::{begin_session, password_check, profile_picture, sessions_settled, user_heard};
use crate::admin::{
    account_names, begin_admin_session, forget_share, index_owner, removal_from_all, user_stats,
};
use crate::api::{answer_next, for_admin, for_users, Request};
use crate::cleanup::{
    abort_old_uploads, ages_fit, cleanup_next, drop_old_uploads, expired_keys, expired_shares,
    group_names, items, limit, prune_shares, remove_expired, sweep, sweep_objects, Limits,
};
use crate::clock::{in_calendar, UtcTime};
use crate::deletion::{
    abort_uploads, batch_end, delete_batches, drop_uploads, listed_keys, prefix_deletion,
    remove_objects, settled, OutcomeView, Wording,
};
use crate::devices::{
    admin_session, admin_token_cut, list_sessions, name_session, revoke_session, sessions_key,
};
use crate::gate::{admin, caller, CallerView, Headers, Site};
use crate::json::JsonTree;
use crate::keys::{share_key, share_prefix, user_key, user_prefix};
use crate::model::opt_view;
use crate::profile::{
    account_removal, end_other_sessions, indexed_shares, payload_bytes, picture_removal,
    remove_shares, renew_password, renew_picture, store_picture, ChangePasswordRequest,
};
use crate::protocol::{
    refused, ActionView, AnswerView, FieldReply, FlowView, ListedUpload, NextView, ObjectReply,
    Reply, UserStatsView,
};
use crate::setup::load_secret_next;
use crate::shares::{index_entries, index_removal, sizes_total};
use crate::sharing::{find_files, owner_heard, recorded_owner, with_file, FoundView, SHARE_SECONDS};
use crate::storage::S3ListedObject;
use crate::text::trimmed;
use crate::uploads::{
    active_key, content_count, files_total, is_marker, main_count, objects_heard, paths,
    record_owner, record_share, relative, share_files, share_size, share_upload, store_form,
    FormView, StoredFileView, UploadFinishReq, UploadView,
};

verus! {

/// Whether a reply is one to what was asked.
pub open spec fn fits(a: ActionView, r: Reply) -> bool {
    match a {
        ActionView::Get { .. } => r is Object,
        ActionView::GetSessions { .. } => r is Sessions,
        ActionView::Put { .. } => r is Done || r is Failed,
        ActionView::PutInBackground { .. } => r is Done,
        ActionView::PutSessions { .. } => r is Done || r is Failed || r is NotEncoded,
        ActionView::Head { .. } => r is Exists,
        ActionView::Delete { .. } => r is Done || r is Failed,
        ActionView::DeleteBatch { .. } => r is Done || r is Failed,
        ActionView::ListAll { .. } => r is Objects || r is Failed,
        ActionView::ListPage { .. } => r is Objects || r is Failed,
        ActionView::ListUploads { .. } => r is Uploads || r is Failed,
        ActionView::CreateUpload { .. } => r is UploadId || r is Failed,
        ActionView::UploadPart { .. } => r is ETag || r is Failed,
        ActionView::CompleteUpload { .. } => r is Done || r is Failed,
        ActionView::AbortUpload { .. } => r is Done || r is Failed,
        ActionView::NextField => r is Field || r is Failed,
        ActionView::StoreField { .. } => r is Stored || r is FieldFailed || r is Failed,
        ActionView::Fetch { .. } => r is File || r is Failed,
        ActionView::FreshId => r is Id,
        ActionView::FreshSecret => r is Secret,
        ActionView::Clock => r is Time,
    }
}

/// Whether something is asked for and a reply does not fit it.
pub open spec fn strays(n: NextView, r: Reply) -> bool {
    n matches NextView::Perform(a) && !fits(a, r)
}

/// Whether a part of a request asks for something and a reply does not fit it.
pub open spec fn strays_flow<T>(f: FlowView<T>, r: Reply) -> bool {
    f matches FlowView::Stop(n) && strays(n, r)
}

/// Whether a part of a request that starts at a place is at a loss only where a reply does not fit
/// what was asked, and does not look at replies beyond its own.
pub open spec fn heeds<T>(
    f: spec_fn(Seq<Reply>) -> FlowView<T>,
    heard: Seq<Reply>,
    at: int,
) -> bool {
    match f(heard) {
        FlowView::Stop(NextView::Misheard) => exists|j: int|
            at <= j < heard.len() && strays_flow(f(#[trigger] heard.take(j)), heard[j]),
        FlowView::Stop(_) => true,
        FlowView::Go(_, n) => at <= n <= heard.len() && forall|k: int|
            n <= k <= heard.len() ==> f(#[trigger] heard.take(k)) == f(heard),
    }
}

/// Whether the end of a request, from a place on, is at a loss only where a reply does not fit what
/// was asked.
pub open spec fn heeds_from(
    f: spec_fn(Seq<Reply>) -> NextView,
    heard: Seq<Reply>,
    at: int,
) -> bool {
    f(heard) is Misheard ==> exists|j: int|
        at <= j < heard.len() && strays(f(#[trigger] heard.take(j)), heard[j])
}

/// A part of a request that goes on as another part from some place on.
proof fn lemma_goes_on<T>(
    f: spec_fn(Seq<Reply>) -> FlowView<T>,
    g: spec_fn(Seq<Reply>) -> FlowView<T>,
    heard: Seq<Reply>,
    at: int,
    next: int,
)
    requires
        at <= next <= heard.len(),
        heeds(g, heard, next),
        f(heard) == g(heard),
        forall|k: int| next <= k <= heard.len() ==> f(#[trigger] heard.take(k)) == g(heard.take(k)),
    ensures
        heeds(f, heard, at),
{
    if g(heard) matches FlowView::Stop(NextView::Misheard) {
        let j = choose|j: int|
            next <= j < heard.len() && strays_flow(g(#[trigger] heard.take(j)), heard[j]);
        assert(strays_flow(f(heard.take(j)), heard[j]));
    }
}

/// A part of a request that is one part and then another.
proof fn lemma_then<T, U>(
    f: spec_fn(Seq<Reply>) -> FlowView<T>,
    g: spec_fn(Seq<Reply>) -> FlowView<U>,
    both: spec_fn(Seq<Reply>) -> FlowView<U>,
    heard: Seq<Reply>,
    at: int,
)
    requires
        at <= heard.len(),
        heeds(f, heard, at),
        f(heard) matches FlowView::Go(_, n) ==> heeds(g, heard, n) && both(heard) == g(heard)
            && forall|k: int|
            n <= k <= heard.len() ==> both(#[trigger] heard.take(k)) == g(heard.take(k)),
        f(heard) matches FlowView::Stop(n) ==> both(heard) == FlowView::<U>::Stop(n),
        f(heard) is Stop ==> forall|j: int|
            at <= j < heard.len() && f(#[trigger] heard.take(j)) is Stop ==> both(heard.take(j))
                == FlowView::<U>::Stop(f(heard.take(j))->Stop_0),
    ensures
        heeds(both, heard, at),
{
    match f(heard) {
        FlowView::Stop(NextView::Misheard) => {
            let j = choose|j: int|
                at <= j < heard.len() && strays_flow(f(#[trigger] heard.take(j)), heard[j]);
            assert(strays_flow(both(heard.take(j)), heard[j]));
        },
        FlowView::Go(_, n) => {
            lemma_goes_on(both, g, heard, at, n);
        },
        _ => {},
    }
}

/// The end of a request that goes on as another end from some place on.
proof fn lemma_ends_as(
    f: spec_fn(Seq<Reply>) -> NextView,
    g: spec_fn(Seq<Reply>) -> NextView,
    heard: Seq<Reply>,
    at: int,
    next: int,
)
    requires
        at <= next <= heard.len(),
        heeds_from(g, heard, next),
        f(heard) == g(heard),
        forall|k: int| next <= k <= heard.len() ==> f(#[trigger] heard.take(k)) == g(heard.take(k)),
    ensures
        heeds_from(f, heard, at),
{
    if g(heard) is Misheard {
        let j = choose|j: int|
            next <= j < heard.len() && strays(g(#[trigger] heard.take(j)), heard[j]);
        assert(strays(f(heard.take(j)), heard[j]));
    }
}

/// The end of a request that is a part and then another end.
proof fn lemma_ends<T>(
    f: spec_fn(Seq<Reply>) -> FlowView<T>,
    g: spec_fn(Seq<Reply>) -> NextView,
    both: spec_fn(Seq<Reply>) -> NextView,
    heard: Seq<Reply>,
    at: int,
)
    requires
        at <= heard.len(),
        heeds(f, heard, at),
        f(heard) matches FlowView::Go(_, n) ==> heeds_from(g, heard, n) && both(heard) == g(heard)
            && forall|k: int|
            n <= k <= heard.len() ==> both(#[trigger] heard.take(k)) == g(heard.take(k)),
        f(heard) matches FlowView::Stop(n) ==> both(heard) == n,
        f(heard) is Stop ==> forall|j: int|
            at <= j < heard.len() && f(#[trigger] heard.take(j)) is Stop ==> both(heard.take(j))
                == f(heard.take(j))->Stop_0,
    ensures
        heeds_from(both, heard, at),
{
    match f(heard) {
        FlowView::Stop(NextView::Misheard) => {
            let j = choose|j: int|
                at <= j < heard.len() && strays_flow(f(#[trigger] heard.take(j)), heard[j]);
            assert(strays(both(heard.take(j)), heard[j]));
        },
        FlowView::Go(_, n) => {
            lemma_ends_as(both, g, heard, at, n);
        },
        _ => {},
    }
}

// ---------------------------------------------------------------------------
// Parts of requests: each lemma shows that the part it is named after heeds what it hears
// ---------------------------------------------------------------------------

proof fn lemma_caller_heeds(site: Site, headers: Headers, heard: Seq<Reply>)
    ensures
        heeds(|h: Seq<Reply>| caller(site, headers, h), heard, 0),
{
    let f = |h: Seq<Reply>| caller(site, headers, h);
    if f(heard) matches FlowView::Stop(NextView::Misheard) {
        assert(strays_flow(f(heard.take(0)), heard[0]));
    }
}

proof fn lemma_admin_heeds(site: Site, headers: Headers, heard: Seq<Reply>)
    ensures
        heeds(|h: Seq<Reply>| admin(site, headers, h), heard, 0),
{
    let f = |h: Seq<Reply>| admin(site, headers, h);
    if f(heard) matches FlowView::Stop(NextView::Misheard) {
        assert(strays_flow(f(heard.take(0)), heard[0]));
    }
}

proof fn lemma_store_form_heeds(
    uuid: Seq<char>,
    files: Seq<StoredFileView>,
    heard: Seq<Reply>,
    at: int,
)
    requires
        0 <= at <= heard.len(),
    ensures
        heeds(|h: Seq<Reply>| store_form(uuid, files, h, at), heard, at),
    decreases heard.len() - at,
{
    let f = |h: Seq<Reply>| store_form(uuid, files, h, at);
    if at < heard.len() {
        let g = |h: Seq<Reply>| store_form(uuid, files, h, at + 1);
        match heard[at] {
            Reply::Field(FieldReply::End) => {},
            Reply::Field(FieldReply::Unnamed) => {
                lemma_store_form_heeds(uuid, files, heard, at + 1);
                lemma_goes_on(f, g, heard, at, at + 1);
            },
            Reply::Field(FieldReply::Named(path)) => {
                if trimmed(path@).len() == 0 {
                    lemma_store_form_heeds(uuid, files, heard, at + 1);
                    lemma_goes_on(f, g, heard, at, at + 1);
                } else if at + 1 < heard.len() {
                    if let Reply::Stored(size) = heard[at + 1] {
                        let more = files.push(StoredFileView { path: path@, size: size as int });
                        let g = |h: Seq<Reply>| store_form(uuid, more, h, at + 2);
                        lemma_store_form_heeds(uuid, more, heard, at + 2);
                        lemma_goes_on(f, g, heard, at, at + 2);
                    } else if f(heard) matches FlowView::Stop(NextView::Misheard) {
                        assert(strays_flow(f(heard.take(at + 1)), heard[at + 1]));
                    }
                }
            },
            Reply::Failed(_) => {},
            _ => {
                assert(strays_flow(f(heard.take(at)), heard[at]));
            },
        }
    }
}

proof fn lemma_record_owner_heeds(
    username: Seq<char>,
    uuid: Seq<char>,
    heard: Seq<Reply>,
    at: int,
)
    requires
        0 <= at <= heard.len(),
    ensures
        heeds(|h: Seq<Reply>| record_owner(username, uuid, h, at), heard, at),
{
    let f = |h: Seq<Reply>| record_owner(username, uuid, h, at);
    if f(heard) matches FlowView::Stop(NextView::Misheard) {
        assert(strays_flow(f(heard.take(at)), heard[at]));
    }
}

proof fn lemma_record_share_heeds(
    username: Seq<char>,
    uuid: Seq<char>,
    files_count: int,
    total_size: int,
    heard: Seq<Reply>,
    at: int,
)
    requires
        0 <= at <= heard.len(),
    ensures
        heeds(
            |h: Seq<Reply>| record_share(username, uuid, files_count, total_size, h, at),
            heard,
            at,
        ),
{
    let f = |h: Seq<Reply>| record_share(username, uuid, files_count, total_size, h, at);
    if f(heard) matches FlowView::Stop(NextView::Misheard) {
        if !(heard[at] is Object) {
            assert(strays_flow(f(heard.take(at)), heard[at]));
        } else if !(heard[at + 1] is Time) {
            assert(strays_flow(f(heard.take(at + 1)), heard[at + 1]));
        } else {
            assert(strays_flow(f(heard.take(at + 2)), heard[at + 2]));
        }
    }
}

proof fn lemma_abort_uploads_heeds(
    uploads: Seq<ListedUpload>,
    i: int,
    heard: Seq<Reply>,
    at: int,
)
    requires
        0 <= at <= heard.len(),
    ensures
        heeds(|h: Seq<Reply>| abort_uploads(uploads, i, h, at), heard, at),
    decreases uploads.len() - i,
{
    let f = |h: Seq<Reply>| abort_uploads(uploads, i, h, at);
    if 0 <= i < uploads.len() {
        if uploads[i].key is Some && uploads[i].upload_id is Some {
            if at < heard.len() {
                if settled(heard[at]) {
                    let g = |h: Seq<Reply>| abort_uploads(uploads, i + 1, h, at + 1);
                    lemma_abort_uploads_heeds(uploads, i + 1, heard, at + 1);
                    lemma_goes_on(f, g, heard, at, at + 1);
                } else {
                    assert(strays_flow(f(heard.take(at)), heard[at]));
                }
            }
        } else {
            let g = |h: Seq<Reply>| abort_uploads(uploads, i + 1, h, at);
            lemma_abort_uploads_heeds(uploads, i + 1, heard, at);
            lemma_goes_on(f, g, heard, at, at);
        }
    }
}

proof fn lemma_delete_batches_heeds(
    keys: Seq<Seq<char>>,
    from: int,
    heard: Seq<Reply>,
    at: int,
    wording: Wording,
)
    requires
        0 <= at <= heard.len(),
    ensures
        heeds(|h: Seq<Reply>| delete_batches(keys, from, h, at, wording), heard, at),
    decreases keys.len() - from,
{
    let f = |h: Seq<Reply>| delete_batches(keys, from, h, at, wording);
    if 0 <= from < keys.len() && at < heard.len() {
        let end = batch_end(keys.len() as int, from);
        match heard[at] {
            Reply::Done => {
                let g = |h: Seq<Reply>| delete_batches(keys, end, h, at + 1, wording);
                lemma_delete_batches_heeds(keys, end, heard, at + 1, wording);
                lemma_goes_on(f, g, heard, at, at + 1);
            },
            Reply::Failed(_) => {},
            _ => {
                assert(strays_flow(f(heard.take(at)), heard[at]));
            },
        }
    }
}

proof fn lemma_drop_uploads_heeds(prefix: Seq<char>, heard: Seq<Reply>, at: int)
    requires
        0 <= at <= heard.len(),
    ensures
        heeds(|h: Seq<Reply>| drop_uploads(prefix, h, at), heard, at),
{
    let f = |h: Seq<Reply>| drop_uploads(prefix, h, at);
    if at < heard.len() {
        if let Reply::Uploads(uploads) = heard[at] {
            let g = |h: Seq<Reply>| abort_uploads(uploads@, 0, h, at + 1);
            lemma_abort_uploads_heeds(uploads@, 0, heard, at + 1);
            lemma_goes_on(f, g, heard, at, at + 1);
        } else if f(heard) is Stop {
            assert(strays_flow(f(heard.take(at)), heard[at]));
        }
    }
}

proof fn lemma_remove_objects_heeds(prefix: Seq<char>, heard: Seq<Reply>, at: int)
    requires
        0 <= at <= heard.len(),
    ensures
        heeds(|h: Seq<Reply>| remove_objects(prefix, h, at), heard, at),
{
    let f = |h: Seq<Reply>| remove_objects(prefix, h, at);
    if at < heard.len() {
        if let Reply::Objects(objects) = heard[at] {
            let keys = listed_keys(objects@);
            let g = |h: Seq<Reply>| delete_batches(keys, 0, h, at + 1, Wording::Display);
            lemma_delete_batches_heeds(keys, 0, heard, at + 1, Wording::Display);
            lemma_goes_on(f, g, heard, at, at + 1);
        } else if f(heard) is Stop {
            assert(strays_flow(f(heard.take(at)), heard[at]));
        }
    }
}

proof fn lemma_prefix_deletion_heeds(prefix: Seq<char>, heard: Seq<Reply>, at: int)
    requires
        0 <= at <= heard.len(),
    ensures
        heeds(|h: Seq<Reply>| prefix_deletion(prefix, h, at), heard, at),
{
    let f = |h: Seq<Reply>| drop_uploads(prefix, h, at);
    let both = |h: Seq<Reply>| prefix_deletion(prefix, h, at);
    lemma_drop_uploads_heeds(prefix, heard, at);
    let n = if let FlowView::Go(_, n) = f(heard) {
        lemma_remove_objects_heeds(prefix, heard, n);
        n
    } else {
        at
    };
    let g = |h: Seq<Reply>| remove_objects(prefix, h, n);
    lemma_then(f, g, both, heard, at);
}

proof fn lemma_index_removal_heeds(
    username: Seq<char>,
    uuid: Seq<char>,
    heard: Seq<Reply>,
    at: int,
)
    requires
        0 <= at <= heard.len(),
    ensures
        heeds(|h: Seq<Reply>| index_removal(username, uuid, h, at), heard, at),
{
    let f = |h: Seq<Reply>| index_removal(username, uuid, h, at);
    if f(heard) matches FlowView::Stop(NextView::Misheard) {
        if heard[at] is Object {
            assert(strays_flow(f(heard.take(at + 1)), heard[at + 1]));
        } else {
            assert(strays_flow(f(heard.take(at)), heard[at]));
        }
    }
}

proof fn lemma_share_upload_heeds(
    username: Seq<char>,
    uuid: Seq<char>,
    heard: Seq<Reply>,
    at: int,
)
    requires
        0 <= at <= heard.len(),
    ensures
        heeds(|h: Seq<Reply>| share_upload(username, uuid, h, at), heard, at),
{
    let form = |h: Seq<Reply>| store_form(uuid, Seq::empty(), h, at);
    let both = |h: Seq<Reply>| share_upload(username, uuid, h, at);
    lemma_store_form_heeds(uuid, Seq::empty(), heard, at);
    let (n, ended) = match form(heard) {
        FlowView::Go(ended, n) => (n, ended),
        _ => (at, FormView::Ended(Seq::empty())),
    };
    let rest = |h: Seq<Reply>| after_form(username, uuid, ended, h, n);
    if form(heard) is Go {
        lemma_after_form_heeds(username, uuid, ended, heard, n);
    }
    lemma_then(form, rest, both, heard, at);
}

/// What the upload of a share does after its form.
spec fn after_form(
    username: Seq<char>,
    uuid: Seq<char>,
    form: FormView,
    h: Seq<Reply>,
    at: int,
) -> FlowView<UploadView> {
    match form {
        FormView::Broken { status, message } => FlowView::Go(
            UploadView::Broken { status, message },
            at,
        ),
        FormView::Ended(files) => match files_total(files) {
            None => FlowView::Stop(NextView::Crash),
            Some(total_size) => if files.len() == 0 {
                FlowView::Go(
                    UploadView::Broken { status: 400, message: "No files uploaded"@ },
                    at,
                )
            } else {
                match record_owner(username, uuid, h, at) {
                    FlowView::Stop(n) => FlowView::Stop(n),
                    FlowView::Go(owner, at) => after_owner(
                        username,
                        uuid,
                        files,
                        total_size,
                        owner,
                        h,
                        at,
                    ),
                }
            },
        },
    }
}

/// What the upload of a share does after its owner was recorded.
spec fn after_owner(
    username: Seq<char>,
    uuid: Seq<char>,
    files: Seq<StoredFileView>,
    total_size: int,
    owner: OutcomeView,
    h: Seq<Reply>,
    at: int,
) -> FlowView<UploadView> {
    match owner {
        OutcomeView::Failed(message) => FlowView::Go(
            UploadView::Broken { status: 500, message },
            at,
        ),
        OutcomeView::Done => match record_share(
            username,
            uuid,
            content_count(paths(files)),
            total_size,
            h,
            at,
        ) {
            FlowView::Stop(n) => FlowView::Stop(n),
            FlowView::Go(OutcomeView::Failed(message), at) => FlowView::Go(
                UploadView::Broken { status: 500, message },
                at,
            ),
            FlowView::Go(OutcomeView::Done, at) => FlowView::Go(
                UploadView::Complete(paths(files)),
                at,
            ),
        },
    }
}

proof fn lemma_after_form_heeds(
    username: Seq<char>,
    uuid: Seq<char>,
    form: FormView,
    heard: Seq<Reply>,
    at: int,
)
    requires
        0 <= at <= heard.len(),
    ensures
        heeds(|h: Seq<Reply>| after_form(username, uuid, form, h, at), heard, at),
{
    let both = |h: Seq<Reply>| after_form(username, uuid, form, h, at);
    if let FormView::Ended(files) = form {
        if let Some(total_size) = files_total(files) {
            if files.len() > 0 {
                let f = |h: Seq<Reply>| record_owner(username, uuid, h, at);
                lemma_record_owner_heeds(username, uuid, heard, at);
                let (n, owner) = match f(heard) {
                    FlowView::Go(owner, n) => (n, owner),
                    _ => (at, OutcomeView::Done),
                };
                let g = |h: Seq<Reply>|
                    after_owner(username, uuid, files, total_size, owner, h, n);
                if f(heard) is Go {
                    lemma_after_owner_heeds(username, uuid, files, total_size, owner, heard, n);
                }
                lemma_then(f, g, both, heard, at);
            }
        }
    }
}

proof fn lemma_after_owner_heeds(
    username: Seq<char>,
    uuid: Seq<char>,
    files: Seq<StoredFileView>,
    total_size: int,
    owner: OutcomeView,
    heard: Seq<Reply>,
    at: int,
)
    requires
        0 <= at <= heard.len(),
    ensures
        heeds(
            |h: Seq<Reply>| after_owner(username, uuid, files, total_size, owner, h, at),
            heard,
            at,
        ),
{
    let both = |h: Seq<Reply>| after_owner(username, uuid, files, total_size, owner, h, at);
    if owner is Done {
        let count = content_count(paths(files));
        let f = |h: Seq<Reply>| record_share(username, uuid, count, total_size, h, at);
        lemma_record_share_heeds(username, uuid, count, total_size, heard, at);
        let (n, end) = match f(heard) {
            FlowView::Go(OutcomeView::Done, n) => (n, UploadView::Complete(paths(files))),
            FlowView::Go(OutcomeView::Failed(message), n) => (
                n,
                UploadView::Broken { status: 500, message },
            ),
            _ => (at, UploadView::Complete(paths(files))),
        };
        let g = |h: Seq<Reply>| FlowView::<UploadView>::Go(end, n);
        lemma_then(f, g, both, heard, at);
    }
}

proof fn lemma_profile_picture_heeds(username: Seq<char>, heard: Seq<Reply>, at: int)
    requires
        0 <= at <= heard.len(),
    ensures
        heeds(|h: Seq<Reply>| profile_picture(username, h, at), heard, at),
{
    let f = |h: Seq<Reply>| profile_picture(username, h, at);
    if f(heard) matches FlowView::Stop(NextView::Misheard) {
        assert(strays_flow(f(heard.take(at)), heard[at]));
    }
}

proof fn lemma_picture_removal_heeds(username: Seq<char>, heard: Seq<Reply>, at: int)
    requires
        0 <= at <= heard.len(),
    ensures
        heeds(|h: Seq<Reply>| picture_removal(username, h, at), heard, at),
{
    let f = |h: Seq<Reply>| picture_removal(username, h, at);
    if f(heard) matches FlowView::Stop(NextView::Misheard) {
        if heard[at] is Object {
            assert(strays_flow(f(heard.take(at + 1)), heard[at + 1]));
        } else {
            assert(strays_flow(f(heard.take(at)), heard[at]));
        }
    }
}

proof fn lemma_renew_picture_heeds(
    username: Seq<char>,
    payload: Option<Seq<char>>,
    heard: Seq<Reply>,
    at: int,
)
    requires
        0 <= at <= heard.len(),
    ensures
        heeds(|h: Seq<Reply>| renew_picture(username, payload, h, at), heard, at),
{
    let f = |h: Seq<Reply>| renew_picture(username, payload, h, at);
    if f(heard) matches FlowView::Stop(NextView::Misheard) {
        assert(strays_flow(f(heard.take(at)), heard[at]));
    }
}

proof fn lemma_remove_shares_heeds(ids: Seq<Seq<char>>, i: int, heard: Seq<Reply>, at: int)
    requires
        0 <= at <= heard.len(),
    ensures
        heeds(|h: Seq<Reply>| remove_shares(ids, i, h, at), heard, at),
    decreases ids.len() - i,
{
    let both = |h: Seq<Reply>| remove_shares(ids, i, h, at);
    if 0 <= i < ids.len() {
        let f = |h: Seq<Reply>| prefix_deletion(share_prefix(ids[i]), h, at);
        lemma_prefix_deletion_heeds(share_prefix(ids[i]), heard, at);
        let n = if let FlowView::Go(_, n) = f(heard) {
            lemma_remove_shares_heeds(ids, i + 1, heard, n);
            n
        } else {
            at
        };
        let g = |h: Seq<Reply>| remove_shares(ids, i + 1, h, n);
        lemma_then(f, g, both, heard, at);
    }
}

proof fn lemma_find_files_heeds(
    objects: Seq<S3ListedObject>,
    i: int,
    prefix: Seq<char>,
    found: FoundView,
    heard: Seq<Reply>,
    at: int,
)
    requires
        0 <= at <= heard.len(),
    ensures
        heeds(|h: Seq<Reply>| find_files(objects, i, prefix, found, h, at), heard, at),
    decreases objects.len() - i,
{
    let f = |h: Seq<Reply>| find_files(objects, i, prefix, found, h, at);
    if 0 <= i < objects.len() {
        let skip = |h: Seq<Reply>| find_files(objects, i + 1, prefix, found, h, at);
        if let (Some(key), Some(size), Some(secs)) = (
            objects[i].key,
            objects[i].size,
            objects[i].last_modified_secs,
        ) {
            let name = relative(key@, prefix);
            if is_marker(name) {
                lemma_find_files_heeds(objects, i + 1, prefix, found, heard, at);
                lemma_goes_on(f, skip, heard, at, at);
            } else if in_calendar(secs as int) {
                let more = with_file(found, name, size as int, UtcTime { secs, nanos: 0 });
                let g = |h: Seq<Reply>| find_files(objects, i + 1, prefix, more, h, at);
                lemma_find_files_heeds(objects, i + 1, prefix, more, heard, at);
                lemma_goes_on(f, g, heard, at, at);
            } else if at < heard.len() {
                if let Reply::Time(t) = heard[at] {
                    let more = with_file(found, name, size as int, t);
                    let g = |h: Seq<Reply>| find_files(objects, i + 1, prefix, more, h, at + 1);
                    lemma_find_files_heeds(objects, i + 1, prefix, more, heard, at + 1);
                    lemma_goes_on(f, g, heard, at, at + 1);
                } else {
                    assert(strays_flow(f(heard.take(at)), heard[at]));
                }
            }
        } else {
            lemma_find_files_heeds(objects, i + 1, prefix, found, heard, at);
            lemma_goes_on(f, skip, heard, at, at);
        }
    }
}

proof fn lemma_removal_from_all_heeds(
    objects: Seq<S3ListedObject>,
    i: int,
    uuid: Seq<char>,
    heard: Seq<Reply>,
    at: int,
)
    requires
        0 <= at <= heard.len(),
    ensures
        heeds(|h: Seq<Reply>| removal_from_all(objects, i, uuid, h, at), heard, at),
    decreases objects.len() - i,
{
    let both = |h: Seq<Reply>| removal_from_all(objects, i, uuid, h, at);
    if 0 <= i < objects.len() {
        let owner = match objects[i].key {
            Some(key) => index_owner(key@),
            None => None,
        };
        if let Some(name) = owner {
            let f = |h: Seq<Reply>| index_removal(name, uuid, h, at);
            lemma_index_removal_heeds(name, uuid, heard, at);
            let n = if let FlowView::Go(_, n) = f(heard) {
                lemma_removal_from_all_heeds(objects, i + 1, uuid, heard, n);
                n
            } else {
                at
            };
            let g = |h: Seq<Reply>| removal_from_all(objects, i + 1, uuid, h, n);
            lemma_then(f, g, both, heard, at);
        } else {
            let g = |h: Seq<Reply>| removal_from_all(objects, i + 1, uuid, h, at);
            lemma_removal_from_all_heeds(objects, i + 1, uuid, heard, at);
            lemma_goes_on(both, g, heard, at, at);
        }
    }
}

proof fn lemma_forget_share_heeds(
    owner: Seq<char>,
    uuid: Seq<char>,
    heard: Seq<Reply>,
    at: int,
)
    requires
        0 <= at <= heard.len(),
    ensures
        heeds(|h: Seq<Reply>| forget_share(owner, uuid, h, at), heard, at),
{
    let f = |h: Seq<Reply>| forget_share(owner, uuid, h, at);
    if owner.len() > 0 {
        let g = |h: Seq<Reply>| index_removal(owner, uuid, h, at);
        lemma_index_removal_heeds(owner, uuid, heard, at);
        lemma_goes_on(f, g, heard, at, at);
    } else if at < heard.len() {
        if let Reply::Objects(objects) = heard[at] {
            let g = |h: Seq<Reply>| removal_from_all(objects@, 0, uuid, h, at + 1);
            lemma_removal_from_all_heeds(objects@, 0, uuid, heard, at + 1);
            lemma_goes_on(f, g, heard, at, at + 1);
        } else if f(heard) is Stop {
            assert(strays_flow(f(heard.take(at)), heard[at]));
        }
    }
}

// ---------------------------------------------------------------------------
// Ends of requests
// ---------------------------------------------------------------------------

proof fn lemma_store_picture_heeds(
    username: Seq<char>,
    payload: Seq<char>,
    heard: Seq<Reply>,
    at: int,
)
    requires
        0 <= at <= heard.len(),
    ensures
        heeds_from(|h: Seq<Reply>| store_picture(username, payload, h, at), heard, at),
{
    let f = |h: Seq<Reply>| store_picture(username, payload, h, at);
    if f(heard) is Misheard {
        assert(strays(f(heard.take(at)), heard[at]));
    }
}

proof fn lemma_end_other_sessions_heeds(c: CallerView, heard: Seq<Reply>, at: int)
    requires
        0 <= at <= heard.len(),
    ensures
        heeds_from(|h: Seq<Reply>| end_other_sessions(c, h, at), heard, at),
{
    let f = |h: Seq<Reply>| end_other_sessions(c, h, at);
    if f(heard) is Misheard {
        if heard[at] is Sessions {
            assert(strays(f(heard.take(at + 1)), heard[at + 1]));
        } else {
            assert(strays(f(heard.take(at)), heard[at]));
        }
    }
}

proof fn lemma_renew_password_heeds(
    c: CallerView,
    record: JsonTree,
    req: ChangePasswordRequest,
    heard: Seq<Reply>,
)
    requires
        2 <= heard.len(),
    ensures
        heeds_from(|h: Seq<Reply>| renew_password(c, record, req, h), heard, 2),
{
    let f = |h: Seq<Reply>| renew_password(c, record, req, h);
    if heard.len() > 2 {
        if !(heard[2] is Done || heard[2] is Failed) {
            assert(strays(f(heard.take(2)), heard[2]));
        } else if heard[2] is Done && payload_bytes(req.new_shares_enc@) is Ok && heard.len()
            > 3 {
            if !(heard[3] is Done || heard[3] is Failed) {
                assert(strays(f(heard.take(3)), heard[3]));
            } else if heard[3] is Done {
                let pfp = opt_view(req.new_pfp_enc);
                let p = |h: Seq<Reply>| renew_picture(c.username, pfp, h, 4);
                let both = |h: Seq<Reply>| after_shares(c, pfp, h);
                lemma_renew_picture_heeds(c.username, pfp, heard, 4);
                let n = if let FlowView::Go(_, n) = p(heard) {
                    lemma_end_other_sessions_heeds(c, heard, n);
                    n
                } else {
                    4
                };
                let g = |h: Seq<Reply>| end_other_sessions(c, h, n);
                lemma_ends(p, g, both, heard, 4);
                lemma_ends_as(f, both, heard, 2, 4);
            }
        }
    }
}

/// What changing a password does after the shares were stored.
spec fn after_shares(c: CallerView, pfp: Option<Seq<char>>, h: Seq<Reply>) -> NextView {
    match renew_picture(c.username, pfp, h, 4) {
        FlowView::Stop(n) => n,
        FlowView::Go(_, at) => end_other_sessions(c, h, at),
    }
}

proof fn lemma_account_removal_heeds(username: Seq<char>, heard: Seq<Reply>, at: int)
    requires
        0 <= at <= heard.len(),
    ensures
        heeds_from(|h: Seq<Reply>| account_removal(username, h, at), heard, at),
{
    let f = |h: Seq<Reply>| account_removal(username, h, at);
    if at < heard.len() {
        if let Reply::Object(reply) = heard[at] {
            let ids = indexed_shares(reply);
            let r = |h: Seq<Reply>| remove_shares(ids, 0, h, at + 1);
            let both = |h: Seq<Reply>| after_index(username, ids, h, at + 1);
            lemma_remove_shares_heeds(ids, 0, heard, at + 1);
            let n = if let FlowView::Go(_, n) = r(heard) {
                lemma_remove_record_heeds(username, heard, n);
                n
            } else {
                at + 1
            };
            let g = |h: Seq<Reply>| remove_record(username, h, n);
            lemma_ends(r, g, both, heard, at + 1);
            lemma_ends_as(f, both, heard, at, at + 1);
        } else {
            assert(strays(f(heard.take(at)), heard[at]));
        }
    }
}

/// What removing an account does after its index was read.
spec fn after_index(
    username: Seq<char>,
    ids: Seq<Seq<char>>,
    h: Seq<Reply>,
    at: int,
) -> NextView {
    match remove_shares(ids, 0, h, at) {
        FlowView::Stop(n) => n,
        FlowView::Go(_, at) => remove_record(username, h, at),
    }
}

/// What removing an account does after its shares were removed.
spec fn remove_record(username: Seq<char>, h: Seq<Reply>, at: int) -> NextView {
    if at >= h.len() {
        NextView::Perform(ActionView::Delete { key: user_key(username) })
    } else if !settled(h[at]) {
        NextView::Misheard
    } else {
        match prefix_deletion(user_prefix(username), h, at + 1) {
            FlowView::Stop(n) => n,
            FlowView::Go(_, _) => NextView::Done(AnswerView::Success),
        }
    }
}

proof fn lemma_remove_record_heeds(username: Seq<char>, heard: Seq<Reply>, at: int)
    requires
        0 <= at <= heard.len(),
    ensures
        heeds_from(|h: Seq<Reply>| remove_record(username, h, at), heard, at),
{
    let f = |h: Seq<Reply>| remove_record(username, h, at);
    if at < heard.len() {
        if settled(heard[at]) {
            let prefix = user_prefix(username);
            let d = |h: Seq<Reply>| prefix_deletion(prefix, h, at + 1);
            let both = |h: Seq<Reply>|
                match prefix_deletion(prefix, h, at + 1) {
                    FlowView::Stop(n) => n,
                    FlowView::Go(_, _) => NextView::Done(AnswerView::Success),
                };
            let g = |h: Seq<Reply>| NextView::Done(AnswerView::Success);
            lemma_prefix_deletion_heeds(prefix, heard, at + 1);
            lemma_ends(d, g, both, heard, at + 1);
            lemma_ends_as(f, both, heard, at, at + 1);
        } else {
            assert(strays(f(heard.take(at)), heard[at]));
        }
    }
}

proof fn lemma_begin_session_heeds(
    site: Site,
    headers: Headers,
    name: Seq<char>,
    heard: Seq<Reply>,
)
    requires
        1 <= heard.len(),
    ensures
        heeds_from(|h: Seq<Reply>| begin_session(site, headers, name, h), heard, 1),
{
    let f = |h: Seq<Reply>| begin_session(site, headers, name, h);
    if f(heard) is Misheard {
        if !(heard[1] is Id) {
            assert(strays(f(heard.take(1)), heard[1]));
        } else if !(heard[2] is Time) {
            assert(strays(f(heard.take(2)), heard[2]));
        } else if !(heard[3] is Sessions) {
            assert(strays(f(heard.take(3)), heard[3]));
        } else if !sessions_settled(heard[4]) {
            assert(strays(f(heard.take(4)), heard[4]));
        } else {
            assert(strays(f(heard.take(5)), heard[5]));
        }
    }
}

proof fn lemma_begin_admin_session_heeds(site: Site, headers: Headers, heard: Seq<Reply>)
    ensures
        heeds_from(|h: Seq<Reply>| begin_admin_session(site, headers, h), heard, 0),
{
    let f = |h: Seq<Reply>| begin_admin_session(site, headers, h);
    if f(heard) is Misheard {
        if !(heard[0] is Id) {
            assert(strays(f(heard.take(0)), heard[0]));
        } else if !(heard[1] is Time) {
            assert(strays(f(heard.take(1)), heard[1]));
        } else if !(heard[2] is Sessions) {
            assert(strays(f(heard.take(2)), heard[2]));
        } else {
            assert(strays(f(heard.take(3)), heard[3]));
        }
    }
}

proof fn lemma_list_sessions_heeds(
    key: Seq<char>,
    current: Option<Seq<char>>,
    heard: Seq<Reply>,
    at: int,
)
    requires
        0 <= at <= heard.len(),
    ensures
        heeds_from(|h: Seq<Reply>| list_sessions(key, current, h, at), heard, at),
{
    let f = |h: Seq<Reply>| list_sessions(key, current, h, at);
    if f(heard) is Misheard {
        assert(strays(f(heard.take(at)), heard[at]));
    }
}

proof fn lemma_revoke_session_heeds(
    key: Seq<char>,
    id: Seq<char>,
    heard: Seq<Reply>,
    at: int,
)
    requires
        0 <= at <= heard.len(),
    ensures
        heeds_from(|h: Seq<Reply>| revoke_session(key, id, h, at), heard, at),
{
    let f = |h: Seq<Reply>| revoke_session(key, id, h, at);
    if f(heard) is Misheard {
        if heard[at] is Sessions {
            assert(strays(f(heard.take(at + 1)), heard[at + 1]));
        } else {
            assert(strays(f(heard.take(at)), heard[at]));
        }
    }
}

proof fn lemma_name_session_heeds(
    key: Seq<char>,
    id: Seq<char>,
    name: Seq<char>,
    failure: Seq<char>,
    heard: Seq<Reply>,
    at: int,
)
    requires
        0 <= at <= heard.len(),
    ensures
        heeds_from(|h: Seq<Reply>| name_session(key, id, name, failure, h, at), heard, at),
{
    let f = |h: Seq<Reply>| name_session(key, id, name, failure, h, at);
    if f(heard) is Misheard {
        if heard[at] is Sessions {
            assert(strays(f(heard.take(at + 1)), heard[at + 1]));
        } else {
            assert(strays(f(heard.take(at)), heard[at]));
        }
    }
}

proof fn lemma_user_stats_heeds(
    names: Seq<Seq<char>>,
    i: int,
    said: Seq<UserStatsView>,
    heard: Seq<Reply>,
    at: int,
)
    requires
        0 <= at <= heard.len(),
    ensures
        heeds_from(|h: Seq<Reply>| user_stats(names, i, said, h, at), heard, at),
    decreases names.len() - i,
{
    let f = |h: Seq<Reply>| user_stats(names, i, said, h, at);
    if 0 <= i < names.len() && at < heard.len() {
        if let Reply::Object(reply) = heard[at] {
            if let Some(total_size) = sizes_total(index_entries(reply)) {
                let more = said.push(
                    UserStatsView {
                        username: names[i],
                        total_size,
                        shares: index_entries(reply),
                    },
                );
                let g = |h: Seq<Reply>| user_stats(names, i + 1, more, h, at + 1);
                lemma_user_stats_heeds(names, i + 1, more, heard, at + 1);
                lemma_ends_as(f, g, heard, at, at + 1);
            }
        } else {
            assert(strays(f(heard.take(at)), heard[at]));
        }
    }
}

// ---------------------------------------------------------------------------
// Requests of users
// ---------------------------------------------------------------------------

/// A request of a user is the look at their session and then the rest.
proof fn lemma_user_request(
    site: Site,
    headers: Headers,
    request: Request,
    rest: spec_fn(Seq<Reply>) -> NextView,
    heard: Seq<Reply>,
)
    requires
        for_users(request),
        caller(site, headers, heard) is Go ==> heeds_from(rest, heard, 1) && forall|h: Seq<Reply>|
            caller(site, headers, h) == caller(site, headers, heard) ==> #[trigger] answer_next(
                site,
                headers,
                request,
                h,
            ) == rest(h),
    ensures
        heeds_from(|h: Seq<Reply>| answer_next(site, headers, request, h), heard, 0),
{
    let f = |h: Seq<Reply>| caller(site, headers, h);
    let both = |h: Seq<Reply>| answer_next(site, headers, request, h);
    lemma_caller_heeds(site, headers, heard);
    if f(heard) is Go {
        assert forall|k: int| 1 <= k <= heard.len() implies both(#[trigger] heard.take(k)) == rest(
            heard.take(k),
        ) by {
            assert(f(heard.take(k)) == f(heard));
        }
        lemma_ends_as(both, rest, heard, 0, 1);
    } else if both(heard) is Misheard {
        assert(f(heard) == FlowView::<CallerView>::Stop(NextView::Misheard));
        let j = choose|j: int|
            0 <= j < heard.len() && strays_flow(f(#[trigger] heard.take(j)), heard[j]);
        assert(strays(both(heard.take(j)), heard[j]));
    }
}

/// What an upload in one request does once the share has an id.
spec fn upload_rest(username: Seq<char>, uuid: Seq<char>, h: Seq<Reply>) -> NextView {
    match share_upload(username, uuid, h, 2) {
        FlowView::Stop(n) => n,
        FlowView::Go(upload, at) => upload_end(uuid, upload, h, at),
    }
}

/// What an upload in one request does at its end.
spec fn upload_end(uuid: Seq<char>, upload: UploadView, h: Seq<Reply>, at: int) -> NextView {
    match upload {
        UploadView::Complete(files) => NextView::Done(AnswerView::ShareUploaded { uuid, files }),
        UploadView::Broken { status, message } => match prefix_deletion(
            share_prefix(uuid),
            h,
            at,
        ) {
            FlowView::Stop(n) => n,
            FlowView::Go(_, _) => refused(status, message),
        },
    }
}

proof fn lemma_upload_end_heeds(
    uuid: Seq<char>,
    upload: UploadView,
    heard: Seq<Reply>,
    at: int,
)
    requires
        0 <= at <= heard.len(),
    ensures
        heeds_from(|h: Seq<Reply>| upload_end(uuid, upload, h, at), heard, at),
{
    let both = |h: Seq<Reply>| upload_end(uuid, upload, h, at);
    if let UploadView::Broken { status, message } = upload {
        let f = |h: Seq<Reply>| prefix_deletion(share_prefix(uuid), h, at);
        let g = |h: Seq<Reply>| refused(status, message);
        lemma_prefix_deletion_heeds(share_prefix(uuid), heard, at);
        lemma_ends(f, g, both, heard, at);
    }
}

proof fn lemma_upload_files_heeds(site: Site, headers: Headers, heard: Seq<Reply>)
    ensures
        heeds_from(
            |h: Seq<Reply>| answer_next(site, headers, Request::UploadFiles, h),
            heard,
            0,
        ),
{
    let username = caller(site, headers, heard)->Go_0.username;
    let rest = |h: Seq<Reply>|
        if h.len() <= 1 {
            NextView::Perform(ActionView::FreshId)
        } else {
            match h[1] {
                Reply::Id(uuid) => upload_rest(username, uuid@, h),
                _ => NextView::Misheard,
            }
        };
    if caller(site, headers, heard) is Go && heard.len() > 1 {
        if let Reply::Id(uuid) = heard[1] {
            let f = |h: Seq<Reply>| share_upload(username, uuid@, h, 2);
            let both = |h: Seq<Reply>| upload_rest(username, uuid@, h);
            lemma_share_upload_heeds(username, uuid@, heard, 2);
            let (n, upload) = match f(heard) {
                FlowView::Go(upload, n) => (n, upload),
                _ => (2, UploadView::Complete(Seq::empty())),
            };
            let g = |h: Seq<Reply>| upload_end(uuid@, upload, h, n);
            if f(heard) is Go {
                lemma_upload_end_heeds(uuid@, upload, heard, n);
            }
            lemma_ends(f, g, both, heard, 2);
            lemma_ends_as(rest, both, heard, 1, 2);
        } else {
            assert(strays(rest(heard.take(1)), heard[1]));
        }
    }
    lemma_user_request(site, headers, Request::UploadFiles, rest, heard);
}

/// What storing files of a share does after its form.
spec fn file_end(uuid: Seq<char>, form: FormView, h: Seq<Reply>, at: int) -> NextView {
    match form {
        FormView::Broken { status, message } => refused(status, message),
        FormView::Ended(files) => if at >= h.len() {
            NextView::Perform(
                ActionView::PutInBackground {
                    key: active_key(uuid),
                    content_type: "text/plain"@,
                    body: encode_utf8("active"@),
                },
            )
        } else {
            NextView::Done(AnswerView::FilesStored { files: paths(files) })
        },
    }
}

proof fn lemma_upload_file_heeds(site: Site, headers: Headers, uuid: String, heard: Seq<Reply>)
    ensures
        heeds_from(
            |h: Seq<Reply>| answer_next(site, headers, Request::UploadFile { uuid }, h),
            heard,
            0,
        ),
{
    let f = |h: Seq<Reply>| store_form(uuid@, Seq::empty(), h, 1);
    let rest = |h: Seq<Reply>|
        match store_form(uuid@, Seq::empty(), h, 1) {
            FlowView::Stop(n) => n,
            FlowView::Go(form, at) => file_end(uuid@, form, h, at),
        };
    if caller(site, headers, heard) is Go {
        lemma_store_form_heeds(uuid@, Seq::empty(), heard, 1);
        let (n, form) = match f(heard) {
            FlowView::Go(form, n) => (n, form),
            _ => (1, FormView::Ended(Seq::empty())),
        };
        let g = |h: Seq<Reply>| file_end(uuid@, form, h, n);
        lemma_ends(f, g, rest, heard, 1);
    }
    lemma_user_request(site, headers, Request::UploadFile { uuid }, rest, heard);
}

/// What ending a share does after its owner was recorded.
spec fn finish_rest(
    username: Seq<char>,
    uuid: Seq<char>,
    req: UploadFinishReq,
    owner: OutcomeView,
    h: Seq<Reply>,
) -> NextView {
    match owner {
        OutcomeView::Failed(message) => refused(500, message),
        OutcomeView::Done => if h.len() <= 2 {
            NextView::Perform(ActionView::ListPage { prefix: share_prefix(uuid) })
        } else {
            match objects_heard(h[2]) {
                None => NextView::Misheard,
                Some(objects) => finish_end(username, uuid, req, objects, h),
            }
        },
    }
}

/// What ending a share does after its objects were listed.
spec fn finish_end(
    username: Seq<char>,
    uuid: Seq<char>,
    req: UploadFinishReq,
    objects: Seq<S3ListedObject>,
    h: Seq<Reply>,
) -> NextView {
    match share_size(objects, share_prefix(uuid)) {
        None => NextView::Crash,
        Some(found_size) => {
            let files = share_files(objects, share_prefix(uuid));
            let files_count = match req.files_count {
                Some(n) => n as int,
                None => main_count(files),
            };
            let total_size = match req.total_size {
                Some(n) => n as int,
                None => found_size,
            };
            match record_share(username, uuid, files_count, total_size, h, 3) {
                FlowView::Stop(n) => n,
                FlowView::Go(OutcomeView::Failed(message), _) => refused(500, message),
                FlowView::Go(OutcomeView::Done, _) => NextView::Done(
                    AnswerView::ShareUploaded { uuid, files },
                ),
            }
        },
    }
}

proof fn lemma_finish_end_heeds(
    username: Seq<char>,
    uuid: Seq<char>,
    req: UploadFinishReq,
    objects: Seq<S3ListedObject>,
    heard: Seq<Reply>,
)
    requires
        3 <= heard.len(),
    ensures
        heeds_from(|h: Seq<Reply>| finish_end(username, uuid, req, objects, h), heard, 3),
{
    let both = |h: Seq<Reply>| finish_end(username, uuid, req, objects, h);
    if let Some(found_size) = share_size(objects, share_prefix(uuid)) {
        let files = share_files(objects, share_prefix(uuid));
        let count = match req.files_count {
            Some(n) => n as int,
            None => main_count(files),
        };
        let total = match req.total_size {
            Some(n) => n as int,
            None => found_size,
        };
        let f = |h: Seq<Reply>| record_share(username, uuid, count, total, h, 3);
        lemma_record_share_heeds(username, uuid, count, total, heard, 3);
        let end = match f(heard) {
            FlowView::Go(OutcomeView::Failed(message), _) => refused(500, message),
            _ => NextView::Done(AnswerView::ShareUploaded { uuid, files }),
        };
        let g = |h: Seq<Reply>| end;
        lemma_ends(f, g, both, heard, 3);
    }
}

proof fn lemma_upload_finish_heeds(
    site: Site,
    headers: Headers,
    uuid: String,
    req: UploadFinishReq,
    heard: Seq<Reply>,
)
    ensures
        heeds_from(
            |h: Seq<Reply>| answer_next(site, headers, Request::UploadFinish { uuid, req }, h),
            heard,
            0,
        ),
{
    let username = caller(site, headers, heard)->Go_0.username;
    let f = |h: Seq<Reply>| record_owner(username, uuid@, h, 1);
    let rest = |h: Seq<Reply>|
        match record_owner(username, uuid@, h, 1) {
            FlowView::Stop(n) => n,
            FlowView::Go(owner, _) => finish_rest(username, uuid@, req, owner, h),
        };
    if caller(site, headers, heard) is Go {
        lemma_record_owner_heeds(username, uuid@, heard, 1);
        let owner = match f(heard) {
            FlowView::Go(owner, _) => owner,
            _ => OutcomeView::Done,
        };
        let g = |h: Seq<Reply>| finish_rest(username, uuid@, req, owner, h);
        if f(heard) is Go && owner is Done && heard.len() > 2 {
            if let Some(objects) = objects_heard(heard[2]) {
                let end = |h: Seq<Reply>| finish_end(username, uuid@, req, objects, h);
                lemma_finish_end_heeds(username, uuid@, req, objects, heard);
                lemma_ends_as(g, end, heard, 2, 3);
            } else {
                assert(strays(g(heard.take(2)), heard[2]));
            }
        }
        lemma_ends(f, g, rest, heard, 1);
    }
    lemma_user_request(site, headers, Request::UploadFinish { uuid, req }, rest, heard);
}

proof fn lemma_upload_abort_heeds(site: Site, headers: Headers, uuid: String, heard: Seq<Reply>)
    ensures
        heeds_from(
            |h: Seq<Reply>| answer_next(site, headers, Request::UploadAbort { uuid }, h),
            heard,
            0,
        ),
{
    let prefix = share_prefix(uuid@);
    let f = |h: Seq<Reply>| prefix_deletion(prefix, h, 1);
    let rest = |h: Seq<Reply>|
        match prefix_deletion(prefix, h, 1) {
            FlowView::Stop(n) => n,
            FlowView::Go(OutcomeView::Failed(message), _) => refused(500, message),
            FlowView::Go(OutcomeView::Done, _) => NextView::Done(
                AnswerView::Status { status: "aborted"@ },
            ),
        };
    if caller(site, headers, heard) is Go {
        lemma_prefix_deletion_heeds(prefix, heard, 1);
        let end = match f(heard) {
            FlowView::Go(OutcomeView::Failed(message), _) => refused(500, message),
            _ => NextView::Done(AnswerView::Status { status: "aborted"@ }),
        };
        let g = |h: Seq<Reply>| end;
        lemma_ends(f, g, rest, heard, 1);
    }
    lemma_user_request(site, headers, Request::UploadAbort { uuid }, rest, heard);
}

/// What removing a share does once its owner is known.
spec fn delete_rest(username: Seq<char>, uuid: Seq<char>, h: Seq<Reply>) -> NextView {
    match prefix_deletion(share_prefix(uuid), h, 2) {
        FlowView::Stop(n) => n,
        FlowView::Go(removed, at) => delete_end(username, uuid, removed, h, at),
    }
}

/// What removing a share does once its objects are removed.
spec fn delete_end(
    username: Seq<char>,
    uuid: Seq<char>,
    removed: OutcomeView,
    h: Seq<Reply>,
    at: int,
) -> NextView {
    match removed {
        OutcomeView::Failed(message) => refused(500, message),
        OutcomeView::Done => match index_removal(username, uuid, h, at) {
            FlowView::Stop(n) => n,
            FlowView::Go(_, _) => NextView::Done(AnswerView::Status { status: "deleted"@ }),
        },
    }
}

proof fn lemma_delete_rest_heeds(username: Seq<char>, uuid: Seq<char>, heard: Seq<Reply>)
    requires
        2 <= heard.len(),
    ensures
        heeds_from(|h: Seq<Reply>| delete_rest(username, uuid, h), heard, 2),
{
    let f = |h: Seq<Reply>| prefix_deletion(share_prefix(uuid), h, 2);
    let both = |h: Seq<Reply>| delete_rest(username, uuid, h);
    lemma_prefix_deletion_heeds(share_prefix(uuid), heard, 2);
    let (n, removed) = match f(heard) {
        FlowView::Go(removed, n) => (n, removed),
        _ => (2, OutcomeView::Done),
    };
    let g = |h: Seq<Reply>| delete_end(username, uuid, removed, h, n);
    if f(heard) is Go && removed is Done {
        let i = |h: Seq<Reply>| index_removal(username, uuid, h, n);
        let end = |h: Seq<Reply>| NextView::Done(AnswerView::Status { status: "deleted"@ });
        lemma_index_removal_heeds(username, uuid, heard, n);
        lemma_ends(i, end, g, heard, n);
    }
    lemma_ends(f, g, both, heard, 2);
}

proof fn lemma_delete_share_heeds(site: Site, headers: Headers, uuid: String, heard: Seq<Reply>)
    ensures
        heeds_from(
            |h: Seq<Reply>| answer_next(site, headers, Request::DeleteShare { uuid }, h),
            heard,
            0,
        ),
{
    let username = caller(site, headers, heard)->Go_0.username;
    let rest = |h: Seq<Reply>|
        if h.len() <= 1 {
            NextView::Perform(ActionView::Get { key: share_key(uuid@, "owner.txt"@) })
        } else {
            match h[1] {
                Reply::Object(ObjectReply::Absent) => refused(403, "Cannot verify ownership"@),
                Reply::Object(ObjectReply::BodyFailed(_)) => refused(
                    403,
                    "Share has no valid owner recorded"@,
                ),
                Reply::Object(ObjectReply::Bytes(b)) => if recorded_owner(b@) != username {
                    refused(403, "You do not own this share"@)
                } else {
                    delete_rest(username, uuid@, h)
                },
                _ => NextView::Misheard,
            }
        };
    if caller(site, headers, heard) is Go && heard.len() > 1 {
        if let Reply::Object(reply) = heard[1] {
            if let ObjectReply::Bytes(b) = reply {
                if recorded_owner(b@) == username {
                    let g = |h: Seq<Reply>| delete_rest(username, uuid@, h);
                    lemma_delete_rest_heeds(username, uuid@, heard);
                    lemma_ends_as(rest, g, heard, 1, 2);
                }
            }
        } else {
            assert(strays(rest(heard.take(1)), heard[1]));
        }
    }
    lemma_user_request(site, headers, Request::DeleteShare { uuid }, rest, heard);
}

proof fn lemma_get_profile_heeds(site: Site, headers: Headers, heard: Seq<Reply>)
    ensures
        heeds_from(|h: Seq<Reply>| answer_next(site, headers, Request::GetProfile, h), heard, 0),
{
    let username = caller(site, headers, heard)->Go_0.username;
    let f = |h: Seq<Reply>| profile_picture(username, h, 1);
    let rest = |h: Seq<Reply>|
        match profile_picture(username, h, 1) {
            FlowView::Stop(n) => n,
            FlowView::Go(pfp_enc, _) => NextView::Done(AnswerView::Profile { username, pfp_enc }),
        };
    if caller(site, headers, heard) is Go {
        lemma_profile_picture_heeds(username, heard, 1);
        let end = rest(heard);
        let g = |h: Seq<Reply>| end;
        lemma_ends(f, g, rest, heard, 1);
    }
    lemma_user_request(site, headers, Request::GetProfile, rest, heard);
}

proof fn lemma_save_profile_heeds(
    site: Site,
    headers: Headers,
    pfp_enc: String,
    pfp: String,
    heard: Seq<Reply>,
)
    ensures
        heeds_from(
            |h: Seq<Reply>| answer_next(site, headers, Request::SaveProfile { pfp_enc, pfp }, h),
            heard,
            0,
        ),
{
    let username = caller(site, headers, heard)->Go_0.username;
    let payload = if pfp_enc@.len() > 0 {
        pfp_enc@
    } else {
        pfp@
    };
    let f = |h: Seq<Reply>| picture_removal(username, h, 1);
    let rest = |h: Seq<Reply>|
        match picture_removal(username, h, 1) {
            FlowView::Stop(n) => n,
            FlowView::Go(_, at) => store_picture(username, payload, h, at),
        };
    if caller(site, headers, heard) is Go {
        lemma_picture_removal_heeds(username, heard, 1);
        let n = if let FlowView::Go(_, n) = f(heard) {
            lemma_store_picture_heeds(username, payload, heard, n);
            n
        } else {
            1
        };
        let g = |h: Seq<Reply>| store_picture(username, payload, h, n);
        lemma_ends(f, g, rest, heard, 1);
    }
    lemma_user_request(site, headers, Request::SaveProfile { pfp_enc, pfp }, rest, heard);
}

proof fn lemma_change_password_heeds(
    site: Site,
    headers: Headers,
    req: ChangePasswordRequest,
    heard: Seq<Reply>,
)
    ensures
        heeds_from(
            |h: Seq<Reply>| answer_next(site, headers, Request::ChangePassword { req }, h),
            heard,
            0,
        ),
{
    let c = caller(site, headers, heard)->Go_0;
    let rest = |h: Seq<Reply>|
        if h.len() <= 1 {
            NextView::Perform(ActionView::Get { key: user_key(c.username) })
        } else {
            match user_heard(h[1], 404, "User profile not found"@) {
                Err(n) => n,
                Ok(record) => match password_check(
                    record,
                    req.current_auth_key@,
                    "Incorrect current password"@,
                ) {
                    Some(n) => n,
                    None => renew_password(c, record, req, h),
                },
            }
        };
    if caller(site, headers, heard) is Go && heard.len() > 1 {
        if heard[1] is Object {
            if let Ok(record) = user_heard(heard[1], 404, "User profile not found"@) {
                if password_check(
                    record,
                    req.current_auth_key@,
                    "Incorrect current password"@,
                ) is None {
                    let g = |h: Seq<Reply>| renew_password(c, record, req, h);
                    lemma_renew_password_heeds(c, record, req, heard);
                    lemma_ends_as(rest, g, heard, 1, 2);
                }
            }
        } else {
            assert(strays(rest(heard.take(1)), heard[1]));
        }
    }
    lemma_user_request(site, headers, Request::ChangePassword { req }, rest, heard);
}

proof fn lemma_delete_account_heeds(site: Site, headers: Headers, heard: Seq<Reply>)
    ensures
        heeds_from(
            |h: Seq<Reply>| answer_next(site, headers, Request::DeleteAccount, h),
            heard,
            0,
        ),
{
    let username = caller(site, headers, heard)->Go_0.username;
    let rest = |h: Seq<Reply>| account_removal(username, h, 1);
    if caller(site, headers, heard) is Go {
        lemma_account_removal_heeds(username, heard, 1);
    }
    lemma_user_request(site, headers, Request::DeleteAccount, rest, heard);
}

proof fn lemma_own_sessions_heed(
    site: Site,
    headers: Headers,
    session_id: String,
    name: String,
    heard: Seq<Reply>,
)
    ensures
        heeds_from(|h: Seq<Reply>| answer_next(site, headers, Request::GetSessions, h), heard, 0),
        heeds_from(
            |h: Seq<Reply>| answer_next(site, headers, Request::RevokeSession { session_id }, h),
            heard,
            0,
        ),
        heeds_from(
            |h: Seq<Reply>|
                answer_next(site, headers, Request::RenameSession { session_id, name }, h),
            heard,
            0,
        ),
{
    let c = caller(site, headers, heard)->Go_0;
    let key = sessions_key(c.username);
    let failure = "Failed to update session: "@;
    let a = |h: Seq<Reply>| list_sessions(key, Some(c.session_id), h, 1);
    let b = |h: Seq<Reply>| revoke_session(key, session_id@, h, 1);
    let d = |h: Seq<Reply>| name_session(key, session_id@, name@, failure, h, 1);
    if caller(site, headers, heard) is Go {
        lemma_list_sessions_heeds(key, Some(c.session_id), heard, 1);
        lemma_revoke_session_heeds(key, session_id@, heard, 1);
        lemma_name_session_heeds(key, session_id@, name@, failure, heard, 1);
    }
    lemma_user_request(site, headers, Request::GetSessions, a, heard);
    lemma_user_request(site, headers, Request::RevokeSession { session_id }, b, heard);
    lemma_user_request(site, headers, Request::RenameSession { session_id, name }, d, heard);
}

// ---------------------------------------------------------------------------
// Requests of the administrator
// ---------------------------------------------------------------------------

/// A request of the administrator is the look at who asks and then the rest.
proof fn lemma_admin_request(
    site: Site,
    headers: Headers,
    request: Request,
    rest: spec_fn(Seq<Reply>) -> NextView,
    heard: Seq<Reply>,
)
    requires
        for_admin(request),
        admin(site, headers, heard) matches FlowView::Go(_, n) ==> heeds_from(rest, heard, n)
            && forall|h: Seq<Reply>|
            admin(site, headers, h) == admin(site, headers, heard) ==> #[trigger] answer_next(
                site,
                headers,
                request,
                h,
            ) == rest(h),
    ensures
        heeds_from(|h: Seq<Reply>| answer_next(site, headers, request, h), heard, 0),
{
    let f = |h: Seq<Reply>| admin(site, headers, h);
    let both = |h: Seq<Reply>| answer_next(site, headers, request, h);
    lemma_admin_heeds(site, headers, heard);
    if let FlowView::Go(_, n) = f(heard) {
        assert forall|k: int| n <= k <= heard.len() implies both(#[trigger] heard.take(k)) == rest(
            heard.take(k),
        ) by {
            assert(f(heard.take(k)) == f(heard));
        }
        lemma_ends_as(both, rest, heard, 0, n);
    } else if both(heard) is Misheard {
        assert(f(heard) == FlowView::<()>::Stop(NextView::Misheard));
        let j = choose|j: int|
            0 <= j < heard.len() && strays_flow(f(#[trigger] heard.take(j)), heard[j]);
        assert(strays(both(heard.take(j)), heard[j]));
    }
}

proof fn lemma_admin_stats_heeds(site: Site, headers: Headers, heard: Seq<Reply>)
    ensures
        heeds_from(|h: Seq<Reply>| answer_next(site, headers, Request::AdminStats, h), heard, 0),
{
    let at = admin(site, headers, heard)->Go_1;
    let rest = |h: Seq<Reply>|
        if at >= h.len() {
            NextView::Perform(ActionView::ListAll { prefix: "users/"@ })
        } else {
            match h[at] {
                Reply::Objects(objects) => user_stats(
                    account_names(objects@),
                    0,
                    Seq::empty(),
                    h,
                    at + 1,
                ),
                Reply::Failed(e) => refused(500, e.display@),
                _ => NextView::Misheard,
            }
        };
    lemma_admin_heeds(site, headers, heard);
    if admin(site, headers, heard) is Go && at < heard.len() {
        if let Reply::Objects(objects) = heard[at] {
            let names = account_names(objects@);
            let g = |h: Seq<Reply>| user_stats(names, 0, Seq::empty(), h, at + 1);
            lemma_user_stats_heeds(names, 0, Seq::empty(), heard, at + 1);
            lemma_ends_as(rest, g, heard, at, at + 1);
        } else if rest(heard) is Misheard {
            assert(strays(rest(heard.take(at)), heard[at]));
        }
    }
    lemma_admin_request(site, headers, Request::AdminStats, rest, heard);
}

/// What removing a share for the administrator does once its objects are removed.
spec fn admin_delete_end(
    owner: Seq<char>,
    uuid: Seq<char>,
    removed: OutcomeView,
    h: Seq<Reply>,
    at: int,
) -> NextView {
    match removed {
        OutcomeView::Failed(message) => refused(500, message),
        OutcomeView::Done => match forget_share(owner, uuid, h, at) {
            FlowView::Stop(n) => n,
            FlowView::Go(_, _) => NextView::Done(AnswerView::Success),
        },
    }
}

/// What removing a share for the administrator does once its owner was looked up.
spec fn admin_delete_rest(
    owner: Seq<char>,
    uuid: Seq<char>,
    h: Seq<Reply>,
    at: int,
) -> NextView {
    match prefix_deletion(share_prefix(uuid), h, at) {
        FlowView::Stop(n) => n,
        FlowView::Go(removed, at) => admin_delete_end(owner, uuid, removed, h, at),
    }
}

proof fn lemma_admin_delete_rest_heeds(
    owner: Seq<char>,
    uuid: Seq<char>,
    heard: Seq<Reply>,
    at: int,
)
    requires
        0 <= at <= heard.len(),
    ensures
        heeds_from(|h: Seq<Reply>| admin_delete_rest(owner, uuid, h, at), heard, at),
{
    let f = |h: Seq<Reply>| prefix_deletion(share_prefix(uuid), h, at);
    let both = |h: Seq<Reply>| admin_delete_rest(owner, uuid, h, at);
    lemma_prefix_deletion_heeds(share_prefix(uuid), heard, at);
    let (n, removed) = match f(heard) {
        FlowView::Go(removed, n) => (n, removed),
        _ => (at, OutcomeView::Done),
    };
    let g = |h: Seq<Reply>| admin_delete_end(owner, uuid, removed, h, n);
    if f(heard) is Go && removed is Done {
        let i = |h: Seq<Reply>| forget_share(owner, uuid, h, n);
        let end = |h: Seq<Reply>| NextView::Done(AnswerView::Success);
        lemma_forget_share_heeds(owner, uuid, heard, n);
        lemma_ends(i, end, g, heard, n);
    }
    lemma_ends(f, g, both, heard, at);
}

proof fn lemma_admin_delete_share_heeds(
    site: Site,
    headers: Headers,
    uuid: String,
    heard: Seq<Reply>,
)
    ensures
        heeds_from(
            |h: Seq<Reply>| answer_next(site, headers, Request::AdminDeleteShare { uuid }, h),
            heard,
            0,
        ),
{
    let at = admin(site, headers, heard)->Go_1;
    let rest = |h: Seq<Reply>|
        if at >= h.len() {
            NextView::Perform(ActionView::Get { key: share_key(uuid@, "owner.txt"@) })
        } else {
            match h[at] {
                Reply::Object(reply) => admin_delete_rest(owner_heard(reply), uuid@, h, at + 1),
                _ => NextView::Misheard,
            }
        };
    lemma_admin_heeds(site, headers, heard);
    if admin(site, headers, heard) is Go && at < heard.len() {
        if let Reply::Object(reply) = heard[at] {
            let owner = owner_heard(reply);
            let g = |h: Seq<Reply>| admin_delete_rest(owner, uuid@, h, at + 1);
            lemma_admin_delete_rest_heeds(owner, uuid@, heard, at + 1);
            lemma_ends_as(rest, g, heard, at, at + 1);
        } else {
            assert(strays(rest(heard.take(at)), heard[at]));
        }
    }
    lemma_admin_request(site, headers, Request::AdminDeleteShare { uuid }, rest, heard);
}

proof fn lemma_admin_delete_user_heeds(
    site: Site,
    headers: Headers,
    username: String,
    heard: Seq<Reply>,
)
    ensures
        heeds_from(
            |h: Seq<Reply>| answer_next(site, headers, Request::AdminDeleteUser { username }, h),
            heard,
            0,
        ),
{
    let at = admin(site, headers, heard)->Go_1;
    let name = trimmed(username@);
    let rest = |h: Seq<Reply>|
        if name.len() == 0 {
            refused(400, "Username is empty"@)
        } else {
            account_removal(name, h, at)
        };
    lemma_admin_heeds(site, headers, heard);
    if admin(site, headers, heard) is Go && name.len() > 0 {
        let g = |h: Seq<Reply>| account_removal(name, h, at);
        lemma_account_removal_heeds(name, heard, at);
        lemma_ends_as(rest, g, heard, at, at);
    }
    lemma_admin_request(site, headers, Request::AdminDeleteUser { username }, rest, heard);
}

proof fn lemma_admin_sessions_heed(
    site: Site,
    headers: Headers,
    username: String,
    session_id: String,
    name: String,
    heard: Seq<Reply>,
)
    ensures
        heeds_from(
            |h: Seq<Reply>| answer_next(site, headers, Request::AdminUserSessions { username }, h),
            heard,
            0,
        ),
        heeds_from(
            |h: Seq<Reply>|
                answer_next(
                    site,
                    headers,
                    Request::AdminRevokeUserSession { username, session_id },
                    h,
                ),
            heard,
            0,
        ),
        heeds_from(
            |h: Seq<Reply>| answer_next(site, headers, Request::AdminSessions, h),
            heard,
            0,
        ),
        heeds_from(
            |h: Seq<Reply>|
                answer_next(site, headers, Request::AdminRevokeSession { session_id }, h),
            heard,
            0,
        ),
        heeds_from(
            |h: Seq<Reply>|
                answer_next(site, headers, Request::AdminRenameSession { session_id, name }, h),
            heard,
            0,
        ),
{
    let at = admin(site, headers, heard)->Go_1;
    let theirs = sessions_key(username@);
    let own = "admin/sessions.json"@;
    let failure = "Failed to update admin session: "@;
    let current = admin_session(site, headers);
    let a = |h: Seq<Reply>| list_sessions(theirs, None, h, at);
    let b = |h: Seq<Reply>| revoke_session(theirs, session_id@, h, at);
    let c = |h: Seq<Reply>|
        if at < h.len() && admin_token_cut(headers) {
            NextView::Crash
        } else {
            list_sessions(own, current, h, at)
        };
    let d = |h: Seq<Reply>| revoke_session(own, session_id@, h, at);
    let e = |h: Seq<Reply>| name_session(own, session_id@, name@, failure, h, at);
    lemma_admin_heeds(site, headers, heard);
    if admin(site, headers, heard) is Go {
        lemma_list_sessions_heeds(theirs, None, heard, at);
        lemma_revoke_session_heeds(theirs, session_id@, heard, at);
        lemma_revoke_session_heeds(own, session_id@, heard, at);
        lemma_name_session_heeds(own, session_id@, name@, failure, heard, at);
        if c(heard) is Misheard {
            assert(strays(c(heard.take(at)), heard[at]));
        }
    }
    lemma_admin_request(site, headers, Request::AdminUserSessions { username }, a, heard);
    lemma_admin_request(
        site,
        headers,
        Request::AdminRevokeUserSession { username, session_id },
        b,
        heard,
    );
    lemma_admin_request(site, headers, Request::AdminSessions, c, heard);
    lemma_admin_request(site, headers, Request::AdminRevokeSession { session_id }, d, heard);
    lemma_admin_request(site, headers, Request::AdminRenameSession { session_id, name }, e, heard);
}

// ---------------------------------------------------------------------------
// Requests of anyone
// ---------------------------------------------------------------------------

/// What looking at a share does once its files are found.
spec fn share_end(uuid: Seq<char>, found: FoundView, h: Seq<Reply>, at: int) -> NextView {
    match found.latest {
        None => refused(404, "Share not found or expired"@),
        Some(t) => if at >= h.len() {
            NextView::Perform(ActionView::Get { key: share_key(uuid, "owner.txt"@) })
        } else {
            match h[at] {
                Reply::Object(reply) => if in_calendar(t.secs + SHARE_SECONDS) {
                    NextView::Done(
                        AnswerView::Share {
                            uuid,
                            upload_time: t,
                            expires_at: UtcTime {
                                secs: (t.secs + SHARE_SECONDS) as i64,
                                nanos: t.nanos,
                            },
                            files: found.files,
                            owner: owner_heard(reply),
                        },
                    )
                } else {
                    NextView::Crash
                },
                _ => NextView::Misheard,
            }
        },
    }
}

proof fn lemma_get_share_heeds(site: Site, headers: Headers, uuid: String, heard: Seq<Reply>)
    ensures
        heeds_from(
            |h: Seq<Reply>| answer_next(site, headers, Request::GetShare { uuid }, h),
            heard,
            0,
        ),
{
    let both = |h: Seq<Reply>| answer_next(site, headers, Request::GetShare { uuid }, h);
    if heard.len() > 0 {
        if let Reply::Objects(objects) = heard[0] {
            let prefix = share_prefix(uuid@);
            let none = FoundView { files: Seq::empty(), latest: None };
            let f = |h: Seq<Reply>| find_files(objects@, 0, prefix, none, h, 1);
            let rest = |h: Seq<Reply>|
                match find_files(objects@, 0, prefix, none, h, 1) {
                    FlowView::Stop(n) => n,
                    FlowView::Go(found, at) => share_end(uuid@, found, h, at),
                };
            lemma_find_files_heeds(objects@, 0, prefix, none, heard, 1);
            let (n, found) = match f(heard) {
                FlowView::Go(found, n) => (n, found),
                _ => (1, none),
            };
            let g = |h: Seq<Reply>| share_end(uuid@, found, h, n);
            if g(heard) is Misheard && f(heard) is Go {
                assert(strays(g(heard.take(n)), heard[n]));
            }
            lemma_ends(f, g, rest, heard, 1);
            lemma_ends_as(both, rest, heard, 0, 1);
        } else if both(heard) is Misheard {
            assert(strays(both(heard.take(0)), heard[0]));
        }
    }
}

proof fn lemma_login_heeds(
    site: Site,
    headers: Headers,
    username: String,
    auth_key: String,
    heard: Seq<Reply>,
)
    ensures
        heeds_from(
            |h: Seq<Reply>| answer_next(site, headers, Request::Login { username, auth_key }, h),
            heard,
            0,
        ),
{
    let both = |h: Seq<Reply>|
        answer_next(site, headers, Request::Login { username, auth_key }, h);
    let wrong = "Invalid username or password"@;
    if heard.len() > 0 {
        if heard[0] is Object {
            if let Ok(record) = user_heard(heard[0], 401, wrong) {
                if password_check(record, auth_key@, wrong) is None {
                    let name = trimmed(username@);
                    let g = |h: Seq<Reply>| begin_session(site, headers, name, h);
                    lemma_begin_session_heeds(site, headers, name, heard);
                    lemma_ends_as(both, g, heard, 0, 1);
                }
            }
        } else {
            assert(strays(both(heard.take(0)), heard[0]));
        }
    }
}

/// The requests that ask for few things, one after the other.
proof fn lemma_short_requests_heed(
    site: Site,
    headers: Headers,
    request: Request,
    heard: Seq<Reply>,
)
    requires
        match request {
            Request::UploadInit => true,
            Request::UploadPing { .. } => true,
            Request::MultipartInit { .. } => true,
            Request::MultipartPart { .. } => true,
            Request::MultipartComplete { .. } => true,
            Request::Download { .. } => true,
            Request::Register { .. } => true,
            Request::GetShares => true,
            Request::SaveShares { .. } => true,
            Request::AdminLogin => true,
            _ => false,
        },
    ensures
        heeds_from(|h: Seq<Reply>| answer_next(site, headers, request, h), heard, 0),
{
    let f = |h: Seq<Reply>| answer_next(site, headers, request, h);
    if f(heard) is Misheard {
        if let Request::AdminLogin = request {
            lemma_begin_admin_session_heeds(site, headers, heard);
            let g = |h: Seq<Reply>| begin_admin_session(site, headers, h);
            let j = choose|j: int|
                0 <= j < heard.len() && strays(g(#[trigger] heard.take(j)), heard[j]);
            assert(strays(f(heard.take(j)), heard[j]));
        } else if strays(f(heard.take(0)), heard[0]) {
        } else if strays(f(heard.take(1)), heard[1]) {
        } else {
            assert(strays(f(heard.take(2)), heard[2]));
        }
    }
}

// ---------------------------------------------------------------------------
// The law
// ---------------------------------------------------------------------------

/// Whether each reply of a history fits what the request asked for when it heard it.
pub open spec fn fitting(
    site: Site,
    headers: Headers,
    request: Request,
    heard: Seq<Reply>,
) -> bool {
    forall|j: int|
        0 <= j < heard.len() ==> (answer_next(
            site,
            headers,
            request,
            #[trigger] heard.take(j),
        ) matches NextView::Perform(a) && fits(a, heard[j]))
}

/// A request that is at a loss has heard a reply that did not fit.
proof fn lemma_requests_heed(site: Site, headers: Headers, request: Request, heard: Seq<Reply>)
    ensures
        heeds_from(|h: Seq<Reply>| answer_next(site, headers, request, h), heard, 0),
{
    match request {
        Request::UploadFiles => lemma_upload_files_heeds(site, headers, heard),
        Request::UploadFile { uuid } => lemma_upload_file_heeds(site, headers, uuid, heard),
        Request::UploadFinish { uuid, req } => lemma_upload_finish_heeds(
            site,
            headers,
            uuid,
            req,
            heard,
        ),
        Request::UploadAbort { uuid } => lemma_upload_abort_heeds(site, headers, uuid, heard),
        Request::GetShare { uuid } => lemma_get_share_heeds(site, headers, uuid, heard),
        Request::DeleteShare { uuid } => lemma_delete_share_heeds(site, headers, uuid, heard),
        Request::Login { username, auth_key } => lemma_login_heeds(
            site,
            headers,
            username,
            auth_key,
            heard,
        ),
        Request::GetProfile => lemma_get_profile_heeds(site, headers, heard),
        Request::SaveProfile { pfp_enc, pfp } => lemma_save_profile_heeds(
            site,
            headers,
            pfp_enc,
            pfp,
            heard,
        ),
        Request::ChangePassword { req } => lemma_change_password_heeds(site, headers, req, heard),
        Request::DeleteAccount => lemma_delete_account_heeds(site, headers, heard),
        Request::GetSessions => {
            let any = arbitrary();
            lemma_own_sessions_heed(site, headers, any, any, heard);
        },
        Request::RevokeSession { session_id } => lemma_own_sessions_heed(
            site,
            headers,
            session_id,
            session_id,
            heard,
        ),
        Request::RenameSession { session_id, name } => lemma_own_sessions_heed(
            site,
            headers,
            session_id,
            name,
            heard,
        ),
        Request::AdminStats => lemma_admin_stats_heeds(site, headers, heard),
        Request::AdminDeleteShare { uuid } => lemma_admin_delete_share_heeds(
            site,
            headers,
            uuid,
            heard,
        ),
        Request::AdminDeleteUser { username } => lemma_admin_delete_user_heeds(
            site,
            headers,
            username,
            heard,
        ),
        Request::AdminUserSessions { username } => lemma_admin_sessions_heed(
            site,
            headers,
            username,
            username,
            username,
            heard,
        ),
        Request::AdminRevokeUserSession { username, session_id } => lemma_admin_sessions_heed(
            site,
            headers,
            username,
            session_id,
            username,
            heard,
        ),
        Request::AdminSessions => {
            let any = arbitrary();
            lemma_admin_sessions_heed(site, headers, any, any, any, heard);
        },
        Request::AdminRevokeSession { session_id } => lemma_admin_sessions_heed(
            site,
            headers,
            session_id,
            session_id,
            session_id,
            heard,
        ),
        Request::AdminRenameSession { session_id, name } => lemma_admin_sessions_heed(
            site,
            headers,
            name,
            session_id,
            name,
            heard,
        ),
        _ => lemma_short_requests_heed(site, headers, request, heard),
    }
}

/// A request whose every reply fits what it asked for is never at a loss.
pub proof fn fitting_replies_are_understood(
    site: Site,
    headers: Headers,
    request: Request,
    heard: Seq<Reply>,
)
    requires
        fitting(site, headers, request, heard),
    ensures
        !(answer_next(site, headers, request, heard) is Misheard),
{
    lemma_requests_heed(site, headers, request, heard);
    let f = |h: Seq<Reply>| answer_next(site, headers, request, h);
    if f(heard) is Misheard {
        let j = choose|j: int|
            0 <= j < heard.len() && strays(f(#[trigger] heard.take(j)), heard[j]);
        assert(answer_next(site, headers, request, heard.take(j)) is Perform);
    }
}

// ---------------------------------------------------------------------------
// The sweep and the start
// ---------------------------------------------------------------------------

proof fn lemma_abort_old_uploads_heeds(
    uploads: Seq<ListedUpload>,
    i: int,
    now: int,
    limit: int,
    heard: Seq<Reply>,
    at: int,
)
    requires
        0 <= at <= heard.len(),
    ensures
        heeds(|h: Seq<Reply>| abort_old_uploads(uploads, i, now, limit, h, at), heard, at),
    decreases uploads.len() - i,
{
    let f = |h: Seq<Reply>| abort_old_uploads(uploads, i, now, limit, h, at);
    if 0 <= i < uploads.len() {
        let skip = |h: Seq<Reply>| abort_old_uploads(uploads, i + 1, now, limit, h, at);
        let g = |h: Seq<Reply>| abort_old_uploads(uploads, i + 1, now, limit, h, at + 1);
        if let (Some(_), Some(_), Some(begun)) = (
            uploads[i].key,
            uploads[i].upload_id,
            uploads[i].initiated_secs,
        ) {
            if i64::MIN <= now - begun <= i64::MAX {
                if now - begun <= limit {
                    lemma_abort_old_uploads_heeds(uploads, i + 1, now, limit, heard, at);
                    lemma_goes_on(f, skip, heard, at, at);
                } else if at < heard.len() {
                    if settled(heard[at]) {
                        lemma_abort_old_uploads_heeds(uploads, i + 1, now, limit, heard, at + 1);
                        lemma_goes_on(f, g, heard, at, at + 1);
                    } else {
                        assert(strays_flow(f(heard.take(at)), heard[at]));
                    }
                }
            }
        } else {
            lemma_abort_old_uploads_heeds(uploads, i + 1, now, limit, heard, at);
            lemma_goes_on(f, skip, heard, at, at);
        }
    }
}

proof fn lemma_drop_old_uploads_heeds(now: int, limits: Limits, heard: Seq<Reply>, at: int)
    requires
        0 <= at <= heard.len(),
    ensures
        heeds(|h: Seq<Reply>| drop_old_uploads(now, limits, h, at), heard, at),
{
    let f = |h: Seq<Reply>| drop_old_uploads(now, limits, h, at);
    if at < heard.len() {
        if let Reply::Uploads(uploads) = heard[at] {
            let limit = limits.partial as int;
            let g = |h: Seq<Reply>| abort_old_uploads(uploads@, 0, now, limit, h, at + 1);
            lemma_abort_old_uploads_heeds(uploads@, 0, now, limit, heard, at + 1);
            lemma_goes_on(f, g, heard, at, at + 1);
        } else if f(heard) is Stop {
            assert(strays_flow(f(heard.take(at)), heard[at]));
        }
    }
}

pub proof fn lemma_prune_shares_heeds(shares: Seq<Seq<char>>, i: int, heard: Seq<Reply>, at: int)
    requires
        0 <= at <= heard.len(),
    ensures
        heeds(|h: Seq<Reply>| prune_shares(shares, i, h, at), heard, at),
    decreases shares.len() - i,
{
    let both = |h: Seq<Reply>| prune_shares(shares, i, h, at);
    if 0 <= i < shares.len() && at < heard.len() {
        match heard[at] {
            Reply::Object(ObjectReply::Bytes(b)) => {
                let owner = recorded_owner(b@);
                let f = |h: Seq<Reply>| index_removal(owner, shares[i], h, at + 1);
                let rest = |h: Seq<Reply>|
                    match index_removal(owner, shares[i], h, at + 1) {
                        FlowView::Stop(n) => FlowView::Stop(n),
                        FlowView::Go(_, next) => prune_shares(shares, i + 1, h, next),
                    };
                lemma_index_removal_heeds(owner, shares[i], heard, at + 1);
                let n = if let FlowView::Go(_, n) = f(heard) {
                    lemma_prune_shares_heeds(shares, i + 1, heard, n);
                    n
                } else {
                    at + 1
                };
                let g = |h: Seq<Reply>| prune_shares(shares, i + 1, h, n);
                lemma_then(f, g, rest, heard, at + 1);
                lemma_goes_on(both, rest, heard, at, at + 1);
            },
            Reply::Object(_) => {
                let g = |h: Seq<Reply>| prune_shares(shares, i + 1, h, at + 1);
                lemma_prune_shares_heeds(shares, i + 1, heard, at + 1);
                lemma_goes_on(both, g, heard, at, at + 1);
            },
            _ => {
                assert(strays_flow(both(heard.take(at)), heard[at]));
            },
        }
    }
}

/// What the sweep does once the indices are pruned.
spec fn sweep_end(keys: Seq<Seq<char>>, h: Seq<Reply>, at: int) -> NextView {
    match delete_batches(keys, 0, h, at, Wording::Debug) {
        FlowView::Stop(n) => n,
        FlowView::Go(OutcomeView::Done, _) => NextView::Done(AnswerView::Success),
        FlowView::Go(OutcomeView::Failed(message), _) => NextView::Done(
            AnswerView::SweepFailed { message },
        ),
    }
}

proof fn lemma_remove_expired_heeds(
    objects: Seq<S3ListedObject>,
    now: int,
    limits: Limits,
    heard: Seq<Reply>,
    at: int,
)
    requires
        0 <= at <= heard.len(),
    ensures
        heeds_from(|h: Seq<Reply>| remove_expired(objects, now, limits, h, at), heard, at),
{
    let both = |h: Seq<Reply>| remove_expired(objects, now, limits, h, at);
    let all = items(objects);
    let names = group_names(all);
    if ages_fit(all, names, now) {
        let shares = expired_shares(all, names, now, limits);
        let keys = expired_keys(all, names, now, limits);
        let f = |h: Seq<Reply>| prune_shares(shares, 0, h, at);
        lemma_prune_shares_heeds(shares, 0, heard, at);
        let n = if let FlowView::Go(_, n) = f(heard) {
            n
        } else {
            at
        };
        let g = |h: Seq<Reply>| sweep_end(keys, h, n);
        if f(heard) is Go {
            let d = |h: Seq<Reply>| delete_batches(keys, 0, h, n, Wording::Debug);
            lemma_delete_batches_heeds(keys, 0, heard, n, Wording::Debug);
            let end = g(heard);
            let e = |h: Seq<Reply>| end;
            lemma_ends(d, e, g, heard, n);
        }
        lemma_ends(f, g, both, heard, at);
    }
}

/// A sweep whose every reply fits what it asked for is never at a loss.
pub proof fn fitting_replies_are_understood_by_the_sweep(
    days: Option<Seq<char>>,
    hours: Option<Seq<char>>,
    heard: Seq<Reply>,
)
    requires
        forall|j: int|
            0 <= j < heard.len() ==> (cleanup_next(
                days,
                hours,
                #[trigger] heard.take(j),
            ) matches NextView::Perform(a) && fits(a, heard[j])),
    ensures
        !(cleanup_next(days, hours, heard) is Misheard),
{
    let f = |h: Seq<Reply>| cleanup_next(days, hours, h);
    if f(heard) is Misheard {
        assert(f(heard.take(0)) is Perform);
        if let Reply::Time(t) = heard[0] {
            let now = t.secs as int;
            let share = limit(days, 90, 86400)->0;
            let partial = limit(hours, 12, 3600)->0;
            let limits = Limits { share: share as i64, partial: partial as i64 };
            let d = |h: Seq<Reply>| drop_old_uploads(now, limits, h, 1);
            let whole = |h: Seq<Reply>| sweep(now, limits, h);
            lemma_drop_old_uploads_heeds(now, limits, heard, 1);
            let n = if let FlowView::Go(_, n) = d(heard) {
                n
            } else {
                1
            };
            let g = |h: Seq<Reply>| sweep_objects(now, limits, h, n);
            if d(heard) is Go && n < heard.len() {
                if let Reply::Objects(objects) = heard[n] {
                    let r = |h: Seq<Reply>| remove_expired(objects@, now, limits, h, n + 1);
                    lemma_remove_expired_heeds(objects@, now, limits, heard, n + 1);
                    lemma_ends_as(g, r, heard, n, n + 1);
                } else if g(heard) is Misheard {
                    assert(strays(g(heard.take(n)), heard[n]));
                }
            }
            lemma_ends(d, g, whole, heard, 1);
            lemma_ends_as(f, whole, heard, 0, 1);
            let j = choose|j: int|
                0 <= j < heard.len() && strays(f(#[trigger] heard.take(j)), heard[j]);
            assert(cleanup_next(days, hours, heard.take(j)) is Perform);
        }
    }
}

/// The start of the server, whose every reply fits what it asked for, is never at a loss.
pub proof fn fitting_replies_are_understood_by_the_start(
    given: Option<Seq<char>>,
    heard: Seq<Reply>,
)
    requires
        forall|j: int|
            0 <= j < heard.len() ==> (load_secret_next(
                given,
                #[trigger] heard.take(j),
            ) matches NextView::Perform(a) && fits(a, heard[j])),
    ensures
        !(load_secret_next(given, heard) is Misheard),
{
    if load_secret_next(given, heard) is Misheard {
        assert(load_secret_next(given, heard.take(0)) is Perform);
        if heard.len() > 1 {
            assert(load_secret_next(given, heard.take(1)) is Perform);
        }
        if heard.len() > 2 {
            assert(load_secret_next(given, heard.take(2)) is Perform);
        }
    }
}

} // verus!
