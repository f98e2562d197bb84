//! Laws of uploads: what each step of an upload asks for, records and answers.

use vstd::prelude::*;
use vstd::utf8::encode_utf8;
use crate::api::{answer_next, Request};
use crate::clock::rfc3339;
use crate::deletion::{prefix_deletion, OutcomeView};
use crate::gate::{caller, Headers, Site};
use crate::json::{json_printed, JsonTree};
use crate::keys::share_prefix;
use crate::laws_removals::lemma_index_key;
use crate::laws_scope::lemma_deletion_never_done;
use crate::laws_shares::lemma_entry_names_differ;
use crate::media::media_type;
use crate::protocol::{ActionView, AnswerView, FieldReply, FlowView, NextView, Reply};
use crate::shares::{index_entries, share_entry};
use crate::storage::{CompletedPart, S3ListedObject};
use crate::text::trimmed;
use crate::uploads::{
    content_count, files_total, is_companion, main_count, paths, record_owner, record_share,
    relative, share_files, share_size, share_upload, store_form, FormView, StoredFileView,
    UploadFinishReq,
};

verus! {

// ---------------------------------------------------------------------------
// Sums and counts
// ---------------------------------------------------------------------------

/// The sum of some numbers.
pub open spec fn sum(s: Seq<int>) -> int
    decreases s.len(),
{
    if s.len() == 0 {
        0
    } else {
        sum(s.drop_last()) + s.last()
    }
}

/// Whether no part of a sum, from the front, leaves what the machine can count.
pub open spec fn sums_fit(s: Seq<int>) -> bool {
    forall|k: int| 0 <= k <= s.len() ==> i64::MIN <= #[trigger] sum(s.take(k)) <= i64::MAX
}

/// A sum fits where it fits without its last number, and with it.
pub proof fn lemma_sums_fit(s: Seq<int>)
    ensures
        s.len() == 0 ==> sums_fit(s),
        s.len() > 0 ==> sums_fit(s) == (sums_fit(s.drop_last()) && i64::MIN <= sum(s) <= i64::MAX),
{
    if s.len() > 0 {
        let t = s.drop_last();
        assert(s.take(s.len() as int) =~= s);
        assert forall|k: int| 0 <= k <= t.len() implies t.take(k) == #[trigger] s.take(k) by {
            assert(t.take(k) =~= s.take(k));
        }
        if sums_fit(s) {
            assert forall|k: int| 0 <= k <= t.len() implies i64::MIN <= #[trigger] sum(t.take(k))
                <= i64::MAX by {
                assert(t.take(k) == s.take(k));
            }
        }
        if sums_fit(t) && i64::MIN <= sum(s) <= i64::MAX {
            assert forall|k: int| 0 <= k <= s.len() implies i64::MIN <= #[trigger] sum(s.take(k))
                <= i64::MAX by {
                if k < s.len() {
                    assert(t.take(k) == s.take(k));
                }
            }
        }
    } else {
        assert forall|k: int| 0 <= k <= s.len() implies i64::MIN <= #[trigger] sum(s.take(k))
            <= i64::MAX by {
            assert(s.take(k).len() == 0);
        }
    }
}

/// The size of an upload is the sum of the sizes of its files, as far as the machine can count, and
/// the number of its files leaves out the list of them.
pub proof fn uploads_count_and_sum_their_files(
    files: Seq<StoredFileView>,
    names: Seq<Seq<char>>,
)
    ensures
        files_total(files) == (if sums_fit(files.map_values(|f: StoredFileView| f.size)) {
            Some(sum(files.map_values(|f: StoredFileView| f.size)))
        } else {
            None
        }),
        content_count(names) == names.filter(|n: Seq<char>| n != "metadata.enc"@).len(),
    decreases files.len() + names.len(),
{
    reveal(Seq::filter);
    let size = |f: StoredFileView| f.size;
    let sizes = files.map_values(size);
    lemma_sums_fit(sizes);
    if files.len() > 0 {
        uploads_count_and_sum_their_files(files.drop_last(), names);
        assert(files.drop_last().map_values(size) =~= sizes.drop_last());
    } else if names.len() > 0 {
        uploads_count_and_sum_their_files(files, names.drop_last());
    }
}

/// The name of a listed object in a share, where it is one and not a marker.
pub open spec fn file_name(o: S3ListedObject, prefix: Seq<char>) -> Option<
    Seq<char>,
> {
    match o.key {
        Some(key) => {
            let name = relative(key@, prefix);
            if name == "owner.txt"@ || name == ".active"@ {
                None
            } else {
                Some(name)
            }
        },
        None => None,
    }
}

/// Whether a listed object is a file of its own: neither a marker nor a companion of others.
pub open spec fn is_main_file(o: S3ListedObject, prefix: Seq<char>) -> bool {
    file_name(o, prefix) matches Some(name) && !is_companion(name)
}

/// The files of a finished share are its listed objects but for the markers, in order; its size is
/// the sum of the sizes of those that are no companions, and their number is how many those are.
pub proof fn finished_shares_count_and_sum_their_files(
    objects: Seq<S3ListedObject>,
    prefix: Seq<char>,
    names: Seq<Seq<char>>,
)
    ensures
        share_files(objects, prefix) == objects.filter(
            |o: S3ListedObject| file_name(o, prefix) is Some,
        ).map_values(|o: S3ListedObject| file_name(o, prefix)->0),
        ({
            let sizes = objects.filter(|o: S3ListedObject| is_main_file(o, prefix)).map_values(
                |o: S3ListedObject|
                    match o.size {
                        Some(n) => n as int,
                        None => 0int,
                    },
            );
            share_size(objects, prefix) == if sums_fit(sizes) {
                Some(sum(sizes))
            } else {
                None
            }
        }),
        main_count(names) == names.filter(
            |n: Seq<char>| !is_companion(n),
        ).len(),
    decreases objects.len() + names.len(),
{
    reveal(Seq::filter);
    let p = |o: S3ListedObject| file_name(o, prefix) is Some;
    let f = |o: S3ListedObject| file_name(o, prefix)->0;
    let q = |o: S3ListedObject| is_main_file(o, prefix);
    let size = |o: S3ListedObject|
        match o.size {
            Some(n) => n as int,
            None => 0int,
        };
    if objects.len() > 0 {
        let last = objects.last();
        let rest = objects.drop_last();
        finished_shares_count_and_sum_their_files(rest, prefix, names);
        if p(last) {
            assert(rest.filter(p).push(last).map_values(f) =~= rest.filter(p).map_values(f).push(
                f(last),
            ));
        }
        if q(last) {
            let sizes = rest.filter(q).push(last).map_values(size);
            assert(sizes.drop_last() =~= rest.filter(q).map_values(size));
            assert(sizes.last() == size(last));
            lemma_sums_fit(sizes);
        }
    } else {
        assert(objects.filter(p).map_values(f) =~= Seq::<Seq<char>>::empty());
        assert(objects.filter(q).map_values(size) =~= Seq::<int>::empty());
        lemma_sums_fit(Seq::empty());
        if names.len() > 0 {
            finished_shares_count_and_sum_their_files(objects, prefix, names.drop_last());
        }
    }
}

// ---------------------------------------------------------------------------
// Forms
// ---------------------------------------------------------------------------

/// The files that were stored in the course of a history: a field with a name, and right after it
/// the word that it was stored.
pub open spec fn stored_in(heard: Seq<Reply>) -> Seq<StoredFileView>
    decreases heard.len(),
{
    if heard.len() < 2 {
        Seq::empty()
    } else {
        let before = stored_in(heard.drop_last());
        match (heard[heard.len() - 2], heard.last()) {
            (
                Reply::Field(FieldReply::Named(path)),
                Reply::Stored(size),
            ) => before.push(StoredFileView { path: path@, size: size as int }),
            _ => before,
        }
    }
}

/// What is done with a field of a form that was heard of, while these files were stored before it.
pub open spec fn after_field(
    uuid: Seq<char>,
    stored: Seq<StoredFileView>,
    r: Reply,
    at: int,
) -> FlowView<FormView> {
    match r {
        Reply::Field(FieldReply::End) => FlowView::Go(FormView::Ended(stored), at),
        Reply::Field(FieldReply::Unnamed) => FlowView::Stop(
            NextView::Perform(ActionView::NextField),
        ),
        Reply::Field(FieldReply::Named(path)) => FlowView::Stop(
            NextView::Perform(
                if trimmed(path@).len() == 0 {
                    ActionView::NextField
                } else {
                    ActionView::StoreField {
                        key: "uploads/"@ + uuid + "/"@ + path@,
                        content_type: media_type(path@),
                    }
                },
            ),
        ),
        Reply::Failed(e) => FlowView::Go(
            FormView::Broken { status: 400, message: e.display@ },
            at,
        ),
        _ => FlowView::Stop(NextView::Misheard),
    }
}

/// What is done once a field was to be stored.
pub open spec fn after_storing(r: Reply, at: int) -> FlowView<FormView> {
    match r {
        Reply::Stored(_) => FlowView::Stop(NextView::Perform(ActionView::NextField)),
        Reply::FieldFailed(e) => FlowView::Go(
            FormView::Broken { status: 500, message: e.display@ },
            at,
        ),
        Reply::Failed(e) => FlowView::Go(
            FormView::Broken { status: 500, message: "Failed to upload to S3: "@ + e.debug@ },
            at,
        ),
        _ => FlowView::Stop(NextView::Misheard),
    }
}

/// The step that a form takes with one more reply.
proof fn lemma_form_steps(
    uuid: Seq<char>,
    files: Seq<StoredFileView>,
    heard: Seq<Reply>,
    at: int,
    r: Reply,
)
    requires
        0 <= at <= heard.len(),
        files == stored_in(heard.take(at)),
    ensures
        ({
            let now = store_form(uuid, files, heard, at);
            let then = store_form(uuid, files, heard.push(r), at);
            let len = heard.len() as int;
            &&& now == FlowView::<FormView>::Stop(NextView::Perform(ActionView::NextField)) ==> then
                == after_field(uuid, stored_in(heard), r, len + 1)
            &&& now matches FlowView::Stop(NextView::Perform(ActionView::StoreField { .. }))
                ==> then == after_storing(r, len + 1)
            &&& now is Go ==> then == now
            &&& now matches FlowView::Stop(NextView::Perform(a)) ==> a is NextField
                || a is StoreField
            &&& !(now matches FlowView::Stop(NextView::Done(_)))
            &&& now matches FlowView::Go(FormView::Ended(fs), n) ==> {
                &&& at < n <= len
                &&& heard[n - 1] == Reply::Field(FieldReply::End)
                &&& fs == stored_in(heard.take(n))
                &&& forall|j: int|
                    at <= j < n - 1 ==> #[trigger] heard[j] != Reply::Field(FieldReply::End)
            }
            &&& now matches FlowView::Go(FormView::Broken { .. }, n) ==> at < n <= len
        }),
    decreases heard.len() - at,
{
    let more = heard.push(r);
    if at < heard.len() {
        assert(more[at] == heard[at]);
        let t = heard.take(at + 1);
        assert(t.drop_last() =~= heard.take(at));
        if let Reply::Field(FieldReply::Named(path)) = heard[at] {
            if trimmed(path@).len() == 0 {
                assert(stored_in(t) == files);
                lemma_form_steps(uuid, files, heard, at + 1, r);
            } else if at + 1 < heard.len() {
                assert(more[at + 1] == heard[at + 1]);
                if let Reply::Stored(size) = heard[at + 1] {
                    let u = heard.take(at + 2);
                    assert(u.drop_last() =~= t);
                    let next = files.push(StoredFileView { path: path@, size: size as int });
                    assert(stored_in(t) == files);
                    assert(stored_in(u) == next);
                    lemma_form_steps(uuid, next, heard, at + 2, r);
                }
            } else {
                assert(more[at + 1] == r);
                if let Reply::Stored(size) = r {
                    let next = files.push(StoredFileView { path: path@, size: size as int });
                    assert(store_form(uuid, next, more, at + 2) == FlowView::<FormView>::Stop(
                        NextView::Perform(ActionView::NextField),
                    ));
                }
            }
        } else if heard[at] == Reply::Field(FieldReply::Unnamed) {
            assert(stored_in(t) == files);
            lemma_form_steps(uuid, files, heard, at + 1, r);
        } else if heard[at] == Reply::Field(FieldReply::End) {
            assert(stored_in(t) == files);
        }
    } else {
        assert(heard.take(at) =~= heard);
        assert(more[at] == r);
        assert(store_form(uuid, files, more, at + 1) == FlowView::<FormView>::Stop(
            NextView::Perform(ActionView::NextField),
        ));
    }
}

/// No file is stored before there is a form.
proof fn lemma_stored_before(heard: Seq<Reply>, at: int)
    requires
        0 <= at <= 2,
        at <= heard.len(),
        at == 2 ==> heard[1] is Id || heard[0] is Sessions,
    ensures
        stored_in(heard.take(at)) == Seq::<StoredFileView>::empty(),
{
    let t = heard.take(at);
    if at == 2 {
        assert(t[0] == heard[0] && t[1] == heard[1]);
        assert(t.drop_last().len() == 1);
        assert(stored_in(t.drop_last()) =~= Seq::<StoredFileView>::empty());
    }
}

/// The files of a form are gone through in order: each field with a name is stored under its path
/// in the share, with the media type of its path; a field without one, or with a blank one, is
/// passed over; and at the end of the form the files are those that were stored, in order. A field
/// that cannot be had, read or stored breaks the form off.
pub proof fn forms_are_stored_field_by_field(
    uuid: Seq<char>,
    heard: Seq<Reply>,
    at: int,
    r: Reply,
)
    requires
        at == 1 || at == 2,
        at <= heard.len(),
        heard[0] is Sessions,
    ensures
        store_form(uuid, Seq::empty(), heard.take(at), at) == FlowView::<FormView>::Stop(
            NextView::Perform(ActionView::NextField),
        ),
        store_form(uuid, Seq::empty(), heard, at) == FlowView::<FormView>::Stop(
            NextView::Perform(ActionView::NextField),
        ) ==> store_form(uuid, Seq::empty(), heard.push(r), at) == after_field(
            uuid,
            stored_in(heard),
            r,
            heard.len() as int + 1,
        ),
        store_form(uuid, Seq::empty(), heard, at) matches FlowView::Stop(
            NextView::Perform(ActionView::StoreField { .. }),
        ) ==> store_form(uuid, Seq::empty(), heard.push(r), at) == after_storing(
            r,
            heard.len() as int + 1,
        ),
        store_form(uuid, Seq::empty(), heard, at) is Go ==> store_form(
            uuid,
            Seq::empty(),
            heard.push(r),
            at,
        ) == store_form(uuid, Seq::empty(), heard, at),
        store_form(uuid, Seq::empty(), heard, at) matches FlowView::Go(FormView::Ended(files), n)
            ==> at < n <= heard.len() && heard[n - 1] == Reply::Field(FieldReply::End) && files
            == stored_in(heard.take(n)) && forall|j: int|
            at <= j < n - 1 ==> #[trigger] heard[j] != Reply::Field(FieldReply::End),
{
    lemma_stored_before(heard, at);
    lemma_form_steps(uuid, Seq::empty(), heard, at, r);
}

// ---------------------------------------------------------------------------
// Records
// ---------------------------------------------------------------------------

/// The owner of a share is recorded as `owner.txt` among its objects, by their name.
pub proof fn owners_are_recorded(
    username: Seq<char>,
    uuid: Seq<char>,
    heard: Seq<Reply>,
    at: int,
)
    requires
        0 <= at,
    ensures
        ({
            let r = record_owner(username, uuid, heard, at);
            if heard.len() <= at {
                r == FlowView::<OutcomeView>::Stop(
                    NextView::Perform(
                        ActionView::Put {
                            key: "uploads/"@ + uuid + "/"@ + "owner.txt"@,
                            content_type: "text/plain"@,
                            body: encode_utf8(username),
                        },
                    ),
                )
            } else {
                match heard[at] {
                    Reply::Done => r == FlowView::Go(OutcomeView::Done, at + 1),
                    Reply::Failed(e) => r == FlowView::Go(
                        OutcomeView::Failed("Failed to save owner: "@ + e.debug@),
                        at + 1,
                    ),
                    _ => true,
                }
            }
        }),
{
}

/// Whether a document is the entry of a share in an index: its id, the number and the size of its
/// files, the time, and nothing else.
pub open spec fn describes_share(
    entry: JsonTree,
    uuid: Seq<char>,
    files_count: int,
    total_size: int,
    created_at: Seq<char>,
) -> bool {
    entry matches JsonTree::Object(members) && {
        &&& members.dom() == set!["uuid"@, "files_count"@, "total_size"@, "created_at"@]
        &&& members["uuid"@] == JsonTree::Text(uuid)
        &&& members["files_count"@] == JsonTree::Int(files_count)
        &&& members["total_size"@] == JsonTree::Int(total_size)
        &&& members["created_at"@] == JsonTree::Text(created_at)
    }
}

/// A share is recorded in the index of its owner: the index is read, the time is asked for, and the
/// index is stored with all its entries and one more at the end, that of the share.
pub proof fn shares_are_recorded(
    username: Seq<char>,
    uuid: Seq<char>,
    files_count: int,
    total_size: int,
    heard: Seq<Reply>,
    at: int,
)
    requires
        0 <= at,
    ensures
        ({
            let key = "users/"@ + username + "/public_shares.json"@;
            let r = record_share(
                username,
                uuid,
                files_count,
                total_size,
                heard,
                at,
            );
            if heard.len() <= at {
                r == FlowView::<OutcomeView>::Stop(NextView::Perform(ActionView::Get { key }))
            } else {
                heard[at] matches Reply::Object(index) ==> if heard.len() == at + 1 {
                    r == FlowView::<OutcomeView>::Stop(NextView::Perform(ActionView::Clock))
                } else {
                    heard[at + 1] matches Reply::Time(now) ==> match rfc3339(
                        now.secs as int,
                        now.nanos as int,
                    ) {
                        Some(created_at) => if heard.len() == at + 2 {
                            exists|entry: JsonTree| #[trigger]
                                describes_share(
                                    entry,
                                    uuid,
                                    files_count,
                                    total_size,
                                    created_at,
                                ) && r == FlowView::<OutcomeView>::Stop(
                                    NextView::Perform(
                                        ActionView::Put {
                                            key,
                                            content_type: "application/json"@,
                                            body: json_printed(
                                                JsonTree::Array(
                                                    index_entries(index).push(entry),
                                                ),
                                            ),
                                        },
                                    ),
                                )
                        } else {
                            match heard[at + 2] {
                                Reply::Done => r == FlowView::Go(OutcomeView::Done, at + 3),
                                Reply::Failed(e) => r == FlowView::Go(
                                    OutcomeView::Failed(
                                        "Failed to save public shares list: "@ + e.debug@,
                                    ),
                                    at + 3,
                                ),
                                _ => true,
                            }
                        },
                        None => r == FlowView::<OutcomeView>::Stop(NextView::Crash),
                    }
                }
            }
        }),
{
    lemma_index_key(username);
    if heard.len() == at + 2 {
        if let Reply::Time(now) = heard[at + 1] {
            if let Some(created_at) = rfc3339(now.secs as int, now.nanos as int) {
                let entry = share_entry(uuid, files_count, total_size, created_at);
                lemma_entry(uuid, files_count, total_size, created_at);
                assert(describes_share(entry, uuid, files_count, total_size, created_at));
            }
        }
    }
}

/// The entry of a share describes it.
proof fn lemma_entry(uuid: Seq<char>, files_count: int, total_size: int, created_at: Seq<char>)
    ensures
        describes_share(
            share_entry(uuid, files_count, total_size, created_at),
            uuid,
            files_count,
            total_size,
            created_at,
        ),
{
    lemma_entry_names_differ();
    if let JsonTree::Object(members) = share_entry(uuid, files_count, total_size, created_at) {
        assert(members.dom() =~= set!["uuid"@, "files_count"@, "total_size"@, "created_at"@]);
    }
}

// ---------------------------------------------------------------------------
// A share in one request
// ---------------------------------------------------------------------------

/// What an upload that broke off is answered, once everything stored for it is cleared from the
/// place `at` on.
pub open spec fn after_breaking_off(
    uuid: Seq<char>,
    status: int,
    message: Seq<char>,
    heard: Seq<Reply>,
    at: int,
) -> NextView {
    match prefix_deletion("uploads/"@ + uuid + "/"@, heard, at) {
        FlowView::Stop(n) => n,
        FlowView::Go(_, _) => NextView::Done(
            AnswerView::Refused { status, message },
        ),
    }
}

/// An upload in one request takes a new id, stores the files of the form under it, records the
/// owner and then the share with the number and size of its files. Only then is it answered with
/// the id and the paths of the files that were stored. Wherever it breaks off, everything stored
/// for it is cleared before the client is told why.
pub proof fn uploads_store_record_and_answer(
    site: Site,
    headers: Headers,
    heard: Seq<Reply>,
    uuid: String,
)
    requires
        caller(site, headers, heard) is Go,
        heard.len() > 1 ==> heard[1] == Reply::Id(uuid),
    ensures
        ({
            let c = caller(site, headers, heard)->Go_0;
            let n = answer_next(
                site,
                headers,
                Request::UploadFiles,
                heard,
            );
            if heard.len() <= 1 {
                n == NextView::Perform(ActionView::FreshId)
            } else {
                match store_form(uuid@, Seq::empty(), heard, 2) {
                    FlowView::Stop(m) => n == m,
                    FlowView::Go(FormView::Broken { status, message }, at) => n
                        == after_breaking_off(uuid@, status, message, heard, at),
                    FlowView::Go(FormView::Ended(files), at) => if files.len() == 0 {
                        n == after_breaking_off(uuid@, 400, "No files uploaded"@, heard, at)
                    } else if !sums_fit(files.map_values(|f: StoredFileView| f.size)) {
                        n == NextView::Crash
                    } else {
                        match record_owner(
                            c.username,
                            uuid@,
                            heard,
                            at,
                        ) {
                            FlowView::Stop(m) => n == m,
                            FlowView::Go(OutcomeView::Failed(message), at) => n
                                == after_breaking_off(uuid@, 500, message, heard, at),
                            FlowView::Go(OutcomeView::Done, at) => match record_share(
                                c.username,
                                uuid@,
                                files.filter(
                                    |f: StoredFileView| f.path != "metadata.enc"@,
                                ).len() as int,
                                sum(files.map_values(|f: StoredFileView| f.size)),
                                heard,
                                at,
                            ) {
                                FlowView::Stop(m) => n == m,
                                FlowView::Go(OutcomeView::Failed(message), at) => n
                                    == after_breaking_off(uuid@, 500, message, heard, at),
                                FlowView::Go(OutcomeView::Done, _) => n == NextView::Done(
                                    AnswerView::ShareUploaded {
                                        uuid: uuid@,
                                        files: files.map_values(|f: StoredFileView| f.path),
                                    },
                                ),
                            },
                        }
                    },
                }
            }
        }),
{
    if heard.len() > 1 {
        if let FlowView::Go(FormView::Ended(files), _) = store_form(uuid@, Seq::empty(), heard, 2) {
            let names = paths(files);
            assert(names =~= files.map_values(|f: StoredFileView| f.path));
            uploads_count_and_sum_their_files(files, names);
            lemma_content_files(files);
        }
    }
}

/// The files but for the list of them are as many as their paths.
proof fn lemma_content_files(files: Seq<StoredFileView>)
    ensures
        files.filter(|f: StoredFileView| f.path != "metadata.enc"@).len() == paths(files).filter(
            |n: Seq<char>| n != "metadata.enc"@,
        ).len(),
    decreases files.len(),
{
    reveal(Seq::filter);
    if files.len() > 0 {
        lemma_content_files(files.drop_last());
        assert(paths(files).drop_last() =~= paths(files.drop_last()));
    }
}

/// Where an upload in one request is answered with success, the answer names the new id and exactly
/// the paths of the fields of the form that were stored, in order.
pub proof fn uploads_are_answered_with_their_files(site: Site, headers: Headers, heard: Seq<Reply>)
    ensures
        answer_next(site, headers, Request::UploadFiles, heard) matches NextView::Done(a) ==> (
        a is Refused || exists|n: int|
            #![trigger heard.take(n)]
            {
                &&& 2 < n < heard.len()
                &&& heard[1] matches Reply::Id(uuid)
                &&& heard[n - 1] == Reply::Field(FieldReply::End)
                &&& forall|j: int|
                    2 <= j < n - 1 ==> #[trigger] heard[j] != Reply::Field(FieldReply::End)
                &&& a == AnswerView::ShareUploaded {
                    uuid: uuid@,
                    files: stored_in(heard.take(n)).map_values(|f: StoredFileView| f.path),
                }
                &&& stored_in(heard.take(n)).len() > 0
            }),
{
    if let FlowView::Go(c, _) = caller(site, headers, heard) {
        if heard.len() > 1 {
            if let Reply::Id(uuid) = heard[1] {
                let r = Reply::Done;
                lemma_stored_before(heard, 2);
                lemma_form_steps(uuid@, Seq::empty(), heard, 2, r);
                uploads_store_record_and_answer(site, headers, heard, uuid);
                match share_upload(c.username, uuid@, heard, 2) {
                    FlowView::Go(_, at) => {
                        lemma_deletion_never_done(
                            share_prefix(uuid@),
                            heard,
                            at,
                        );
                    },
                    _ => {},
                }
                if let FlowView::Go(FormView::Ended(files), n) = store_form(
                    uuid@,
                    Seq::empty(),
                    heard,
                    2,
                ) {
                    assert(heard.take(n).len() == n);
                }
            }
        }
    }
}

// ---------------------------------------------------------------------------
// A share step by step
// ---------------------------------------------------------------------------

/// Beginning a share takes a new id, marks it as under way, and answers with that id; renewing the
/// mark stores the same mark again.
pub proof fn shares_under_way_are_marked(
    site: Site,
    headers: Headers,
    uuid: String,
    heard: Seq<Reply>,
)
    requires
        caller(site, headers, heard) is Go,
    ensures
        ({
            let mark = ActionView::Put {
                key: "uploads/"@ + uuid@ + "/"@ + ".active"@,
                content_type: "text/plain"@,
                body: encode_utf8("active"@),
            };
            let begun = answer_next(site, headers, Request::UploadInit, heard);
            let renewed = answer_next(site, headers, (Request::UploadPing { uuid }), heard);
            &&& heard.len() <= 1 ==> begun == NextView::Perform(ActionView::FreshId)
            &&& heard.len() == 2 && heard[1] == Reply::Id(uuid) ==> begun == NextView::Perform(mark)
            &&& heard.len() > 2 && heard[1] == Reply::Id(uuid) && (heard[2] is Done
                || heard[2] is Failed) ==> begun == NextView::Done(
                AnswerView::ShareBegun { uuid: uuid@ },
            )
            &&& heard.len() <= 1 ==> renewed == NextView::Perform(mark)
            &&& heard.len() > 1 && heard[1] is Done ==> renewed == NextView::Done(
                AnswerView::Status { status: "ok"@ },
            )
            &&& heard.len() > 1 ==> (heard[1] matches Reply::Failed(e) ==> renewed
                == NextView::Done(
                AnswerView::Refused {
                    status: 500,
                    message: "Failed to update heartbeat: "@ + e.debug@,
                },
            ))
        }),
{
}

/// Adding files to a share stores the fields of the form in it, renews the mark of the share, and
/// answers with the paths of the fields that were stored, in order. A form that breaks off is
/// answered with why.
pub proof fn files_are_added_and_named(
    site: Site,
    headers: Headers,
    uuid: String,
    heard: Seq<Reply>,
)
    requires
        caller(site, headers, heard) is Go,
    ensures
        ({
            let n = answer_next(site, headers, (Request::UploadFile { uuid }), heard);
            match store_form(uuid@, Seq::empty(), heard, 1) {
                FlowView::Stop(m) => n == m,
                FlowView::Go(FormView::Broken { status, message }, _) => n == NextView::Done(
                    AnswerView::Refused { status, message },
                ),
                FlowView::Go(FormView::Ended(files), at) => {
                    &&& 1 < at <= heard.len()
                    &&& heard[at - 1] == Reply::Field(FieldReply::End)
                    &&& forall|j: int|
                        1 <= j < at - 1 ==> #[trigger] heard[j] != Reply::Field(FieldReply::End)
                    &&& files == stored_in(heard.take(at))
                    &&& n == if heard.len() == at {
                        NextView::Perform(
                            ActionView::PutInBackground {
                                key: "uploads/"@ + uuid@ + "/"@ + ".active"@,
                                content_type: "text/plain"@,
                                body: encode_utf8("active"@),
                            },
                        )
                    } else {
                        NextView::Done(
                            AnswerView::FilesStored {
                                files: files.map_values(|f: StoredFileView| f.path),
                            },
                        )
                    }
                },
            }
        }),
{
    lemma_stored_before(heard, 1);
    lemma_form_steps(uuid@, Seq::empty(), heard, 1, Reply::Done);
    if let FlowView::Go(FormView::Ended(files), _) = store_form(uuid@, Seq::empty(), heard, 1) {
        assert(paths(files) =~= files.map_values(|f: StoredFileView| f.path));
    }
}

/// Finishing a share records its owner, lists its objects, and records the share: with the number
/// and the size of its files that the client gave, or else with those that were found. Then it is
/// answered with its id and its files.
pub proof fn finished_shares_are_recorded(
    site: Site,
    headers: Headers,
    uuid: String,
    req: UploadFinishReq,
    heard: Seq<Reply>,
)
    requires
        caller(site, headers, heard) is Go,
    ensures
        ({
            let c = caller(site, headers, heard)->Go_0;
            let prefix = "uploads/"@ + uuid@ + "/"@;
            let n = answer_next(site, headers, (Request::UploadFinish { uuid, req }), heard);
            match record_owner(c.username, uuid@, heard, 1) {
                FlowView::Stop(m) => n == m,
                FlowView::Go(OutcomeView::Failed(message), _) => n == NextView::Done(
                    AnswerView::Refused { status: 500, message },
                ),
                FlowView::Go(OutcomeView::Done, _) => if heard.len() == 2 {
                    n == NextView::Perform(ActionView::ListPage { prefix })
                } else {
                    (heard[2] is Objects || heard[2] is Failed) ==> {
                        let objects = match heard[2] {
                            Reply::Objects(objects) => objects@,
                            _ => Seq::empty(),
                        };
                        let files = objects.filter(
                            |o: S3ListedObject| file_name(o, prefix) is Some,
                        ).map_values(|o: S3ListedObject| file_name(o, prefix)->0);
                        let sizes = objects.filter(
                            |o: S3ListedObject| is_main_file(o, prefix),
                        ).map_values(
                            |o: S3ListedObject|
                                match o.size {
                                    Some(n) => n as int,
                                    None => 0int,
                                },
                        );
                        &&& !sums_fit(sizes) ==> n == NextView::Crash
                        &&& sums_fit(sizes) ==> match record_share(
                            c.username,
                            uuid@,
                            match req.files_count {
                                Some(given) => given as int,
                                None => files.filter(
                                    |name: Seq<char>| !is_companion(name),
                                ).len() as int,
                            },
                            match req.total_size {
                                Some(given) => given as int,
                                None => sum(sizes),
                            },
                            heard,
                            3,
                        ) {
                            FlowView::Stop(m) => n == m,
                            FlowView::Go(OutcomeView::Failed(message), _) => n == NextView::Done(
                                AnswerView::Refused { status: 500, message },
                            ),
                            FlowView::Go(OutcomeView::Done, _) => n == NextView::Done(
                                AnswerView::ShareUploaded { uuid: uuid@, files },
                            ),
                        }
                    }
                },
            }
        }),
{
    let prefix = share_prefix(uuid@);
    if heard.len() > 2 {
        let objects = match heard[2] {
            Reply::Objects(objects) => objects@,
            _ => Seq::empty(),
        };
        finished_shares_count_and_sum_their_files(objects, prefix, share_files(objects, prefix));
    }
}

// ---------------------------------------------------------------------------
// Files in parts
// ---------------------------------------------------------------------------

/// For the same share and file, beginning an upload in parts, storing a part and ending it name the
/// same object, that of the file in the share; the part and the end carry the upload id that the
/// client gives, the part its number, and the end the list of parts.
pub proof fn parts_go_to_the_file_they_are_of(
    site: Site,
    headers: Headers,
    uuid: String,
    file_name: String,
    upload_id: String,
    part_number: i32,
    parts: Vec<CompletedPart>,
    heard: Seq<Reply>,
)
    requires
        caller(site, headers, heard) is Go,
        heard.len() == 1,
    ensures
        ({
            let key = "uploads/"@ + uuid@ + "/"@ + file_name@;
            &&& answer_next(site, headers, (Request::MultipartInit { uuid, file_name }), heard)
                == NextView::Perform(
                ActionView::CreateUpload { key, content_type: media_type(file_name@) },
            )
            &&& answer_next(
                site,
                headers,
                (Request::MultipartPart { uuid, upload_id, part_number, file_name }),
                heard,
            ) == NextView::Perform(
                ActionView::UploadPart {
                    key,
                    upload_id: upload_id@,
                    part_number: part_number as int,
                },
            )
            &&& answer_next(
                site,
                headers,
                (Request::MultipartComplete { uuid, upload_id, file_name, parts }),
                heard,
            ) matches NextView::Perform(
                ActionView::CompleteUpload { key: k, upload_id: id, parts: listed },
            ) && k == key && id == upload_id@ && listed.len() == parts@.len() && forall|i: int|
                0 <= i < parts@.len() ==> (#[trigger] listed[i]).part_number
                    == parts@[i].part_number && listed[i].e_tag == parts@[i].e_tag@
        }),
{
}

/// Beginning an upload in parts answers with the id that the service gave it.
pub proof fn begun_uploads_have_the_id_of_the_service(
    site: Site,
    headers: Headers,
    uuid: String,
    file_name: String,
    heard: Seq<Reply>,
)
    requires
        caller(site, headers, heard) is Go,
        heard.len() > 1,
    ensures
        ({
            let n = answer_next(site, headers, (Request::MultipartInit { uuid, file_name }), heard);
            match heard[1] {
                Reply::UploadId(Some(id)) => n == NextView::Done(
                    AnswerView::UploadBegun { upload_id: id@ },
                ),
                Reply::UploadId(None) => n == NextView::Done(
                    AnswerView::Refused { status: 500, message: "No upload_id returned from S3"@ },
                ),
                Reply::Failed(e) => n == NextView::Done(
                    AnswerView::Refused {
                        status: 500,
                        message: "Failed to create S3 multipart upload: "@ + e.debug@,
                    },
                ),
                _ => true,
            }
        }),
{
}

/// Storing a part renews the mark of the share and answers with the number of the part and the tag
/// that the service gave it; a part that could not be stored is answered with why.
pub proof fn stored_parts_have_the_tag_of_the_service(
    site: Site,
    headers: Headers,
    uuid: String,
    upload_id: String,
    part_number: i32,
    file_name: String,
    heard: Seq<Reply>,
)
    requires
        caller(site, headers, heard) is Go,
        heard.len() > 1,
    ensures
        ({
            let n = answer_next(
                site,
                headers,
                (Request::MultipartPart { uuid, upload_id, part_number, file_name }),
                heard,
            );
            match heard[1] {
                Reply::ETag(tag) => n == if heard.len() == 2 {
                    NextView::Perform(
                        ActionView::PutInBackground {
                            key: "uploads/"@ + uuid@ + "/"@ + ".active"@,
                            content_type: "text/plain"@,
                            body: encode_utf8("active"@),
                        },
                    )
                } else {
                    NextView::Done(
                        AnswerView::PartStored {
                            part_number: part_number as int,
                            e_tag: match tag {
                                Some(t) => t@,
                                None => Seq::empty(),
                            },
                        },
                    )
                },
                Reply::Failed(e) => n == NextView::Done(
                    AnswerView::Refused {
                        status: 500,
                        message: "Failed to upload part: "@ + e.debug@,
                    },
                ),
                _ => true,
            }
        }),
{
}

/// Ending an upload in parts is answered by how the service took it.
pub proof fn ended_uploads_are_answered_by_the_service(
    site: Site,
    headers: Headers,
    uuid: String,
    upload_id: String,
    file_name: String,
    parts: Vec<CompletedPart>,
    heard: Seq<Reply>,
)
    requires
        caller(site, headers, heard) is Go,
        heard.len() > 1,
    ensures
        ({
            let n = answer_next(
                site,
                headers,
                (Request::MultipartComplete { uuid, upload_id, file_name, parts }),
                heard,
            );
            match heard[1] {
                Reply::Done => n == NextView::Done(AnswerView::Status { status: "ok"@ }),
                Reply::Failed(e) => n == NextView::Done(
                    AnswerView::Refused {
                        status: 500,
                        message: "Failed to complete S3 multipart upload: "@ + e.debug@,
                    },
                ),
                _ => true,
            }
        }),
{
}

} // verus!
