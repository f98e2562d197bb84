//! Uploading the files of a share.

use vstd::prelude::*;
use vstd::utf8::encode_utf8;
use crate::clock::{rfc3339, rfc3339_text};
use crate::deletion::{
    delete_share_objects, is_settled, prefix_deletion, settled, Outcome, OutcomeView,
};
use crate::gate::{caller, verify_session, Headers, Site};
use crate::keys::{make_share_key, make_share_prefix, share_key, share_prefix};
use crate::media::{guess_media_type, media_type};
use crate::model::views;
use crate::protocol::{
    ask_get, ask_put_json, ask_put_text, readable, readable_flow, refuse, refuse_with, refused,
    Action, ActionView, Answer, AnswerView, FieldReply, Flow, FlowView, Next, NextView, Reply,
};
use crate::shares::{
    index_entries, index_key, index_with, make_index_key, make_share_entry, read_index, share_entry,
    write_index_with,
};
use crate::storage::{CompletedPart, S3ListedObject};
use crate::text::{after_prefix, ends_with, finishes, same, strip_prefix, trim, trimmed};

verus! {

// ---------------------------------------------------------------------------
// The files of a form
// ---------------------------------------------------------------------------

/// A file that was stored.
pub struct StoredFile {
    pub path: String,
    pub size: i64,
}

/// A file that was stored, over sequences.
pub struct StoredFileView {
    pub path: Seq<char>,
    pub size: int,
}

impl View for StoredFile {
    type V = StoredFileView;

    open spec fn view(&self) -> StoredFileView {
        StoredFileView { path: self.path@, size: self.size as int }
    }
}

/// What became of a form.
pub enum Form {
    /// Its files were stored.
    Ended(Vec<StoredFile>),
    /// It broke off, and the client is answered this.
    Broken { status: u16, message: String },
}

/// What became of a form, over sequences.
pub enum FormView {
    Ended(Seq<StoredFileView>),
    Broken { status: int, message: Seq<char> },
}

impl View for Form {
    type V = FormView;

    open spec fn view(&self) -> FormView {
        match self {
            Form::Ended(files) => FormView::Ended(views(files@)),
            Form::Broken { status, message } => FormView::Broken {
                status: *status as int,
                message: message@,
            },
        }
    }
}

/// Stores the files of a form under a share, after those that were stored before. A field without
/// a name, or with a blank one, is passed over.
pub open spec fn store_form(
    uuid: Seq<char>,
    files: Seq<StoredFileView>,
    heard: Seq<Reply>,
    at: int,
) -> FlowView<FormView>
    decreases heard.len() - at,
{
    if at < 0 || at >= heard.len() {
        FlowView::Stop(NextView::Perform(ActionView::NextField))
    } else {
        match heard[at] {
            Reply::Field(FieldReply::End) => FlowView::Go(FormView::Ended(files), at + 1),
            Reply::Field(FieldReply::Unnamed) => store_form(uuid, files, heard, at + 1),
            Reply::Field(FieldReply::Named(path)) => if trimmed(path@).len() == 0 {
                store_form(uuid, files, heard, at + 1)
            } else if at + 1 >= heard.len() {
                FlowView::Stop(
                    NextView::Perform(
                        ActionView::StoreField {
                            key: share_key(uuid, path@),
                            content_type: media_type(path@),
                        },
                    ),
                )
            } else {
                match heard[at + 1] {
                    Reply::Stored(size) => store_form(
                        uuid,
                        files.push(StoredFileView { path: path@, size: size as int }),
                        heard,
                        at + 2,
                    ),
                    Reply::FieldFailed(e) => FlowView::Go(
                        FormView::Broken { status: 500, message: e.display@ },
                        at + 2,
                    ),
                    Reply::Failed(e) => FlowView::Go(
                        FormView::Broken {
                            status: 500,
                            message: "Failed to upload to S3: "@ + e.debug@,
                        },
                        at + 2,
                    ),
                    _ => FlowView::Stop(NextView::Misheard),
                }
            },
            Reply::Failed(e) => FlowView::Go(
                FormView::Broken { status: 400, message: e.display@ },
                at + 1,
            ),
            _ => FlowView::Stop(NextView::Misheard),
        }
    }
}

/// Stores the files of a form under a share.
fn do_store_form(uuid: &str, heard: &Vec<Reply>, start: usize) -> (r: Flow<Form>)
    requires
        start <= heard@.len(),
    ensures
        r@ == store_form(uuid@, Seq::empty(), heard@, start as int),
        r matches Flow::Go(_, a) ==> start < a <= heard@.len(),
        readable_flow(r@),
{
    let mut files: Vec<StoredFile> = Vec::new();
    let mut at: usize = start;
    proof {
        assert(views(files@) =~= Seq::<StoredFileView>::empty());
    }
    loop
        invariant
            start <= at <= heard@.len(),
            store_form(uuid@, views(files@), heard@, at as int) == store_form(
                uuid@,
                Seq::empty(),
                heard@,
                start as int,
            ),
        decreases heard@.len() - at,
    {
        if at >= heard.len() {
            return Flow::Stop(Next::Perform(Action::NextField));
        }
        match &heard[at] {
            Reply::Field(FieldReply::End) => {
                return Flow::Go(Form::Ended(files), at + 1);
            },
            Reply::Field(FieldReply::Unnamed) => {
                at = at + 1;
            },
            Reply::Field(FieldReply::Named(path)) => {
                if trim(path.as_str()).as_str().is_empty() {
                    at = at + 1;
                } else {
                    if at + 1 >= heard.len() {
                        return Flow::Stop(
                            Next::Perform(
                                Action::StoreField {
                                    key: make_share_key(uuid, path.as_str()),
                                    content_type: guess_media_type(path.as_str()),
                                },
                            ),
                        );
                    }
                    match &heard[at + 1] {
                        Reply::Stored(size) => {
                            let ghost before = files@;
                            files.push(StoredFile { path: path.clone(), size: *size });
                            proof {
                                assert(views(files@) =~= views(before).push(
                                    StoredFileView { path: path@, size: *size as int },
                                ));
                            }
                            at = at + 2;
                        },
                        Reply::FieldFailed(e) => {
                            return Flow::Go(
                                Form::Broken { status: 500, message: e.display.clone() },
                                at + 2,
                            );
                        },
                        Reply::Failed(e) => {
                            let mut message = "Failed to upload to S3: ".to_owned();
                            message.append(e.debug.as_str());
                            return Flow::Go(Form::Broken { status: 500, message }, at + 2);
                        },
                        _ => {
                            return Flow::Stop(Next::Misheard);
                        },
                    }
                }
            },
            Reply::Failed(e) => {
                return Flow::Go(Form::Broken { status: 400, message: e.display.clone() }, at + 1);
            },
            _ => {
                return Flow::Stop(Next::Misheard);
            },
        }
    }
}

/// The paths of some files.
pub open spec fn paths(files: Seq<StoredFileView>) -> Seq<Seq<char>> {
    Seq::new(files.len(), |i: int| files[i].path)
}

/// The sum of the sizes of some files, where no sum on the way leaves `i64`.
pub open spec fn files_total(files: Seq<StoredFileView>) -> Option<int>
    decreases files.len(),
{
    if files.len() == 0 {
        Some(0)
    } else {
        match files_total(files.drop_last()) {
            Some(t) => if i64::MIN <= t + files.last().size <= i64::MAX {
                Some(t + files.last().size)
            } else {
                None
            },
            None => None,
        }
    }
}

/// How many of some names are not `metadata.enc`.
pub open spec fn content_count(names: Seq<Seq<char>>) -> int
    decreases names.len(),
{
    if names.len() == 0 {
        0
    } else {
        content_count(names.drop_last()) + if names.last() != "metadata.enc"@ {
            1int
        } else {
            0
        }
    }
}

/// The paths of some files, how many of them are not `metadata.enc`, and the sum of their sizes.
fn sum_up(files: &Vec<StoredFile>) -> (r: (Vec<String>, usize, Option<i64>))
    ensures
        views(r.0@) == paths(views(files@)),
        r.1 == content_count(paths(views(files@))),
        match r.2 {
            Some(n) => files_total(views(files@)) == Some(n as int),
            None => files_total(views(files@)) is None,
        },
{
    let ghost all = views(files@);
    let mut names: Vec<String> = Vec::new();
    let mut count: usize = 0;
    let mut total: Option<i64> = Some(0);
    let mut i: usize = 0;
    proof {
        assert(views(names@) =~= paths(all.take(0)));
    }
    while i < files.len()
        invariant
            i <= files@.len(),
            all == views(files@),
            views(names@) == paths(all.take(i as int)),
            count == content_count(paths(all.take(i as int))),
            count <= i,
            match total {
                Some(n) => files_total(all.take(i as int)) == Some(n as int),
                None => files_total(all.take(i as int)) is None,
            },
        decreases files@.len() - i,
    {
        let f = &files[i];
        let ghost before = names@;
        names.push(f.path.clone());
        if !same(f.path.as_str(), "metadata.enc") {
            count = count + 1;
        }
        total =
        match total {
            Some(t) => t.checked_add(f.size),
            None => None,
        };
        proof {
            let next = all.take(i + 1);
            assert(next.drop_last() =~= all.take(i as int));
            assert(next.last() == f@);
            assert(paths(next).drop_last() =~= paths(all.take(i as int)));
            assert(views(names@) =~= views(before).push(f.path@));
            assert(paths(next) =~= paths(all.take(i as int)).push(f.path@));
        }
        i = i + 1;
    }
    proof {
        assert(all.take(all.len() as int) =~= all);
    }
    (names, count, total)
}

// ---------------------------------------------------------------------------
// Owner and index
// ---------------------------------------------------------------------------

/// Records who owns a share.
pub open spec fn record_owner(
    username: Seq<char>,
    uuid: Seq<char>,
    heard: Seq<Reply>,
    at: int,
) -> FlowView<OutcomeView> {
    if at >= heard.len() {
        FlowView::Stop(
            NextView::Perform(
                ActionView::Put {
                    key: share_key(uuid, "owner.txt"@),
                    content_type: "text/plain"@,
                    body: encode_utf8(username),
                },
            ),
        )
    } else {
        match heard[at] {
            Reply::Done => FlowView::Go(OutcomeView::Done, at + 1),
            Reply::Failed(e) => FlowView::Go(
                OutcomeView::Failed("Failed to save owner: "@ + e.debug@),
                at + 1,
            ),
            _ => FlowView::Stop(NextView::Misheard),
        }
    }
}

/// Records who owns a share.
fn do_record_owner(username: &str, uuid: &str, heard: &Vec<Reply>, at: usize) -> (r: Flow<Outcome>)
    requires
        at <= heard@.len(),
    ensures
        r@ == record_owner(username@, uuid@, heard@, at as int),
        r matches Flow::Go(_, a) ==> at < a <= heard@.len(),
        readable_flow(r@),
{
    if at >= heard.len() {
        return Flow::Stop(
            ask_put_text(make_share_key(uuid, "owner.txt"), username.as_bytes_vec()),
        );
    }
    match &heard[at] {
        Reply::Done => Flow::Go(Outcome::Done, at + 1),
        Reply::Failed(e) => {
            let mut message = "Failed to save owner: ".to_owned();
            message.append(e.debug.as_str());
            Flow::Go(Outcome::Failed(message), at + 1)
        },
        _ => Flow::Stop(Next::Misheard),
    }
}

/// Enters a share into the index of its owner: reads the index, reads the clock, writes the index
/// back with one more entry.
pub open spec fn record_share(
    username: Seq<char>,
    uuid: Seq<char>,
    files_count: int,
    total_size: int,
    heard: Seq<Reply>,
    at: int,
) -> FlowView<OutcomeView> {
    if at >= heard.len() {
        FlowView::Stop(NextView::Perform(ActionView::Get { key: index_key(username) }))
    } else {
        match heard[at] {
            Reply::Object(index) => if at + 1 >= heard.len() {
                FlowView::Stop(NextView::Perform(ActionView::Clock))
            } else {
                match heard[at + 1] {
                    Reply::Time(now) => match rfc3339(now.secs as int, now.nanos as int) {
                        Some(created_at) => if at + 2 >= heard.len() {
                            FlowView::Stop(
                                NextView::Perform(
                                    ActionView::Put {
                                        key: index_key(username),
                                        content_type: "application/json"@,
                                        body: index_with(
                                            index_entries(index),
                                            share_entry(uuid, files_count, total_size, created_at),
                                        ),
                                    },
                                ),
                            )
                        } else {
                            match heard[at + 2] {
                                Reply::Done => FlowView::Go(OutcomeView::Done, at + 3),
                                Reply::Failed(e) => FlowView::Go(
                                    OutcomeView::Failed(
                                        "Failed to save public shares list: "@ + e.debug@,
                                    ),
                                    at + 3,
                                ),
                                _ => FlowView::Stop(NextView::Misheard),
                            }
                        },
                        None => FlowView::Stop(NextView::Crash),
                    },
                    _ => FlowView::Stop(NextView::Misheard),
                }
            },
            _ => FlowView::Stop(NextView::Misheard),
        }
    }
}

/// Enters a share into the index of its owner.
fn do_record_share(
    username: &str,
    uuid: &str,
    files_count: usize,
    total_size: i64,
    heard: &Vec<Reply>,
    at: usize,
) -> (r: Flow<Outcome>)
    requires
        at <= heard@.len(),
    ensures
        r@ == record_share(
            username@,
            uuid@,
            files_count as int,
            total_size as int,
            heard@,
            at as int,
        ),
        r matches Flow::Go(_, a) ==> at < a <= heard@.len(),
        readable_flow(r@),
{
    let key = make_index_key(username);
    if at >= heard.len() {
        return Flow::Stop(ask_get(key));
    }
    let index = match &heard[at] {
        Reply::Object(index) => index,
        _ => {
            return Flow::Stop(Next::Misheard);
        },
    };
    if at + 1 >= heard.len() {
        return Flow::Stop(Next::Perform(Action::Clock));
    }
    let now = match &heard[at + 1] {
        Reply::Time(now) => *now,
        _ => {
            return Flow::Stop(Next::Misheard);
        },
    };
    let created_at = match rfc3339_text(now.secs, now.nanos) {
        Some(t) => t,
        None => {
            return Flow::Stop(Next::Crash);
        },
    };
    if at + 2 >= heard.len() {
        let entries = read_index(index);
        let entry = make_share_entry(uuid, files_count, total_size, created_at.as_str());
        return Flow::Stop(ask_put_json(key, write_index_with(entries, entry)));
    }
    match &heard[at + 2] {
        Reply::Done => Flow::Go(Outcome::Done, at + 3),
        Reply::Failed(e) => {
            let mut message = "Failed to save public shares list: ".to_owned();
            message.append(e.debug.as_str());
            Flow::Go(Outcome::Failed(message), at + 3)
        },
        _ => Flow::Stop(Next::Misheard),
    }
}

// ---------------------------------------------------------------------------
// A share in one request
// ---------------------------------------------------------------------------

/// How the upload of a share ended.
pub enum Upload {
    /// These files were stored.
    Complete(Vec<String>),
    /// It was broken off, and the client is answered this.
    Broken { status: u16, message: String },
}

/// How the upload of a share ended, over sequences.
pub enum UploadView {
    Complete(Seq<Seq<char>>),
    Broken { status: int, message: Seq<char> },
}

impl View for Upload {
    type V = UploadView;

    open spec fn view(&self) -> UploadView {
        match self {
            Upload::Complete(files) => UploadView::Complete(views(files@)),
            Upload::Broken { status, message } => UploadView::Broken {
                status: *status as int,
                message: message@,
            },
        }
    }
}

/// Stores a share: its files, its owner, its entry in the owner's index.
pub open spec fn share_upload(
    username: Seq<char>,
    uuid: Seq<char>,
    heard: Seq<Reply>,
    at: int,
) -> FlowView<UploadView> {
    match store_form(uuid, Seq::empty(), heard, at) {
        FlowView::Stop(n) => FlowView::Stop(n),
        FlowView::Go(FormView::Broken { status, message }, at) => FlowView::Go(
            UploadView::Broken { status, message },
            at,
        ),
        FlowView::Go(FormView::Ended(files), at) => match files_total(files) {
            None => FlowView::Stop(NextView::Crash),
            Some(total_size) => if files.len() == 0 {
                FlowView::Go(
                    UploadView::Broken { status: 400, message: "No files uploaded"@ },
                    at,
                )
            } else {
                match record_owner(username, uuid, heard, at) {
                    FlowView::Stop(n) => FlowView::Stop(n),
                    FlowView::Go(OutcomeView::Failed(message), at) => FlowView::Go(
                        UploadView::Broken { status: 500, message },
                        at,
                    ),
                    FlowView::Go(OutcomeView::Done, at) => match record_share(
                        username,
                        uuid,
                        content_count(paths(files)),
                        total_size,
                        heard,
                        at,
                    ) {
                        FlowView::Stop(n) => FlowView::Stop(n),
                        FlowView::Go(OutcomeView::Failed(message), at) => FlowView::Go(
                            UploadView::Broken { status: 500, message },
                            at,
                        ),
                        FlowView::Go(OutcomeView::Done, at) => FlowView::Go(
                            UploadView::Complete(paths(files)),
                            at,
                        ),
                    },
                }
            },
        },
    }
}

/// Stores a share: its files, its owner, its entry in the owner's index.
fn upload_files_inner(username: &str, uuid: &str, heard: &Vec<Reply>, start: usize) -> (r: Flow<
    Upload,
>)
    requires
        start <= heard@.len(),
    ensures
        r@ == share_upload(username@, uuid@, heard@, start as int),
        r matches Flow::Go(_, a) ==> start < a <= heard@.len(),
        readable_flow(r@),
{
    let (files, at) = match do_store_form(uuid, heard, start) {
        Flow::Stop(n) => {
            return Flow::Stop(n);
        },
        Flow::Go(Form::Broken { status, message }, at) => {
            return Flow::Go(Upload::Broken { status, message }, at);
        },
        Flow::Go(Form::Ended(files), at) => (files, at),
    };
    let (names, count, total) = sum_up(&files);
    let total_size = match total {
        Some(t) => t,
        None => {
            return Flow::Stop(Next::Crash);
        },
    };
    if files.len() == 0 {
        return Flow::Go(
            Upload::Broken { status: 400, message: "No files uploaded".to_owned() },
            at,
        );
    }
    let at: usize = match do_record_owner(username, uuid, heard, at) {
        Flow::Stop(n) => {
            return Flow::Stop(n);
        },
        Flow::Go(Outcome::Failed(message), at) => {
            return Flow::Go(Upload::Broken { status: 500, message }, at);
        },
        Flow::Go(Outcome::Done, at) => at,
    };
    match do_record_share(username, uuid, count, total_size, heard, at) {
        Flow::Stop(n) => Flow::Stop(n),
        Flow::Go(Outcome::Failed(message), at) => Flow::Go(
            Upload::Broken { status: 500, message },
            at,
        ),
        Flow::Go(Outcome::Done, at) => Flow::Go(Upload::Complete(names), at),
    }
}

/// Uploads a share in one request. Where that breaks off, everything stored for the share is
/// removed before the client is answered.
pub open spec fn upload_files_next(site: Site, headers: Headers, heard: Seq<Reply>) -> NextView {
    match caller(site, headers, heard) {
        FlowView::Stop(n) => n,
        FlowView::Go(c, _) => if heard.len() <= 1 {
            NextView::Perform(ActionView::FreshId)
        } else {
            match heard[1] {
                Reply::Id(uuid) => match share_upload(c.username, uuid@, heard, 2) {
                    FlowView::Stop(n) => n,
                    FlowView::Go(UploadView::Complete(files), _) => NextView::Done(
                        AnswerView::ShareUploaded { uuid: uuid@, files },
                    ),
                    FlowView::Go(UploadView::Broken { status, message }, at) => match prefix_deletion(
                        share_prefix(uuid@),
                        heard,
                        at,
                    ) {
                        FlowView::Stop(n) => n,
                        FlowView::Go(_, _) => refused(status, message),
                    },
                },
                _ => NextView::Misheard,
            }
        },
    }
}

/// Uploads a share in one request.
pub fn upload_files(site: &Site, headers: &Headers, heard: &Vec<Reply>) -> (r: Next)
    ensures
        r@ == upload_files_next(*site, *headers, heard@),
        readable(r@),
{
    let c = match verify_session(site, headers, heard) {
        Flow::Stop(n) => {
            return n;
        },
        Flow::Go(c, _) => c,
    };
    if heard.len() <= 1 {
        return Next::Perform(Action::FreshId);
    }
    let uuid = match &heard[1] {
        Reply::Id(uuid) => uuid,
        _ => {
            return Next::Misheard;
        },
    };
    match upload_files_inner(c.username.as_str(), uuid.as_str(), heard, 2) {
        Flow::Stop(n) => n,
        Flow::Go(Upload::Complete(files), _) => Next::Done(
            Answer::ShareUploaded { uuid: uuid.clone(), files },
        ),
        Flow::Go(Upload::Broken { status, message }, at) => {
            match delete_share_objects(uuid.as_str(), heard, at) {
                Flow::Stop(n) => n,
                Flow::Go(_, _) => Next::Done(Answer::Refused { status, message }),
            }
        },
    }
}

// ---------------------------------------------------------------------------
// A share in several requests
// ---------------------------------------------------------------------------

/// The marker that an upload is under way.
pub open spec fn active_key(uuid: Seq<char>) -> Seq<char> {
    share_key(uuid, ".active"@)
}

/// Begins a share: gives it an id and marks it as under way, whatever comes of that.
pub open spec fn upload_init_next(site: Site, headers: Headers, heard: Seq<Reply>) -> NextView {
    match caller(site, headers, heard) {
        FlowView::Stop(n) => n,
        FlowView::Go(_, _) => if heard.len() <= 1 {
            NextView::Perform(ActionView::FreshId)
        } else {
            match heard[1] {
                Reply::Id(uuid) => if heard.len() <= 2 {
                    NextView::Perform(
                        ActionView::Put {
                            key: active_key(uuid@),
                            content_type: "text/plain"@,
                            body: encode_utf8("active"@),
                        },
                    )
                } else if settled(heard[2]) {
                    NextView::Done(AnswerView::ShareBegun { uuid: uuid@ })
                } else {
                    NextView::Misheard
                },
                _ => NextView::Misheard,
            }
        },
    }
}

/// Begins a share.
pub fn upload_init(site: &Site, headers: &Headers, heard: &Vec<Reply>) -> (r: Next)
    ensures
        r@ == upload_init_next(*site, *headers, heard@),
        readable(r@),
{
    match verify_session(site, headers, heard) {
        Flow::Stop(n) => {
            return n;
        },
        Flow::Go(_, _) => {},
    }
    if heard.len() <= 1 {
        return Next::Perform(Action::FreshId);
    }
    let uuid = match &heard[1] {
        Reply::Id(uuid) => uuid,
        _ => {
            return Next::Misheard;
        },
    };
    if heard.len() <= 2 {
        return ask_put_text(
            make_share_key(uuid.as_str(), ".active"),
            "active".as_bytes_vec(),
        );
    }
    if is_settled(&heard[2]) {
        Next::Done(Answer::ShareBegun { uuid: uuid.clone() })
    } else {
        Next::Misheard
    }
}

/// Renews the marker that an upload is under way.
pub open spec fn upload_ping_next(
    site: Site,
    headers: Headers,
    uuid: Seq<char>,
    heard: Seq<Reply>,
) -> NextView {
    match caller(site, headers, heard) {
        FlowView::Stop(n) => n,
        FlowView::Go(_, _) => if heard.len() <= 1 {
            NextView::Perform(
                ActionView::Put {
                    key: active_key(uuid),
                    content_type: "text/plain"@,
                    body: encode_utf8("active"@),
                },
            )
        } else {
            match heard[1] {
                Reply::Done => NextView::Done(AnswerView::Status { status: "ok"@ }),
                Reply::Failed(e) => refused(500, "Failed to update heartbeat: "@ + e.debug@),
                _ => NextView::Misheard,
            }
        },
    }
}

/// Renews the marker that an upload is under way.
pub fn upload_ping(site: &Site, headers: &Headers, uuid: &str, heard: &Vec<Reply>) -> (r: Next)
    ensures
        r@ == upload_ping_next(*site, *headers, uuid@, heard@),
        readable(r@),
{
    match verify_session(site, headers, heard) {
        Flow::Stop(n) => {
            return n;
        },
        Flow::Go(_, _) => {},
    }
    if heard.len() <= 1 {
        return ask_put_text(make_share_key(uuid, ".active"), "active".as_bytes_vec());
    }
    match &heard[1] {
        Reply::Done => Next::Done(Answer::Status { status: "ok".to_owned() }),
        Reply::Failed(e) => refuse_with(500, "Failed to update heartbeat: ", e.debug.as_str()),
        _ => Next::Misheard,
    }
}

/// Stores files of a share, then renews the marker while the client is answered.
pub open spec fn upload_chunk_or_file_next(
    site: Site,
    headers: Headers,
    uuid: Seq<char>,
    heard: Seq<Reply>,
) -> NextView {
    match caller(site, headers, heard) {
        FlowView::Stop(n) => n,
        FlowView::Go(_, _) => match store_form(uuid, Seq::empty(), heard, 1) {
            FlowView::Stop(n) => n,
            FlowView::Go(FormView::Broken { status, message }, _) => refused(status, message),
            FlowView::Go(FormView::Ended(files), at) => if at >= heard.len() {
                NextView::Perform(
                    ActionView::PutInBackground {
                        key: active_key(uuid),
                        content_type: "text/plain"@,
                        body: encode_utf8("active"@),
                    },
                )
            } else {
                NextView::Done(AnswerView::FilesStored { files: paths(files) })
            },
        },
    }
}

/// Stores files of a share.
pub fn upload_chunk_or_file(site: &Site, headers: &Headers, uuid: &str, heard: &Vec<Reply>) -> (r:
    Next)
    ensures
        r@ == upload_chunk_or_file_next(*site, *headers, uuid@, heard@),
        readable(r@),
{
    match verify_session(site, headers, heard) {
        Flow::Stop(n) => {
            return n;
        },
        Flow::Go(_, _) => {},
    }
    match do_store_form(uuid, heard, 1) {
        Flow::Stop(n) => n,
        Flow::Go(Form::Broken { status, message }, _) => Next::Done(
            Answer::Refused { status, message },
        ),
        Flow::Go(Form::Ended(files), at) => {
            if at >= heard.len() {
                return Next::Perform(
                    Action::PutInBackground {
                        key: make_share_key(uuid, ".active"),
                        content_type: "text/plain".to_owned(),
                        body: "active".as_bytes_vec(),
                    },
                );
            }
            let (names, _, _) = sum_up(&files);
            Next::Done(Answer::FilesStored { files: names })
        },
    }
}

/// The name of an object relative to a prefix; its key where it does not begin with it.
pub open spec fn relative(key: Seq<char>, prefix: Seq<char>) -> Seq<char> {
    match after_prefix(key, prefix) {
        Some(r) => r,
        None => key,
    }
}

/// The name of an object relative to a prefix.
pub fn relative_name(key: &String, prefix: &str) -> (r: String)
    ensures
        r@ == relative(key@, prefix@),
{
    match strip_prefix(key.as_str(), prefix) {
        Some(r) => r,
        None => key.clone(),
    }
}

/// Whether an object of a share marks something and is no file.
pub open spec fn is_marker(name: Seq<char>) -> bool {
    name == "owner.txt"@ || name == ".active"@
}

/// Whether an object of a share marks something and is no file.
pub fn marks(name: &str) -> (r: bool)
    ensures
        r == is_marker(name@),
{
    same(name, "owner.txt") || same(name, ".active")
}

/// Whether a file of a share goes with other files: the metadata and the thumbnails.
pub open spec fn is_companion(name: Seq<char>) -> bool {
    name == "metadata.enc"@ || finishes(name, ".thumb.enc"@)
}

/// Whether a file of a share goes with other files.
fn accompanies(name: &str) -> (r: bool)
    ensures
        r == is_companion(name@),
{
    same(name, "metadata.enc") || ends_with(name, ".thumb.enc")
}

/// The files among the listed objects of a share.
pub open spec fn share_files(objects: Seq<S3ListedObject>, prefix: Seq<char>) -> Seq<Seq<char>>
    decreases objects.len(),
{
    if objects.len() == 0 {
        Seq::empty()
    } else {
        let before = share_files(objects.drop_last(), prefix);
        match objects.last().key {
            Some(k) => if is_marker(relative(k@, prefix)) {
                before
            } else {
                before.push(relative(k@, prefix))
            },
            None => before,
        }
    }
}

/// The size of a listed object, or zero.
pub open spec fn object_size(o: S3ListedObject) -> int {
    match o.size {
        Some(n) => n as int,
        None => 0,
    }
}

/// The sum of the sizes of those listed objects that are files and go with no others, where no sum
/// on the way leaves `i64`.
pub open spec fn share_size(objects: Seq<S3ListedObject>, prefix: Seq<char>) -> Option<int>
    decreases objects.len(),
{
    if objects.len() == 0 {
        Some(0)
    } else {
        match share_size(objects.drop_last(), prefix) {
            Some(t) => match objects.last().key {
                Some(k) => {
                    let name = relative(k@, prefix);
                    if is_marker(name) || is_companion(name) {
                        Some(t)
                    } else if i64::MIN <= t + object_size(objects.last()) <= i64::MAX {
                        Some(t + object_size(objects.last()))
                    } else {
                        None
                    }
                },
                None => Some(t),
            },
            None => None,
        }
    }
}

/// How many of some files go with no others.
pub open spec fn main_count(names: Seq<Seq<char>>) -> int
    decreases names.len(),
{
    if names.len() == 0 {
        0
    } else {
        main_count(names.drop_last()) + if is_companion(names.last()) {
            0int
        } else {
            1
        }
    }
}

/// The files among the listed objects of a share, how many go with no others, and the sum of the
/// sizes of those.
fn look_through(objects: &Vec<S3ListedObject>, prefix: &str) -> (r: (
    Vec<String>,
    usize,
    Option<i64>,
))
    ensures
        views(r.0@) == share_files(objects@, prefix@),
        r.1 == main_count(share_files(objects@, prefix@)),
        match r.2 {
            Some(n) => share_size(objects@, prefix@) == Some(n as int),
            None => share_size(objects@, prefix@) is None,
        },
{
    let mut names: Vec<String> = Vec::new();
    let mut count: usize = 0;
    let mut total: Option<i64> = Some(0);
    let mut i: usize = 0;
    proof {
        assert(views(names@) =~= share_files(objects@.take(0), prefix@));
    }
    while i < objects.len()
        invariant
            i <= objects@.len(),
            views(names@) == share_files(objects@.take(i as int), prefix@),
            count == main_count(share_files(objects@.take(i as int), prefix@)),
            count <= i,
            match total {
                Some(n) => share_size(objects@.take(i as int), prefix@) == Some(n as int),
                None => share_size(objects@.take(i as int), prefix@) is None,
            },
        decreases objects@.len() - i,
    {
        let o = &objects[i];
        let ghost before = names@;
        proof {
            assert(objects@.take(i + 1).drop_last() =~= objects@.take(i as int));
            assert(objects@.take(i + 1).last() == objects@[i as int]);
        }
        if let Some(k) = &o.key {
            let name = relative_name(k, prefix);
            if !marks(name.as_str()) {
                if !accompanies(name.as_str()) {
                    count = count + 1;
                    let size: i64 = match o.size {
                        Some(n) => n,
                        None => 0,
                    };
                    total =
                    match total {
                        Some(t) => t.checked_add(size),
                        None => None,
                    };
                }
                names.push(name);
                proof {
                    assert(views(names@) =~= views(before).push(name@));
                    assert(views(names@).drop_last() =~= views(before));
                }
            }
        }
        i = i + 1;
    }
    proof {
        assert(objects@.take(objects@.len() as int) =~= objects@);
    }
    (names, count, total)
}

/// What a client says of a share that it has uploaded.
pub struct UploadFinishReq {
    pub files_count: Option<usize>,
    pub total_size: Option<i64>,
}

/// The listed objects; none where the list failed.
pub open spec fn objects_heard(reply: Reply) -> Option<Seq<S3ListedObject>> {
    match reply {
        Reply::Objects(objects) => Some(objects@),
        Reply::Failed(_) => Some(Seq::empty()),
        _ => None,
    }
}

/// Ends a share: records its owner, looks at what was stored, enters the share into the index. What
/// the client says of number and size goes before what was found.
pub open spec fn upload_finish_next(
    site: Site,
    headers: Headers,
    uuid: Seq<char>,
    req: UploadFinishReq,
    heard: Seq<Reply>,
) -> NextView {
    match caller(site, headers, heard) {
        FlowView::Stop(n) => n,
        FlowView::Go(c, _) => match record_owner(c.username, uuid, heard, 1) {
            FlowView::Stop(n) => n,
            FlowView::Go(OutcomeView::Failed(message), _) => refused(500, message),
            FlowView::Go(OutcomeView::Done, _) => if heard.len() <= 2 {
                NextView::Perform(ActionView::ListPage { prefix: share_prefix(uuid) })
            } else {
                match objects_heard(heard[2]) {
                    None => NextView::Misheard,
                    Some(objects) => match share_size(objects, share_prefix(uuid)) {
                        None => NextView::Crash,
                        Some(found_size) => {
                            let files = share_files(objects, share_prefix(uuid));
                            let files_count = match req.files_count {
                                Some(n) => n as int,
                                None => main_count(files),
                            };
                            let total_size = match req.total_size {
                                Some(n) => n as int,
                                None => found_size,
                            };
                            match record_share(
                                c.username,
                                uuid,
                                files_count,
                                total_size,
                                heard,
                                3,
                            ) {
                                FlowView::Stop(n) => n,
                                FlowView::Go(OutcomeView::Failed(message), _) => refused(
                                    500,
                                    message,
                                ),
                                FlowView::Go(OutcomeView::Done, _) => NextView::Done(
                                    AnswerView::ShareUploaded { uuid, files },
                                ),
                            }
                        },
                    },
                }
            },
        },
    }
}

/// Ends a share.
pub fn upload_finish(
    site: &Site,
    headers: &Headers,
    uuid: &str,
    req: &UploadFinishReq,
    heard: &Vec<Reply>,
) -> (r: Next)
    ensures
        r@ == upload_finish_next(*site, *headers, uuid@, *req, heard@),
        readable(r@),
{
    let c = match verify_session(site, headers, heard) {
        Flow::Stop(n) => {
            return n;
        },
        Flow::Go(c, _) => c,
    };
    match do_record_owner(c.username.as_str(), uuid, heard, 1) {
        Flow::Stop(n) => {
            return n;
        },
        Flow::Go(Outcome::Failed(message), _) => {
            return Next::Done(Answer::Refused { status: 500, message });
        },
        Flow::Go(Outcome::Done, _) => {},
    }
    let prefix = make_share_prefix(uuid);
    if heard.len() <= 2 {
        return Next::Perform(Action::ListPage { prefix });
    }
    let none: Vec<S3ListedObject> = Vec::new();
    let objects = match &heard[2] {
        Reply::Objects(objects) => objects,
        Reply::Failed(_) => &none,
        _ => {
            return Next::Misheard;
        },
    };
    proof {
        assert(none@ =~= Seq::<S3ListedObject>::empty());
    }
    let (files, found_count, found_size) = look_through(objects, prefix.as_str());
    let found_size: i64 = match found_size {
        Some(n) => n,
        None => {
            return Next::Crash;
        },
    };
    let files_count: usize = match req.files_count {
        Some(n) => n,
        None => found_count,
    };
    let total_size: i64 = match req.total_size {
        Some(n) => n,
        None => found_size,
    };
    match do_record_share(c.username.as_str(), uuid, files_count, total_size, heard, 3) {
        Flow::Stop(n) => n,
        Flow::Go(Outcome::Failed(message), _) => Next::Done(
            Answer::Refused { status: 500, message },
        ),
        Flow::Go(Outcome::Done, _) => Next::Done(
            Answer::ShareUploaded { uuid: uuid.to_owned(), files },
        ),
    }
}

/// Gives a share up: removes everything stored for it.
pub open spec fn upload_abort_next(
    site: Site,
    headers: Headers,
    uuid: Seq<char>,
    heard: Seq<Reply>,
) -> NextView {
    match caller(site, headers, heard) {
        FlowView::Stop(n) => n,
        FlowView::Go(_, _) => match prefix_deletion(share_prefix(uuid), heard, 1) {
            FlowView::Stop(n) => n,
            FlowView::Go(OutcomeView::Failed(message), _) => refused(500, message),
            FlowView::Go(OutcomeView::Done, _) => NextView::Done(
                AnswerView::Status { status: "aborted"@ },
            ),
        },
    }
}

/// Gives a share up.
pub fn upload_abort(site: &Site, headers: &Headers, uuid: &str, heard: &Vec<Reply>) -> (r: Next)
    ensures
        r@ == upload_abort_next(*site, *headers, uuid@, heard@),
        readable(r@),
{
    match verify_session(site, headers, heard) {
        Flow::Stop(n) => {
            return n;
        },
        Flow::Go(_, _) => {},
    }
    match delete_share_objects(uuid, heard, 1) {
        Flow::Stop(n) => n,
        Flow::Go(Outcome::Failed(message), _) => Next::Done(
            Answer::Refused { status: 500, message },
        ),
        Flow::Go(Outcome::Done, _) => Next::Done(Answer::Status { status: "aborted".to_owned() }),
    }
}

// ---------------------------------------------------------------------------
// A file in parts
// ---------------------------------------------------------------------------

/// Begins the upload of a file in parts.
pub open spec fn upload_multipart_init_next(
    site: Site,
    headers: Headers,
    uuid: Seq<char>,
    file_name: Seq<char>,
    heard: Seq<Reply>,
) -> NextView {
    match caller(site, headers, heard) {
        FlowView::Stop(n) => n,
        FlowView::Go(_, _) => if heard.len() <= 1 {
            NextView::Perform(
                ActionView::CreateUpload {
                    key: share_key(uuid, file_name),
                    content_type: media_type(file_name),
                },
            )
        } else {
            match heard[1] {
                Reply::UploadId(Some(id)) => NextView::Done(
                    AnswerView::UploadBegun { upload_id: id@ },
                ),
                Reply::UploadId(None) => refused(500, "No upload_id returned from S3"@),
                Reply::Failed(e) => refused(
                    500,
                    "Failed to create S3 multipart upload: "@ + e.debug@,
                ),
                _ => NextView::Misheard,
            }
        },
    }
}

/// Begins the upload of a file in parts.
pub fn upload_multipart_init(
    site: &Site,
    headers: &Headers,
    uuid: &str,
    file_name: &str,
    heard: &Vec<Reply>,
) -> (r: Next)
    ensures
        r@ == upload_multipart_init_next(*site, *headers, uuid@, file_name@, heard@),
        readable(r@),
{
    match verify_session(site, headers, heard) {
        Flow::Stop(n) => {
            return n;
        },
        Flow::Go(_, _) => {},
    }
    if heard.len() <= 1 {
        return Next::Perform(
            Action::CreateUpload {
                key: make_share_key(uuid, file_name),
                content_type: guess_media_type(file_name),
            },
        );
    }
    match &heard[1] {
        Reply::UploadId(Some(id)) => Next::Done(Answer::UploadBegun { upload_id: id.clone() }),
        Reply::UploadId(None) => refuse(500, "No upload_id returned from S3"),
        Reply::Failed(e) => refuse_with(
            500,
            "Failed to create S3 multipart upload: ",
            e.debug.as_str(),
        ),
        _ => Next::Misheard,
    }
}

/// Stores a part of a file, then renews the marker while the client is answered.
pub open spec fn upload_multipart_part_next(
    site: Site,
    headers: Headers,
    uuid: Seq<char>,
    upload_id: Seq<char>,
    part_number: int,
    file_name: Seq<char>,
    heard: Seq<Reply>,
) -> NextView {
    match caller(site, headers, heard) {
        FlowView::Stop(n) => n,
        FlowView::Go(_, _) => if heard.len() <= 1 {
            NextView::Perform(
                ActionView::UploadPart { key: share_key(uuid, file_name), upload_id, part_number },
            )
        } else {
            match heard[1] {
                Reply::ETag(tag) => if heard.len() <= 2 {
                    NextView::Perform(
                        ActionView::PutInBackground {
                            key: active_key(uuid),
                            content_type: "text/plain"@,
                            body: encode_utf8("active"@),
                        },
                    )
                } else {
                    NextView::Done(
                        AnswerView::PartStored {
                            part_number,
                            e_tag: match tag {
                                Some(t) => t@,
                                None => Seq::empty(),
                            },
                        },
                    )
                },
                Reply::Failed(e) => refused(500, "Failed to upload part: "@ + e.debug@),
                _ => NextView::Misheard,
            }
        },
    }
}

/// Stores a part of a file.
pub fn upload_multipart_part(
    site: &Site,
    headers: &Headers,
    uuid: &str,
    upload_id: &str,
    part_number: i32,
    file_name: &str,
    heard: &Vec<Reply>,
) -> (r: Next)
    ensures
        r@ == upload_multipart_part_next(
            *site,
            *headers,
            uuid@,
            upload_id@,
            part_number as int,
            file_name@,
            heard@,
        ),
        readable(r@),
{
    match verify_session(site, headers, heard) {
        Flow::Stop(n) => {
            return n;
        },
        Flow::Go(_, _) => {},
    }
    if heard.len() <= 1 {
        return Next::Perform(
            Action::UploadPart {
                key: make_share_key(uuid, file_name),
                upload_id: upload_id.to_owned(),
                part_number,
            },
        );
    }
    match &heard[1] {
        Reply::ETag(tag) => {
            if heard.len() <= 2 {
                return Next::Perform(
                    Action::PutInBackground {
                        key: make_share_key(uuid, ".active"),
                        content_type: "text/plain".to_owned(),
                        body: "active".as_bytes_vec(),
                    },
                );
            }
            let e_tag = match tag {
                Some(t) => t.clone(),
                None => String::new(),
            };
            Next::Done(Answer::PartStored { part_number, e_tag })
        },
        Reply::Failed(e) => refuse_with(500, "Failed to upload part: ", e.debug.as_str()),
        _ => Next::Misheard,
    }
}

/// A copy of some parts.
fn copy_parts(parts: &Vec<CompletedPart>) -> (r: Vec<CompletedPart>)
    ensures
        views(r@) == views(parts@),
{
    let mut r: Vec<CompletedPart> = Vec::new();
    let mut i: usize = 0;
    while i < parts.len()
        invariant
            i <= parts@.len(),
            r@ == parts@.take(i as int),
        decreases parts@.len() - i,
    {
        let p = &parts[i];
        r.push(CompletedPart { e_tag: p.e_tag.clone(), part_number: p.part_number });
        proof {
            assert(parts@.take(i + 1) =~= parts@.take(i as int).push(parts@[i as int]));
        }
        i = i + 1;
    }
    proof {
        assert(parts@.take(parts@.len() as int) =~= parts@);
    }
    r
}

/// Ends the upload of a file in parts.
pub open spec fn upload_multipart_complete_next(
    site: Site,
    headers: Headers,
    uuid: Seq<char>,
    upload_id: Seq<char>,
    file_name: Seq<char>,
    parts: Seq<CompletedPart>,
    heard: Seq<Reply>,
) -> NextView {
    match caller(site, headers, heard) {
        FlowView::Stop(n) => n,
        FlowView::Go(_, _) => if heard.len() <= 1 {
            NextView::Perform(
                ActionView::CompleteUpload {
                    key: share_key(uuid, file_name),
                    upload_id,
                    parts: views(parts),
                },
            )
        } else {
            match heard[1] {
                Reply::Done => NextView::Done(AnswerView::Status { status: "ok"@ }),
                Reply::Failed(e) => refused(
                    500,
                    "Failed to complete S3 multipart upload: "@ + e.debug@,
                ),
                _ => NextView::Misheard,
            }
        },
    }
}

/// Ends the upload of a file in parts.
pub fn upload_multipart_complete(
    site: &Site,
    headers: &Headers,
    uuid: &str,
    upload_id: &str,
    file_name: &str,
    parts: &Vec<CompletedPart>,
    heard: &Vec<Reply>,
) -> (r: Next)
    ensures
        r@ == upload_multipart_complete_next(
            *site,
            *headers,
            uuid@,
            upload_id@,
            file_name@,
            parts@,
            heard@,
        ),
        readable(r@),
{
    match verify_session(site, headers, heard) {
        Flow::Stop(n) => {
            return n;
        },
        Flow::Go(_, _) => {},
    }
    if heard.len() <= 1 {
        return Next::Perform(
            Action::CompleteUpload {
                key: make_share_key(uuid, file_name),
                upload_id: upload_id.to_owned(),
                parts: copy_parts(parts),
            },
        );
    }
    match &heard[1] {
        Reply::Done => Next::Done(Answer::Status { status: "ok".to_owned() }),
        Reply::Failed(e) => refuse_with(
            500,
            "Failed to complete S3 multipart upload: ",
            e.debug.as_str(),
        ),
        _ => Next::Misheard,
    }
}

} // verus!
