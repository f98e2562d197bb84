//! What a request asks of the outside world, what it hears back, and what it answers.
//!
//! A request is answered by a function of what it has heard so far. That function names the next
//! action, or the answer; the caller performs the action, appends what it heard and calls again.

use vstd::prelude::*;
use crate::clock::UtcTime;
use crate::json::{json_trees, reads_back, JsonTree};
use crate::model::{opt_view, views};
use crate::session::{SessionView, UserSession};
use crate::storage::{CompletedPart, CompletedPartView, S3ListedObject};

verus! {

// ---------------------------------------------------------------------------
// Actions
// ---------------------------------------------------------------------------

/// What a request asks for.
pub enum Action {
    /// The bytes of an object.
    Get { key: String },
    /// The sessions that an object lists.
    GetSessions { key: String },
    /// Stores an object.
    Put { key: String, content_type: String, body: Vec<u8> },
    /// Stores an object while the request goes on.
    PutInBackground { key: String, content_type: String, body: Vec<u8> },
    /// Stores a list of sessions as an object.
    PutSessions { key: String, sessions: Vec<UserSession> },
    /// Whether there is an object.
    Head { key: String },
    /// Removes an object.
    Delete { key: String },
    /// Removes some objects by one call.
    DeleteBatch { keys: Vec<String> },
    /// The objects whose keys begin with the prefix, from all pages.
    ListAll { prefix: String },
    /// The objects whose keys begin with the prefix, from the first page.
    ListPage { prefix: String },
    /// The unfinished uploads whose keys begin with the prefix, from the first page.
    ListUploads { prefix: String },
    /// Starts an upload in parts.
    CreateUpload { key: String, content_type: String },
    /// Stores the body of the request as a part of an upload.
    UploadPart { key: String, upload_id: String, part_number: i32 },
    /// Ends an upload in parts.
    CompleteUpload { key: String, upload_id: String, parts: Vec<CompletedPart> },
    /// Drops an upload in parts.
    AbortUpload { key: String, upload_id: String },
    /// The next field of the form in the body of the request.
    NextField,
    /// Reads the current field of the form and stores it as an object.
    StoreField { key: String, content_type: String },
    /// An object whose bytes are passed on to the client.
    Fetch { key: String, range: Option<String> },
    /// A new random identifier.
    FreshId,
    /// A new random secret.
    FreshSecret,
    /// The time.
    Clock,
}

/// What a request asks for, over sequences.
pub enum ActionView {
    Get { key: Seq<char> },
    GetSessions { key: Seq<char> },
    Put { key: Seq<char>, content_type: Seq<char>, body: Seq<u8> },
    PutInBackground { key: Seq<char>, content_type: Seq<char>, body: Seq<u8> },
    PutSessions { key: Seq<char>, sessions: Seq<SessionView> },
    Head { key: Seq<char> },
    Delete { key: Seq<char> },
    DeleteBatch { keys: Seq<Seq<char>> },
    ListAll { prefix: Seq<char> },
    ListPage { prefix: Seq<char> },
    ListUploads { prefix: Seq<char> },
    CreateUpload { key: Seq<char>, content_type: Seq<char> },
    UploadPart { key: Seq<char>, upload_id: Seq<char>, part_number: int },
    CompleteUpload { key: Seq<char>, upload_id: Seq<char>, parts: Seq<CompletedPartView> },
    AbortUpload { key: Seq<char>, upload_id: Seq<char> },
    NextField,
    StoreField { key: Seq<char>, content_type: Seq<char> },
    Fetch { key: Seq<char>, range: Option<Seq<char>> },
    FreshId,
    FreshSecret,
    Clock,
}

impl View for Action {
    type V = ActionView;

    open spec fn view(&self) -> ActionView {
        match self {
            Action::Get { key } => ActionView::Get { key: key@ },
            Action::GetSessions { key } => ActionView::GetSessions { key: key@ },
            Action::Put { key, content_type, body } => ActionView::Put {
                key: key@,
                content_type: content_type@,
                body: body@,
            },
            Action::PutInBackground { key, content_type, body } => ActionView::PutInBackground {
                key: key@,
                content_type: content_type@,
                body: body@,
            },
            Action::PutSessions { key, sessions } => ActionView::PutSessions {
                key: key@,
                sessions: views(sessions@),
            },
            Action::Head { key } => ActionView::Head { key: key@ },
            Action::Delete { key } => ActionView::Delete { key: key@ },
            Action::DeleteBatch { keys } => ActionView::DeleteBatch { keys: views(keys@) },
            Action::ListAll { prefix } => ActionView::ListAll { prefix: prefix@ },
            Action::ListPage { prefix } => ActionView::ListPage { prefix: prefix@ },
            Action::ListUploads { prefix } => ActionView::ListUploads { prefix: prefix@ },
            Action::CreateUpload { key, content_type } => ActionView::CreateUpload {
                key: key@,
                content_type: content_type@,
            },
            Action::UploadPart { key, upload_id, part_number } => ActionView::UploadPart {
                key: key@,
                upload_id: upload_id@,
                part_number: *part_number as int,
            },
            Action::CompleteUpload { key, upload_id, parts } => ActionView::CompleteUpload {
                key: key@,
                upload_id: upload_id@,
                parts: views(parts@),
            },
            Action::AbortUpload { key, upload_id } => ActionView::AbortUpload {
                key: key@,
                upload_id: upload_id@,
            },
            Action::NextField => ActionView::NextField,
            Action::StoreField { key, content_type } => ActionView::StoreField {
                key: key@,
                content_type: content_type@,
            },
            Action::Fetch { key, range } => ActionView::Fetch { key: key@, range: opt_view(*range) },
            Action::FreshId => ActionView::FreshId,
            Action::FreshSecret => ActionView::FreshSecret,
            Action::Clock => ActionView::Clock,
        }
    }
}

// ---------------------------------------------------------------------------
// Replies
// ---------------------------------------------------------------------------

/// Why a call of the service failed: its message, and its description for developers.
pub struct ServiceError {
    pub display: String,
    pub debug: String,
}

/// What is heard of an object.
pub enum ObjectReply {
    /// The service did not give it.
    Absent,
    /// The service gave it, and its bytes broke off.
    BodyFailed(ServiceError),
    /// Its bytes.
    Bytes(Vec<u8>),
}

/// What is heard of a list of sessions.
pub enum SessionsReply {
    /// The service did not give the object.
    Absent,
    /// The service gave the object, and its bytes broke off.
    BodyFailed,
    /// The bytes are not a list of sessions.
    Malformed,
    /// The sessions.
    Loaded(Vec<UserSession>),
}

/// An unfinished upload in a list of the service.
pub struct ListedUpload {
    pub key: Option<String>,
    pub upload_id: Option<String>,
    pub initiated_secs: Option<i64>,
}

/// What is heard of a field of the form.
pub enum FieldReply {
    /// There is no further field.
    End,
    /// A field that is not a file.
    Unnamed,
    /// A file of that name.
    Named(String),
}

/// What is heard of an object whose bytes are passed on.
pub struct FileReply {
    pub content_type: Option<String>,
    pub content_length: Option<i64>,
    pub content_range: Option<String>,
}

/// What a request hears.
pub enum Reply {
    Object(ObjectReply),
    Sessions(SessionsReply),
    /// The call succeeded.
    Done,
    /// The call failed.
    Failed(ServiceError),
    /// The sessions could not be written as text.
    NotEncoded(String),
    Exists(bool),
    Objects(Vec<S3ListedObject>),
    Uploads(Vec<ListedUpload>),
    /// The id of an upload that was started.
    UploadId(Option<String>),
    /// The tag of a part that was stored.
    ETag(Option<String>),
    Field(FieldReply),
    /// The field was stored; the number of its bytes.
    Stored(i64),
    /// The field could not be read.
    FieldFailed(ServiceError),
    File(FileReply),
    Id(String),
    Secret(Vec<u8>),
    Time(UtcTime),
}

// ---------------------------------------------------------------------------
// Answers
// ---------------------------------------------------------------------------

/// A file of a share.
pub struct ShareFile {
    pub name: String,
    pub size: i64,
}

/// A file of a share, over sequences.
pub struct ShareFileView {
    pub name: Seq<char>,
    pub size: int,
}

impl View for ShareFile {
    type V = ShareFileView;

    open spec fn view(&self) -> ShareFileView {
        ShareFileView { name: self.name@, size: self.size as int }
    }
}

/// A session in a list for the client.
pub struct SessionEntry {
    pub session: UserSession,
    pub is_current: bool,
}

/// A session in a list for the client, over sequences.
pub struct SessionEntryView {
    pub session: SessionView,
    pub is_current: bool,
}

impl View for SessionEntry {
    type V = SessionEntryView;

    open spec fn view(&self) -> SessionEntryView {
        SessionEntryView { session: self.session@, is_current: self.is_current }
    }
}

/// What an administrator sees of a user.
pub struct UserStats {
    pub username: String,
    pub total_size: i64,
    pub shares: Vec<serde_json::Value>,
}

/// What an administrator sees of a user, over sequences.
pub struct UserStatsView {
    pub username: Seq<char>,
    pub total_size: int,
    pub shares: Seq<JsonTree>,
}

impl View for UserStats {
    type V = UserStatsView;

    open spec fn view(&self) -> UserStatsView {
        UserStatsView {
            username: self.username@,
            total_size: self.total_size as int,
            shares: json_trees(self.shares@),
        }
    }
}

/// What the client is answered.
pub enum Answer {
    /// A status and a message.
    Refused { status: u16, message: String },
    /// Success without a body.
    Success,
    /// Success, with a word for it.
    Status { status: String },
    /// The share that was uploaded.
    ShareUploaded { uuid: String, files: Vec<String> },
    /// The share that was begun.
    ShareBegun { uuid: String },
    /// The files that were stored.
    FilesStored { files: Vec<String> },
    UploadBegun { upload_id: String },
    PartStored { part_number: i32, e_tag: String },
    Share {
        uuid: String,
        upload_time: UtcTime,
        expires_at: UtcTime,
        files: Vec<ShareFile>,
        owner: String,
    },
    /// A file, whose bytes are passed on.
    File {
        status: u16,
        content_type: String,
        content_length: Option<i64>,
        content_range: Option<String>,
        content_disposition: String,
    },
    FileMissing,
    /// The encrypted list of shares.
    SharesText { shares_enc: String },
    LoggedIn { token: String, pfp_enc: String },
    AdminLoggedIn { token: String },
    Profile { username: String, pfp_enc: String },
    Sessions { sessions: Vec<SessionEntry> },
    Stats { users: Vec<UserStats> },
    /// A secret that was loaded or made.
    Secret { secret: Vec<u8> },
    /// A sweep of the store broke off.
    SweepFailed { message: String },
}

/// What the client is answered, over sequences.
pub enum AnswerView {
    Refused { status: int, message: Seq<char> },
    Success,
    Status { status: Seq<char> },
    ShareUploaded { uuid: Seq<char>, files: Seq<Seq<char>> },
    ShareBegun { uuid: Seq<char> },
    FilesStored { files: Seq<Seq<char>> },
    UploadBegun { upload_id: Seq<char> },
    PartStored { part_number: int, e_tag: Seq<char> },
    Share {
        uuid: Seq<char>,
        upload_time: UtcTime,
        expires_at: UtcTime,
        files: Seq<ShareFileView>,
        owner: Seq<char>,
    },
    File {
        status: int,
        content_type: Seq<char>,
        content_length: Option<i64>,
        content_range: Option<Seq<char>>,
        content_disposition: Seq<char>,
    },
    FileMissing,
    SharesText { shares_enc: Seq<char> },
    LoggedIn { token: Seq<char>, pfp_enc: Seq<char> },
    AdminLoggedIn { token: Seq<char> },
    Profile { username: Seq<char>, pfp_enc: Seq<char> },
    Sessions { sessions: Seq<SessionEntryView> },
    Stats { users: Seq<UserStatsView> },
    Secret { secret: Seq<u8> },
    SweepFailed { message: Seq<char> },
}

impl View for Answer {
    type V = AnswerView;

    open spec fn view(&self) -> AnswerView {
        match self {
            Answer::Refused { status, message } => AnswerView::Refused {
                status: *status as int,
                message: message@,
            },
            Answer::Success => AnswerView::Success,
            Answer::Status { status } => AnswerView::Status { status: status@ },
            Answer::ShareUploaded { uuid, files } => AnswerView::ShareUploaded {
                uuid: uuid@,
                files: views(files@),
            },
            Answer::ShareBegun { uuid } => AnswerView::ShareBegun { uuid: uuid@ },
            Answer::FilesStored { files } => AnswerView::FilesStored { files: views(files@) },
            Answer::UploadBegun { upload_id } => AnswerView::UploadBegun { upload_id: upload_id@ },
            Answer::PartStored { part_number, e_tag } => AnswerView::PartStored {
                part_number: *part_number as int,
                e_tag: e_tag@,
            },
            Answer::Share { uuid, upload_time, expires_at, files, owner } => AnswerView::Share {
                uuid: uuid@,
                upload_time: *upload_time,
                expires_at: *expires_at,
                files: views(files@),
                owner: owner@,
            },
            Answer::File {
                status,
                content_type,
                content_length,
                content_range,
                content_disposition,
            } => AnswerView::File {
                status: *status as int,
                content_type: content_type@,
                content_length: *content_length,
                content_range: opt_view(*content_range),
                content_disposition: content_disposition@,
            },
            Answer::FileMissing => AnswerView::FileMissing,
            Answer::SharesText { shares_enc } => AnswerView::SharesText { shares_enc: shares_enc@ },
            Answer::LoggedIn { token, pfp_enc } => AnswerView::LoggedIn {
                token: token@,
                pfp_enc: pfp_enc@,
            },
            Answer::AdminLoggedIn { token } => AnswerView::AdminLoggedIn { token: token@ },
            Answer::Profile { username, pfp_enc } => AnswerView::Profile {
                username: username@,
                pfp_enc: pfp_enc@,
            },
            Answer::Sessions { sessions } => AnswerView::Sessions { sessions: views(sessions@) },
            Answer::Stats { users } => AnswerView::Stats { users: views(users@) },
            Answer::Secret { secret } => AnswerView::Secret { secret: secret@ },
            Answer::SweepFailed { message } => AnswerView::SweepFailed { message: message@ },
        }
    }
}

// ---------------------------------------------------------------------------
// What comes next
// ---------------------------------------------------------------------------

/// What a request does next.
pub enum Next {
    /// It asks for something.
    Perform(Action),
    /// It is answered.
    Done(Answer),
    /// It ends without an answer: a sum or a point in time leaves its range, or a text is cut
    /// inside a character.
    Crash,
    /// It ends without an answer: what was heard is not a reply to what was asked.
    Misheard,
}

/// What a request does next, over sequences.
pub enum NextView {
    Perform(ActionView),
    Done(AnswerView),
    Crash,
    Misheard,
}

impl View for Next {
    type V = NextView;

    open spec fn view(&self) -> NextView {
        match self {
            Next::Perform(a) => NextView::Perform(a@),
            Next::Done(a) => NextView::Done(a@),
            Next::Crash => NextView::Crash,
            Next::Misheard => NextView::Misheard,
        }
    }
}

/// What a part of a request comes to: it stops the request, or it has a result and has taken in
/// the replies before a place.
pub enum Flow<T> {
    Stop(Next),
    Go(T, usize),
}

/// What a part of a request comes to, over sequences.
pub enum FlowView<T> {
    Stop(NextView),
    Go(T, int),
}

impl<T: View> View for Flow<T> {
    type V = FlowView<T::V>;

    open spec fn view(&self) -> FlowView<T::V> {
        match self {
            Flow::Stop(n) => FlowView::Stop(n@),
            Flow::Go(t, at) => FlowView::Go(t@, *at as int),
        }
    }
}

/// A refusal.
pub open spec fn refused(status: int, message: Seq<char>) -> NextView {
    NextView::Done(AnswerView::Refused { status, message })
}

/// A refusal.
pub fn refuse(status: u16, message: &str) -> (r: Next)
    ensures
        r@ == refused(status as int, message@),
        readable(r@),
{
    Next::Done(Answer::Refused { status, message: message.to_owned() })
}

/// A refusal with two pieces of text for its message.
pub fn refuse_with(status: u16, message: &str, more: &str) -> (r: Next)
    ensures
        r@ == refused(status as int, message@ + more@),
        readable(r@),
{
    let mut text = message.to_owned();
    text.append(more);
    Next::Done(Answer::Refused { status, message: text })
}

/// Whether an action changes what the service holds.
pub open spec fn changes_store(a: ActionView) -> bool {
    match a {
        ActionView::Put { .. } => true,
        ActionView::PutInBackground { .. } => true,
        ActionView::PutSessions { .. } => true,
        ActionView::Delete { .. } => true,
        ActionView::DeleteBatch { .. } => true,
        ActionView::CreateUpload { .. } => true,
        ActionView::UploadPart { .. } => true,
        ActionView::CompleteUpload { .. } => true,
        ActionView::AbortUpload { .. } => true,
        ActionView::StoreField { .. } => true,
        _ => false,
    }
}

/// Asks for the bytes of an object.
pub fn ask_get(key: String) -> (r: Next)
    ensures
        r@ == NextView::Perform(ActionView::Get { key: key@ }),
        readable(r@),
{
    Next::Perform(Action::Get { key })
}

/// Whether a JSON text that is to be stored reads back as what it stands for.
pub open spec fn readable(n: NextView) -> bool {
    match n {
        NextView::Perform(ActionView::Put { content_type, body, .. }) => content_type
            == "application/json"@ ==> reads_back(body),
        _ => true,
    }
}

/// The same of a part of a request.
pub open spec fn readable_flow<T>(f: FlowView<T>) -> bool {
    match f {
        FlowView::Stop(n) => readable(n),
        FlowView::Go(_, _) => true,
    }
}

/// Asks that a text be stored as an object.
pub fn ask_put_text(key: String, body: Vec<u8>) -> (r: Next)
    ensures
        r@ == NextView::Perform(
            ActionView::Put { key: key@, content_type: "text/plain"@, body: body@ },
        ),
        readable(r@),
{
    proof {
        reveal_strlit("text/plain");
        reveal_strlit("application/json");
        assert("text/plain"@.len() != "application/json"@.len());
    }
    Next::Perform(Action::Put { key, content_type: "text/plain".to_owned(), body })
}

/// Asks that bytes be stored as an object.
pub fn ask_put_bytes(key: String, body: Vec<u8>) -> (r: Next)
    ensures
        r@ == NextView::Perform(
            ActionView::Put { key: key@, content_type: "application/octet-stream"@, body: body@ },
        ),
        readable(r@),
{
    proof {
        reveal_strlit("application/octet-stream");
        reveal_strlit("application/json");
        assert("application/octet-stream"@.len() != "application/json"@.len());
    }
    Next::Perform(Action::Put { key, content_type: "application/octet-stream".to_owned(), body })
}

/// Asks that a JSON text be stored as an object.
pub fn ask_put_json(key: String, body: Vec<u8>) -> (r: Next)
    ensures
        r@ == NextView::Perform(
            ActionView::Put { key: key@, content_type: "application/json"@, body: body@ },
        ),
        reads_back(body@) ==> readable(r@),
{
    Next::Perform(Action::Put { key, content_type: "application/json".to_owned(), body })
}

} // verus!
