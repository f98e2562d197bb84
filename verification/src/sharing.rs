//! Looking at a share, fetching its files, removing it.

use vstd::prelude::*;
use vstd::utf8::{decode_utf8, encode_utf8, valid_utf8};
use crate::clock::{has_date, in_calendar, is_later, later, UtcTime};
use crate::deletion::{delete_share_objects, prefix_deletion, Outcome, OutcomeView};
use crate::gate::{caller, verify_session, Header, Headers, Site};
use crate::keys::{make_share_key, make_share_prefix, share_key, share_prefix};
use crate::media::{guess_media_type, media_type, percent_encode, percent_text};
use crate::model::{clone_bytes, clone_opt, opt_view, views};
use crate::number::{decimal, parse_u64, u64_number, u64_text};
use crate::protocol::{
    ask_get, readable, readable_flow, refuse, refuse_with, refused, Action, ActionView, Answer,
    AnswerView, FileReply, Flow, FlowView, Next, NextView, ObjectReply, Reply, ShareFile,
    ShareFileView,
};
use crate::shares::{index_removal, remove_share_from_user_index};
use crate::storage::S3ListedObject;
use crate::text::{
    after_prefix, concat2, contains_char, pieces, same, split, strip_prefix, trim, trimmed,
};
use crate::token::utf8_string;
use crate::uploads::{is_marker, marks, relative, relative_name};

verus! {

// ---------------------------------------------------------------------------
// Owners
// ---------------------------------------------------------------------------

/// The owner that the bytes of a record name: their text without white space at its ends; no one
/// where they are no text.
pub open spec fn recorded_owner(bytes: Seq<u8>) -> Seq<char> {
    if valid_utf8(bytes) {
        trimmed(decode_utf8(bytes))
    } else {
        trimmed(Seq::empty())
    }
}

/// The owner that the bytes of a record name.
pub fn read_owner(bytes: &Vec<u8>) -> (r: String)
    ensures
        r@ == recorded_owner(bytes@),
{
    let text = match utf8_string(clone_bytes(bytes)) {
        Some(s) => s,
        None => String::new(),
    };
    trim(text.as_str())
}

/// The owner that a record names; no one where the record cannot be had.
pub open spec fn owner_heard(reply: ObjectReply) -> Seq<char> {
    match reply {
        ObjectReply::Bytes(b) => recorded_owner(b@),
        _ => Seq::empty(),
    }
}

/// The owner that a record names.
pub fn owner_of(reply: &ObjectReply) -> (r: String)
    ensures
        r@ == owner_heard(*reply),
{
    match reply {
        ObjectReply::Bytes(b) => read_owner(b),
        _ => String::new(),
    }
}

// ---------------------------------------------------------------------------
// Looking at a share
// ---------------------------------------------------------------------------

/// What was found of a share: its files, and when the latest of them was stored.
pub struct Found {
    pub files: Vec<ShareFile>,
    pub latest: Option<UtcTime>,
}

/// What was found of a share, over sequences.
pub struct FoundView {
    pub files: Seq<ShareFileView>,
    pub latest: Option<UtcTime>,
}

impl View for Found {
    type V = FoundView;

    open spec fn view(&self) -> FoundView {
        FoundView { files: views(self.files@), latest: self.latest }
    }
}

/// The later of a time and the latest so far.
pub open spec fn latest_of(latest: Option<UtcTime>, t: UtcTime) -> UtcTime {
    match latest {
        Some(l) => if later(t, l) {
            t
        } else {
            l
        },
        None => t,
    }
}

/// What was found, and one more file.
pub open spec fn with_file(found: FoundView, name: Seq<char>, size: int, t: UtcTime) -> FoundView {
    FoundView {
        files: found.files.push(ShareFileView { name, size }),
        latest: Some(latest_of(found.latest, t)),
    }
}

/// Goes through the listed objects of a share from place `i` on. An object counts where the list
/// gives its key, size and time and it is a file. A time that is not in the calendar is replaced
/// by the present.
pub open spec fn find_files(
    objects: Seq<S3ListedObject>,
    i: int,
    prefix: Seq<char>,
    found: FoundView,
    heard: Seq<Reply>,
    at: int,
) -> FlowView<FoundView>
    decreases objects.len() - i,
{
    if i < 0 || i >= objects.len() {
        FlowView::Go(found, at)
    } else {
        match (objects[i].key, objects[i].size, objects[i].last_modified_secs) {
            (Some(key), Some(size), Some(secs)) => {
                let name = relative(key@, prefix);
                if is_marker(name) {
                    find_files(objects, i + 1, prefix, found, heard, at)
                } else if in_calendar(secs as int) {
                    let t = UtcTime { secs, nanos: 0 };
                    find_files(
                        objects,
                        i + 1,
                        prefix,
                        with_file(found, name, size as int, t),
                        heard,
                        at,
                    )
                } else if at >= heard.len() {
                    FlowView::Stop(NextView::Perform(ActionView::Clock))
                } else {
                    match heard[at] {
                        Reply::Time(t) => find_files(
                            objects,
                            i + 1,
                            prefix,
                            with_file(found, name, size as int, t),
                            heard,
                            at + 1,
                        ),
                        _ => FlowView::Stop(NextView::Misheard),
                    }
                }
            },
            _ => find_files(objects, i + 1, prefix, found, heard, at),
        }
    }
}

/// The later of a time and the latest so far.
fn pick_latest(latest: &Option<UtcTime>, t: UtcTime) -> (r: UtcTime)
    ensures
        r == latest_of(*latest, t),
{
    match latest {
        Some(l) => if is_later(&t, l) {
            t
        } else {
            *l
        },
        None => t,
    }
}

/// Goes through the listed objects of a share.
fn do_find_files(
    objects: &Vec<S3ListedObject>,
    prefix: &str,
    heard: &Vec<Reply>,
    start: usize,
) -> (r: Flow<Found>)
    requires
        start <= heard@.len(),
    ensures
        r@ == find_files(
            objects@,
            0,
            prefix@,
            (FoundView { files: Seq::empty(), latest: None }),
            heard@,
            start as int,
        ),
        r matches Flow::Go(_, a) ==> start <= a <= heard@.len(),
        readable_flow(r@),
{
    let mut files: Vec<ShareFile> = Vec::new();
    let mut latest: Option<UtcTime> = None;
    let mut at: usize = start;
    let mut i: usize = 0;
    proof {
        assert(views(files@) =~= Seq::<ShareFileView>::empty());
    }
    while i < objects.len()
        invariant
            i <= objects@.len(),
            start <= at <= heard@.len(),
            find_files(
                objects@,
                i as int,
                prefix@,
                (FoundView { files: views(files@), latest }),
                heard@,
                at as int,
            ) == find_files(
                objects@,
                0,
                prefix@,
                (FoundView { files: Seq::empty(), latest: None }),
                heard@,
                start as int,
            ),
        decreases objects@.len() - i,
    {
        let o = &objects[i];
        if let (Some(key), Some(size), Some(secs)) = (&o.key, &o.size, &o.last_modified_secs) {
            let name = relative_name(key, prefix);
            if !marks(name.as_str()) {
                let t = if has_date(*secs) {
                    UtcTime { secs: *secs, nanos: 0 }
                } else {
                    if at >= heard.len() {
                        return Flow::Stop(Next::Perform(Action::Clock));
                    }
                    match &heard[at] {
                        Reply::Time(t) => {
                            at = at + 1;
                            *t
                        },
                        _ => {
                            return Flow::Stop(Next::Misheard);
                        },
                    }
                };
                let ghost before = files@;
                latest = Some(pick_latest(&latest, t));
                files.push(ShareFile { name, size: *size });
                proof {
                    assert(views(files@) =~= views(before).push(
                        ShareFileView { name: name@, size: *size as int },
                    ));
                }
            }
        }
        i = i + 1;
    }
    Flow::Go(Found { files, latest }, at)
}

/// How long a share is kept: 90 days, in seconds.
pub const SHARE_SECONDS: i64 = 7_776_000;

/// What a share consists of, when it was stored and until when it is kept.
pub open spec fn get_share_next(uuid: Seq<char>, heard: Seq<Reply>) -> NextView {
    if heard.len() == 0 {
        NextView::Perform(ActionView::ListAll { prefix: share_prefix(uuid) })
    } else {
        match heard[0] {
            Reply::Failed(e) => refused(500, "S3 list error: "@ + e.debug@),
            Reply::Objects(objects) => match find_files(
                objects@,
                0,
                share_prefix(uuid),
                FoundView { files: Seq::empty(), latest: None },
                heard,
                1,
            ) {
                FlowView::Stop(n) => n,
                FlowView::Go(found, at) => match found.latest {
                    None => refused(404, "Share not found or expired"@),
                    Some(t) => if at >= heard.len() {
                        NextView::Perform(ActionView::Get { key: share_key(uuid, "owner.txt"@) })
                    } else {
                        match heard[at] {
                            Reply::Object(reply) => if in_calendar(t.secs + SHARE_SECONDS) {
                                NextView::Done(
                                    AnswerView::Share {
                                        uuid,
                                        upload_time: t,
                                        expires_at: UtcTime {
                                            secs: (t.secs + SHARE_SECONDS) as i64,
                                            nanos: t.nanos,
                                        },
                                        files: found.files,
                                        owner: owner_heard(reply),
                                    },
                                )
                            } else {
                                NextView::Crash
                            },
                            _ => NextView::Misheard,
                        }
                    },
                },
            },
            _ => NextView::Misheard,
        }
    }
}

/// What a share consists of, when it was stored and until when it is kept.
pub fn get_share(uuid: &str, heard: &Vec<Reply>) -> (r: Next)
    ensures
        r@ == get_share_next(uuid@, heard@),
        readable(r@),
{
    let prefix = make_share_prefix(uuid);
    if heard.len() == 0 {
        return Next::Perform(Action::ListAll { prefix });
    }
    let objects = match &heard[0] {
        Reply::Objects(objects) => objects,
        Reply::Failed(e) => {
            return refuse_with(500, "S3 list error: ", e.debug.as_str());
        },
        _ => {
            return Next::Misheard;
        },
    };
    let (found, at) = match do_find_files(objects, prefix.as_str(), heard, 1) {
        Flow::Stop(n) => {
            return n;
        },
        Flow::Go(found, at) => (found, at),
    };
    let t = match found.latest {
        Some(t) => t,
        None => {
            return refuse(404, "Share not found or expired");
        },
    };
    if at >= heard.len() {
        return ask_get(make_share_key(uuid, "owner.txt"));
    }
    match &heard[at] {
        Reply::Object(reply) => {
            match t.secs.checked_add(SHARE_SECONDS) {
                Some(secs) => if has_date(secs) {
                    Next::Done(
                        Answer::Share {
                            uuid: uuid.to_owned(),
                            upload_time: t,
                            expires_at: UtcTime { secs, nanos: t.nanos },
                            files: found.files,
                            owner: owner_of(reply),
                        },
                    )
                } else {
                    Next::Crash
                },
                None => Next::Crash,
            }
        },
        _ => Next::Misheard,
    }
}

// ---------------------------------------------------------------------------
// Fetching a file
// ---------------------------------------------------------------------------

/// A range of bytes that a request asks for: the first byte, and the last one where it says.
pub struct RangeView {
    pub start: int,
    pub end: Option<int>,
}

/// The one range that a `Range` header asks for. A header with several ranges, and one whose first
/// number cannot be read, ask for none; an end that cannot be read is left out.
pub open spec fn requested_range(range: Header) -> Option<RangeView> {
    match range {
        Header::Text(s) => match after_prefix(s@, "bytes="@) {
            Some(ranges) => if ranges.contains(',') {
                None
            } else {
                let parts = pieces(ranges, '-');
                match u64_number(trimmed(parts[0])) {
                    Some(start) => Some(
                        RangeView {
                            start,
                            end: if parts.len() > 1 && trimmed(parts[1]).len() > 0 {
                                u64_number(trimmed(parts[1]))
                            } else {
                                None
                            },
                        },
                    ),
                    None => None,
                }
            },
            None => None,
        },
        _ => None,
    }
}

/// A range as the service is asked for it.
pub open spec fn range_text(r: RangeView) -> Seq<char> {
    "bytes="@ + decimal(r.start) + "-"@ + match r.end {
        Some(e) => decimal(e),
        None => Seq::empty(),
    }
}

/// The range that the service is asked for.
pub open spec fn range_wanted(range: Header) -> Option<Seq<char>> {
    match requested_range(range) {
        Some(r) => Some(range_text(r)),
        None => None,
    }
}

/// The range that the service is asked for.
fn read_range(range: &Header) -> (r: Option<String>)
    ensures
        opt_view(r) == range_wanted(*range),
{
    let ranges = match range {
        Header::Text(s) => match strip_prefix(s.as_str(), "bytes=") {
            Some(ranges) => ranges,
            None => {
                return None;
            },
        },
        _ => {
            return None;
        },
    };
    if contains_char(ranges.as_str(), ',') {
        return None;
    }
    let parts = split(ranges.as_str(), '-');
    let ghost all = pieces(ranges@, '-');
    proof {
        assert(all[0] == parts@[0]@);
    }
    let start = match parse_u64(trim(parts[0].as_str()).as_str()) {
        Some(n) => n,
        None => {
            return None;
        },
    };
    let mut text = "bytes=".to_owned();
    text.append(u64_text(start).as_str());
    text.append("-");
    if parts.len() > 1 {
        proof {
            assert(all[1] == parts@[1]@);
        }
        let end = trim(parts[1].as_str());
        if !end.as_str().is_empty() {
            if let Some(e) = parse_u64(end.as_str()) {
                text.append(u64_text(e).as_str());
            }
        }
    }
    proof {
        let wanted = requested_range(*range)->0;
        if wanted.end is None {
            assert(text@ =~= range_text(wanted));
        }
    }
    Some(text)
}

/// How the client is told the name of a file.
pub open spec fn disposition(filename: Seq<char>) -> Seq<char> {
    "inline; filename*=UTF-8''"@ + percent_text(encode_utf8(filename))
}

/// The media type of a file that was fetched: that of the service, or else by its name.
pub open spec fn fetched_type(reply: FileReply, filename: Seq<char>) -> Seq<char> {
    match reply.content_type {
        Some(t) => t@,
        None => media_type(filename),
    }
}

/// Passes a file of a share, or the range of it that was asked for, on to the client.
pub open spec fn download_file_next(
    headers: Headers,
    uuid: Seq<char>,
    filename: Seq<char>,
    heard: Seq<Reply>,
) -> NextView {
    let range = range_wanted(headers.range);
    if heard.len() == 0 {
        NextView::Perform(ActionView::Fetch { key: share_key(uuid, filename), range })
    } else {
        match heard[0] {
            Reply::File(reply) => NextView::Done(
                AnswerView::File {
                    status: if range is Some {
                        206
                    } else {
                        200
                    },
                    content_type: fetched_type(reply, filename),
                    content_length: reply.content_length,
                    content_range: opt_view(reply.content_range),
                    content_disposition: disposition(filename),
                },
            ),
            Reply::Failed(_) => NextView::Done(AnswerView::FileMissing),
            _ => NextView::Misheard,
        }
    }
}

/// Passes a file of a share on to the client.
pub fn download_file(headers: &Headers, uuid: &str, filename: &str, heard: &Vec<Reply>) -> (r: Next)
    ensures
        r@ == download_file_next(*headers, uuid@, filename@, heard@),
        readable(r@),
{
    let range = read_range(&headers.range);
    if heard.len() == 0 {
        return Next::Perform(Action::Fetch { key: make_share_key(uuid, filename), range });
    }
    match &heard[0] {
        Reply::File(reply) => {
            let status: u16 = if range.is_some() {
                206
            } else {
                200
            };
            let content_type = match &reply.content_type {
                Some(t) => t.clone(),
                None => guess_media_type(filename),
            };
            Next::Done(
                Answer::File {
                    status,
                    content_type,
                    content_length: reply.content_length,
                    content_range: clone_opt(&reply.content_range),
                    content_disposition: concat2(
                        "inline; filename*=UTF-8''",
                        percent_encode(filename).as_str(),
                    ),
                },
            )
        },
        Reply::Failed(_) => Next::Done(Answer::FileMissing),
        _ => Next::Misheard,
    }
}

// ---------------------------------------------------------------------------
// Removing a share
// ---------------------------------------------------------------------------

/// Removes a share of the caller and its entry in their index.
pub open spec fn delete_share_next(
    site: Site,
    headers: Headers,
    uuid: Seq<char>,
    heard: Seq<Reply>,
) -> NextView {
    match caller(site, headers, heard) {
        FlowView::Stop(n) => n,
        FlowView::Go(c, _) => if heard.len() <= 1 {
            NextView::Perform(ActionView::Get { key: share_key(uuid, "owner.txt"@) })
        } else {
            match heard[1] {
                Reply::Object(ObjectReply::Absent) => refused(403, "Cannot verify ownership"@),
                Reply::Object(ObjectReply::BodyFailed(_)) => refused(
                    403,
                    "Share has no valid owner recorded"@,
                ),
                Reply::Object(ObjectReply::Bytes(b)) => if recorded_owner(b@) != c.username {
                    refused(403, "You do not own this share"@)
                } else {
                    match prefix_deletion(share_prefix(uuid), heard, 2) {
                        FlowView::Stop(n) => n,
                        FlowView::Go(OutcomeView::Failed(message), _) => refused(500, message),
                        FlowView::Go(OutcomeView::Done, at) => match index_removal(
                            c.username,
                            uuid,
                            heard,
                            at,
                        ) {
                            FlowView::Stop(n) => n,
                            FlowView::Go(_, _) => NextView::Done(
                                AnswerView::Status { status: "deleted"@ },
                            ),
                        },
                    }
                },
                _ => NextView::Misheard,
            }
        },
    }
}

/// Removes a share of the caller.
pub fn delete_share(site: &Site, headers: &Headers, uuid: &str, heard: &Vec<Reply>) -> (r: Next)
    ensures
        r@ == delete_share_next(*site, *headers, uuid@, heard@),
        readable(r@),
{
    let c = match verify_session(site, headers, heard) {
        Flow::Stop(n) => {
            return n;
        },
        Flow::Go(c, _) => c,
    };
    if heard.len() <= 1 {
        return ask_get(make_share_key(uuid, "owner.txt"));
    }
    let owner = match &heard[1] {
        Reply::Object(ObjectReply::Absent) => {
            return refuse(403, "Cannot verify ownership");
        },
        Reply::Object(ObjectReply::BodyFailed(_)) => {
            return refuse(403, "Share has no valid owner recorded");
        },
        Reply::Object(ObjectReply::Bytes(b)) => read_owner(b),
        _ => {
            return Next::Misheard;
        },
    };
    if !same(owner.as_str(), c.username.as_str()) {
        return refuse(403, "You do not own this share");
    }
    let at: usize = match delete_share_objects(uuid, heard, 2) {
        Flow::Stop(n) => {
            return n;
        },
        Flow::Go(Outcome::Failed(message), _) => {
            return Next::Done(Answer::Refused { status: 500, message });
        },
        Flow::Go(Outcome::Done, at) => at,
    };
    match remove_share_from_user_index(c.username.as_str(), uuid, heard, at) {
        Flow::Stop(n) => n,
        Flow::Go(_, _) => Next::Done(Answer::Status { status: "deleted".to_owned() }),
    }
}

} // verus!
