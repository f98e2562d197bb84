//! Object storage: in memory, or in a bucket of an S3 service.
//!
//! What the memory holds is answered at once. What the service holds is asked for by a request
//! that the caller sends; the `from_s3` functions read what comes back.

use vstd::prelude::*;
use crate::assoc::StringMap;
use crate::clock::{in_calendar, utc_now};
use crate::ids::{fresh_id, uuid_shaped};
use crate::model::opt_view;
use crate::number::{parse_usize, usize_number};
use crate::parts::{increasing, joined, with_part, Part, PartList};
use crate::text::{after_prefix, begins, pieces, split, starts_with, strip_prefix};

verus! {

/// Objects held in memory.
pub struct MemoryBackend {
    pub files: StringMap<Vec<u8>>,
    pub content_types: StringMap<String>,
    pub multipart_uploads: StringMap<PartList>,
}

/// Where objects are kept.
pub enum Storage {
    /// In a bucket of an S3 service.
    S3,
    /// In memory.
    Memory(MemoryBackend),
}

/// The content of an object.
pub enum ObjectBody {
    /// The bytes.
    Bytes(Vec<u8>),
    /// The bytes follow from the service.
    Streamed,
}

/// An object that was asked for.
pub struct GetObjectOutput {
    pub body: ObjectBody,
    pub content_type: Option<String>,
    pub content_length: Option<u64>,
}

/// An object in a list.
#[derive(Debug, Clone)]
pub struct ObjectInfo {
    pub key: String,
    pub size: i64,
    pub last_modified_secs: i64,
}

/// A part that the service has stored.
#[derive(Debug, Clone)]
pub struct CompletedPart {
    pub e_tag: String,
    pub part_number: i32,
}

/// What a part that the service has stored says.
pub struct CompletedPartView {
    pub e_tag: Seq<char>,
    pub part_number: int,
}

impl View for CompletedPart {
    type V = CompletedPartView;

    open spec fn view(&self) -> CompletedPartView {
        CompletedPartView { e_tag: self.e_tag@, part_number: self.part_number as int }
    }
}

/// A request to the service.
pub enum S3Request {
    GetObject { bucket: String, key: String, range: Option<String> },
    PutObject { bucket: String, key: String, data: Vec<u8>, content_type: Option<String> },
    HeadObject { bucket: String, key: String },
    DeleteObject { bucket: String, key: String },
    ListObjects { bucket: String, prefix: Option<String>, max_keys: Option<i32> },
    CreateMultipartUpload { bucket: String, key: String, content_type: Option<String> },
    UploadPart { bucket: String, key: String, upload_id: String, part_number: i32, data: Vec<u8> },
    CompleteMultipartUpload {
        bucket: String,
        key: String,
        upload_id: String,
        parts: Vec<CompletedPart>,
    },
    AbortMultipartUpload { bucket: String, key: String, upload_id: String },
}

/// An answer, or the request to the service that has it.
pub enum Pending<T> {
    Answer(T),
    Ask(S3Request),
}

/// What the service says of an object whose bytes follow.
pub struct S3Object {
    pub content_type: Option<String>,
    pub content_length: Option<i64>,
}

/// What the service says of an object in a list.
pub struct S3ListedObject {
    pub key: Option<String>,
    pub size: Option<i64>,
    pub last_modified_secs: Option<i64>,
}

// ---------------------------------------------------------------------------
// Ranges
// ---------------------------------------------------------------------------

/// The first byte and the byte after the last one that a range header asks of `len` bytes. What
/// cannot be read stands for the whole object.
pub open spec fn byte_range(range: Option<Seq<char>>, len: int) -> (int, int) {
    match range {
        Some(r) => match after_prefix(r, "bytes="@) {
            Some(spec_text) => {
                let parts = pieces(spec_text, '-');
                let start = match usize_number(parts[0]) {
                    Some(n) => n,
                    None => 0,
                };
                let end = if parts.len() > 1 && parts[1].len() > 0 {
                    match usize_number(parts[1]) {
                        Some(n) => n + 1,
                        None => len,
                    }
                } else {
                    len
                };
                (start, end)
            },
            None => (0, len),
        },
        None => (0, len),
    }
}

/// Whether a range header names the last byte.
pub open spec fn names_end(range: Option<Seq<char>>) -> bool {
    match range {
        Some(r) => match after_prefix(r, "bytes="@) {
            Some(spec_text) => pieces(spec_text, '-').len() > 1 && pieces(spec_text, '-')[1].len()
                > 0,
            None => false,
        },
        None => false,
    }
}

/// The smaller of two numbers.
pub open spec fn least(a: int, b: int) -> int {
    if a <= b {
        a
    } else {
        b
    }
}

/// Whether a range can be taken of `len` bytes: it does not end before it starts, its end is a
/// number that has a successor, and an end is only named where there are bytes.
pub open spec fn range_fits(range: Option<Seq<char>>, len: int) -> bool {
    &&& names_end(range) ==> len > 0
    &&& byte_range(range, len).1 <= usize::MAX
    &&& least(byte_range(range, len).0, len) <= least(byte_range(range, len).1, len)
}

/// The bytes of `data` that a range header asks for.
pub open spec fn ranged(data: Seq<u8>, range: Option<Seq<char>>) -> Seq<u8> {
    let len = data.len() as int;
    data.subrange(
        least(byte_range(range, len).0, len),
        least(byte_range(range, len).1, len),
    )
}

/// The two ends that a range header asks of `len` bytes, where they fit a `usize`, and whether it
/// names the last byte.
fn read_range(range: &Option<String>, len: usize) -> (r: (usize, Option<usize>, bool))
    ensures
        r.0 == byte_range(opt_view(*range), len as int).0,
        match r.1 {
            Some(end) => end == byte_range(opt_view(*range), len as int).1,
            None => byte_range(opt_view(*range), len as int).1 > usize::MAX,
        },
        r.2 == names_end(opt_view(*range)),
{
    let text = match range {
        Some(r) => match strip_prefix(r.as_str(), "bytes=") {
            Some(t) => t,
            None => {
                return (0, Some(len), false);
            },
        },
        None => {
            return (0, Some(len), false);
        },
    };
    let parts = split(text.as_str(), '-');
    assert(pieces(text@, '-')[0] == parts@[0]@);
    let start: usize = match parse_usize(parts[0].as_str()) {
        Some(n) => n,
        None => 0,
    };
    if parts.len() > 1 {
        assert(pieces(text@, '-')[1] == parts@[1]@);
        if !parts[1].as_str().is_empty() {
            return match parse_usize(parts[1].as_str()) {
                Some(n) => (start, n.checked_add(1), true),
                None => (start, Some(len), true),
            };
        }
    }
    (start, Some(len), false)
}

/// Whether a range can be taken of `len` bytes.
pub fn range_can_be_taken(range: &Option<String>, len: usize) -> (r: bool)
    ensures
        r == range_fits(opt_view(*range), len as int),
{
    let (start, end, named) = read_range(range, len);
    match end {
        Some(e) => {
            let low = if start <= len {
                start
            } else {
                len
            };
            let high = if e <= len {
                e
            } else {
                len
            };
            low <= high && (!named || len > 0)
        },
        None => false,
    }
}

// ---------------------------------------------------------------------------
// Objects in memory
// ---------------------------------------------------------------------------

/// Whether the key `k` is one that `prefix` asks for.
pub open spec fn wanted(k: Seq<char>, prefix: Option<Seq<char>>) -> bool {
    match prefix {
        Some(p) => begins(k, p),
        None => true,
    }
}

/// How many objects a list holds at most: a limit below one stands for one.
pub open spec fn list_limit(max_keys: Option<i32>) -> Option<int> {
    match max_keys {
        Some(n) => Some(
            if n < 1 {
                1int
            } else {
                n as int
            },
        ),
        None => None,
    }
}

/// Whether some objects of a list have the key `k`.
pub open spec fn lists_key(listed: Seq<ObjectInfo>, k: Seq<char>) -> bool {
    exists|i: int| 0 <= i < listed.len() && (#[trigger] listed[i]).key@ == k
}

/// Whether `listed` is a list of the objects that `prefix` asks for: each at most once, with its
/// size, and all of them unless the list is as long as the limit.
pub open spec fn lists(
    listed: Seq<ObjectInfo>,
    files: Map<Seq<char>, Seq<u8>>,
    prefix: Option<Seq<char>>,
    max_keys: Option<i32>,
) -> bool {
    &&& forall|i: int|
        0 <= i < listed.len() ==> {
            let k = (#[trigger] listed[i]).key@;
            files.contains_key(k) && wanted(k, prefix) && listed[i].size == files[k].len() as i64
        }
    &&& forall|i: int, j: int|
        0 <= i < j < listed.len() ==> (#[trigger] listed[i]).key@ != (#[trigger] listed[j]).key@
    &&& match list_limit(max_keys) {
        Some(limit) => listed.len() <= limit && (listed.len() < limit ==> forall|k: Seq<char>|
            files.contains_key(k) && wanted(k, prefix) ==> #[trigger] lists_key(listed, k)),
        None => forall|k: Seq<char>|
            files.contains_key(k) && wanted(k, prefix) ==> #[trigger] lists_key(listed, k),
    }
}

/// Whether each object of a list has the time `now`.
pub open spec fn dated(listed: Seq<ObjectInfo>, now: i64) -> bool {
    forall|i: int| 0 <= i < listed.len() ==> (#[trigger] listed[i]).last_modified_secs == now
}

impl MemoryBackend {
    /// Whether the object `key`, where there is one, has the range.
    pub open spec fn has_range(&self, key: Seq<char>, range: Option<Seq<char>>) -> bool {
        self.files@.contains_key(key) ==> range_fits(range, self.files@[key].len() as int)
    }

    /// Whether `r` is the object `key`, cut down to a range. The length that it states is that of
    /// the whole object.
    pub open spec fn gives(
        &self,
        key: Seq<char>,
        range: Option<Seq<char>>,
        r: Result<GetObjectOutput, String>,
    ) -> bool {
        match r {
            Ok(out) => {
                &&& self.files@.contains_key(key)
                &&& out.body matches ObjectBody::Bytes(b) && b@ == ranged(self.files@[key], range)
                &&& opt_view(out.content_type) == (if self.content_types@.contains_key(key) {
                    Some(self.content_types@[key])
                } else {
                    None
                })
                &&& out.content_length == Some(self.files@[key].len() as u64)
            },
            Err(e) => !self.files@.contains_key(key) && e@ == "Not found"@,
        }
    }

    /// The object `key`, cut down to a range.
    pub fn get_object(&self, key: &str, range_header: Option<String>) -> (r: Result<
        GetObjectOutput,
        String,
    >)
        requires
            self.has_range(key@, opt_view(range_header)),
        ensures
            self.gives(key@, opt_view(range_header), r),
    {
        match self.files.get(key) {
            Some(data) => {
                let (start, end, _) = read_range(&range_header, data.len());
                let end: usize = match end {
                    Some(e) => e,
                    None => data.len(),
                };
                let low: usize = if start <= data.len() {
                    start
                } else {
                    data.len()
                };
                let high: usize = if end <= data.len() {
                    end
                } else {
                    data.len()
                };
                let bytes = vstd::slice::slice_to_vec(
                    vstd::slice::slice_subrange(data.as_slice(), low, high),
                );
                let content_type = match self.content_types.get(key) {
                    Some(t) => Some(t.clone()),
                    None => None,
                };
                Ok(
                    GetObjectOutput {
                        body: ObjectBody::Bytes(bytes),
                        content_type,
                        content_length: Some(data.len() as u64),
                    },
                )
            },
            None => Err("Not found".to_owned()),
        }
    }

    /// The bytes of the object `key`.
    pub fn get_object_bytes(&self, key: &str) -> (r: Result<Vec<u8>, String>)
        ensures
            match r {
                Ok(b) => self.files@.contains_key(key@) && b@ == self.files@[key@],
                Err(e) => !self.files@.contains_key(key@) && e@ == "Not found"@,
            },
    {
        match self.files.get(key) {
            Some(data) => Ok(vstd::slice::slice_to_vec(data.as_slice())),
            None => Err("Not found".to_owned()),
        }
    }

    /// Stores an object. Without a content type, an earlier one stays.
    pub fn put_object(&mut self, key: &str, data: Vec<u8>, content_type: Option<&str>)
        ensures
            final(self).files@ == old(self).files@.insert(key@, data@),
            final(self).content_types@ == (match content_type {
                Some(t) => old(self).content_types@.insert(key@, t@),
                None => old(self).content_types@,
            }),
            final(self).multipart_uploads@ == old(self).multipart_uploads@,
    {
        self.files.insert(key.to_owned(), data);
        if let Some(t) = content_type {
            self.content_types.insert(key.to_owned(), t.to_owned());
        }
    }

    /// Whether there is an object `key`.
    pub fn head_object(&self, key: &str) -> (r: bool)
        ensures
            r == self.files@.contains_key(key@),
    {
        self.files.contains_key(key)
    }

    /// Removes the object `key`.
    pub fn delete_object(&mut self, key: &str)
        ensures
            final(self).files@ == old(self).files@.remove(key@),
            final(self).content_types@ == old(self).content_types@.remove(key@),
            final(self).multipart_uploads@ == old(self).multipart_uploads@,
    {
        let _ = self.files.remove(key);
        let _ = self.content_types.remove(key);
    }

    /// The objects whose keys begin with `prefix`, up to a limit. Each is given the time of the
    /// call.
    pub fn list_objects(&self, prefix: Option<&str>, max_keys: Option<i32>) -> (r: Vec<ObjectInfo>)
        ensures
            lists(r@, self.files@, opt_view(prefix), max_keys),
            exists|now: i64| 0 <= now && in_calendar(now as int) && #[trigger] dated(r@, now),
    {
        let now: i64 = utc_now().secs;
        self.list_objects_at(prefix, max_keys, now)
    }

    /// The objects whose keys begin with `prefix`, up to a limit, each with the time `now`.
    pub fn list_objects_at(
        &self,
        prefix: Option<&str>,
        max_keys: Option<i32>,
        now: i64,
    ) -> (r: Vec<ObjectInfo>)
        ensures
            lists(r@, self.files@, opt_view(prefix), max_keys),
            dated(r@, now),
    {
        let mut listed: Vec<ObjectInfo> = Vec::new();
        let count = self.files.len();
        let ghost keys = self.files.keys();
        let mut i: usize = 0;
        while i < count
            invariant
                i <= count,
                count == keys.len(),
                keys == self.files.keys(),
                keys.no_duplicates(),
                forall|k: Seq<char>| self.files@.contains_key(k) <==> keys.contains(k),
                forall|n: int|
                    0 <= n < listed@.len() ==> {
                        let k = (#[trigger] listed@[n]).key@;
                        self.files@.contains_key(k) && wanted(k, opt_view(prefix))
                            && listed@[n].size == self.files@[k].len() as i64 && exists|p: int|
                            0 <= p < i && #[trigger] keys[p] == k
                    },
                forall|a: int, b: int|
                    0 <= a < b < listed@.len() ==> (#[trigger] listed@[a]).key@ != (
                    #[trigger] listed@[b]).key@,
                forall|p: int|
                    0 <= p < i && wanted(#[trigger] keys[p], opt_view(prefix)) ==> lists_key(
                        listed@,
                        keys[p],
                    ),
                match list_limit(max_keys) {
                    Some(limit) => listed@.len() < limit,
                    None => true,
                },
                dated(listed@, now),
            decreases count - i,
        {
            let (key, data) = self.files.entry(i);
            let keep = match prefix {
                Some(p) => starts_with(key.as_str(), p),
                None => true,
            };
            if keep {
                let ghost before = listed@;
                listed.push(
                    ObjectInfo {
                        key: key.clone(),
                        size: data.len() as i64,
                        last_modified_secs: now,
                    },
                );
                proof {
                    assert(listed@[before.len() as int].key@ == keys[i as int]);
                    assert forall|p: int|
                        0 <= p < i + 1 && wanted(
                            #[trigger] keys[p],
                            opt_view(prefix),
                        ) implies lists_key(listed@, keys[p]) by {
                        if p < i {
                            let n = choose|n: int|
                                0 <= n < before.len() && (#[trigger] before[n]).key@ == keys[p];
                            assert(listed@[n] == before[n]);
                        }
                    }
                    assert forall|a: int, b: int| 0 <= a < b < listed@.len() implies (
                    #[trigger] listed@[a]).key@ != (#[trigger] listed@[b]).key@ by {
                        assert(listed@[a] == before[a]);
                        if b < before.len() {
                            assert(listed@[b] == before[b]);
                        }
                    }
                }
                if let Some(limit) = max_keys {
                    if listed.len() as i32 >= limit {
                        return listed;
                    }
                }
            }
            i = i + 1;
        }
        proof {
            assert forall|k: Seq<char>|
                self.files@.contains_key(k) && wanted(
                    k,
                    opt_view(prefix),
                ) implies #[trigger] lists_key(listed@, k) by {
                let p = choose|p: int| 0 <= p < keys.len() && keys[p] == k;
                assert(wanted(keys[p], opt_view(prefix)));
            }
        }
        listed
    }

    /// Starts an upload in parts under a new id.
    pub fn create_multipart_upload(&mut self) -> (r: String)
        ensures
            uuid_shaped(r@),
            final(self).multipart_uploads@ == old(self).multipart_uploads@.insert(
                r@,
                Seq::<Part>::empty(),
            ),
            final(self).files@ == old(self).files@,
            final(self).content_types@ == old(self).content_types@,
    {
        let upload_id = fresh_id();
        self.multipart_uploads.insert(upload_id.clone(), PartList::new());
        upload_id
    }

    /// Stores a part of an upload.
    pub fn upload_part(&mut self, upload_id: &str, part_number: i32, data: Vec<u8>) -> (r: Result<
        String,
        String,
    >)
        ensures
            final(self).files@ == old(self).files@,
            final(self).content_types@ == old(self).content_types@,
            match r {
                Ok(tag) => {
                    &&& tag@ == "mem-etag"@
                    &&& old(self).multipart_uploads@.contains_key(upload_id@)
                    &&& final(self).multipart_uploads@ == old(self).multipart_uploads@.insert(
                        upload_id@,
                        with_part(
                            old(self).multipart_uploads@[upload_id@],
                            part_number as int,
                            data@,
                        ),
                    )
                    &&& increasing(old(self).multipart_uploads@[upload_id@])
                    &&& increasing(final(self).multipart_uploads@[upload_id@])
                },
                Err(e) => {
                    &&& e@ == "Upload ID not found"@
                    &&& !old(self).multipart_uploads@.contains_key(upload_id@)
                    &&& final(self).multipart_uploads@ == old(self).multipart_uploads@
                },
            },
    {
        let ghost before = self.multipart_uploads@;
        match self.multipart_uploads.remove(upload_id) {
            Some(mut upload) => {
                upload.insert(part_number, data);
                let ghost after = upload@;
                self.multipart_uploads.insert(upload_id.to_owned(), upload);
                proof {
                    assert(before.remove(upload_id@).insert(upload_id@, after) =~= before.insert(
                        upload_id@,
                        after,
                    ));
                }
                Ok("mem-etag".to_owned())
            },
            None => {
                proof {
                    assert(before.remove(upload_id@) =~= before);
                }
                Err("Upload ID not found".to_owned())
            },
        }
    }

    /// Ends an upload: its parts, by increasing number, become the object `key`.
    pub fn complete_multipart_upload(&mut self, key: &str, upload_id: &str) -> (r: Result<
        (),
        String,
    >)
        ensures
            final(self).multipart_uploads@ == old(self).multipart_uploads@.remove(upload_id@),
            final(self).content_types@ == old(self).content_types@,
            match r {
                Ok(_) => {
                    &&& old(self).multipart_uploads@.contains_key(upload_id@)
                    &&& increasing(old(self).multipart_uploads@[upload_id@])
                    &&& final(self).files@ == old(self).files@.insert(
                        key@,
                        joined(old(self).multipart_uploads@[upload_id@]),
                    )
                },
                Err(e) => {
                    &&& e@ == "Upload ID not found"@
                    &&& !old(self).multipart_uploads@.contains_key(upload_id@)
                    &&& final(self).files@ == old(self).files@
                },
            },
    {
        match self.multipart_uploads.remove(upload_id) {
            Some(upload) => {
                let data = upload.assemble();
                self.files.insert(key.to_owned(), data);
                Ok(())
            },
            None => Err("Upload ID not found".to_owned()),
        }
    }

    /// Drops an upload.
    pub fn abort_multipart_upload(&mut self, upload_id: &str)
        ensures
            final(self).multipart_uploads@ == old(self).multipart_uploads@.remove(upload_id@),
            final(self).files@ == old(self).files@,
            final(self).content_types@ == old(self).content_types@,
    {
        let _ = self.multipart_uploads.remove(upload_id);
    }
}

impl Default for MemoryBackend {
    fn default() -> (r: Self)
        ensures
            r.files@ == Map::<Seq<char>, Seq<u8>>::empty(),
            r.content_types@ == Map::<Seq<char>, Seq<char>>::empty(),
            r.multipart_uploads@ == Map::<Seq<char>, Seq<Part>>::empty(),
    {
        MemoryBackend {
            files: StringMap::new(),
            content_types: StringMap::new(),
            multipart_uploads: StringMap::new(),
        }
    }
}

// ---------------------------------------------------------------------------
// Either place
// ---------------------------------------------------------------------------

/// A copy of an optional string slice.
fn owned(s: Option<&str>) -> (r: Option<String>)
    ensures
        opt_view(r) == opt_view(s),
{
    match s {
        Some(t) => Some(t.to_owned()),
        None => None,
    }
}

impl Storage {
    /// The object `key`, cut down to a range.
    pub fn get_object(&self, bucket: &str, key: &str, range_header: Option<String>) -> (r: Pending<
        Result<GetObjectOutput, String>,
    >)
        requires
            self matches Storage::Memory(m) ==> m.has_range(key@, opt_view(range_header)),
        ensures
            match self {
                Storage::S3 => r matches Pending::Ask(
                    S3Request::GetObject { bucket: b, key: k, range },
                ) && b@ == bucket@ && k@ == key@ && range == range_header,
                Storage::Memory(m) => r matches Pending::Answer(a) && m.gives(
                    key@,
                    opt_view(range_header),
                    a,
                ),
            },
    {
        match self {
            Storage::S3 => Pending::Ask(
                S3Request::GetObject {
                    bucket: bucket.to_owned(),
                    key: key.to_owned(),
                    range: range_header,
                },
            ),
            Storage::Memory(m) => Pending::Answer(m.get_object(key, range_header)),
        }
    }

    /// What a call of the service for an object gives: a length below zero is taken as the `u64`
    /// of the same bits.
    pub fn get_object_from_s3(reply: Result<S3Object, String>) -> (r: Result<
        GetObjectOutput,
        String,
    >)
        ensures
            match reply {
                Ok(o) => r matches Ok(out) && out.body is Streamed && out.content_type
                    == o.content_type && out.content_length == (match o.content_length {
                    Some(n) => Some(n as u64),
                    None => None,
                }),
                Err(e) => r == Err::<GetObjectOutput, String>(e),
            },
    {
        match reply {
            Ok(o) => Ok(
                GetObjectOutput {
                    body: ObjectBody::Streamed,
                    content_type: o.content_type,
                    content_length: match o.content_length {
                        Some(n) => Some(
                            #[verifier::truncate]
                            (n as u64),
                        ),
                        None => None,
                    },
                },
            ),
            Err(e) => Err(e),
        }
    }

    /// The bytes of the object `key`.
    pub fn get_object_bytes(&self, bucket: &str, key: &str) -> (r: Pending<Result<Vec<u8>, String>>)
        ensures
            match self {
                Storage::S3 => r matches Pending::Ask(
                    S3Request::GetObject { bucket: b, key: k, range },
                ) && b@ == bucket@ && k@ == key@ && range is None,
                Storage::Memory(m) => match r {
                    Pending::Answer(Ok(b)) => m.files@.contains_key(key@) && b@ == m.files@[key@],
                    Pending::Answer(Err(e)) => !m.files@.contains_key(key@) && e@ == "Not found"@,
                    Pending::Ask(_) => false,
                },
            },
    {
        match self {
            Storage::S3 => Pending::Ask(
                S3Request::GetObject {
                    bucket: bucket.to_owned(),
                    key: key.to_owned(),
                    range: None,
                },
            ),
            Storage::Memory(m) => Pending::Answer(m.get_object_bytes(key)),
        }
    }

    /// Stores an object.
    pub fn put_object(
        &mut self,
        bucket: &str,
        key: &str,
        data: Vec<u8>,
        content_type: Option<&str>,
    ) -> (r: Pending<Result<(), String>>)
        ensures
            match *old(self) {
                Storage::S3 => {
                    &&& *final(self) is S3
                    &&& r matches Pending::Ask(
                        S3Request::PutObject { bucket: b, key: k, data: d, content_type: t },
                    ) && b@ == bucket@ && k@ == key@ && d@ == data@ && opt_view(t) == opt_view(
                        content_type,
                    )
                },
                Storage::Memory(before) => {
                    &&& r == Pending::Answer(Ok::<(), String>(()))
                    &&& *final(self) matches Storage::Memory(after) && after.files@
                        == before.files@.insert(key@, data@) && after.content_types@ == (
                    match content_type {
                        Some(t) => before.content_types@.insert(key@, t@),
                        None => before.content_types@,
                    }) && after.multipart_uploads@ == before.multipart_uploads@
                },
            },
    {
        match self {
            Storage::S3 => Pending::Ask(
                S3Request::PutObject {
                    bucket: bucket.to_owned(),
                    key: key.to_owned(),
                    data,
                    content_type: owned(content_type),
                },
            ),
            Storage::Memory(m) => {
                m.put_object(key, data, content_type);
                Pending::Answer(Ok(()))
            },
        }
    }

    /// Whether there is an object `key`.
    pub fn head_object(&self, bucket: &str, key: &str) -> (r: Pending<Result<bool, String>>)
        ensures
            match self {
                Storage::S3 => r matches Pending::Ask(S3Request::HeadObject { bucket: b, key: k })
                    && b@ == bucket@ && k@ == key@,
                Storage::Memory(m) => r == Pending::Answer(
                    Ok::<bool, String>(m.files@.contains_key(key@)),
                ),
            },
    {
        match self {
            Storage::S3 => Pending::Ask(
                S3Request::HeadObject { bucket: bucket.to_owned(), key: key.to_owned() },
            ),
            Storage::Memory(m) => Pending::Answer(Ok(m.head_object(key))),
        }
    }

    /// What a call of the service for the head of an object gives: there is none where it fails.
    pub fn head_object_from_s3(reply: Result<(), String>) -> (r: Result<bool, String>)
        ensures
            r == Ok::<bool, String>(reply is Ok),
    {
        Ok(reply.is_ok())
    }

    /// Removes the object `key`.
    pub fn delete_object(&mut self, bucket: &str, key: &str) -> (r: Pending<Result<(), String>>)
        ensures
            match *old(self) {
                Storage::S3 => {
                    &&& *final(self) is S3
                    &&& r matches Pending::Ask(S3Request::DeleteObject { bucket: b, key: k }) && b@
                        == bucket@ && k@ == key@
                },
                Storage::Memory(before) => {
                    &&& r == Pending::Answer(Ok::<(), String>(()))
                    &&& *final(self) matches Storage::Memory(after) && after.files@
                        == before.files@.remove(key@) && after.content_types@
                        == before.content_types@.remove(key@) && after.multipart_uploads@
                        == before.multipart_uploads@
                },
            },
    {
        match self {
            Storage::S3 => Pending::Ask(
                S3Request::DeleteObject { bucket: bucket.to_owned(), key: key.to_owned() },
            ),
            Storage::Memory(m) => {
                m.delete_object(key);
                Pending::Answer(Ok(()))
            },
        }
    }

    /// The objects whose keys begin with `prefix`, up to a limit. The service is handed the limit
    /// as it is.
    pub fn list_objects(&self, bucket: &str, prefix: Option<&str>, max_keys: Option<i32>) -> (r:
        Pending<Result<Vec<ObjectInfo>, String>>)
        ensures
            match self {
                Storage::S3 => r matches Pending::Ask(
                    S3Request::ListObjects { bucket: b, prefix: p, max_keys: n },
                ) && b@ == bucket@ && opt_view(p) == opt_view(prefix) && n == max_keys,
                Storage::Memory(m) => r matches Pending::Answer(Ok(listed)) && lists(
                    listed@,
                    m.files@,
                    opt_view(prefix),
                    max_keys,
                ) && (exists|now: i64|
                    0 <= now && in_calendar(now as int) && #[trigger] dated(listed@, now)),
            },
    {
        match self {
            Storage::S3 => Pending::Ask(
                S3Request::ListObjects {
                    bucket: bucket.to_owned(),
                    prefix: owned(prefix),
                    max_keys,
                },
            ),
            Storage::Memory(m) => Pending::Answer(Ok(m.list_objects(prefix, max_keys))),
        }
    }

    /// What the pages of a list from the service give: the objects that have a key, in order; a
    /// size or time that is missing is zero. Where a page fails, the list does.
    pub fn list_objects_from_s3(reply: Result<Vec<S3ListedObject>, String>) -> (r: Result<
        Vec<ObjectInfo>,
        String,
    >)
        ensures
            match (reply, r) {
                (Ok(objects), Ok(listed)) => infos(listed@) == kept_infos(objects@),
                (Err(_), Err(e)) => e@ == "S3 list error"@,
                _ => false,
            },
    {
        let objects = match reply {
            Ok(objects) => objects,
            Err(_) => {
                return Err("S3 list error".to_owned());
            },
        };
        let mut listed: Vec<ObjectInfo> = Vec::new();
        let mut i: usize = 0;
        proof {
            assert(infos(listed@) =~= kept_infos(objects@.take(0)));
        }
        while i < objects.len()
            invariant
                i <= objects@.len(),
                infos(listed@) == kept_infos(objects@.take(i as int)),
            decreases objects@.len() - i,
        {
            let o = &objects[i];
            let ghost before = listed@;
            if let Some(key) = &o.key {
                listed.push(
                    ObjectInfo {
                        key: key.clone(),
                        size: o.size.unwrap_or(0),
                        last_modified_secs: o.last_modified_secs.unwrap_or(0),
                    },
                );
            }
            proof {
                let t = objects@.take(i + 1);
                assert(t.drop_last() =~= objects@.take(i as int));
                assert(t.last() == objects@[i as int]);
                if o.key is Some {
                    assert(infos(listed@) =~= infos(before).push(info_of(*o)));
                }
            }
            i = i + 1;
        }
        proof {
            assert(objects@.take(objects@.len() as int) =~= objects@);
        }
        Ok(listed)
    }

    /// Starts an upload in parts.
    pub fn create_multipart_upload(
        &mut self,
        bucket: &str,
        key: &str,
        content_type: Option<&str>,
    ) -> (r: Pending<Result<String, String>>)
        ensures
            match *old(self) {
                Storage::S3 => {
                    &&& *final(self) is S3
                    &&& r matches Pending::Ask(
                        S3Request::CreateMultipartUpload { bucket: b, key: k, content_type: t },
                    ) && b@ == bucket@ && k@ == key@ && opt_view(t) == opt_view(content_type)
                },
                Storage::Memory(before) => {
                    &&& r matches Pending::Answer(Ok(id))
                    &&& *final(self) matches Storage::Memory(after)
                    &&& uuid_shaped(id@)
                    &&& after.multipart_uploads@ == before.multipart_uploads@.insert(
                        id@,
                        Seq::<Part>::empty(),
                    )
                    &&& after.files@ == before.files@
                    &&& after.content_types@ == before.content_types@
                },
            },
    {
        match self {
            Storage::S3 => Pending::Ask(
                S3Request::CreateMultipartUpload {
                    bucket: bucket.to_owned(),
                    key: key.to_owned(),
                    content_type: owned(content_type),
                },
            ),
            Storage::Memory(m) => {
                let id = m.create_multipart_upload();
                Pending::Answer(Ok(id))
            },
        }
    }

    /// What a call of the service that gives an id or a tag gives: an empty text where it names
    /// none.
    pub fn text_from_s3(reply: Result<Option<String>, String>) -> (r: Result<String, String>)
        ensures
            match (reply, r) {
                (Ok(Some(s)), Ok(t)) => t == s,
                (Ok(None), Ok(t)) => t@ == Seq::<char>::empty(),
                (Err(e), Err(f)) => f == e,
                _ => false,
            },
    {
        match reply {
            Ok(Some(s)) => Ok(s),
            Ok(None) => Ok(String::new()),
            Err(e) => Err(e),
        }
    }

    /// Stores a part of an upload.
    pub fn upload_part(
        &mut self,
        bucket: &str,
        key: &str,
        upload_id: &str,
        part_number: i32,
        data: Vec<u8>,
    ) -> (r: Pending<Result<String, String>>)
        ensures
            match *old(self) {
                Storage::S3 => {
                    &&& *final(self) is S3
                    &&& r matches Pending::Ask(
                        S3Request::UploadPart {
                            bucket: b,
                            key: k,
                            upload_id: u,
                            part_number: n,
                            data: d,
                        },
                    ) && b@ == bucket@ && k@ == key@ && u@ == upload_id@ && n == part_number && d@
                        == data@
                },
                Storage::Memory(before) => *final(self) matches Storage::Memory(after)
                    && after.files@ == before.files@ && after.content_types@
                    == before.content_types@ && match r {
                    Pending::Answer(Ok(tag)) => {
                        &&& tag@ == "mem-etag"@
                        &&& before.multipart_uploads@.contains_key(upload_id@)
                        &&& after.multipart_uploads@ == before.multipart_uploads@.insert(
                            upload_id@,
                            with_part(
                                before.multipart_uploads@[upload_id@],
                                part_number as int,
                                data@,
                            ),
                        )
                        &&& increasing(before.multipart_uploads@[upload_id@])
                        &&& increasing(after.multipart_uploads@[upload_id@])
                    },
                    Pending::Answer(Err(e)) => {
                        &&& e@ == "Upload ID not found"@
                        &&& !before.multipart_uploads@.contains_key(upload_id@)
                        &&& after.multipart_uploads@ == before.multipart_uploads@
                    },
                    Pending::Ask(_) => false,
                },
            },
    {
        match self {
            Storage::S3 => Pending::Ask(
                S3Request::UploadPart {
                    bucket: bucket.to_owned(),
                    key: key.to_owned(),
                    upload_id: upload_id.to_owned(),
                    part_number,
                    data,
                },
            ),
            Storage::Memory(m) => {
                let answer = m.upload_part(upload_id, part_number, data);
                Pending::Answer(answer)
            },
        }
    }

    /// Ends an upload. The memory joins the parts it holds, whatever `parts` lists; the service is
    /// handed the list.
    pub fn complete_multipart_upload(
        &mut self,
        bucket: &str,
        key: &str,
        upload_id: &str,
        parts: Vec<CompletedPart>,
    ) -> (r: Pending<Result<(), String>>)
        ensures
            match *old(self) {
                Storage::S3 => {
                    &&& *final(self) is S3
                    &&& r matches Pending::Ask(
                        S3Request::CompleteMultipartUpload {
                            bucket: b,
                            key: k,
                            upload_id: u,
                            parts: p,
                        },
                    ) && b@ == bucket@ && k@ == key@ && u@ == upload_id@ && p == parts
                },
                Storage::Memory(before) => *final(self) matches Storage::Memory(after)
                    && after.content_types@ == before.content_types@ && after.multipart_uploads@
                    == before.multipart_uploads@.remove(upload_id@) && match r {
                    Pending::Answer(Ok(_)) => {
                        &&& before.multipart_uploads@.contains_key(upload_id@)
                        &&& increasing(before.multipart_uploads@[upload_id@])
                        &&& after.files@ == before.files@.insert(
                            key@,
                            joined(before.multipart_uploads@[upload_id@]),
                        )
                    },
                    Pending::Answer(Err(e)) => {
                        &&& e@ == "Upload ID not found"@
                        &&& !before.multipart_uploads@.contains_key(upload_id@)
                        &&& after.files@ == before.files@
                    },
                    Pending::Ask(_) => false,
                },
            },
    {
        match self {
            Storage::S3 => Pending::Ask(
                S3Request::CompleteMultipartUpload {
                    bucket: bucket.to_owned(),
                    key: key.to_owned(),
                    upload_id: upload_id.to_owned(),
                    parts,
                },
            ),
            Storage::Memory(m) => {
                let answer = m.complete_multipart_upload(key, upload_id);
                Pending::Answer(answer)
            },
        }
    }

    /// Drops an upload.
    pub fn abort_multipart_upload(&mut self, bucket: &str, key: &str, upload_id: &str) -> (r:
        Pending<Result<(), String>>)
        ensures
            match *old(self) {
                Storage::S3 => {
                    &&& *final(self) is S3
                    &&& r matches Pending::Ask(
                        S3Request::AbortMultipartUpload { bucket: b, key: k, upload_id: u },
                    ) && b@ == bucket@ && k@ == key@ && u@ == upload_id@
                },
                Storage::Memory(before) => {
                    &&& r == Pending::Answer(Ok::<(), String>(()))
                    &&& *final(self) matches Storage::Memory(after) && after.multipart_uploads@
                        == before.multipart_uploads@.remove(upload_id@) && after.files@
                        == before.files@ && after.content_types@ == before.content_types@
                },
            },
    {
        match self {
            Storage::S3 => Pending::Ask(
                S3Request::AbortMultipartUpload {
                    bucket: bucket.to_owned(),
                    key: key.to_owned(),
                    upload_id: upload_id.to_owned(),
                },
            ),
            Storage::Memory(m) => {
                m.abort_multipart_upload(upload_id);
                Pending::Answer(Ok(()))
            },
        }
    }
}

/// What a list says of an object.
pub struct InfoView {
    pub key: Seq<char>,
    pub size: int,
    pub last_modified_secs: int,
}

/// What a list says of its objects.
pub open spec fn infos(listed: Seq<ObjectInfo>) -> Seq<InfoView> {
    Seq::new(
        listed.len(),
        |i: int|
            InfoView {
                key: listed[i].key@,
                size: listed[i].size as int,
                last_modified_secs: listed[i].last_modified_secs as int,
            },
    )
}

/// What is said of an object of the service that has a key.
pub open spec fn info_of(o: S3ListedObject) -> InfoView
    recommends
        o.key is Some,
{
    InfoView {
        key: o.key->0@,
        size: match o.size {
            Some(n) => n as int,
            None => 0,
        },
        last_modified_secs: match o.last_modified_secs {
            Some(n) => n as int,
            None => 0,
        },
    }
}

/// What is said of those objects of the service that have a key.
pub open spec fn kept_infos(objects: Seq<S3ListedObject>) -> Seq<InfoView>
    decreases objects.len(),
{
    if objects.len() == 0 {
        Seq::empty()
    } else if objects.last().key is Some {
        kept_infos(objects.drop_last()).push(info_of(objects.last()))
    } else {
        kept_infos(objects.drop_last())
    }
}

} // verus!
