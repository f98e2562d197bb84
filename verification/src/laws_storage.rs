//! Laws of the objects in memory.

use vstd::prelude::*;
use crate::model::opt_view;
use crate::parts::{joined, Part};
use crate::storage::{
    kept_infos, list_limit, lists, lists_key, wanted, GetObjectOutput, InfoView, MemoryBackend,
    ObjectBody, ObjectInfo, S3ListedObject,
};
use crate::text::begins;

verus! {

/// Whether storing an object leads from one state to another.
pub open spec fn stores(
    before: MemoryBackend,
    after: MemoryBackend,
    key: Seq<char>,
    data: Seq<u8>,
    content_type: Option<Seq<char>>,
) -> bool {
    &&& after.files@ == before.files@.insert(key, data)
    &&& after.content_types@ == (match content_type {
        Some(t) => before.content_types@.insert(key, t),
        None => before.content_types@,
    })
}

/// Whether removing an object leads from one state to another.
pub open spec fn removes_object(
    before: MemoryBackend,
    after: MemoryBackend,
    key: Seq<char>,
) -> bool {
    &&& after.files@ == before.files@.remove(key)
    &&& after.content_types@ == before.content_types@.remove(key)
}

/// An object that was stored is given back: the same bytes, under the content type that it was
/// stored with. Every other object is given as before.
pub proof fn stored_objects_are_given(
    before: MemoryBackend,
    after: MemoryBackend,
    key: Seq<char>,
    data: Seq<u8>,
    content_type: Option<Seq<char>>,
    r: Result<GetObjectOutput, String>,
    other: Seq<char>,
    range: Option<Seq<char>>,
    s: Result<GetObjectOutput, String>,
)
    requires
        stores(before, after, key, data, content_type),
    ensures
        after.gives(key, None, r) ==> (r matches Ok(out) && (out.body matches ObjectBody::Bytes(b)
            && b@ == data) && (content_type is Some ==> opt_view(out.content_type)
            == content_type)),
        other != key ==> after.gives(other, range, s) == before.gives(other, range, s),
{
    if let Ok(out) = r {
        if let ObjectBody::Bytes(b) = out.body {
            assert(data.subrange(0, data.len() as int) =~= data);
        }
    }
}

/// An object that was removed is not given, and every other object is given as before.
pub proof fn removed_objects_are_gone(
    before: MemoryBackend,
    after: MemoryBackend,
    key: Seq<char>,
    range: Option<Seq<char>>,
    r: Result<GetObjectOutput, String>,
    other: Seq<char>,
    s: Result<GetObjectOutput, String>,
)
    requires
        removes_object(before, after, key),
    ensures
        after.gives(key, range, r) ==> (r matches Err(e) && e@ == "Not found"@),
        other != key ==> after.gives(other, range, s) == before.gives(other, range, s),
{
}

/// An object that was uploaded in parts is given back as the data of its parts, by increasing
/// number.
pub proof fn completed_uploads_are_given(
    before: MemoryBackend,
    after: MemoryBackend,
    key: Seq<char>,
    parts: Seq<Part>,
    r: Result<GetObjectOutput, String>,
)
    requires
        after.files@ == before.files@.insert(key, joined(parts)),
    ensures
        after.gives(key, None, r) ==> (r matches Ok(out) && (out.body matches ObjectBody::Bytes(b)
            && b@ == joined(parts))),
{
    let data = joined(parts);
    if let Ok(out) = r {
        if let ObjectBody::Bytes(b) = out.body {
            assert(data.subrange(0, data.len() as int) =~= data);
        }
    }
}

/// A list of the objects in memory holds each object whose key begins with the prefix, once and with
/// its size, and no others; with a limit, at least one and at most as many as the limit, and all of
/// them where there are fewer.
pub proof fn lists_hold_what_is_asked_for(
    listed: Seq<ObjectInfo>,
    files: Map<Seq<char>, Seq<u8>>,
    prefix: Option<Seq<char>>,
    max_keys: Option<i32>,
    key: Seq<char>,
)
    requires
        lists(listed, files, prefix, max_keys),
    ensures
        ({
            let is_listed = exists|i: int|
                0 <= i < listed.len() && (#[trigger] listed[i]).key@ == key;
            let is_wanted = files.contains_key(key) && (prefix matches Some(p) ==> begins(key, p));
            let limit = match max_keys {
                Some(n) => if n < 1 {
                    1int
                } else {
                    n as int
                },
                None => listed.len() as int + 1,
            };
            &&& is_listed ==> is_wanted
            &&& listed.len() <= limit
            &&& listed.len() < limit && is_wanted ==> is_listed
            &&& forall|i: int, j: int|
                0 <= i < j < listed.len() ==> (#[trigger] listed[i]).key@ != (
                #[trigger] listed[j]).key@
            &&& forall|i: int|
                0 <= i < listed.len() && (#[trigger] listed[i]).key@ == key ==> listed[i].size
                    == files[key].len() as i64
        }),
{
    assert forall|i: int| 0 <= i < listed.len() && (#[trigger] listed[i]).key@ == key implies
        listed[i].size == files[key].len() as i64 && files.contains_key(key) && wanted(
        key,
        prefix,
    ) by {}
    if files.contains_key(key) && wanted(key, prefix) && (max_keys is None || listed.len()
        < list_limit(max_keys)->0) {
        assert(lists_key(listed, key));
        let i = choose|i: int| 0 <= i < listed.len() && (#[trigger] listed[i]).key@ == key;
        assert(listed[i].key@ == key);
    }
}

/// A list of the service is kept as the objects that have a key, in order, each with its size and
/// time; what the service does not say is zero.
pub proof fn lists_of_the_service_are_kept(objects: Seq<S3ListedObject>)
    ensures
        kept_infos(objects) == objects.filter(
            |o: S3ListedObject| o.key is Some,
        ).map_values(
            |o: S3ListedObject|
                InfoView {
                    key: o.key->0@,
                    size: (match o.size {
                        Some(n) => n as int,
                        None => 0,
                    }),
                    last_modified_secs: (match o.last_modified_secs {
                        Some(n) => n as int,
                        None => 0,
                    }),
                },
        ),
    decreases objects.len(),
{
    reveal(Seq::filter);
    let p = |o: S3ListedObject| o.key is Some;
    let f = |o: S3ListedObject|
        InfoView {
            key: o.key->0@,
            size: (match o.size {
                Some(n) => n as int,
                None => 0,
            }),
            last_modified_secs: (match o.last_modified_secs {
                Some(n) => n as int,
                None => 0,
            }),
        };
    if objects.len() > 0 {
        lists_of_the_service_are_kept(objects.drop_last());
        let before = objects.drop_last().filter(p);
        if objects.last().key is Some {
            assert(before.push(objects.last()).map_values(f) =~= before.map_values(f).push(
                f(objects.last()),
            ));
        }
    }
    assert(kept_infos(objects) =~= objects.filter(p).map_values(f));
}

} // verus!
