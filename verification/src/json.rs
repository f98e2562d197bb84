//! JSON documents, held and read by the `serde_json` crate.

use vstd::prelude::*;
use crate::model::opt_view;

verus! {

/// A JSON document.
pub enum JsonTree {
    Null,
    Bool(bool),
    /// An integer.
    Int(int),
    /// Any other number, by the bits of its binary64 form.
    Fraction(u64),
    Text(Seq<char>),
    Array(Seq<JsonTree>),
    Object(Map<Seq<char>, JsonTree>),
}

/// A document as `serde_json` holds it.
#[verifier::external_type_specification]
#[verifier::external_body]
pub struct ExJsonValue(serde_json::Value);

/// What a `serde_json::Value` holds. Its numbers are integers between `i64::MIN` and `u64::MAX`
/// and finite floating point numbers.
pub uninterp spec fn json_tree(v: serde_json::Value) -> JsonTree;

/// What `serde_json::from_slice` into a `Value` makes of `bytes`: a document, or the text of its
/// error.
pub uninterp spec fn json_parsed(bytes: Seq<u8>) -> Result<JsonTree, Seq<char>>;

/// What `serde_json::from_slice` into a `Vec<Value>` makes of `bytes`: some documents, or nothing.
pub uninterp spec fn json_list_parsed(bytes: Seq<u8>) -> Option<Seq<JsonTree>>;

/// What `serde_json::to_vec` writes for a document.
pub uninterp spec fn json_printed(t: JsonTree) -> Seq<u8>;

/// What each of some values holds.
pub open spec fn json_trees(v: Seq<serde_json::Value>) -> Seq<JsonTree> {
    Seq::new(v.len(), |i: int| json_tree(v[i]))
}

/// The key by which `serde_json` marks a text that holds another document. Where it is the first
/// key of an object that is read, the document in the text takes the place of the object.
pub open spec fn raw_value_key() -> Seq<char> {
    "$serde_json::private::RawValue"@
}

/// Whether `serde_json::from_slice` into a `Value` makes the document `t` of `bytes`.
pub open spec fn reads_as(bytes: Seq<u8>, t: JsonTree) -> bool {
    json_parsed(bytes) == Ok::<JsonTree, Seq<char>>(t)
}

/// Whether `bytes` read back as every plain document that they are the text of, and, where it is a
/// list, as its items.
pub open spec fn reads_back(bytes: Seq<u8>) -> bool {
    forall|t: JsonTree|
        #[trigger] json_printed(t) == bytes && plain(t, 127) ==> reads_as(bytes, t) && (
        t matches JsonTree::Array(items) ==> json_list_parsed(bytes) == Some(items))
}

/// Whether a document has no number but integers, is nested at most `depth` deep and has no object
/// with the key by which `serde_json` marks a text that holds a document.
pub open spec fn plain(t: JsonTree, depth: nat) -> bool
    decreases depth,
{
    match t {
        JsonTree::Int(n) => i64::MIN <= n <= u64::MAX,
        JsonTree::Fraction(_) => false,
        JsonTree::Array(items) => depth > 0 && forall|i: int|
            0 <= i < items.len() ==> plain(#[trigger] items[i], (depth - 1) as nat),
        JsonTree::Object(members) => depth > 0 && !members.contains_key(raw_value_key())
            && forall|k: Seq<char>| #[trigger]
            members.contains_key(k) ==> plain(members[k], (depth - 1) as nat),
        _ => true,
    }
}

/// The member `key` of a document, where it is an object that has one.
pub open spec fn member(t: JsonTree, key: Seq<char>) -> Option<JsonTree> {
    match t {
        JsonTree::Object(members) => if members.contains_key(key) {
            Some(members[key])
        } else {
            None
        },
        _ => None,
    }
}

/// The member `key` of a document, where it is a string.
pub open spec fn text_member(t: JsonTree, key: Seq<char>) -> Option<Seq<char>> {
    match member(t, key) {
        Some(JsonTree::Text(s)) => Some(s),
        _ => None,
    }
}

/// The member `key` of a document, where it is an `i64`.
pub open spec fn i64_member(t: JsonTree, key: Seq<char>) -> Option<int> {
    match member(t, key) {
        Some(JsonTree::Int(n)) => if i64::MIN <= n <= i64::MAX {
            Some(n)
        } else {
            None
        },
        _ => None,
    }
}

/// A document with the member `key` set, where it is an object.
pub open spec fn with_member(t: JsonTree, key: Seq<char>, item: JsonTree) -> JsonTree {
    match t {
        JsonTree::Object(members) => JsonTree::Object(members.insert(key, item)),
        other => other,
    }
}

/// A document without the member `key`.
pub open spec fn without_member(t: JsonTree, key: Seq<char>) -> JsonTree {
    match t {
        JsonTree::Object(members) => JsonTree::Object(members.remove(key)),
        other => other,
    }
}

/// A list is plain where its items are, one level less deep.
pub proof fn lemma_plain_list(items: Seq<JsonTree>, depth: nat)
    requires
        depth > 0,
    ensures
        plain(JsonTree::Array(items), depth) == (forall|i: int|
            0 <= i < items.len() ==> plain(#[trigger] items[i], (depth - 1) as nat)),
{
    let t = JsonTree::Array(items);
    assert(t->Array_0 == items);
}

/// The marking key has 30 characters.
pub proof fn lemma_raw_value_key()
    ensures
        raw_value_key().len() == 30,
{
    reveal_strlit("$serde_json::private::RawValue");
}

/// A plain document stays plain when a member of it, other than the marking one, is set to a text
/// or an integer.
pub proof fn lemma_plain_member(t: JsonTree, key: Seq<char>, item: JsonTree, depth: nat)
    requires
        plain(t, depth),
        key != raw_value_key(),
        item is Text || (item matches JsonTree::Int(n) && i64::MIN <= n <= u64::MAX),
    ensures
        plain(with_member(t, key, item), depth),
{
    if let JsonTree::Object(members) = t {
        assert(plain(item, (depth - 1) as nat));
        let more = members.insert(key, item);
        assert forall|k: Seq<char>| #[trigger] more.contains_key(k) implies plain(
            more[k],
            (depth - 1) as nat,
        ) by {
            if k != key {
                assert(members.contains_key(k));
            }
        }
    }
}

// ---------------------------------------------------------------------------
// Calls into serde_json
// ---------------------------------------------------------------------------

/// `serde_json::from_slice` into a `Value`: the document, or the text of the error. Either is a
/// function of the bytes.
#[verifier::external_body]
pub(crate) fn json_parse(bytes: &[u8]) -> (r: Result<serde_json::Value, String>)
    ensures
        match r {
            Ok(v) => reads_as(bytes@, json_tree(v)),
            Err(e) => json_parsed(bytes@) == Err::<JsonTree, Seq<char>>(e@),
        },
{
    serde_json::from_slice::<serde_json::Value>(bytes).map_err(|e| e.to_string())
}

/// `serde_json::from_slice` into a `Vec<Value>`: what it makes of the bytes is a function of them.
/// Where it takes them, reading them into a `Value` gives the array of the same items. (It can
/// refuse bytes that read as an array otherwise: those of an object whose first key marks a text
/// that holds an array.)
#[verifier::external_body]
pub(crate) fn json_parse_list(bytes: &[u8]) -> (r: Option<Vec<serde_json::Value>>)
    ensures
        match r {
            Some(v) => json_list_parsed(bytes@) == Some(json_trees(v@)) && reads_as(
                bytes@,
                JsonTree::Array(json_trees(v@)),
            ),
            None => json_list_parsed(bytes@) is None,
        },
{
    serde_json::from_slice::<Vec<serde_json::Value>>(bytes).ok()
}

/// `serde_json::to_vec` of a `Value`, which does not fail: the keys of its objects are strings
/// and its numbers are finite. What it writes is a function of the document, and
/// `serde_json::from_slice` reads what it writes for a document back as that document where all
/// numbers are integers, at most 127 arrays and objects are nested in each other and no object has
/// the key by which `serde_json` marks a text that holds a document. Where that document is an
/// array, reading into a `Vec<Value>` gives its items.
#[verifier::external_body]
pub(crate) fn json_print(v: &serde_json::Value) -> (r: Vec<u8>)
    ensures
        r@ == json_printed(json_tree(*v)),
        reads_back(r@),
{
    serde_json::to_vec(v).expect("a JSON value can be written")
}

/// `serde_json::to_vec` of a `Vec<Value>`, which writes what it writes for the array of these
/// items, and does not fail either. It reads back under the same conditions, into a `Value` and
/// into a `Vec<Value>`.
#[verifier::external_body]
pub(crate) fn json_print_list(v: &Vec<serde_json::Value>) -> (r: Vec<u8>)
    ensures
        r@ == json_printed(JsonTree::Array(json_trees(v@))),
        reads_back(r@),
{
    serde_json::to_vec(v).expect("a list of JSON values can be written")
}

/// `Value::get` with a string: the member of that name of an object, nothing for any other value.
#[verifier::external_body]
pub(crate) fn json_get<'a>(v: &'a serde_json::Value, key: &str) -> (r: Option<&'a serde_json::Value>)
    ensures
        match r {
            Some(item) => member(json_tree(*v), key@) == Some(json_tree(*item)),
            None => member(json_tree(*v), key@) is None,
        },
{
    v.get(key)
}

/// `Value::as_str`: the characters of a string, nothing for any other value.
#[verifier::external_body]
pub(crate) fn json_as_str<'a>(v: &'a serde_json::Value) -> (r: Option<&'a str>)
    ensures
        match r {
            Some(s) => json_tree(*v) == JsonTree::Text(s@),
            None => !(json_tree(*v) is Text),
        },
{
    v.as_str()
}

/// `Value::as_i64`: an integer of that range, nothing for any other value.
#[verifier::external_body]
pub(crate) fn json_as_i64(v: &serde_json::Value) -> (r: Option<i64>)
    ensures
        match r {
            Some(n) => json_tree(*v) == JsonTree::Int(n as int),
            None => !(json_tree(*v) matches JsonTree::Int(n) && i64::MIN <= n <= i64::MAX),
        },
{
    v.as_i64()
}

/// `Value::from` of a `String` is the JSON string of its characters.
#[verifier::external_body]
pub(crate) fn json_text(s: String) -> (r: serde_json::Value)
    ensures
        json_tree(r) == JsonTree::Text(s@),
{
    serde_json::Value::from(s)
}

/// `Value::from` of an `i64` is that integer.
#[verifier::external_body]
pub(crate) fn json_i64(n: i64) -> (r: serde_json::Value)
    ensures
        json_tree(r) == JsonTree::Int(n as int),
{
    serde_json::Value::from(n)
}

/// `Value::from` of a `usize` is that integer.
#[verifier::external_body]
pub(crate) fn json_usize(n: usize) -> (r: serde_json::Value)
    ensures
        json_tree(r) == JsonTree::Int(n as int),
{
    serde_json::Value::from(n)
}

/// `Value::from` of a `bool` is that truth value.
#[verifier::external_body]
pub(crate) fn json_bool(b: bool) -> (r: serde_json::Value)
    ensures
        json_tree(r) == JsonTree::Bool(b),
{
    serde_json::Value::from(b)
}

/// `Value::Null` is the JSON null.
#[verifier::external_body]
pub(crate) fn json_null() -> (r: serde_json::Value)
    ensures
        json_tree(r) == JsonTree::Null,
{
    serde_json::Value::Null
}

/// `Value::from` of a `Vec<Value>` is the array of these items.
#[verifier::external_body]
pub(crate) fn json_list(v: Vec<serde_json::Value>) -> (r: serde_json::Value)
    ensures
        json_tree(r) == JsonTree::Array(json_trees(v@)),
{
    serde_json::Value::from(v)
}

/// `Value::Object` of a new `serde_json::Map` is the object without members.
#[verifier::external_body]
pub(crate) fn json_object() -> (r: serde_json::Value)
    ensures
        json_tree(r) == JsonTree::Object(Map::empty()),
{
    serde_json::Value::Object(serde_json::Map::new())
}

/// `Value::as_object_mut` and `Map::insert`: an object gets the member, or a new value for it; any
/// other value stays.
#[verifier::external_body]
pub(crate) fn json_insert(v: &mut serde_json::Value, key: &str, item: serde_json::Value)
    ensures
        json_tree(*final(v)) == with_member(json_tree(*old(v)), key@, json_tree(item)),
{
    if let Some(members) = v.as_object_mut() {
        members.insert(key.to_string(), item);
    }
}

/// `Value::as_object_mut` and `Map::remove`: an object loses the member; any other value stays.
/// Says whether there was one.
#[verifier::external_body]
pub(crate) fn json_remove(v: &mut serde_json::Value, key: &str) -> (r: bool)
    ensures
        r == (member(json_tree(*old(v)), key@) is Some),
        json_tree(*final(v)) == without_member(json_tree(*old(v)), key@),
{
    match v.as_object_mut() {
        Some(members) => members.remove(key).is_some(),
        None => false,
    }
}

// ---------------------------------------------------------------------------
// Members by type
// ---------------------------------------------------------------------------

/// The member `key` of a document, where it is a string.
pub fn json_text_member(v: &serde_json::Value, key: &str) -> (r: Option<String>)
    ensures
        opt_view(r) == text_member(json_tree(*v), key@),
{
    match json_get(v, key) {
        Some(item) => match json_as_str(item) {
            Some(s) => Some(s.to_owned()),
            None => None,
        },
        None => None,
    }
}

/// The member `key` of a document, where it is an `i64`.
pub fn json_i64_member(v: &serde_json::Value, key: &str) -> (r: Option<i64>)
    ensures
        match r {
            Some(n) => i64_member(json_tree(*v), key@) == Some(n as int),
            None => i64_member(json_tree(*v), key@) is None,
        },
{
    match json_get(v, key) {
        Some(item) => json_as_i64(item),
        None => None,
    }
}

} // verus!
