//! Random identifiers.

use uuid::Uuid;
use vstd::prelude::*;

verus! {

/// Whether `s` has the form of a random UUID: 36 characters, which are `-` at four places and
/// lower-case hexadecimal digits elsewhere; the digit of the version is `4`, and that of the
/// variant one of `8`, `9`, `a` and `b`.
pub open spec fn uuid_shaped(s: Seq<char>) -> bool {
    &&& s.len() == 36
    &&& forall|i: int|
        0 <= i < 36 ==> if i == 8 || i == 13 || i == 18 || i == 23 {
            #[trigger] s[i] == '-'
        } else {
            '0' <= s[i] <= '9' || 'a' <= s[i] <= 'f'
        }
    &&& s[14] == '4'
    &&& s[19] == '8' || s[19] == '9' || s[19] == 'a' || s[19] == 'b'
}

/// Whether `b` are the bytes of a random UUID: 16 bytes, with the version 4 in the high half of
/// byte 6 and the variant 2 in the two highest bits of byte 8.
pub open spec fn uuid_bytes(b: Seq<u8>) -> bool {
    b.len() == 16 && b[6] / 16 == 4 && b[8] / 64 == 2
}

/// `Uuid::new_v4` of the `uuid` crate, written by its `Display`. The number is random; its form
/// is not.
#[verifier::external_body]
pub(crate) fn random_uuid() -> (r: String)
    ensures
        uuid_shaped(r@),
{
    Uuid::new_v4().to_string()
}

/// `Uuid::new_v4` of the `uuid` crate as its 16 bytes. They are random but for version and variant.
#[verifier::external_body]
pub(crate) fn random_uuid_bytes() -> (r: Vec<u8>)
    ensures
        uuid_bytes(r@),
{
    Uuid::new_v4().into_bytes().to_vec()
}

/// A new identifier for a share or a session.
pub fn fresh_id() -> (r: String)
    ensures
        uuid_shaped(r@),
{
    random_uuid()
}

/// A new secret: the bytes of two random UUIDs.
pub fn fresh_secret() -> (r: Vec<u8>)
    ensures
        r@.len() == 32,
        uuid_bytes(r@.take(16)),
        uuid_bytes(r@.skip(16)),
{
    let mut r = random_uuid_bytes();
    let mut second = random_uuid_bytes();
    let ghost first = r@;
    let ghost rest = second@;
    r.append(&mut second);
    proof {
        assert(r@.take(16) =~= first);
        assert(r@.skip(16) =~= rest);
    }
    r
}

/// An identifier holds none of the characters that separate the parts of tokens and keys.
pub proof fn uuid_has_no_separator(s: Seq<char>)
    requires
        uuid_shaped(s),
    ensures
        !s.contains('.'),
        !s.contains('/'),
{
}

} // verus!
