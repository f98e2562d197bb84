//! Media types and header values of files.

use percent_encoding::{utf8_percent_encode, NON_ALPHANUMERIC};
use vstd::prelude::*;
use vstd::utf8::encode_utf8;

verus! {

/// The media type that the `mime_guess` crate gives a path.
pub uninterp spec fn media_type(path: Seq<char>) -> Seq<char>;

/// `mime_guess::from_path` and `first_or_octet_stream`: the media type that the crate's table has
/// for the extension of `path`, taken apart at `/` as on Unix. It does not look at any disk.
#[verifier::external_body]
pub(crate) fn guess_media_type(path: &str) -> (r: String)
    ensures
        r@ == media_type(path@),
{
    mime_guess::from_path(path).first_or_octet_stream().to_string()
}

/// The upper-case hexadecimal digit that stands for `d`.
pub open spec fn upper_hex_char(d: int) -> char {
    if d < 10 {
        ('0' as int + d) as char
    } else {
        ('A' as int + d - 10) as char
    }
}

/// One byte in a percent-encoded text: itself where it is an ASCII letter or digit, otherwise `%`
/// and two digits.
pub open spec fn percent_byte(b: u8) -> Seq<char> {
    if 0x30 <= b <= 0x39 || 0x41 <= b <= 0x5a || 0x61 <= b <= 0x7a {
        seq![b as char]
    } else {
        seq!['%', upper_hex_char(b as int / 16), upper_hex_char(b as int % 16)]
    }
}

/// Bytes as percent-encoded text.
pub open spec fn percent_text(bytes: Seq<u8>) -> Seq<char>
    decreases bytes.len(),
{
    if bytes.len() == 0 {
        Seq::empty()
    } else {
        percent_text(bytes.drop_last()) + percent_byte(bytes.last())
    }
}

/// `utf8_percent_encode` of the `percent_encoding` crate with its set `NON_ALPHANUMERIC`: every
/// byte of the UTF-8 form that is not an ASCII letter or digit becomes `%` and two upper-case
/// hexadecimal digits.
#[verifier::external_body]
pub(crate) fn percent_encode(s: &str) -> (r: String)
    ensures
        r@ == percent_text(encode_utf8(s@)),
{
    utf8_percent_encode(s, NON_ALPHANUMERIC).to_string()
}

} // verus!
