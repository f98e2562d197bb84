//! Bytes in hexadecimal notation.
//!
//! Text is read two bytes of its UTF-8 form at a time, so a character outside ASCII can be cut
//! in two; readers report that apart from a pair that is not a number.

use vstd::prelude::*;
use crate::text::characters;

verus! {

/// What reading hexadecimal text gives, over sequences.
pub enum HexView {
    /// The bytes that were read.
    Bytes(Seq<u8>),
    /// A pair of characters is not a number.
    BadDigit,
    /// A pair would hold part of a character.
    Cut,
}

/// What reading hexadecimal text gives.
pub enum HexRead {
    /// The bytes that were read.
    Bytes(Vec<u8>),
    /// A pair of characters is not a number.
    BadDigit,
    /// A pair would hold part of a character.
    Cut,
}

impl View for HexRead {
    type V = HexView;

    open spec fn view(&self) -> HexView {
        match self {
            HexRead::Bytes(b) => HexView::Bytes(b@),
            HexRead::BadDigit => HexView::BadDigit,
            HexRead::Cut => HexView::Cut,
        }
    }
}

/// The lower-case digit that stands for `d`.
pub open spec fn hex_char(d: int) -> char {
    if d < 10 {
        ('0' as int + d) as char
    } else {
        ('a' as int + d - 10) as char
    }
}

/// Two lower-case digits for each byte.
pub open spec fn hex_text(bytes: Seq<u8>) -> Seq<char> {
    Seq::new(
        2 * bytes.len(),
        |i: int|
            if i % 2 == 0 {
                hex_char(bytes[i / 2] as int / 16)
            } else {
                hex_char(bytes[i / 2] as int % 16)
            },
    )
}

/// What the digit `c` stands for, in either case.
pub open spec fn hex_digit(c: char) -> Option<int> {
    if '0' <= c <= '9' {
        Some(c as int - '0' as int)
    } else if 'a' <= c <= 'f' {
        Some(c as int - 'a' as int + 10)
    } else if 'A' <= c <= 'F' {
        Some(c as int - 'A' as int + 10)
    } else {
        None
    }
}

/// The number that two characters stand for: two digits, or a `+` and one digit.
pub open spec fn pair_value(a: char, b: char) -> Option<u8> {
    match hex_digit(b) {
        Some(low) => if a == '+' {
            Some(low as u8)
        } else {
            match hex_digit(a) {
                Some(high) => Some((high * 16 + low) as u8),
                None => None,
            }
        },
        None => None,
    }
}

/// Whether `c` takes one byte in UTF-8.
pub open spec fn one_byte(c: char) -> bool {
    c <= '\u{7f}'
}

/// Whether `c` takes at most two bytes in UTF-8.
pub open spec fn two_bytes(c: char) -> bool {
    c <= '\u{7ff}'
}

/// `bytes` before what was read.
pub open spec fn preceded(bytes: Seq<u8>, read: HexView) -> HexView {
    match read {
        HexView::Bytes(b) => HexView::Bytes(bytes + b),
        other => other,
    }
}

/// The bytes that `s` stands for, pair by pair. A single byte left at the end is passed over.
pub open spec fn hex_read(s: Seq<char>) -> HexView
    decreases s.len(),
{
    if s.len() == 0 {
        HexView::Bytes(Seq::empty())
    } else if one_byte(s[0]) {
        if s.len() == 1 {
            HexView::Bytes(Seq::empty())
        } else if one_byte(s[1]) {
            match pair_value(s[0], s[1]) {
                Some(b) => preceded(seq![b], hex_read(s.skip(2))),
                None => HexView::BadDigit,
            }
        } else {
            HexView::Cut
        }
    } else if two_bytes(s[0]) {
        HexView::BadDigit
    } else {
        HexView::Cut
    }
}

/// The bytes that `s` stands for, where a pair that is not a number is passed over.
pub open spec fn hex_read_lossy(s: Seq<char>) -> HexView
    decreases s.len(),
{
    if s.len() == 0 {
        HexView::Bytes(Seq::empty())
    } else if one_byte(s[0]) {
        if s.len() == 1 {
            HexView::Bytes(Seq::empty())
        } else if one_byte(s[1]) {
            match pair_value(s[0], s[1]) {
                Some(b) => preceded(seq![b], hex_read_lossy(s.skip(2))),
                None => hex_read_lossy(s.skip(2)),
            }
        } else {
            HexView::Cut
        }
    } else if two_bytes(s[0]) {
        hex_read_lossy(s.skip(1))
    } else {
        HexView::Cut
    }
}

/// The lower-case digit that stands for `d`.
fn hex_digit_char(d: u8) -> (c: char)
    requires
        d < 16,
    ensures
        c == hex_char(d as int),
{
    match d {
        0 => '0',
        1 => '1',
        2 => '2',
        3 => '3',
        4 => '4',
        5 => '5',
        6 => '6',
        7 => '7',
        8 => '8',
        9 => '9',
        10 => 'a',
        11 => 'b',
        12 => 'c',
        13 => 'd',
        14 => 'e',
        _ => 'f',
    }
}

/// Two lower-case digits for each byte.
pub fn hex_encode(bytes: &[u8]) -> (r: String)
    ensures
        r@ == hex_text(bytes@),
{
    let mut r = String::new();
    let mut i: usize = 0;
    proof {
        assert(hex_text(bytes@.take(0)) =~= Seq::<char>::empty());
    }
    while i < bytes.len()
        invariant
            i <= bytes@.len(),
            r@ == hex_text(bytes@.take(i as int)),
        decreases bytes@.len() - i,
    {
        let b = bytes[i];
        r.push(hex_digit_char(b / 16));
        r.push(hex_digit_char(b % 16));
        proof {
            assert(r@ =~= hex_text(bytes@.take(i + 1)));
        }
        i = i + 1;
    }
    proof {
        assert(bytes@.take(bytes@.len() as int) =~= bytes@);
    }
    r
}

/// What the digit `c` stands for, in either case.
fn read_digit(c: char) -> (r: Option<u8>)
    ensures
        match r {
            Some(d) => d < 16 && hex_digit(c) == Some(d as int),
            None => hex_digit(c) is None,
        },
{
    if '0' <= c && c <= '9' {
        Some((c as u32 - '0' as u32) as u8)
    } else if 'a' <= c && c <= 'f' {
        Some((c as u32 - 'a' as u32 + 10) as u8)
    } else if 'A' <= c && c <= 'F' {
        Some((c as u32 - 'A' as u32 + 10) as u8)
    } else {
        None
    }
}

/// The number that two characters stand for.
fn read_pair(a: char, b: char) -> (r: Option<u8>)
    ensures
        r == pair_value(a, b),
{
    match read_digit(b) {
        Some(low) => if a == '+' {
            Some(low)
        } else {
            match read_digit(a) {
                Some(high) => Some(high * 16 + low),
                None => None,
            }
        },
        None => None,
    }
}

/// The bytes that `s` stands for.
pub fn hex_decode(s: &str) -> (r: HexRead)
    ensures
        r@ == hex_read(s@),
{
    let chars = characters(s);
    let mut bytes: Vec<u8> = Vec::new();
    let mut i: usize = 0;
    proof {
        assert(chars@.skip(0) =~= chars@);
        assert(preceded(bytes@, hex_read(s@)) == hex_read(s@)) by {
            if let HexView::Bytes(b) = hex_read(s@) {
                assert(bytes@ + b =~= b);
            }
        }
    }
    while i < chars.len()
        invariant
            chars@ == s@,
            i <= chars@.len(),
            preceded(bytes@, hex_read(chars@.skip(i as int))) == hex_read(s@),
        decreases chars@.len() - i,
    {
        let ghost rest = chars@.skip(i as int);
        let a = chars[i];
        if a <= '\u{7f}' {
            if i == chars.len() - 1 {
                proof {
                    assert(bytes@ + Seq::<u8>::empty() =~= bytes@);
                }
                return HexRead::Bytes(bytes);
            }
            let b = chars[i + 1];
            if b > '\u{7f}' {
                return HexRead::Cut;
            }
            match read_pair(a, b) {
                Some(byte) => {
                    proof {
                        assert(rest.skip(2) =~= chars@.skip(i + 2));
                        if let HexView::Bytes(tail) = hex_read(rest.skip(2)) {
                            assert(bytes@ + (seq![byte] + tail) =~= bytes@.push(byte) + tail);
                        }
                    }
                    bytes.push(byte);
                    i = i + 2;
                },
                None => {
                    return HexRead::BadDigit;
                },
            }
        } else if a <= '\u{7ff}' {
            return HexRead::BadDigit;
        } else {
            return HexRead::Cut;
        }
    }
    proof {
        assert(bytes@ + Seq::<u8>::empty() =~= bytes@);
    }
    HexRead::Bytes(bytes)
}

/// The bytes that `s` stands for, where a pair that is not a number is passed over.
pub fn hex_decode_lossy(s: &str) -> (r: HexRead)
    ensures
        r@ == hex_read_lossy(s@),
{
    let chars = characters(s);
    let mut bytes: Vec<u8> = Vec::new();
    let mut i: usize = 0;
    proof {
        assert(chars@.skip(0) =~= chars@);
        assert(preceded(bytes@, hex_read_lossy(s@)) == hex_read_lossy(s@)) by {
            if let HexView::Bytes(b) = hex_read_lossy(s@) {
                assert(bytes@ + b =~= b);
            }
        }
    }
    while i < chars.len()
        invariant
            chars@ == s@,
            i <= chars@.len(),
            preceded(bytes@, hex_read_lossy(chars@.skip(i as int))) == hex_read_lossy(s@),
        decreases chars@.len() - i,
    {
        let ghost rest = chars@.skip(i as int);
        let a = chars[i];
        if a <= '\u{7f}' {
            if i == chars.len() - 1 {
                proof {
                    assert(bytes@ + Seq::<u8>::empty() =~= bytes@);
                }
                return HexRead::Bytes(bytes);
            }
            let b = chars[i + 1];
            if b > '\u{7f}' {
                return HexRead::Cut;
            }
            proof {
                assert(rest.skip(2) =~= chars@.skip(i + 2));
            }
            match read_pair(a, b) {
                Some(byte) => {
                    proof {
                        if let HexView::Bytes(tail) = hex_read_lossy(rest.skip(2)) {
                            assert(bytes@ + (seq![byte] + tail) =~= bytes@.push(byte) + tail);
                        }
                    }
                    bytes.push(byte);
                },
                None => {},
            }
            i = i + 2;
        } else if a <= '\u{7ff}' {
            proof {
                assert(rest.skip(1) =~= chars@.skip(i + 1));
            }
            i = i + 1;
        } else {
            return HexRead::Cut;
        }
    }
    proof {
        assert(bytes@ + Seq::<u8>::empty() =~= bytes@);
    }
    HexRead::Bytes(bytes)
}

// ---------------------------------------------------------------------------
// Reading back what was written
// ---------------------------------------------------------------------------

/// Reading the hexadecimal notation of some bytes gives those bytes.
pub proof fn hex_reads_back(bytes: Seq<u8>)
    ensures
        hex_read(hex_text(bytes)) == HexView::Bytes(bytes),
    decreases bytes.len(),
{
    let s = hex_text(bytes);
    if bytes.len() > 0 {
        let b = bytes[0];
        assert(s[0] == hex_char(b as int / 16) && s[1] == hex_char(b as int % 16));
        assert(s.skip(2) =~= hex_text(bytes.skip(1)));
        hex_reads_back(bytes.skip(1));
        assert(seq![b] + bytes.skip(1) =~= bytes);
        assert(pair_value(s[0], s[1]) == Some(b));
    } else {
        assert(bytes =~= Seq::<u8>::empty());
    }
}

/// Where no pair is passed over, the two ways of reading agree.
pub proof fn lossy_agrees(s: Seq<char>)
    requires
        hex_read(s) is Bytes,
    ensures
        hex_read_lossy(s) == hex_read(s),
    decreases s.len(),
{
    if s.len() > 1 {
        lossy_agrees(s.skip(2));
    }
}

/// Hexadecimal notation consists of digits and of the letters `a` to `f`.
pub proof fn lemma_hex_chars(bytes: Seq<u8>, i: int)
    requires
        0 <= i < hex_text(bytes).len(),
    ensures
        '0' <= hex_text(bytes)[i] <= '9' || 'a' <= hex_text(bytes)[i] <= 'f',
{
}

} // verus!
