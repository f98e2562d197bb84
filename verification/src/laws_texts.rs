//! Laws of texts and numbers: white space, pieces, numbers, hexadecimal, ranges, parts, and the files
//! of the frontend.

use vstd::prelude::*;
use crate::assets::asset_at;
use crate::hex::{hex_char, hex_read, hex_read_lossy, hex_text, pair_value, HexView};
use crate::laws_clearing::{lemma_filter_none, lemma_filter_skip};
use crate::laws_shares::lemma_number_text;
use crate::laws_terms::prefixes_are_taken_off;
use crate::number::{
    decimal, digits_value, i64_number, is_digit, lemma_decimal_reads_back, lemma_nat_text,
    u64_number, usize_number,
};
use crate::parts::{joined, Part};
use crate::storage::{byte_range, range_fits, ranged};
use crate::text::{
    begins, lemma_pieces_first, lemma_pieces_last, lemma_position, pieces, position, trimmed,
    trimmed_end, trimmed_start, white_space,
};

verus! {

// ---------------------------------------------------------------------------
// White space and pieces
// ---------------------------------------------------------------------------

/// Whether a text is all white space.
pub open spec fn is_blank(s: Seq<char>) -> bool {
    forall|i: int| 0 <= i < s.len() ==> white_space(#[trigger] s[i])
}

/// White space is taken off both ends of a text, all of it and nothing else.
pub proof fn white_space_is_taken_off_the_ends(a: Seq<char>, s: Seq<char>, b: Seq<char>)
    requires
        is_blank(a),
        is_blank(b),
        s.len() > 0 ==> !white_space(s[0]) && !white_space(s.last()),
    ensures
        trimmed(a + s + b) == s,
{
    let t = s + b;
    assert(a + s + b =~= a + t);
    lemma_start(a, t);
    if s.len() > 0 {
        assert(t[0] == s[0]);
        assert(trimmed_start(t) == t);
    } else {
        assert(t =~= b);
        let none = Seq::<char>::empty();
        assert(b =~= b + none);
        lemma_start(b, none);
        assert(s =~= none);
        assert(trimmed_end(none) == none);
    }
    if s.len() > 0 {
        lemma_end(s, b);
    }
}

/// Blanks in front are taken off.
proof fn lemma_start(a: Seq<char>, t: Seq<char>)
    requires
        is_blank(a),
    ensures
        trimmed_start(a + t) == trimmed_start(t),
    decreases a.len(),
{
    if a.len() > 0 {
        assert(white_space(a[0]));
        assert((a + t)[0] == a[0]);
        assert((a + t).skip(1) =~= a.skip(1) + t);
        assert forall|i: int| 0 <= i < a.skip(1).len() implies white_space(
            #[trigger] a.skip(1)[i],
        ) by {
            assert(a[i + 1] == a.skip(1)[i]);
        }
        lemma_start(a.skip(1), t);
    } else {
        assert(a + t =~= t);
    }
}

/// Blanks at the end are taken off.
proof fn lemma_end(s: Seq<char>, b: Seq<char>)
    requires
        is_blank(b),
        s.len() > 0,
        !white_space(s.last()),
    ensures
        trimmed_end(s + b) == s,
    decreases b.len(),
{
    if b.len() > 0 {
        assert(white_space(b[b.len() - 1]));
        assert((s + b).last() == b.last());
        assert((s + b).drop_last() =~= s + b.drop_last());
        assert forall|i: int| 0 <= i < b.drop_last().len() implies white_space(
            #[trigger] b.drop_last()[i],
        ) by {
            assert(b[i] == b.drop_last()[i]);
        }
        lemma_end(s, b.drop_last());
    } else {
        assert(s + b =~= s);
    }
}

/// Some texts with a character between each and the next.
pub open spec fn put_together(parts: Seq<Seq<char>>, sep: char) -> Seq<char>
    decreases parts.len(),
{
    if parts.len() == 0 {
        Seq::empty()
    } else if parts.len() == 1 {
        parts[0]
    } else {
        parts[0] + seq![sep] + put_together(parts.skip(1), sep)
    }
}

/// The pieces of a text are what the separators part: none of them holds a separator, and put
/// together again they are the text.
pub proof fn pieces_are_what_separators_part(s: Seq<char>, sep: char)
    ensures
        pieces(s, sep).len() > 0,
        forall|i: int|
            0 <= i < pieces(s, sep).len() ==> !(#[trigger] pieces(s, sep)[i]).contains(sep),
        put_together(pieces(s, sep), sep) == s,
    decreases s.len(),
{
    lemma_position(s, sep);
    let i = position(s, sep);
    let parts = pieces(s, sep);
    if i < s.len() {
        let first = s.take(i);
        let rest = s.skip(i + 1);
        pieces_are_what_separators_part(rest, sep);
        let more = pieces(rest, sep);
        assert(parts.skip(1) =~= more);
        assert(parts[0] == first);
        assert(s =~= first + seq![sep] + rest);
        assert forall|j: int| 0 <= j < parts.len() implies !(#[trigger] parts[j]).contains(
            sep,
        ) by {
            if j > 0 {
                assert(parts[j] == more[j - 1]);
            } else if first.contains(sep) {
                let k = choose|k: int| 0 <= k < first.len() && first[k] == sep;
                assert(s[k] == sep);
            }
        }
    } else {
        assert(parts[0] == s);
        if s.contains(sep) {
            let k = choose|k: int| 0 <= k < s.len() && s[k] == sep;
            assert(s[k] == sep);
        }
    }
}

// ---------------------------------------------------------------------------
// Numbers
// ---------------------------------------------------------------------------

/// A number that fits is read as it is written, with or without a plus sign in front and with any
/// zeros in front; one that does not fit is none, and neither is a text without digits or with
/// anything else than digits after its sign.
pub proof fn numbers_are_read_as_written(n: int, s: Seq<char>)
    ensures
        i64::MIN <= n <= i64::MAX ==> i64_number(decimal(n)) == Some(
            n,
        ),
        !(i64::MIN <= n <= i64::MAX) ==> i64_number(decimal(n)) is None,
        0 <= n <= i64::MAX ==> i64_number(seq!['+'] + decimal(n)) == Some(n),
        0 <= n <= i64::MAX ==> i64_number(seq!['0'] + decimal(n)) == Some(n),
        0 <= n <= u64::MAX ==> u64_number(decimal(n)) == Some(n),
        n > u64::MAX ==> u64_number(decimal(n)) is None,
        0 <= n <= usize::MAX ==> usize_number(decimal(n)) == Some(n),
        s.len() == 0 ==> i64_number(s) is None && u64_number(s) is None,
        (exists|i: int|
            0 <= i < s.len() && !is_digit(#[trigger] s[i]) && (i > 0 || (s[i] != '+'
                && s[i] != '-'))) ==> i64_number(s) is None,
        (exists|i: int|
            0 <= i < s.len() && !is_digit(#[trigger] s[i]) && (i > 0 || s[i] != '+'))
            ==> u64_number(s) is None && usize_number(s) is None,
{
    lemma_decimal_reads_back(n);
    if n >= 0 {
        let d = decimal(n);
        lemma_nat_text(n as nat);
        assert(is_digit(d[0]));
        let plus = seq!['+'] + d;
        assert(plus.skip(1) =~= d);
        let zero = seq!['0'] + d;
        assert forall|i: int| 0 <= i < zero.len() implies is_digit(#[trigger] zero[i]) by {
            if i > 0 {
                assert(zero[i] == d[i - 1]);
            }
        }
        lemma_zero_in_front(d);
    }
    if s.len() > 0 {
        let t = s.skip(1);
        assert forall|i: int| 0 < i < s.len() implies s[i] == #[trigger] t[i - 1] by {}
        if exists|i: int|
            0 <= i < s.len() && !is_digit(#[trigger] s[i]) && (i > 0 || s[i] != '+') {
            let i = choose|i: int|
                0 <= i < s.len() && !is_digit(#[trigger] s[i]) && (i > 0 || s[i] != '+');
            if i > 0 {
                assert(!is_digit(t[i - 1]));
            }
        }
        if exists|i: int|
            0 <= i < s.len() && !is_digit(#[trigger] s[i]) && (i > 0 || (s[i] != '+' && s[i]
                != '-')) {
            let i = choose|i: int|
                0 <= i < s.len() && !is_digit(#[trigger] s[i]) && (i > 0 || (s[i] != '+' && s[i]
                    != '-'));
            if i > 0 {
                assert(!is_digit(t[i - 1]));
            }
        }
    }
}

/// A zero in front changes nothing.
proof fn lemma_zero_in_front(d: Seq<char>)
    ensures
        digits_value(seq!['0'] + d) == digits_value(d),
    decreases d.len(),
{
    let zero = seq!['0'] + d;
    if d.len() > 0 {
        assert(zero.drop_last() =~= seq!['0'] + d.drop_last());
        lemma_zero_in_front(d.drop_last());
    } else {
        assert(zero.drop_last() =~= Seq::<char>::empty());
        assert(digits_value(zero.drop_last()) == 0);
    }
}

// ---------------------------------------------------------------------------
// Hexadecimal
// ---------------------------------------------------------------------------

/// What can be read of a text in ASCII: the pairs of characters that are numbers, in order; the
/// others are passed over.
pub proof fn readable_pairs_are_kept(s: Seq<char>)
    requires
        forall|i: int| 0 <= i < s.len() ==> #[trigger] s[i] <= '\u{7f}',
    ensures
        hex_read_lossy(s) == HexView::Bytes(
            Seq::new(s.len() / 2, |i: int| pair_value(s[2 * i], s[2 * i + 1])).filter(
                |b: Option<u8>| b is Some,
            ).map_values(|b: Option<u8>| b->0),
        ),
    decreases s.len(),
{
    let pairs = Seq::new(s.len() / 2, |i: int| pair_value(s[2 * i], s[2 * i + 1]));
    let p = |b: Option<u8>| b is Some;
    let f = |b: Option<u8>| b->0;
    if s.len() >= 2 {
        assert(s[0] <= '\u{7f}' && s[1] <= '\u{7f}');
        let t = s.skip(2);
        assert forall|i: int| 0 <= i < t.len() implies #[trigger] t[i] <= '\u{7f}' by {
            assert(s[i + 2] == t[i]);
        }
        readable_pairs_are_kept(t);
        let rest = Seq::new(t.len() / 2, |i: int| pair_value(t[2 * i], t[2 * i + 1]));
        assert(pairs.skip(1) =~= rest) by {
            assert forall|i: int| 0 <= i < rest.len() implies pairs.skip(1)[i] == rest[i] by {
                assert(t[2 * i] == s[2 * (i + 1)]);
                assert(t[2 * i + 1] == s[2 * (i + 1) + 1]);
            }
        }
        assert(pairs.skip(0) =~= pairs);
        lemma_filter_skip(pairs, 0, p);
        assert(pairs[0] == pair_value(s[0], s[1]));
        let kept = rest.filter(p).map_values(f);
        if p(pairs[0]) {
            assert(pairs.filter(p).map_values(f) =~= seq![f(pairs[0])] + kept);
        }
    } else {
        if s.len() == 1 {
            assert(s[0] <= '\u{7f}');
        }
        lemma_filter_none(pairs, p);
        assert(pairs.filter(p).map_values(f) =~= Seq::<u8>::empty());
    }
}

/// Hexadecimal text has two lower-case digits for each byte, the high one first.
pub proof fn bytes_have_two_digits(bytes: Seq<u8>, i: int)
    requires
        0 <= i < bytes.len(),
    ensures
        hex_text(bytes).len() == 2 * bytes.len(),
        hex_text(bytes)[2 * i] == "0123456789abcdef"@[bytes[i] as int / 16],
        hex_text(bytes)[2 * i + 1] == "0123456789abcdef"@[bytes[i] as int % 16],
{
    reveal_strlit("0123456789abcdef");
    assert forall|d: int| 0 <= d < 16 implies #[trigger] "0123456789abcdef"@[d]
        == hex_char(d) by {}
    assert((2 * i) / 2 == i && (2 * i + 1) / 2 == i);
}

// ---------------------------------------------------------------------------
// Ranges and parts of objects in memory
// ---------------------------------------------------------------------------

/// A range with both ends is the bytes from the first to the last, as far as there are any; one
/// without an end is the bytes from the first on; and without a range it is all of them.
#[verifier::spinoff_prover]
#[verifier::rlimit(40)]
pub proof fn ranges_are_taken(data: Seq<u8>, start: int, end: int)
    requires
        0 <= start <= end < usize::MAX,
        start < data.len() <= usize::MAX,
    ensures
        ranged(data, None) == data,
        range_fits(None, data.len() as int),
        ranged(data, Some("bytes="@ + (decimal(start) + "-"@ + decimal(end)))) == data.subrange(
            start,
            if end < data.len() {
                end + 1
            } else {
                data.len() as int
            },
        ),
        range_fits(
            Some("bytes="@ + (decimal(start) + "-"@ + decimal(end))),
            data.len() as int,
        ),
        ranged(data, Some("bytes="@ + (decimal(start) + "-"@))) == data.skip(start),
        range_fits(Some("bytes="@ + (decimal(start) + "-"@)), data.len() as int),
{
    let len = data.len() as int;
    assert(ranged(data, None) =~= data);
    reveal_strlit("-");
    assert("-"@ =~= seq!['-']);
    lemma_number_text(start);
    lemma_number_text(end);
    let none = Seq::<char>::empty();
    numbers_are_read_as_written(start, none);
    numbers_are_read_as_written(end, none);
    let both = decimal(start) + "-"@ + decimal(end);
    let open = decimal(start) + "-"@;
    prefixes_are_taken_off("bytes="@, both, none);
    prefixes_are_taken_off("bytes="@, open, none);
    lemma_pieces_first(decimal(start), '-', decimal(end));
    lemma_pieces_last(decimal(end), '-');
    assert(pieces(both, '-') =~= seq![decimal(start), decimal(end)]);
    assert(open =~= decimal(start) + seq!['-'] + none);
    lemma_pieces_first(decimal(start), '-', none);
    lemma_pieces_last(none, '-');
    assert(pieces(open, '-') =~= seq![decimal(start), none]);
    assert(ranged(data, Some("bytes="@ + open)) =~= data.skip(start));
}

/// Parts are joined by putting the data of each after that of those before.
pub proof fn parts_are_joined_in_order(s: Seq<Part>, t: Seq<Part>, p: Part)
    ensures
        joined(Seq::empty()) == Seq::<u8>::empty(),
        joined(seq![p]) == p.data,
        joined(s + t) == joined(s) + joined(t),
    decreases t.len(),
{
    let one = seq![p];
    assert(one.drop_last() =~= Seq::<Part>::empty());
    assert(joined(one.drop_last()) =~= Seq::<u8>::empty());
    assert(joined(one) =~= p.data);
    if t.len() > 0 {
        parts_are_joined_in_order(s, t.drop_last(), p);
        assert((s + t).drop_last() =~= s + t.drop_last());
        assert(joined(s + t) =~= joined(s) + joined(t));
    } else {
        assert(s + t =~= s);
        assert(joined(s) + joined(t) =~= joined(s));
    }
}

// ---------------------------------------------------------------------------
// The frontend
// ---------------------------------------------------------------------------

/// Whether a path is that of a file of the frontend besides the page.
pub open spec fn is_file_path(path: Seq<char>) -> bool {
    ||| path == "/sw.js"@
    ||| path == "/assets/streamsaver.js"@
    ||| path == "/assets/streamsaver-sw.js"@
    ||| path == "/assets/streamsaver-mitm.html"@
    ||| path == "/assets/jszip.js"@
    ||| path == "/assets/fflate.js"@
    ||| path == "/assets/marked.js"@
    ||| path == "/assets/fonts-inline.css"@
}

/// Any other path than that of a file stands for the page, which clients ask for anew each time.
/// The service worker is asked for anew and controls all paths; the other files are kept for a year
/// and control nothing.
pub proof fn files_of_the_frontend_are_served(path: Seq<char>)
    ensures
        ({
            let a = asset_at(path);
            &&& !is_file_path(path) ==> a.file == "index.html"@ && a.content_type
                == "text/html; charset=utf-8"@ && a.cache_control is None && a.worker_scope is None
            &&& path == "/sw.js"@ ==> a.file == "sw.js"@ && a.content_type
                == "application/javascript; charset=utf-8"@ && a.cache_control == Some("no-cache"@)
                && a.worker_scope == Some("/"@)
            &&& is_file_path(path) && path != "/sw.js"@ ==> a.cache_control == Some(
                "public, max-age=31536000, immutable"@,
            ) && a.worker_scope is None
        }),
{
}

/// Each path has its file, of its kind.
pub proof fn paths_have_their_files()
    ensures
        asset_at("/assets/streamsaver.js"@).file == "vendor/streamsaver.min.js"@,
        asset_at("/assets/streamsaver-sw.js"@).file == "vendor/streamsaver_sw.js"@,
        asset_at("/assets/streamsaver-mitm.html"@).file == "vendor/mitm.html"@,
        asset_at("/assets/jszip.js"@).file == "vendor/jszip.min.js"@,
        asset_at("/assets/fflate.js"@).file == "vendor/fflate.umd.js"@,
        asset_at("/assets/marked.js"@).file == "vendor/marked.min.js"@,
        asset_at("/assets/fonts-inline.css"@).file == "vendor/fonts_inline.css"@,
        asset_at("/assets/streamsaver.js"@).content_type == "application/javascript; charset=utf-8"@,
        asset_at("/assets/streamsaver-sw.js"@).content_type
            == "application/javascript; charset=utf-8"@,
        asset_at("/assets/streamsaver-mitm.html"@).content_type == "text/html; charset=utf-8"@,
        asset_at("/assets/jszip.js"@).content_type == "application/javascript; charset=utf-8"@,
        asset_at("/assets/fflate.js"@).content_type == "application/javascript; charset=utf-8"@,
        asset_at("/assets/marked.js"@).content_type == "application/javascript; charset=utf-8"@,
        asset_at("/assets/fonts-inline.css"@).content_type == "text/css; charset=utf-8"@,
{
    reveal_strlit("/sw.js");
    reveal_strlit("/assets/streamsaver.js");
    reveal_strlit("/assets/streamsaver-sw.js");
    reveal_strlit("/assets/streamsaver-mitm.html");
    reveal_strlit("/assets/jszip.js");
    reveal_strlit("/assets/fflate.js");
    reveal_strlit("/assets/marked.js");
    reveal_strlit("/assets/fonts-inline.css");
    assert("/sw.js"@.len() == 6);
    assert("/assets/streamsaver.js"@.len() == 22);
    assert("/assets/streamsaver-sw.js"@.len() == 25);
    assert("/assets/streamsaver-mitm.html"@.len() == 29);
    assert("/assets/jszip.js"@.len() == 16);
    assert("/assets/fflate.js"@.len() == 17 && "/assets/fflate.js"@[8] == 'f');
    assert("/assets/marked.js"@.len() == 17 && "/assets/marked.js"@[8] == 'm');
    assert("/assets/fonts-inline.css"@.len() == 24);
}

/// Bytes in hexadecimal in front of a text are read first. A character outside ASCII is no digit
/// where it takes two bytes and begins a pair; where it is longer, or comes second in a pair, the
/// text cannot be taken apart there.
pub proof fn texts_are_read_pair_by_pair(bytes: Seq<u8>, rest: Seq<char>)
    ensures
        hex_read(hex_text(bytes) + rest) == (match hex_read(rest) {
            HexView::Bytes(more) => HexView::Bytes(bytes + more),
            other => other,
        }),
        rest.len() > 0 && rest[0] > '\u{7f}' ==> hex_read(rest) == (if rest[0] <= '\u{7ff}' {
            HexView::BadDigit
        } else {
            HexView::Cut
        }),
        rest.len() > 1 && rest[0] <= '\u{7f}' && rest[1] > '\u{7f}' ==> hex_read(rest)
            == HexView::Cut,
    decreases bytes.len(),
{
    let s = hex_text(bytes) + rest;
    if bytes.len() > 0 {
        let b = bytes[0];
        let more = bytes.skip(1);
        texts_are_read_pair_by_pair(more, rest);
        assert(hex_text(bytes)[0] == hex_char(b as int / 16));
        assert(hex_text(bytes)[1] == hex_char(b as int % 16));
        assert(s[0] == hex_char(b as int / 16) && s[1] == hex_char(b as int % 16));
        assert(s.skip(2) =~= hex_text(more) + rest) by {
            assert(hex_text(bytes).skip(2) =~= hex_text(more));
        }
        assert(pair_value(s[0], s[1]) == Some(b));
        if let HexView::Bytes(c) = hex_read(rest) {
            assert(seq![b] + (more + c) =~= bytes + c);
        }
    } else {
        assert(s =~= rest);
        if let HexView::Bytes(c) = hex_read(rest) {
            assert(bytes + c =~= c);
        }
    }
}

/// A range that cannot be read is the whole object; a start that is no number is the first byte, and
/// an end that is none is the last.
pub proof fn unreadable_ranges_are_widened(data: Seq<u8>, range: Seq<char>, spec_text: Seq<char>)
    ensures
        !begins(range, "bytes="@) ==> ranged(data, Some(range)) == data,
        ({
            let parts = pieces(spec_text, '-');
            let r = byte_range(Some("bytes="@ + spec_text), data.len() as int);
            &&& r.0 == (match usize_number(parts[0]) {
                Some(n) => n,
                None => 0,
            })
            &&& r.1 == (if parts.len() > 1 {
                match usize_number(parts[1]) {
                    Some(n) => n + 1,
                    None => data.len() as int,
                }
            } else {
                data.len() as int
            })
        }),
{
    prefixes_are_taken_off("bytes="@, spec_text, Seq::empty());
    assert(data.subrange(0, data.len() as int) =~= data);
    let parts = pieces(spec_text, '-');
    if parts.len() > 1 && parts[1].len() == 0 {
        assert(usize_number(parts[1]) is None);
    }
}

} // verus!
