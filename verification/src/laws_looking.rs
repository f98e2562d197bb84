//! Laws of looking: what a share shows, and how a file is fetched.

use vstd::prelude::*;
use vstd::utf8::encode_utf8;
use crate::api::{answer_next, Request};
use crate::clock::{in_calendar, later, UtcTime};
use crate::gate::{Header, Headers, Site};
use crate::keys::share_prefix;
use crate::laws_clearing::{lemma_filter_none, lemma_filter_skip};
use crate::laws_scope::lemma_begins;
use crate::laws_shares::lemma_number_text;
use crate::laws_terms::prefixes_are_taken_off;
use crate::laws_texts::numbers_are_read_as_written;
use crate::media::{media_type, percent_byte, percent_text, upper_hex_char};
use crate::number::{decimal, is_digit, u64_number};
use crate::protocol::{ActionView, AnswerView, FlowView, NextView, Reply, ShareFileView};
use crate::sharing::{
    find_files, latest_of, owner_heard, range_text, range_wanted, requested_range, with_file,
    FoundView, RangeView,
};
use crate::storage::S3ListedObject;
use crate::text::{begins, lemma_pieces_first, lemma_pieces_last, lemma_trimmed_is, pieces, trimmed};
use crate::uploads::relative;

verus! {

// ---------------------------------------------------------------------------
// Shares
// ---------------------------------------------------------------------------

/// Whether a listed object is shown as a file: it has a key, a size and a time, and is neither the
/// record of the owner nor the marker of an upload under way.
pub open spec fn is_shown(o: S3ListedObject, prefix: Seq<char>) -> bool {
    &&& o.key matches Some(key) && relative(key@, prefix) != "owner.txt"@
        && relative(key@, prefix) != ".active"@
    &&& o.size is Some
    &&& o.last_modified_secs is Some
}

/// A file as it is shown.
pub open spec fn shown_file(
    o: S3ListedObject,
    prefix: Seq<char>,
) -> ShareFileView {
    ShareFileView { name: relative(o.key->0@, prefix), size: o.size->0 as int }
}

/// When a file was stored.
pub open spec fn stored_at(o: S3ListedObject) -> UtcTime {
    UtcTime { secs: o.last_modified_secs->0, nanos: 0 }
}

/// Whether the time of a file is beyond the calendar.
pub open spec fn is_timeless(o: S3ListedObject) -> bool {
    !in_calendar(o.last_modified_secs->0 as int)
}

/// The files that some objects show, in order.
pub open spec fn files_shown(objects: Seq<S3ListedObject>, prefix: Seq<char>) -> Seq<
    S3ListedObject,
> {
    objects.filter(|o: S3ListedObject| is_shown(o, prefix))
}

/// The files whose time is beyond the calendar, in order.
pub open spec fn timeless(files: Seq<S3ListedObject>) -> Seq<S3ListedObject> {
    files.filter(|o: S3ListedObject| is_timeless(o))
}

/// Whether a time is the latest of some files, where the time that was heard stands for each time
/// beyond the calendar: it is one of the times, and none is later.
pub open spec fn is_latest(
    m: UtcTime,
    files: Seq<S3ListedObject>,
    heard: Seq<Reply>,
    at: int,
) -> bool {
    let end = at + timeless(files).len();
    &&& forall|k: int|
        0 <= k < files.len() && !is_timeless(#[trigger] files[k]) ==> !later(
            stored_at(files[k]),
            m,
        )
    &&& forall|j: int|
        at <= j < end ==> (#[trigger] heard[j] matches Reply::Time(t) ==> !later(t, m))
    &&& (exists|k: int|
        0 <= k < files.len() && !is_timeless(#[trigger] files[k]) && stored_at(files[k]) == m)
        || (exists|j: int| at <= j < end && #[trigger] heard[j] == Reply::Time(m))
}

/// A time is later than another exactly where it has more nanoseconds since 1970.
pub proof fn times_are_compared(a: UtcTime, b: UtcTime)
    requires
        a.nanos < 1_000_000_000,
        b.nanos < 1_000_000_000,
    ensures
        later(a, b) == (a.secs * 1_000_000_000 + a.nanos > b.secs * 1_000_000_000 + b.nanos),
{
}

/// Whether a time bounds what was found so far and the files from some place on.
spec fn bounds(
    latest: Option<UtcTime>,
    m: Option<UtcTime>,
    files: Seq<S3ListedObject>,
    heard: Seq<Reply>,
    at: int,
) -> bool {
    let end = at + timeless(files).len();
    match m {
        None => latest is None && files.len() == 0,
        Some(m) => {
            &&& latest matches Some(l) ==> !later(l, m)
            &&& forall|k: int|
                0 <= k < files.len() && !is_timeless(#[trigger] files[k]) ==> !later(
                    stored_at(files[k]),
                    m,
                )
            &&& forall|j: int|
                at <= j < end ==> (#[trigger] heard[j] matches Reply::Time(t) ==> !later(t, m))
            &&& latest == Some(m) || (exists|k: int|
                0 <= k < files.len() && !is_timeless(#[trigger] files[k]) && stored_at(files[k])
                    == m) || (exists|j: int|
                at <= j < end && #[trigger] heard[j] == Reply::Time(m))
        },
    }
}

/// From the object `i` on, the files are found one by one.
#[verifier::rlimit(60)]
#[verifier::spinoff_prover]
proof fn lemma_finds(
    objects: Seq<S3ListedObject>,
    i: int,
    prefix: Seq<char>,
    found: FoundView,
    heard: Seq<Reply>,
    at: int,
)
    requires
        0 <= i <= objects.len(),
        0 <= at <= heard.len(),
        forall|j: int|
            at <= j < heard.len() && j < at + timeless(files_shown(objects.skip(i), prefix)).len()
                ==> (#[trigger] heard[j]) is Time,
    ensures
        ({
            let files = files_shown(objects.skip(i), prefix);
            let end = at + timeless(files).len();
            let r = find_files(objects, i, prefix, found, heard, at);
            if end <= heard.len() {
                r matches FlowView::Go(f, n) && n == end && f.files == found.files
                    + files.map_values(|o: S3ListedObject| shown_file(o, prefix)) && bounds(
                    found.latest,
                    f.latest,
                    files,
                    heard,
                    at,
                )
            } else {
                r == FlowView::<FoundView>::Stop(
                    NextView::Perform(ActionView::Clock),
                )
            }
        }),
    decreases objects.len() - i,
{
    let p = |o: S3ListedObject| is_shown(o, prefix);
    let q = |o: S3ListedObject| is_timeless(o);
    let view = |o: S3ListedObject| shown_file(o, prefix);
    let files = files_shown(objects.skip(i), prefix);
    if i < objects.len() {
        lemma_filter_skip(objects, i, p);
        let o = objects[i];
        let rest = files_shown(objects.skip(i + 1), prefix);
        if p(o) {
            assert(files =~= seq![o] + rest);
            assert(files.skip(0) =~= files);
            assert(files.skip(1) =~= rest);
            lemma_filter_skip(files, 0, q);
            assert(files.map_values(view) =~= seq![view(o)] + rest.map_values(view));
            assert(files[0] == o);
            assert forall|k: int| 0 <= k < rest.len() implies files[k + 1] == #[trigger] rest[k] by {}
            let name = relative(o.key->0@, prefix);
            let size = o.size->0 as int;
            if q(o) {
                assert(timeless(files) =~= seq![o] + timeless(rest));
                if at < heard.len() {
                    assert(heard[at] is Time);
                    let t = heard[at]->Time_0;
                    let more = with_file(found, name, size, t);
                    lemma_finds(objects, i + 1, prefix, more, heard, at + 1);
                    lemma_bounds_grow(found.latest, o, t, true, rest, heard, at);
                    assert(found.files.push(view(o)) + rest.map_values(view) =~= found.files
                        + files.map_values(view));
                }
            } else {
                assert(timeless(files) =~= timeless(rest));
                let t = stored_at(o);
                let more = with_file(found, name, size, t);
                lemma_finds(objects, i + 1, prefix, more, heard, at);
                lemma_bounds_grow(found.latest, o, t, false, rest, heard, at);
                assert(found.files.push(view(o)) + rest.map_values(view) =~= found.files
                    + files.map_values(view));
            }
        } else {
            assert(files =~= rest);
            lemma_finds(objects, i + 1, prefix, found, heard, at);
        }
    } else {
        lemma_filter_none(objects.skip(i), p);
        lemma_filter_none(files, q);
        assert(found.files + files.map_values(view) =~= found.files);
    }
}

/// One more file in front.
proof fn lemma_bounds_grow(
    latest: Option<UtcTime>,
    o: S3ListedObject,
    t: UtcTime,
    beyond: bool,
    rest: Seq<S3ListedObject>,
    heard: Seq<Reply>,
    at: int,
)
    requires
        beyond == is_timeless(o),
        beyond ==> 0 <= at < heard.len() && heard[at] == Reply::Time(t),
        !beyond ==> t == stored_at(o),
        timeless(seq![o] + rest).len() == timeless(rest).len() + if beyond {
            1int
        } else {
            0
        },
    ensures
        forall|m: Option<UtcTime>|
            bounds(
                Some(latest_of(latest, t)),
                m,
                rest,
                heard,
                if beyond {
                    at + 1
                } else {
                    at
                },
            ) ==> #[trigger] bounds(latest, m, seq![o] + rest, heard, at),
{
    let next = if beyond {
        at + 1
    } else {
        at
    };
    let files = seq![o] + rest;
    assert forall|m: Option<UtcTime>|
        bounds(Some(latest_of(latest, t)), m, rest, heard, next) implies #[trigger] bounds(
        latest,
        m,
        files,
        heard,
        at,
    ) by {
        let m = m->0;
        assert forall|k: int|
            0 <= k < files.len() && !is_timeless(#[trigger] files[k]) implies !later(
            stored_at(files[k]),
            m,
        ) by {
            if k > 0 {
                assert(files[k] == rest[k - 1]);
            }
        }
        if exists|k: int|
            0 <= k < rest.len() && !is_timeless(#[trigger] rest[k]) && stored_at(rest[k]) == m {
            let k = choose|k: int|
                0 <= k < rest.len() && !is_timeless(#[trigger] rest[k]) && stored_at(rest[k]) == m;
            assert(files[k + 1] == rest[k]);
        } else if latest_of(latest, t) == m && latest != Some(m) {
            if !beyond {
                assert(files[0] == o);
            } else {
                assert(heard[at] == Reply::Time(m));
            }
        }
    }
}

/// Looking at a share lists its objects. For each file whose time is beyond the calendar the time
/// is asked for. Without any file there is no such share. Otherwise the record of the owner is read,
/// and the share is shown: its id, its files with their sizes, in order, the latest of their times,
/// the time 90 days after that, and the owner.
pub proof fn shares_are_shown(
    site: Site,
    headers: Headers,
    uuid: String,
    heard: Seq<Reply>,
)
    ensures
        ({
            let prefix = "uploads/"@ + uuid@ + "/"@;
            let n = answer_next(
                site,
                headers,
                (Request::GetShare { uuid }),
                heard,
            );
            if heard.len() == 0 {
                n == NextView::Perform(ActionView::ListAll { prefix })
            } else {
                match heard[0] {
                    Reply::Failed(e) => n == NextView::Done(
                        AnswerView::Refused {
                            status: 500,
                            message: "S3 list error: "@ + e.debug@,
                        },
                    ),
                    Reply::Objects(objects) => {
                        let files = files_shown(objects@, prefix);
                        let end = 1 + timeless(files).len();
                        (forall|j: int|
                            1 <= j < heard.len() && j < end ==> (#[trigger] heard[j]) is Time)
                            ==> if heard.len() < end {
                            n == NextView::Perform(ActionView::Clock)
                        } else if files.len() == 0 {
                            n == NextView::Done(
                                AnswerView::Refused {
                                    status: 404,
                                    message: "Share not found or expired"@,
                                },
                            )
                        } else if heard.len() == end {
                            n == NextView::Perform(
                                ActionView::Get { key: prefix + "owner.txt"@ },
                            )
                        } else {
                            heard[end as int] matches Reply::Object(reply) ==> exists|m: UtcTime|
                                #[trigger] is_latest(m, files, heard, 1) && n == (if in_calendar(
                                    m.secs + 7_776_000,
                                ) {
                                    NextView::Done(
                                        AnswerView::Share {
                                            uuid: uuid@,
                                            upload_time: m,
                                            expires_at: UtcTime {
                                                secs: (m.secs + 7_776_000) as i64,
                                                nanos: m.nanos,
                                            },
                                            files: files.map_values(
                                                |o: S3ListedObject| shown_file(o, prefix),
                                            ),
                                            owner: owner_heard(reply),
                                        },
                                    )
                                } else {
                                    NextView::Crash
                                })
                        }
                    },
                    _ => true,
                }
            }
        }),
{
    let prefix = share_prefix(uuid@);
    if heard.len() > 0 {
        if let Reply::Objects(objects) = heard[0] {
            let files = files_shown(objects@, prefix);
            let none = FoundView { files: Seq::empty(), latest: None };
            let end = 1 + timeless(files).len();
            assert(objects@.skip(0) =~= objects@);
            if (forall|j: int|
                1 <= j < heard.len() && j < end ==> (#[trigger] heard[j]) is Time) {
                lemma_finds(objects@, 0, prefix, none, heard, 1);
                let view = |o: S3ListedObject| shown_file(o, prefix);
                assert(none.files + files.map_values(view) =~= files.map_values(view));
                if end <= heard.len() {
                    if files.len() == 0 {
                        lemma_filter_none(
                            files,
                            |o: S3ListedObject| is_timeless(o),
                        );
                    }
                    if let FlowView::Go(f, _) = find_files(objects@, 0, prefix, none, heard, 1) {
                        if let Some(m) = f.latest {
                            assert(is_latest(m, files, heard, 1));
                        }
                    }
                }
            }
        }
    }
}

// ---------------------------------------------------------------------------
// Files
// ---------------------------------------------------------------------------

/// A file is fetched from where it is stored in the share, with the range that is asked for. It is
/// passed on with the media type that the service says, or else that of its name, with the length
/// and the range that the service says, and under its name; with the status of a part where a range
/// was asked for. A file that the service does not give is missing.
pub proof fn files_are_fetched(
    site: Site,
    headers: Headers,
    uuid: String,
    filename: String,
    heard: Seq<Reply>,
)
    ensures
        ({
            let range = range_wanted(headers.range);
            let n = answer_next(site, headers, (Request::Download { uuid, filename }), heard);
            if heard.len() == 0 {
                n == NextView::Perform(
                    ActionView::Fetch { key: "uploads/"@ + uuid@ + "/"@ + filename@, range },
                )
            } else {
                match heard[0] {
                    Reply::File(f) => n == NextView::Done(
                        AnswerView::File {
                            status: if range is Some {
                                206
                            } else {
                                200
                            },
                            content_type: match f.content_type {
                                Some(t) => t@,
                                None => media_type(filename@),
                            },
                            content_length: f.content_length,
                            content_range: match f.content_range {
                                Some(t) => Some(t@),
                                None => None,
                            },
                            content_disposition: "inline; filename*=UTF-8''"@
                                + percent_text(encode_utf8(filename@)),
                        },
                    ),
                    Reply::Failed(_) => n == NextView::Done(AnswerView::FileMissing),
                    _ => true,
                }
            }
        }),
{
}

/// A range with a start and no end is asked for as such; a header that is no text, or that asks for
/// anything else than bytes, asks for the whole file.
#[verifier::spinoff_prover]
#[verifier::rlimit(40)]
pub proof fn open_ranges_are_passed_on(range: Header, start: int)
    requires
        0 <= start <= u64::MAX,
    ensures
        (range matches Header::Text(s) && s@ == "bytes="@ + (decimal(start) + "-"@))
            ==> range_wanted(range) == Some("bytes="@ + decimal(start) + "-"@),
        !(range is Text) ==> range_wanted(range) is None,
        (range matches Header::Text(s) && !begins(s@, "bytes="@)) ==> range_wanted(
            range,
        ) is None,
{
    if let Header::Text(s) = range {
        let ranges = decimal(start) + "-"@;
        if s@ == "bytes="@ + ranges {
            lemma_begins("bytes="@, ranges);
            assert(("bytes="@ + ranges).skip("bytes="@.len() as int) =~= ranges);
            reveal_strlit("-");
            assert("-"@ =~= seq!['-']);
            lemma_number_text(start);
            assert(!ranges.contains(',')) by {
                if ranges.contains(',') {
                    let i = choose|i: int| 0 <= i < ranges.len() && ranges[i] == ',';
                    if i < decimal(start).len() {
                        assert(is_digit(decimal(start)[i]));
                    }
                }
            }
            let none = Seq::<char>::empty();
            assert(ranges =~= decimal(start) + seq!['-'] + none);
            lemma_pieces_first(decimal(start), '-', none);
            lemma_pieces_last(none, '-');
            assert(pieces(ranges, '-') =~= seq![decimal(start), none]);
            lemma_trimmed_is(none);
            let r = RangeView { start, end: None };
            assert(requested_range(range) == Some(r));
            assert(range_text(r) =~= "bytes="@ + decimal(start) + "-"@);
        }
    }
}

/// Names are encoded byte by byte: letters and digits of ASCII stand for themselves, and every
/// other byte is a percent sign and two upper-case digits.
pub proof fn names_are_encoded_byte_by_byte(a: Seq<u8>, b: Seq<u8>, c: u8)
    ensures
        percent_text(Seq::empty()) == Seq::<char>::empty(),
        percent_text(a + b) == percent_text(a) + percent_text(b),
        (0x30 <= c <= 0x39 || 0x41 <= c <= 0x5a || 0x61 <= c <= 0x7a) ==> percent_text(seq![c])
            == seq![c as char],
        !(0x30 <= c <= 0x39 || 0x41 <= c <= 0x5a || 0x61 <= c <= 0x7a) ==> percent_text(seq![c])
            == seq!['%', upper_digit(c as int / 16), upper_digit(c as int % 16)],
    decreases b.len(),
{
    reveal_strlit("0123456789ABCDEF");
    assert forall|d: int| 0 <= d < 16 implies #[trigger] upper_digit(d)
        == upper_hex_char(d) by {}
    let one = seq![c];
    assert(one.drop_last() =~= Seq::<u8>::empty());
    assert(percent_text(one.drop_last()) =~= Seq::<char>::empty());
    assert(percent_text(one) =~= percent_byte(c));
    if b.len() > 0 {
        names_are_encoded_byte_by_byte(a, b.drop_last(), c);
        assert((a + b).drop_last() =~= a + b.drop_last());
        assert(percent_text(a + b) =~= percent_text(a) + percent_text(b));
    } else {
        assert(a + b =~= a);
        assert(percent_text(a) + percent_text(b) =~= percent_text(a));
    }
}

/// An upper-case hexadecimal digit.
pub open spec fn upper_digit(d: int) -> char {
    "0123456789ABCDEF"@[d]
}

/// A single range is asked for by the numbers in it, whatever white space is around them. One whose
/// start is no number asks for the whole file; one whose end is none has no end.
pub proof fn ranges_are_read_by_their_numbers(range: Header, ranges: Seq<char>)
    requires
        range matches Header::Text(s) && s@ == "bytes="@ + ranges,
        !ranges.contains(','),
    ensures
        ({
            let parts = pieces(ranges, '-');
            match u64_number(trimmed(parts[0])) {
                None => range_wanted(range) is None,
                Some(start) => range_wanted(range) == Some(
                    "bytes="@ + decimal(start) + "-"@ + (if parts.len() > 1 {
                        match u64_number(trimmed(parts[1])) {
                            Some(end) => decimal(end),
                            None => Seq::empty(),
                        }
                    } else {
                        Seq::empty()
                    }),
                ),
            }
        }),
{
    prefixes_are_taken_off("bytes="@, ranges, Seq::empty());
    let parts = pieces(ranges, '-');
    if parts.len() > 1 {
        numbers_are_read_as_written(0, trimmed(parts[1]));
    }
}

} // verus!
