//! Points in time.

use chrono::{DateTime, Utc};
use vstd::prelude::*;
use crate::model::opt_view;

verus! {

/// A point in time: seconds since 1970-01-01T00:00:00Z, and nanoseconds after that second.
#[derive(Clone, Copy, Debug, PartialEq, Eq, Structural)]
pub struct UtcTime {
    pub secs: i64,
    pub nanos: u32,
}

/// Whether `chrono` has a date for the second `secs`: from the start of the year -262143 to the
/// end of the year 262142.
pub open spec fn in_calendar(secs: int) -> bool {
    -8334601228800 <= secs <= 8210266876799
}

/// A point in time as `DateTime::to_rfc3339` writes it; nothing where `chrono` has no such time.
pub uninterp spec fn rfc3339(secs: int, nanos: int) -> Option<Seq<char>>;

/// `Utc::now` of `chrono`, which asks the system's clock. All that is known of the answer is that
/// it does not lie before 1970 and has a date.
#[verifier::external_body]
pub(crate) fn clock_now() -> (t: UtcTime)
    ensures
        0 <= t.secs,
        in_calendar(t.secs as int),
        t.nanos < 1_000_000_000,
{
    let now = Utc::now();
    UtcTime { secs: now.timestamp(), nanos: now.timestamp_subsec_nanos() }
}

/// `DateTime::from_timestamp` of `chrono`, which gives a date for exactly the seconds of its
/// calendar.
#[verifier::external_body]
pub(crate) fn has_date(secs: i64) -> (r: bool)
    ensures
        r == in_calendar(secs as int),
{
    DateTime::<Utc>::from_timestamp(secs, 0).is_some()
}

/// `DateTime::to_rfc3339` of `chrono` for the point in time that `DateTime::from_timestamp` gives.
/// The text is a function of the two numbers. There is one for every second of the calendar.
#[verifier::external_body]
pub(crate) fn rfc3339_text(secs: i64, nanos: u32) -> (r: Option<String>)
    ensures
        opt_view(r) == rfc3339(secs as int, nanos as int),
        in_calendar(secs as int) && nanos < 1_000_000_000 ==> r is Some,
{
    DateTime::<Utc>::from_timestamp(secs, nanos).map(|t| t.to_rfc3339())
}

/// The point in time at which this is called.
pub fn utc_now() -> (t: UtcTime)
    ensures
        0 <= t.secs,
        in_calendar(t.secs as int),
        t.nanos < 1_000_000_000,
{
    clock_now()
}

/// Whether `a` lies after `b`.
pub open spec fn later(a: UtcTime, b: UtcTime) -> bool {
    a.secs > b.secs || (a.secs == b.secs && a.nanos > b.nanos)
}

/// Whether `a` lies after `b`.
pub fn is_later(a: &UtcTime, b: &UtcTime) -> (r: bool)
    ensures
        r == later(*a, *b),
{
    a.secs > b.secs || (a.secs == b.secs && a.nanos > b.nanos)
}

} // verus!
