//! Calendar values carried by the models, and the few calls into the
//! `time` crate that create them.
use vstd::prelude::*;
use time::{OffsetDateTime, UtcOffset};

verus! {

#[verifier::external_type_specification]
#[verifier::external_body]
pub struct ExOffsetDateTime(OffsetDateTime);

/// `OffsetDateTime::clone`: the type derives `Clone` and `Copy`, so a
/// clone is the same value.
pub assume_specification[ <OffsetDateTime as Clone>::clone ](dt: &OffsetDateTime) -> (r: OffsetDateTime)
    ensures
        r == *dt,
;

/// `OffsetDateTime::now_utc`: reads the system clock. Nothing is promised
/// of the value, which depends on the moment of the call.
#[verifier::external_body]
pub(crate) fn now_utc() -> OffsetDateTime {
    OffsetDateTime::now_utc()
}

/// Earliest and latest second `OffsetDateTime` represents: -9999-01-01
/// 00:00:00 UTC and 9999-12-31 23:59:59 UTC.
pub open spec fn min_unix() -> int {
    -377_705_116_800
}

pub open spec fn max_unix() -> int {
    253_402_300_799
}

/// The date-time `OffsetDateTime::from_unix_timestamp(secs)` builds.
pub uninterp spec fn unix_datetime(secs: i64) -> OffsetDateTime;

/// `OffsetDateTime::from_unix_timestamp`: succeeds exactly for the seconds
/// between `min_unix` and `max_unix` (the calendar range without the
/// `large-dates` feature), and the value then depends on `secs` alone.
#[verifier::external_body]
pub(crate) fn from_unix_timestamp(secs: i64) -> (r: Option<OffsetDateTime>)
    ensures
        r is Some <==> min_unix() <= secs <= max_unix(),
        r matches Some(d) ==> d == unix_datetime(secs),
{
    OffsetDateTime::from_unix_timestamp(secs).ok()
}

/// The date of a timestamp, or the current time when the timestamp is
/// missing or outside the calendar range.
pub fn date_or_now(secs: Option<i64>) -> (d: OffsetDateTime)
    ensures
        secs matches Some(s) ==> (min_unix() <= s <= max_unix() ==> d == unix_datetime(s)),
{
    match secs {
        Some(s) => match from_unix_timestamp(s) {
            Some(d) => d,
            None => now_utc(),
        },
        None => now_utc(),
    }
}


// ── git times: seconds since the epoch and an offset in minutes ─────────

#[verifier::external_type_specification]
#[verifier::external_body]
pub struct ExUtcOffset(UtcOffset);

/// The offset `UtcOffset::from_whole_seconds(secs)` builds.
pub uninterp spec fn utc_offset(secs: i32) -> UtcOffset;

/// `UtcOffset::from_whole_seconds`: succeeds exactly for offsets up to
/// ±25:59:59, and the value then depends on `secs` alone.
#[verifier::external_body]
fn offset_from_seconds(secs: i32) -> (r: Option<UtcOffset>)
    ensures
        r is Some <==> -93_599 <= secs <= 93_599,
        r matches Some(o) ==> o == utc_offset(secs),
{
    UtcOffset::from_whole_seconds(secs).ok()
}

/// `UtcOffset::UTC`: the zero offset, the value `from_whole_seconds(0)` builds.
#[verifier::external_body]
fn utc() -> (r: UtcOffset)
    ensures
        r == utc_offset(0),
{
    UtcOffset::UTC
}

/// What `OffsetDateTime::checked_to_offset(d, o)` gives: the same instant
/// seen at offset `o`, or none when its local date leaves the calendar.
pub uninterp spec fn checked_at_offset(d: OffsetDateTime, o: UtcOffset) -> Option<OffsetDateTime>;

/// `OffsetDateTime::checked_to_offset`: its result depends on the date and
/// the offset alone. Which dates leave the calendar is left to the name.
#[verifier::external_body]
fn at_offset(d: OffsetDateTime, o: UtcOffset) -> (r: Option<OffsetDateTime>)
    ensures
        r == checked_at_offset(d, o),
{
    d.checked_to_offset(o)
}

/// A time as git records it.
#[derive(Clone, Copy, Debug)]
pub struct GitTime {
    pub seconds: i64,
    pub offset_minutes: i32,
}

/// An offset in minutes whose count of seconds fits in an `i32`.
pub open spec fn offset_fits(minutes: i32) -> bool {
    -35_791_394 <= minutes <= 35_791_394
}

/// The offset of a git time: its minutes as seconds, or UTC when that is
/// beyond ±25:59:59.
pub open spec fn offset_or_utc(minutes: i32) -> UtcOffset {
    let secs = minutes * 60;
    if -93_599 <= secs <= 93_599 { utc_offset(secs as i32) } else { utc_offset(0) }
}

/// The date of a git time at its own offset: the instant of its seconds,
/// or the current time when they are outside the calendar range, seen at
/// its offset (UTC when the offset is out of range). None when that local
/// date leaves the calendar.
pub fn git_time_date(t: GitTime) -> (d: Option<OffsetDateTime>)
    requires
        offset_fits(t.offset_minutes),
    ensures
        min_unix() <= t.seconds <= max_unix()
            ==> d == checked_at_offset(unix_datetime(t.seconds), offset_or_utc(t.offset_minutes)),
{
    let secs = t.offset_minutes * 60;
    let offset = match offset_from_seconds(secs) {
        Some(o) => o,
        None => utc(),
    };
    let base = match from_unix_timestamp(t.seconds) {
        Some(b) => b,
        None => now_utc(),
    };
    at_offset(base, offset)
}

} // verus!
