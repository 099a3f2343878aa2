//! The calendar and formatting work, done by chrono.
//!
//! An instant is handed over as whole seconds since the Unix epoch and a count
//! of nanoseconds after that second. What chrono makes of it takes a calendar
//! to state, so each result is given a name here and depends on the arguments
//! alone.
use chrono::{DateTime, FixedOffset, Local, SecondsFormat, TimeZone};
use vstd::prelude::*;

verus! {

/// Largest count of seconds since the epoch handed to chrono: about the
/// year 5138, far inside the range of dates that chrono represents.
pub const MAX_SECS: i64 = 100_000_000_000;

/// Seconds in a day: chrono's fixed offsets lie strictly between minus and
/// plus this many seconds.
pub const DAY_SECS: i32 = 86_400;

/// The RFC 3339 text of an instant at a fixed offset (seconds east of UTC),
/// with as many fractional digits as the nanoseconds need; `Z` stands for a
/// zero offset when `use_z` holds.
pub uninterp spec fn rfc3339_of(secs: int, nanos: int, offset: int, use_z: bool) -> Seq<char>;

/// The text of an instant in UTC laid out by a strftime-style pattern, or
/// `None` where chrono reports the pattern as malformed.
pub uninterp spec fn strftime_utc_of(secs: int, nanos: int, pattern: Seq<char>) -> Option<Seq<char>>;

/// As `strftime_utc_of`, for the instant seen at a fixed offset (seconds
/// east of UTC).
pub uninterp spec fn strftime_fixed_of(
    secs: int,
    nanos: int,
    offset: int,
    pattern: Seq<char>,
) -> Option<Seq<char>>;

/// Relies on chrono's `DateTime::from_timestamp`, `FixedOffset::east_opt` and
/// `DateTime::to_rfc3339_opts` with `SecondsFormat::AutoSi`: the RFC 3339 text
/// of the instant at that offset. Both constructors succeed on the admitted
/// inputs.
#[verifier::external_body]
pub(crate) fn rfc3339(secs: i64, nanos: u32, offset: i32, use_z: bool) -> (r: Vec<char>)
    requires
        0 <= secs <= MAX_SECS,
        nanos < 1_000_000_000,
        -DAY_SECS < offset < DAY_SECS,
    ensures
        r@ == rfc3339_of(secs as int, nanos as int, offset as int, use_z),
{
    let zone = FixedOffset::east_opt(offset).unwrap();
    let at = DateTime::from_timestamp(secs, nanos).unwrap().with_timezone(&zone);
    at.to_rfc3339_opts(SecondsFormat::AutoSi, use_z).chars().collect()
}

/// Relies on chrono's `DateTime::<Utc>::format` and `DelayedFormat::write_to`:
/// the instant in UTC laid out by `pattern`, or `None` where `write_to`
/// returns an error (a malformed pattern).
#[verifier::external_body]
pub(crate) fn strftime_utc(secs: i64, nanos: u32, pattern: &str) -> (r: Option<Vec<char>>)
    requires
        0 <= secs <= MAX_SECS,
        nanos < 1_000_000_000,
    ensures
        match r {
            Some(t) => strftime_utc_of(secs as int, nanos as int, pattern@) == Some(t@),
            None => strftime_utc_of(secs as int, nanos as int, pattern@) is None,
        },
{
    let at = DateTime::from_timestamp(secs, nanos).unwrap();
    let mut out = String::new();
    match at.format(pattern).write_to(&mut out) {
        Ok(()) => Some(out.chars().collect()),
        Err(_) => None,
    }
}

/// Relies on chrono's `DateTime::<FixedOffset>::format` and
/// `DelayedFormat::write_to`: the instant at that offset laid out by
/// `pattern`, or `None` where `write_to` returns an error.
#[verifier::external_body]
pub(crate) fn strftime_fixed(secs: i64, nanos: u32, offset: i32, pattern: &str) -> (r: Option<
    Vec<char>,
>)
    requires
        0 <= secs <= MAX_SECS,
        nanos < 1_000_000_000,
        -DAY_SECS < offset < DAY_SECS,
    ensures
        match r {
            Some(t) => strftime_fixed_of(secs as int, nanos as int, offset as int, pattern@)
                == Some(t@),
            None => strftime_fixed_of(secs as int, nanos as int, offset as int, pattern@) is None,
        },
{
    let zone = FixedOffset::east_opt(offset).unwrap();
    let at = DateTime::from_timestamp(secs, nanos).unwrap().with_timezone(&zone);
    let mut out = String::new();
    match at.format(pattern).write_to(&mut out) {
        Ok(()) => Some(out.chars().collect()),
        Err(_) => None,
    }
}

/// Relies on chrono's `Local` time zone (`TimeZone::offset_from_utc_datetime`)
/// and `FixedOffset::local_minus_utc`: the offset of this machine's civil time
/// at that instant, in seconds east of UTC. It depends on the machine, so only
/// its range is stated: a `FixedOffset` lies strictly within a day of UTC.
/// chrono panics here only where the machine's zone data cannot be read.
#[verifier::external_body]
pub(crate) fn local_offset_at(secs: i64) -> (r: i32)
    requires
        0 <= secs <= MAX_SECS,
    ensures
        -DAY_SECS < r < DAY_SECS,
{
    let at = DateTime::from_timestamp(secs, 0).unwrap();
    Local.offset_from_utc_datetime(&at.naive_utc()).local_minus_utc()
}

} // verus!
