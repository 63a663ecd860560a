//! The calendar boundary: the RFC3339 parser and renderer and the system
//! clock, reached through `chrono`.  Everything here is trusted; the rest of
//! the crate works on the plain `(seconds, nanoseconds)` values these
//! functions exchange.

use vstd::prelude::*;

use crate::instant::{Instant, MAX_INSTANT_SECS, MIN_INSTANT_SECS};

verus! {

/// The instant that the RFC3339 parser resolves a string to, converted to
/// UTC: whole seconds since the epoch and sub-second nanoseconds.  `None`
/// when the string is not a valid RFC3339 date-time.
pub uninterp spec fn rfc3339_instant(s: Seq<char>) -> Option<(int, int)>;

/// The RFC3339 text rendered for the instant `(secs, nanos)` seen from a
/// fixed UTC offset of `offset_secs` seconds.
pub uninterp spec fn rfc3339_render(secs: int, nanos: int, offset_secs: int) -> Seq<char>;

/// Relies on `chrono::DateTime::parse_from_rfc3339` and, on its result,
/// `to_utc`, `timestamp` and `timestamp_subsec_nanos`: a parsed date-time
/// lies well within the calendar range, its year having four digits; its
/// sub-second part is below one second, or below two seconds for a leap
/// second.
#[verifier::external_body]
pub(crate) fn rfc3339_parse(s: &str) -> (r: Option<(i64, u32)>)
    ensures
        match r {
            Some(p) => rfc3339_instant(s@) == Some((p.0 as int, p.1 as int))
                && MIN_INSTANT_SECS <= p.0 < MAX_INSTANT_SECS && p.1 < 2_000_000_000,
            None => rfc3339_instant(s@) is None,
        },
{
    match chrono::DateTime::parse_from_rfc3339(s) {
        Ok(dt) => {
            let utc = dt.to_utc();
            Some((utc.timestamp(), utc.timestamp_subsec_nanos()))
        },
        Err(_) => None,
    }
}

/// Relies on `chrono::DateTime::from_timestamp`, which accepts every second
/// in the calendar range together with a sub-second nanosecond part, on
/// `chrono::FixedOffset::east_opt`, which accepts every offset strictly
/// between minus and plus one day, and on `chrono::DateTime::with_timezone`
/// and `chrono::DateTime::to_rfc3339`, whose text is a function of the
/// instant and the offset alone.
#[verifier::external_body]
pub(crate) fn rfc3339_string(secs: i64, nanos: u32, offset_secs: i32) -> (r: String)
    requires
        MIN_INSTANT_SECS <= secs <= MAX_INSTANT_SECS,
        nanos < 1_000_000_000,
        -86400 < offset_secs < 86400,
    ensures
        r@ == rfc3339_render(secs as int, nanos as int, offset_secs as int),
{
    let utc = chrono::DateTime::from_timestamp(secs, nanos).unwrap();
    let offset = chrono::FixedOffset::east_opt(offset_secs).unwrap();
    utc.with_timezone(&offset).to_rfc3339()
}

/// Relies on `chrono::Utc::now`, which reads the system clock: whatever
/// moment it reports is a valid instant at or after the epoch, with a
/// sub-second part below one second.
#[verifier::external_body]
pub(crate) fn now_instant() -> (r: Instant)
    ensures
        r.wf(),
        r.secs >= 0,
{
    let now = chrono::Utc::now();
    Instant { secs: now.timestamp(), nanos: now.timestamp_subsec_nanos() }
}

/// Relies on `chrono::Local::now` and `chrono::FixedOffset::local_minus_utc`:
/// a fixed offset is strictly between minus and plus one day.
#[verifier::external_body]
pub(crate) fn local_offset_seconds() -> (r: i32)
    ensures
        -86400 < r < 86400,
{
    chrono::Local::now().offset().local_minus_utc()
}

} // verus!
