//! The conversion pipeline: classify the date string, optionally shift the
//! resolved instant, and render three lines — RFC3339 in UTC, RFC3339 in the
//! local offset, and the millisecond epoch timestamp.

use vstd::prelude::*;

use crate::calendar::{local_offset_seconds, now_instant, rfc3339_render, rfc3339_string};
use crate::instant::{Instant, MAX_INSTANT_SECS, MIN_INSTANT_SECS};
use crate::input_types::{
    classify_spec, Classified, InputDateType, Operation, ParseError,
};
use crate::num::{dec_str, i64_to_string, lemma_parse_dec_str};

verus! {

/// Renders an instant as RFC3339 twice, in UTC and in the given offset, on
/// two newline-separated lines.
pub fn format_datetime(date_time: &Instant, local_offset: i32) -> (r: String)
    requires
        date_time.wf(),
        -86400 < local_offset < 86400,
    ensures
        r@ == rfc3339_render(date_time.secs as int, date_time.nanos as int, 0) + "\n"@
            + rfc3339_render(date_time.secs as int, date_time.nanos as int, local_offset as int),
{
    let mut s = rfc3339_string(date_time.secs, date_time.nanos, 0);
    s.append("\n");
    let local = rfc3339_string(date_time.secs, date_time.nanos, local_offset);
    s.append(local.as_str());
    s
}

/// Renders an instant as its millisecond epoch timestamp, in decimal.
pub fn datetime_to_timestamp(date_time: &Instant) -> (r: String)
    requires
        date_time.wf(),
    ensures
        r@ == dec_str(date_time.millis_spec()),
{
    i64_to_string(date_time.timestamp_millis())
}

/// The three output lines for the instant `(secs, nanos)` under the local
/// offset `off`.
pub open spec fn output_spec(secs: int, nanos: int, off: int) -> Seq<char> {
    rfc3339_render(secs, nanos, 0) + "\n"@ + rfc3339_render(secs, nanos, off) + "\n"@ + dec_str(
        secs * 1000 + nanos / 1_000_000,
    )
}

/// The signed shift of an optional operation; absence means no shift.
pub open spec fn op_shift(op: Option<Operation>) -> int {
    match op {
        None => 0,
        Some(o) => o.shift_spec(),
    }
}

/// The operation value behind an optional borrow.
pub open spec fn spec_operation(op: Option<&Operation>) -> Option<Operation> {
    match op {
        None => None,
        Some(o) => Some(*o),
    }
}

/// What conversion returns once the date string resolved to the instant
/// `(secs, nanos)`: the rendered output of the shifted instant, or the range
/// error when the shift leaves the calendar.
pub open spec fn shifted_post(
    r: Result<String, ParseError>,
    secs: int,
    nanos: int,
    op: Option<Operation>,
    off: int,
) -> bool {
    let t = secs + op_shift(op);
    if MIN_INSTANT_SECS <= t <= MAX_INSTANT_SECS {
        r matches Ok(out) && out@ == output_spec(t, nanos, off)
    } else {
        r matches Err(ParseError::TimestampOutOfRange)
    }
}

/// The full contract of conversion for the date string `s`, operation `op`,
/// current instant `now` and local offset `off`.
pub open spec fn convert_post(
    r: Result<String, ParseError>,
    s: Seq<char>,
    op: Option<Operation>,
    now: Instant,
    off: int,
) -> bool {
    match classify_spec(s) {
        Classified::NowInput => shifted_post(r, now.secs as int, now.nanos as int, op, off),
        Classified::Numeric { secs, nanos } => shifted_post(r, secs, nanos, op, off),
        Classified::Calendar { secs, nanos } => shifted_post(r, secs, nanos, op, off),
        Classified::BadLength { len } => r matches Err(
            ParseError::UnsupportedTimestampLength(l),
        ) && l == len,
        Classified::BadDate => r matches Err(ParseError::UnsupportedDateValue(raw)) && raw@ == s,
    }
}

/// Converts against a given current instant and local offset.
pub fn convert_at(
    input: &str,
    operation: Option<&Operation>,
    now: Instant,
    local_offset: i32,
) -> (r: Result<String, ParseError>)
    requires
        now.wf(),
        -86400 < local_offset < 86400,
    ensures
        convert_post(r, input@, spec_operation(operation), now, local_offset as int),
{
    let shape = InputDateType::from_str_at(input, now)?;
    let instant = match shape {
        InputDateType::DateTime(i) => i,
        InputDateType::Timestamp(i) => i,
        InputDateType::Now(i) => i,
    };
    let shifted = match operation {
        None => instant,
        Some(op) => op.apply(instant)?,
    };
    let mut out = format_datetime(&shifted, local_offset);
    out.append("\n");
    let timestamp = datetime_to_timestamp(&shifted);
    out.append(timestamp.as_str());
    assert(out@ =~= output_spec(shifted.secs as int, shifted.nanos as int, local_offset as int));
    Ok(out)
}

/// Converts a date string, optionally shifted by an operation, into the
/// three output lines.  The current instant and the local offset are read
/// from the system clock once, at the start of the call.
pub fn convert(input: &str, operation: Option<&Operation>) -> (r: Result<String, ParseError>)
    ensures
        exists|now: Instant, off: int|
            now.wf() && -86400 < off < 86400 && #[trigger] convert_post(
                r,
                input@,
                spec_operation(operation),
                now,
                off,
            ),
        classify_spec(input@) matches Classified::BadLength { len } ==> (r matches Err(
            ParseError::UnsupportedTimestampLength(l),
        ) && l == len),
        classify_spec(input@) is BadDate ==> (r matches Err(ParseError::UnsupportedDateValue(raw))
            && raw@ == input@),
{
    let now = now_instant();
    let local_offset = local_offset_seconds();
    let result = convert_at(input, operation, now, local_offset);
    proof {
        assert(convert_post(
            result,
            input@,
            spec_operation(operation),
            now,
            local_offset as int,
        ));
    }
    result
}

/// Round trip at millisecond precision: print an instant's millisecond
/// timestamp and classify the printed line again, and — whenever the line is
/// 13 characters, the length that names milliseconds — it resolves to an
/// instant with the very same millisecond timestamp, the original truncated
/// below the millisecond.
pub proof fn lemma_millis_round_trip(i: Instant)
    requires
        i.wf(),
        dec_str(i.millis_spec()).len() == 13,
    ensures
        classify_spec(dec_str(i.millis_spec())) == (Classified::Numeric {
            secs: i.secs as int,
            nanos: (i.nanos as int / 1_000_000) * 1_000_000,
        }),
        i.secs * 1000 + ((i.nanos as int / 1_000_000) * 1_000_000) / 1_000_000
            == i.millis_spec(),
{
    let m = i.millis_spec();
    let line = dec_str(m);
    let sub = i.nanos as int / 1_000_000;
    assert(-0x8000_0000_0000_0000 <= m <= 0x7fff_ffff_ffff_ffff);
    lemma_parse_dec_str(m);
    reveal_strlit("now");
    assert(line != "now"@) by {
        assert("now"@.len() == 3);
    }
    assert(0 <= sub < 1000);
    vstd::arithmetic::div_mod::lemma_fundamental_div_mod_converse(m, 1000, i.secs as int, sub);
    assert(m / 1000 == i.secs as int && m % 1000 == sub);
    assert((sub * 1_000_000) / 1_000_000 == sub) by {
        vstd::arithmetic::div_mod::lemma_div_by_multiple(sub, 1_000_000);
    }
}

} // verus!
