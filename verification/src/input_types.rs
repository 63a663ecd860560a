//! Classification of the two textual inputs: the date string, which is the
//! literal `now`, an epoch timestamp whose unit follows from its digit count,
//! or an RFC3339 date-time; and the operation string, written
//! `<+|-><digits><s|m|h|d>`.

use vstd::prelude::*;

use crate::calendar::rfc3339_instant;
use crate::instant::{Duration, Instant};
use crate::num::{
    dec_digits, lemma_int_value_bound, lemma_pow10_i64, parse_i64, parse_i64_spec, pow10,
};

verus! {

/// Why an input was rejected.  Each variant carries what the message needs:
/// the offending length, character or string.
#[derive(Debug)]
pub enum ParseError {
    /// A numeric timestamp whose digit count is not 10, 13, 16 or 19.
    UnsupportedTimestampLength(usize),
    /// An instant pushed outside the representable calendar range.
    TimestampOutOfRange,
    /// A date string that is neither `now`, nor numeric, nor valid RFC3339.
    UnsupportedDateValue(String),
    /// An operation string shorter than three characters.
    InvalidOperation(String),
    /// An operation whose first character is neither `+` nor `-`.
    UnrecognizedSymbol(String),
    /// An operation whose last character is not one of `s`, `m`, `h`, `d`.
    UnsupportedUnit(String),
    /// An operation whose magnitude is not a representable integer, or whose
    /// span of seconds does not fit a 64-bit count.
    InvalidValue(String),
}

impl ParseError {
    /// The human-readable message for this error.
    pub open spec fn message_spec(&self) -> Seq<char> {
        match self {
            ParseError::UnsupportedTimestampLength(n) => "Timestamp of size "@ + dec_digits(
                *n as nat,
            ) + " is not supported"@,
            ParseError::TimestampOutOfRange => "Timestamp out of range"@,
            ParseError::UnsupportedDateValue(raw) => "Unsupported date value '"@ + raw@ + "'"@,
            ParseError::InvalidOperation(raw) => "Invalid operation "@ + raw@,
            ParseError::UnrecognizedSymbol(sym) => "Unrecognized symbol "@ + sym@,
            ParseError::UnsupportedUnit(unit) => "Unsupported unit "@ + unit@,
            ParseError::InvalidValue(raw) => "Invalid value '"@ + raw@ + "'"@,
        }
    }

    /// Renders the human-readable message.
    pub fn message(&self) -> (r: String)
        ensures
            r@ == self.message_spec(),
    {
        match self {
            ParseError::UnsupportedTimestampLength(n) => {
                proof {
                    reveal_strlit("Timestamp of size ");
                    reveal_strlit(" is not supported");
                }
                let mut s = String::new();
                s.append("Timestamp of size ");
                let digits = crate::num::u64_to_string(*n as u64);
                s.append(digits.as_str());
                s.append(" is not supported");
                assert(s@ =~= self.message_spec());
                s
            },
            ParseError::TimestampOutOfRange => {
                proof {
                    reveal_strlit("Timestamp out of range");
                }
                let mut s = String::new();
                s.append("Timestamp out of range");
                assert(s@ =~= self.message_spec());
                s
            },
            ParseError::UnsupportedDateValue(raw) => {
                proof {
                    reveal_strlit("Unsupported date value '");
                    reveal_strlit("'");
                }
                let mut s = String::new();
                s.append("Unsupported date value '");
                s.append(raw.as_str());
                s.append("'");
                assert(s@ =~= self.message_spec());
                s
            },
            ParseError::InvalidOperation(raw) => {
                proof {
                    reveal_strlit("Invalid operation ");
                }
                let mut s = String::new();
                s.append("Invalid operation ");
                s.append(raw.as_str());
                assert(s@ =~= self.message_spec());
                s
            },
            ParseError::UnrecognizedSymbol(sym) => {
                proof {
                    reveal_strlit("Unrecognized symbol ");
                }
                let mut s = String::new();
                s.append("Unrecognized symbol ");
                s.append(sym.as_str());
                assert(s@ =~= self.message_spec());
                s
            },
            ParseError::UnsupportedUnit(unit) => {
                proof {
                    reveal_strlit("Unsupported unit ");
                }
                let mut s = String::new();
                s.append("Unsupported unit ");
                s.append(unit.as_str());
                assert(s@ =~= self.message_spec());
                s
            },
            ParseError::InvalidValue(raw) => {
                proof {
                    reveal_strlit("Invalid value '");
                    reveal_strlit("'");
                }
                let mut s = String::new();
                s.append("Invalid value '");
                s.append(raw.as_str());
                s.append("'");
                assert(s@ =~= self.message_spec());
                s
            },
        }
    }
}

/// The unit code at the end of an operation string.
#[derive(Clone, Copy, Debug, PartialEq, Eq, Structural)]
pub enum Unit {
    Seconds,
    Minutes,
    Hours,
    Days,
}

/// The unit that a unit code denotes, if any.
pub open spec fn unit_of_char(c: char) -> Option<Unit> {
    if c == 's' {
        Some(Unit::Seconds)
    } else if c == 'm' {
        Some(Unit::Minutes)
    } else if c == 'h' {
        Some(Unit::Hours)
    } else if c == 'd' {
        Some(Unit::Days)
    } else {
        None
    }
}

/// How many seconds one step of a unit spans.
pub open spec fn unit_secs(u: Unit) -> int {
    match u {
        Unit::Seconds => 1,
        Unit::Minutes => 60,
        Unit::Hours => 3600,
        Unit::Days => 86400,
    }
}

impl Unit {
    /// Reads a unit code: one of the strings `s`, `m`, `h`, `d`.
    pub fn from_str(s: &str) -> (r: Result<Unit, ParseError>)
        ensures
            match r {
                Ok(u) => s@.len() == 1 && unit_of_char(s@[0]) == Some(u),
                Err(e) => (s@.len() != 1 || unit_of_char(s@[0]) is None) && (e matches
                    ParseError::UnsupportedUnit(raw) && raw@ == s@),
            },
    {
        if s.unicode_len() == 1 {
            let c = s.get_char(0);
            if c == 's' {
                return Ok(Unit::Seconds);
            }
            if c == 'm' {
                return Ok(Unit::Minutes);
            }
            if c == 'h' {
                return Ok(Unit::Hours);
            }
            if c == 'd' {
                return Ok(Unit::Days);
            }
        }
        Err(ParseError::UnsupportedUnit(s.to_owned()))
    }
}

/// The sign at the start of an operation string.
#[derive(Clone, Copy, Debug, PartialEq, Eq, Structural)]
pub enum Symbol {
    Plus,
    Minus,
}

/// The sign that a character denotes, if any.
pub open spec fn symbol_of_char(c: char) -> Option<Symbol> {
    if c == '+' {
        Some(Symbol::Plus)
    } else if c == '-' {
        Some(Symbol::Minus)
    } else {
        None
    }
}

impl Symbol {
    /// Reads a sign: the string `+` or `-`.
    pub fn from_str(s: &str) -> (r: Result<Symbol, ParseError>)
        ensures
            match r {
                Ok(sym) => s@.len() == 1 && symbol_of_char(s@[0]) == Some(sym),
                Err(e) => (s@.len() != 1 || symbol_of_char(s@[0]) is None) && (e matches
                    ParseError::UnrecognizedSymbol(raw) && raw@ == s@),
            },
    {
        if s.unicode_len() == 1 {
            let c = s.get_char(0);
            if c == '+' {
                return Ok(Symbol::Plus);
            }
            if c == '-' {
                return Ok(Symbol::Minus);
            }
        }
        Err(ParseError::UnrecognizedSymbol(s.to_owned()))
    }
}

/// How an operation string splits into sign, magnitude and unit.  The checks
/// run in surface order: length, sign, unit, magnitude.
pub enum SplitOutcome {
    SplitParts { symbol: Symbol, value: int, unit: Unit },
    TooShort,
    BadSymbol,
    BadUnit,
    BadValue,
}

/// Splits `s` into its sign character, magnitude digits and unit code.
pub open spec fn split_spec(s: Seq<char>) -> SplitOutcome {
    if s.len() < 3 {
        SplitOutcome::TooShort
    } else {
        match symbol_of_char(s[0]) {
            None => SplitOutcome::BadSymbol,
            Some(symbol) => match unit_of_char(s[s.len() - 1]) {
                None => SplitOutcome::BadUnit,
                Some(unit) => match parse_i64_spec(s.subrange(1, s.len() - 1)) {
                    None => SplitOutcome::BadValue,
                    Some(value) => SplitOutcome::SplitParts { symbol, value, unit },
                },
            },
        }
    }
}

/// Splits an operation string into its sign, magnitude and unit.
/// Example: `+10m` gives `(Symbol::Plus, 10, Unit::Minutes)`.
pub fn split_operation_input(input: &str) -> (r: Result<(Symbol, i64, Unit), ParseError>)
    ensures
        match split_spec(input@) {
            SplitOutcome::SplitParts { symbol, value, unit } => r matches Ok(t) && t.0 == symbol
                && t.1 == value && t.2 == unit,
            SplitOutcome::TooShort => r matches Err(ParseError::InvalidOperation(raw)) && raw@
                == input@,
            SplitOutcome::BadSymbol => r matches Err(ParseError::UnrecognizedSymbol(raw)) && raw@
                =~= input@.subrange(0, 1),
            SplitOutcome::BadUnit => r matches Err(ParseError::UnsupportedUnit(raw)) && raw@
                =~= input@.subrange(input@.len() - 1, input@.len() as int),
            SplitOutcome::BadValue => r matches Err(ParseError::InvalidValue(raw)) && raw@
                =~= input@.subrange(1, input@.len() - 1),
        },
{
    let len = input.unicode_len();
    if len < 3 {
        return Err(ParseError::InvalidOperation(input.to_owned()));
    }
    let symbol = Symbol::from_str(input.substring_char(0, 1))?;
    let unit = Unit::from_str(input.substring_char(len - 1, len))?;
    let value_str = input.substring_char(1, len - 1);
    let value = match parse_i64(value_str) {
        Some(v) => v,
        None => {
            return Err(ParseError::InvalidValue(value_str.to_owned()));
        },
    };
    Ok((symbol, value, unit))
}

/// How an operation string parses as a whole: like [`split_spec`], except
/// that a magnitude whose span of seconds leaves the 64-bit range is also a
/// bad value.
pub enum OpOutcome {
    Op { negative: bool, span: int },
    TooShort,
    BadSymbol,
    BadUnit,
    BadValue,
}

/// Parses an operation string to its direction and span in seconds.
pub open spec fn operation_spec(s: Seq<char>) -> OpOutcome {
    match split_spec(s) {
        SplitOutcome::TooShort => OpOutcome::TooShort,
        SplitOutcome::BadSymbol => OpOutcome::BadSymbol,
        SplitOutcome::BadUnit => OpOutcome::BadUnit,
        SplitOutcome::BadValue => OpOutcome::BadValue,
        SplitOutcome::SplitParts { symbol, value, unit } => {
            let span = value * unit_secs(unit);
            if -0x8000_0000_0000_0000 <= span <= 0x7fff_ffff_ffff_ffff {
                OpOutcome::Op { negative: symbol is Minus, span }
            } else {
                OpOutcome::BadValue
            }
        },
    }
}

/// The magnitude and unit as a duration, when the span fits 64-bit seconds.
fn duration_of(value: i64, unit: Unit) -> (r: Option<Duration>)
    ensures
        match r {
            Some(d) => -0x8000_0000_0000_0000 <= value * unit_secs(unit) <= 0x7fff_ffff_ffff_ffff
                && d.secs == value * unit_secs(unit),
            None => !(-0x8000_0000_0000_0000 <= value * unit_secs(unit)
                <= 0x7fff_ffff_ffff_ffff),
        },
{
    match unit {
        Unit::Seconds => Some(Duration::seconds(value)),
        Unit::Minutes => {
            if -153_722_867_280_912_930 <= value && value <= 153_722_867_280_912_930 {
                Some(Duration::minutes(value))
            } else {
                None
            }
        },
        Unit::Hours => {
            if -2_562_047_788_015_215 <= value && value <= 2_562_047_788_015_215 {
                Some(Duration::hours(value))
            } else {
                None
            }
        },
        Unit::Days => {
            if -106_751_991_167_300 <= value && value <= 106_751_991_167_300 {
                Some(Duration::days(value))
            } else {
                None
            }
        },
    }
}

/// A time shift: add or subtract a duration.
#[derive(Clone, Copy, Debug)]
pub enum Operation {
    Sum(Duration),
    Subtract(Duration),
}

impl Operation {
    /// The signed number of seconds this operation moves an instant by.
    pub open spec fn shift_spec(self) -> int {
        match self {
            Operation::Sum(d) => d.secs as int,
            Operation::Subtract(d) => -(d.secs as int),
        }
    }

    /// Shifts an instant by this operation's span.  The shift is exact
    /// whole-second arithmetic; it fails only when the target leaves the
    /// representable calendar range.
    pub fn apply(&self, i: Instant) -> (r: Result<Instant, ParseError>)
        requires
            i.wf(),
        ensures
            ({
                let t = i.secs + self.shift_spec();
                if crate::instant::MIN_INSTANT_SECS <= t <= crate::instant::MAX_INSTANT_SECS {
                    r matches Ok(j) && j.secs == t && j.nanos == i.nanos && j.wf()
                } else {
                    r matches Err(ParseError::TimestampOutOfRange)
                }
            }),
    {
        match self {
            Operation::Sum(d) => {
                if d.secs >= 0 {
                    if i.secs <= crate::instant::MAX_INSTANT_SECS - d.secs {
                        Ok(Instant { secs: i.secs + d.secs, nanos: i.nanos })
                    } else {
                        Err(ParseError::TimestampOutOfRange)
                    }
                } else {
                    if i.secs >= crate::instant::MIN_INSTANT_SECS - d.secs {
                        Ok(Instant { secs: i.secs + d.secs, nanos: i.nanos })
                    } else {
                        Err(ParseError::TimestampOutOfRange)
                    }
                }
            },
            Operation::Subtract(d) => {
                if d.secs >= 0 {
                    if i.secs >= crate::instant::MIN_INSTANT_SECS + d.secs {
                        Ok(Instant { secs: i.secs - d.secs, nanos: i.nanos })
                    } else {
                        Err(ParseError::TimestampOutOfRange)
                    }
                } else {
                    if i.secs <= crate::instant::MAX_INSTANT_SECS + d.secs {
                        Ok(Instant { secs: i.secs - d.secs, nanos: i.nanos })
                    } else {
                        Err(ParseError::TimestampOutOfRange)
                    }
                }
            },
        }
    }

    /// Parses `<+|-><digits><s|m|h|d>`: `+` builds a `Sum`, `-` a
    /// `Subtract`; the magnitude is not itself signed, so `-5h` subtracts
    /// five hours.
    pub fn from_str(s: &str) -> (r: Result<Operation, ParseError>)
        ensures
            match operation_spec(s@) {
                OpOutcome::Op { negative, span } => if negative {
                    r matches Ok(Operation::Subtract(d)) && d.secs == span
                } else {
                    r matches Ok(Operation::Sum(d)) && d.secs == span
                },
                OpOutcome::TooShort => r matches Err(ParseError::InvalidOperation(raw)) && raw@
                    == s@,
                OpOutcome::BadSymbol => r matches Err(ParseError::UnrecognizedSymbol(raw)) && raw@
                    =~= s@.subrange(0, 1),
                OpOutcome::BadUnit => r matches Err(ParseError::UnsupportedUnit(raw)) && raw@
                    =~= s@.subrange(s@.len() - 1, s@.len() as int),
                OpOutcome::BadValue => r matches Err(ParseError::InvalidValue(raw)) && raw@
                    =~= s@.subrange(1, s@.len() - 1),
            },
    {
        if s.unicode_len() < 3 {
            return Err(ParseError::InvalidOperation(s.to_owned()));
        }
        let parts = split_operation_input(s)?;
        let duration = match duration_of(parts.1, parts.2) {
            Some(d) => d,
            None => {
                let value_str = s.substring_char(1, s.unicode_len() - 1);
                return Err(ParseError::InvalidValue(value_str.to_owned()));
            },
        };
        match parts.0 {
            Symbol::Plus => Ok(Operation::Sum(duration)),
            Symbol::Minus => Ok(Operation::Subtract(duration)),
        }
    }
}

/// Whether a digit count names a timestamp unit: 10 digits are seconds, 13
/// milliseconds, 16 microseconds, 19 nanoseconds.
pub open spec fn supported_timestamp_len(len: int) -> bool {
    len == 10 || len == 13 || len == 16 || len == 19
}

/// The whole seconds of the instant that a numeric timestamp of `len`
/// characters denotes.
pub open spec fn numeric_secs(v: int, len: int) -> int {
    if len == 10 {
        v
    } else if len == 13 {
        v / 1000
    } else if len == 16 {
        v / 1_000_000
    } else {
        v / 1_000_000_000
    }
}

/// The sub-second nanoseconds of the instant that a numeric timestamp of
/// `len` characters denotes.
pub open spec fn numeric_nanos(v: int, len: int) -> int {
    if len == 10 {
        0
    } else if len == 13 {
        (v % 1000) * 1_000_000
    } else if len == 16 {
        (v % 1_000_000) * 1000
    } else {
        v % 1_000_000_000
    }
}

/// A parsed calendar instant with its sub-second part folded below one
/// second: a leap second is carried into the following second, which keeps
/// the millisecond count unchanged.
pub open spec fn normalized_calendar(p: (int, int)) -> (int, int) {
    if p.1 >= 1_000_000_000 {
        (p.0 + 1, p.1 - 1_000_000_000)
    } else {
        p
    }
}

/// How a date string classifies.
pub enum Classified {
    /// The literal `now`.
    NowInput,
    /// A numeric timestamp of a supported length, resolved by its unit.
    Numeric { secs: int, nanos: int },
    /// A numeric string of an unsupported length.
    BadLength { len: int },
    /// A valid RFC3339 date-time, normalized to UTC.
    Calendar { secs: int, nanos: int },
    /// None of the accepted shapes.
    BadDate,
}

/// Classifies a date string: the literal `now` first, then a full integer,
/// then RFC3339.
pub open spec fn classify_spec(s: Seq<char>) -> Classified {
    if s == "now"@ {
        Classified::NowInput
    } else {
        match parse_i64_spec(s) {
            Some(v) => if supported_timestamp_len(s.len() as int) {
                Classified::Numeric {
                    secs: numeric_secs(v, s.len() as int),
                    nanos: numeric_nanos(v, s.len() as int),
                }
            } else {
                Classified::BadLength { len: s.len() as int }
            },
            None => match rfc3339_instant(s) {
                Some(p) => Classified::Calendar {
                    secs: normalized_calendar(p).0,
                    nanos: normalized_calendar(p).1,
                },
                None => Classified::BadDate,
            },
        }
    }
}

/// Whether `s` is the literal `now`.
fn is_now(s: &str) -> (r: bool)
    ensures
        r <==> s@ == "now"@,
{
    proof {
        reveal_strlit("now");
    }
    if s.unicode_len() != 3 {
        return false;
    }
    let r = s.get_char(0) == 'n' && s.get_char(1) == 'o' && s.get_char(2) == 'w';
    proof {
        if r {
            assert(s@ =~= "now"@);
        }
    }
    r
}

/// A classified date input.  All three shapes carry the resolved instant;
/// the tag records which shape the text had, for diagnostics.
#[derive(Clone, Copy, Debug)]
pub enum InputDateType {
    /// An explicit RFC3339 date-time.
    DateTime(Instant),
    /// An epoch timestamp.
    Timestamp(Instant),
    /// The literal `now`.
    Now(Instant),
}

impl InputDateType {
    /// Classifies a date string against a given current instant, which the
    /// literal `now` resolves to.
    pub fn from_str_at(s: &str, now: Instant) -> (r: Result<InputDateType, ParseError>)
        requires
            now.wf(),
        ensures
            match classify_spec(s@) {
                Classified::NowInput => r == Ok::<InputDateType, ParseError>(
                    InputDateType::Now(now),
                ),
                Classified::Numeric { secs, nanos } => r matches Ok(InputDateType::Timestamp(i))
                    && i.secs == secs && i.nanos == nanos && i.wf(),
                Classified::BadLength { len } => r matches Err(
                    ParseError::UnsupportedTimestampLength(l),
                ) && l == len,
                Classified::Calendar { secs, nanos } => r matches Ok(InputDateType::DateTime(i))
                    && i.secs == secs && i.nanos == nanos && i.wf(),
                Classified::BadDate => r matches Err(ParseError::UnsupportedDateValue(raw)) && raw@
                    == s@,
            },
    {
        if is_now(s) {
            return Ok(InputDateType::Now(now));
        }
        match parse_i64(s) {
            Some(v) => {
                let len = s.unicode_len();
                proof {
                    lemma_pow10_i64();
                    if parse_i64_spec(s@) matches Some(_) {
                        lemma_int_value_bound(s@);
                    }
                }
                if len == 10 {
                    Ok(InputDateType::Timestamp(Instant { secs: v, nanos: 0 }))
                } else if len == 13 {
                    let qm = crate::instant::div_rem_euclid(v, 1000);
                    proof {
                        lemma_div_in_range(v as int, 1000, pow10(13));
                    }
                    Ok(
                        InputDateType::Timestamp(
                            Instant { secs: qm.0, nanos: (qm.1 as u32) * 1_000_000 },
                        ),
                    )
                } else if len == 16 {
                    let qm = crate::instant::div_rem_euclid(v, 1_000_000);
                    proof {
                        lemma_div_in_range(v as int, 1_000_000, pow10(16));
                    }
                    Ok(
                        InputDateType::Timestamp(
                            Instant { secs: qm.0, nanos: (qm.1 as u32) * 1000 },
                        ),
                    )
                } else if len == 19 {
                    let qm = crate::instant::div_rem_euclid(v, 1_000_000_000);
                    proof {
                        lemma_div_in_range(v as int, 1_000_000_000, pow10(19));
                    }
                    Ok(InputDateType::Timestamp(Instant { secs: qm.0, nanos: qm.1 as u32 }))
                } else {
                    Err(ParseError::UnsupportedTimestampLength(len))
                }
            },
            None => {
                match crate::calendar::rfc3339_parse(s) {
                    Some(p) => {
                        let inst = if p.1 >= 1_000_000_000 {
                            Instant { secs: p.0 + 1, nanos: p.1 - 1_000_000_000 }
                        } else {
                            Instant { secs: p.0, nanos: p.1 }
                        };
                        Ok(InputDateType::DateTime(inst))
                    },
                    None => Err(ParseError::UnsupportedDateValue(s.to_owned())),
                }
            },
        }
    }

    /// Classifies a date string; the literal `now` resolves to the current
    /// instant read from the system clock.
    pub fn from_str(s: &str) -> (r: Result<InputDateType, ParseError>)
        ensures
            match classify_spec(s@) {
                Classified::NowInput => r matches Ok(InputDateType::Now(i)) && i.wf(),
                Classified::Numeric { secs, nanos } => r matches Ok(InputDateType::Timestamp(i))
                    && i.secs == secs && i.nanos == nanos && i.wf(),
                Classified::BadLength { len } => r matches Err(
                    ParseError::UnsupportedTimestampLength(l),
                ) && l == len,
                Classified::Calendar { secs, nanos } => r matches Ok(InputDateType::DateTime(i))
                    && i.secs == secs && i.nanos == nanos && i.wf(),
                Classified::BadDate => r matches Err(ParseError::UnsupportedDateValue(raw)) && raw@
                    == s@,
            },
    {
        let now = crate::calendar::now_instant();
        Self::from_str_at(s, now)
    }
}

/// The euclidean quotient of a value within `(-bound, bound)` by a positive
/// divisor of `bound` stays within `[-(bound / d), bound / d]`.
proof fn lemma_div_in_range(v: int, d: int, bound: int)
    requires
        2 <= d <= bound,
        bound % d == 0,
        -bound < v < bound,
    ensures
        -(bound / d) <= v / d <= bound / d,
{
    vstd::arithmetic::div_mod::lemma_div_is_ordered(-bound, v, d);
    vstd::arithmetic::div_mod::lemma_div_is_ordered(v, bound, d);
    vstd::arithmetic::div_mod::lemma_fundamental_div_mod(bound, d);
    assert(-bound == d * (-(bound / d)) + 0) by (nonlinear_arith)
        requires
            bound == d * (bound / d) + bound % d,
            bound % d == 0,
    ;
    vstd::arithmetic::div_mod::lemma_fundamental_div_mod_converse(-bound, d, -(bound / d), 0);
}

} // verus!
