//! Absolute instants and signed time spans, modelled as plain integers.
//!
//! An [`Instant`] is a point in time: whole seconds since the Unix epoch plus
//! a sub-second nanosecond part.  The seconds are kept within the range that
//! the proleptic Gregorian calendar backing the RFC3339 renderer can
//! represent, so a well-formed instant can always be rendered.  A
//! [`Duration`] is a signed number of seconds; the operation mini-language
//! only produces whole-second spans (seconds, minutes, hours, days).

use vstd::prelude::*;

verus! {

/// Seconds of the earliest representable instant (midnight of the first day
/// of year -262143 in the proleptic Gregorian calendar).
pub const MIN_INSTANT_SECS: i64 = -8_334_601_228_800;

/// Seconds of the last representable instant (the final second of year
/// 262142 in the proleptic Gregorian calendar).
pub const MAX_INSTANT_SECS: i64 = 8_210_266_876_799;

/// An absolute point in time, UTC-normalized, with nanosecond precision.
#[derive(Clone, Copy, Debug, PartialEq, Eq, Structural)]
pub struct Instant {
    /// Whole seconds since 1970-01-01T00:00:00Z (negative before the epoch).
    pub secs: i64,
    /// Nanoseconds since the start of that second.
    pub nanos: u32,
}

impl Instant {
    /// A valid instant: seconds within the calendar range, nanoseconds below
    /// one whole second.
    pub open spec fn wf(self) -> bool {
        MIN_INSTANT_SECS <= self.secs <= MAX_INSTANT_SECS && self.nanos < 1_000_000_000
    }

    /// Milliseconds since the epoch, truncating the sub-millisecond part.
    pub open spec fn millis_spec(self) -> int {
        self.secs * 1000 + self.nanos as int / 1_000_000
    }

    /// Milliseconds since the epoch.
    pub fn timestamp_millis(&self) -> (r: i64)
        requires
            self.wf(),
        ensures
            r as int == self.millis_spec(),
    {
        self.secs * 1000 + (self.nanos / 1_000_000) as i64
    }
}

/// Euclidean quotient and remainder of `v` by a small positive divisor, as
/// spec-level `/` and `%` give them: the remainder is never negative.
pub fn div_rem_euclid(v: i64, d: u64) -> (r: (i64, u64))
    requires
        2 <= d <= 1_000_000_000,
    ensures
        r.0 as int == v as int / d as int,
        r.1 as int == v as int % d as int,
{
    if v >= 0 {
        let q = v / (d as i64);
        let m = v % (d as i64);
        (q, m as u64)
    } else {
        let mag: u64 = if v == i64::MIN {
            9_223_372_036_854_775_808
        } else {
            (-v) as u64
        };
        let qm = mag / d;
        let rm = mag % d;
        proof {
            vstd::arithmetic::div_mod::lemma_fundamental_div_mod(mag as int, d as int);
            assert(qm as int <= 0x4000_0000_0000_0000) by (nonlinear_arith)
                requires
                    mag as int == d as int * (qm as int) + (rm as int),
                    0 <= rm as int,
                    2 <= d as int,
                    0 <= qm as int,
                    mag as int <= 0x8000_0000_0000_0000,
            ;
        }
        if rm == 0 {
            let q = -(qm as i64);
            proof {
                assert(v as int == q as int * d as int) by (nonlinear_arith)
                    requires
                        v as int == -(mag as int),
                        mag as int == d as int * (qm as int) + rm as int,
                        rm == 0,
                        q as int == -(qm as int),
                ;
                vstd::arithmetic::div_mod::lemma_fundamental_div_mod_converse(
                    v as int,
                    d as int,
                    q as int,
                    0,
                );
            }
            (q, 0)
        } else {
            let q = -(qm as i64) - 1;
            let m = d - rm;
            proof {
                assert(v as int == q as int * d as int + m as int) by (nonlinear_arith)
                    requires
                        v as int == -(mag as int),
                        mag as int == d as int * (qm as int) + rm as int,
                        q as int == -(qm as int) - 1,
                        m as int == d as int - rm as int,
                ;
                vstd::arithmetic::div_mod::lemma_fundamental_div_mod_converse(
                    v as int,
                    d as int,
                    q as int,
                    m as int,
                );
            }
            (q, m)
        }
    }
}

/// A signed span of time, in whole seconds.
#[derive(Clone, Copy, Debug, PartialEq, Eq, Structural)]
pub struct Duration {
    /// The span in seconds; negative spans point into the past.
    pub secs: i64,
}

impl Duration {
    /// A span of `n` seconds.
    pub fn seconds(n: i64) -> (r: Duration)
        ensures
            r.secs == n,
    {
        Duration { secs: n }
    }

    /// A span of `n` minutes.
    pub fn minutes(n: i64) -> (r: Duration)
        requires
            -0x8000_0000_0000_0000 <= n * 60 <= 0x7fff_ffff_ffff_ffff,
        ensures
            r.secs == n * 60,
    {
        Duration { secs: n * 60 }
    }

    /// A span of `n` hours.
    pub fn hours(n: i64) -> (r: Duration)
        requires
            -0x8000_0000_0000_0000 <= n * 3600 <= 0x7fff_ffff_ffff_ffff,
        ensures
            r.secs == n * 3600,
    {
        Duration { secs: n * 3600 }
    }

    /// A span of `n` days, a day being exactly 86400 seconds.
    pub fn days(n: i64) -> (r: Duration)
        requires
            -0x8000_0000_0000_0000 <= n * 86400 <= 0x7fff_ffff_ffff_ffff,
        ensures
            r.secs == n * 86400,
    {
        Duration { secs: n * 86400 }
    }
}

} // verus!
