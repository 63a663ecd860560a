//! Date and time conversion: classify a textual input as an RFC3339
//! date-time, an epoch timestamp whose unit follows from its digit count, or
//! the literal `now`; optionally shift it by a compact `<sign><digits><unit>`
//! operation; and render it as RFC3339 in UTC and in the local offset together
//! with a millisecond epoch timestamp.

pub mod calendar;
pub mod converter;
pub mod input_types;
pub mod instant;
pub mod num;
