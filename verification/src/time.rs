//! Points in time, as plain numbers.

use vstd::prelude::*;

verus! {

/// A date and time with the offset from UTC that it was written with.
#[derive(Clone, Copy, Debug, PartialEq, Eq, Structural)]
pub struct Timestamp {
    /// Seconds since the start of 1970 in UTC, leap seconds not counted.
    pub seconds: i64,
    /// Nanoseconds since the start of that second.
    pub nanoseconds: u32,
    /// Seconds by which local time is ahead of UTC.
    pub offset: i32,
}

/// The point in time that `chrono` reads an RFC 3339 `text` as, or `None`
/// where it does not take the text for one.
pub uninterp spec fn rfc3339_timestamp(text: Seq<char>) -> Option<Timestamp>;

/// `chrono::DateTime::parse_from_rfc3339`, with the parsed value taken apart
/// by `timestamp`, `timestamp_subsec_nanos` and `offset().local_minus_utc()`.
/// The contract only names the outcome: a timestamp where the parser
/// returns `Ok`, none where it returns an error.
#[verifier::external_body]
fn parse_rfc3339(text: &str) -> (parsed: Option<Timestamp>)
    ensures
        parsed == rfc3339_timestamp(text@),
{
    match chrono::DateTime::parse_from_rfc3339(text) {
        Ok(moment) => Some(
            Timestamp {
                seconds: moment.timestamp(),
                nanoseconds: moment.timestamp_subsec_nanos(),
                offset: moment.offset().local_minus_utc(),
            },
        ),
        Err(_) => None,
    }
}

impl Timestamp {
    /// Reads a date and time in the notation of RFC 3339, such as
    /// `1996-12-19T16:39:57-08:00`.
    pub fn parse(text: &str) -> (parsed: Option<Timestamp>)
        ensures
            parsed == rfc3339_timestamp(text@),
    {
        parse_rfc3339(text)
    }
}

} // verus!
