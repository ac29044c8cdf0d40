use vstd::prelude::*;
use chrono::{DateTime, Utc};
use std::str::FromStr;

verus! {

/// One hour, in microseconds.
pub const HOUR: i64 = 3_600_000_000;

/// One second, in microseconds.
pub const SECOND: i64 = 1_000_000;

/// chrono's reason for rejecting a text. Nothing is read from it.
#[verifier::external_type_specification]
#[verifier::external_body]
pub struct ExParseError(chrono::ParseError);

/// The instant that chrono reads from a text, in microseconds since the Unix
/// epoch, or `None` where chrono rejects the text.
pub uninterp spec fn parsed_utc(text: Seq<char>) -> Option<i64>;

/// The system clock, read through `chrono::Utc::now`, as microseconds since
/// the Unix epoch. chrono builds the value from the time elapsed since the
/// epoch, so it is never negative; nothing else is known of it. chrono panics
/// where the system clock is set before the epoch.
#[verifier::external_body]
pub(crate) fn now() -> (micros: i64)
    ensures
        micros >= 0,
{
    Utc::now().timestamp_micros()
}

/// `DateTime::<Utc>::from_str`, which reads a relaxed RFC 3339 timestamp with
/// an offset and converts it to UTC. The result depends on the text alone and
/// is named by `parsed_utc`.
#[verifier::external_body]
pub(crate) fn parse_utc(text: &str) -> (parsed: Result<i64, chrono::ParseError>)
    ensures
        parsed is Ok <==> parsed_utc(text@) is Some,
        parsed matches Ok(micros) ==> parsed_utc(text@) == Some(micros),
{
    match DateTime::<Utc>::from_str(text) {
        Ok(instant) => Ok(instant.timestamp_micros()),
        Err(error) => Err(error),
    }
}

} // verus!
