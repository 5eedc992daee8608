//! Timestamps. Inside the library an instant is a count of non-leap
//! microseconds since the Unix epoch; at the HTTP boundary it travels as an
//! RFC 3339 string. Parsing and rendering are delegated to the chrono crate
//! behind the two trusted wrappers below.

use chrono::TimeZone;
use vstd::prelude::*;

verus! {

/// The largest instant the library stores: 9999-12-31T23:59:59.999999 UTC in
/// microseconds. Keeping instants within `0..=TS_MAX_MICROS` keeps them
/// well inside chrono's representable range and within the four-digit years
/// of RFC 3339.
pub const TS_MAX_MICROS: i64 = 253_402_300_799_999_999;

/// The instant that `chrono::DateTime::parse_from_rfc3339` reads from a
/// string: `Some` of its microsecond count when the string is a valid
/// RFC 3339 date-time, `None` otherwise. The result depends on the
/// characters alone.
pub uninterp spec fn rfc3339_of(s: Seq<char>) -> Option<i64>;

/// The RFC 3339 rendering that chrono gives an in-range instant. The result
/// depends on the microsecond count alone.
pub uninterp spec fn rfc3339_str_of(t: i64) -> Seq<char>;

/// Relies on `chrono::DateTime::parse_from_rfc3339` and
/// `DateTime::timestamp_micros`; the latter cannot overflow for any
/// date-time chrono can represent.
#[verifier::external_body]
pub fn parse_rfc3339_micros(s: &str) -> (r: Option<i64>)
    ensures
        r == rfc3339_of(s@),
{
    match chrono::DateTime::parse_from_rfc3339(s) {
        Ok(dt) => Some(dt.timestamp_micros()),
        Err(_) => None,
    }
}

/// Relies on `chrono::TimeZone::timestamp_micros` on `Utc`, which maps every
/// in-range count to a single date-time, and `DateTime::to_rfc3339`, whose
/// output `parse_from_rfc3339` reads back to the same instant; that gives
/// the round trip stated here.
#[verifier::external_body]
pub fn format_rfc3339_micros(t: i64) -> (r: String)
    requires
        0 <= t <= TS_MAX_MICROS,
    ensures
        r@ == rfc3339_str_of(t),
        rfc3339_of(r@) == Some(t),
{
    match chrono::Utc.timestamp_micros(t) {
        chrono::LocalResult::Single(dt) => dt.to_rfc3339(),
        _ => String::new(),
    }
}

} // verus!
