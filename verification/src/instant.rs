//! Instants in UTC as text.

use chrono::{DateTime, FixedOffset, SecondsFormat, Utc};
use vstd::prelude::*;

verus! {

/// The text that chrono's `DateTime::to_rfc3339_opts` writes for an instant, with `Z` and as few
/// of 0, 3, 6 or 9 fraction digits as are exact; `None` where chrono has no such instant.
pub uninterp spec fn rfc3339_text(seconds: i64, nanoseconds: u32) -> Option<Seq<char>>;

/// The instant and the offset from UTC in seconds that chrono's `DateTime::parse_from_rfc3339`
/// reads; `None` where the text is not RFC 3339.
pub uninterp spec fn rfc3339_instant(text: Seq<char>) -> Option<(i64, u32, i32)>;

/// An instant between the years 0000 and 9999. From a thousand million nanoseconds on it lies in a
/// leap second, which follows the last second of a minute.
pub open spec fn has_four_digit_year(seconds: i64, nanoseconds: u32) -> bool {
    &&& -62_167_219_200 <= seconds <= 253_402_300_799
    &&& nanoseconds < 1_000_000_000 || nanoseconds < 2_000_000_000 && seconds as int % 60 == 59
}

/// chrono's `DateTime::from_timestamp` and `to_rfc3339_opts`. No text is empty. The text of an instant with a
/// four-digit year is exact: chrono reads the same instant from it, at offset zero.
#[verifier::external_body]
pub(crate) fn format_rfc3339(seconds: i64, nanoseconds: u32) -> (text: Option<String>)
    ensures
        match rfc3339_text(seconds, nanoseconds) {
            Some(expected) => text is Some && text->0@ == expected,
            None => text is None,
        },
        text is Some ==> text->0@.len() > 0,
        has_four_digit_year(seconds, nanoseconds) ==> text is Some && rfc3339_instant(text->0@)
            == Some((seconds, nanoseconds, 0i32)),
{
    let instant = DateTime::<Utc>::from_timestamp(seconds, nanoseconds)?;
    Some(instant.to_rfc3339_opts(SecondsFormat::AutoSi, true))
}

/// chrono's `DateTime::parse_from_rfc3339`. chrono can write every instant that it reads.
#[verifier::external_body]
pub(crate) fn parse_rfc3339(text: &str) -> (instant: Option<(i64, u32, i32)>)
    ensures
        instant == rfc3339_instant(text@),
        match instant {
            Some((seconds, nanoseconds, _)) => rfc3339_text(seconds, nanoseconds) is Some,
            None => true,
        },
{
    let instant = DateTime::<FixedOffset>::parse_from_rfc3339(text).ok()?;
    let offset = instant.offset().local_minus_utc();
    Some((instant.timestamp(), instant.timestamp_subsec_nanos(), offset))
}

/// The text that chrono's `DateTime::format` writes for an instant by the pattern
/// `%Y-%m-%d %H:%MZ`; `None` where chrono has no such instant.
pub uninterp spec fn minute_text(seconds: i64, nanoseconds: u32) -> Option<Seq<char>>;

/// chrono's `DateTime::from_timestamp` and `format`, by the pattern `%Y-%m-%d %H:%MZ`.
#[verifier::external_body]
pub(crate) fn format_minute(seconds: i64, nanoseconds: u32) -> (text: Option<String>)
    ensures
        match minute_text(seconds, nanoseconds) {
            Some(expected) => text is Some && text->0@ == expected,
            None => text is None,
        },
{
    let instant = DateTime::<Utc>::from_timestamp(seconds, nanoseconds)?;
    Some(instant.format("%Y-%m-%d %H:%MZ").to_string())
}

/// The text that chrono's `DateTime::to_rfc3339` writes for an instant in UTC, with a numeric
/// offset; `None` where chrono has no such instant.
pub uninterp spec fn offset_text(seconds: i64, nanoseconds: u32) -> Option<Seq<char>>;

/// chrono's `DateTime::from_timestamp` and `to_rfc3339`.
#[verifier::external_body]
pub(crate) fn format_with_offset(seconds: i64, nanoseconds: u32) -> (text: Option<String>)
    ensures
        match offset_text(seconds, nanoseconds) {
            Some(expected) => text is Some && text->0@ == expected,
            None => text is None,
        },
{
    let instant = DateTime::<Utc>::from_timestamp(seconds, nanoseconds)?;
    Some(instant.to_rfc3339())
}

} // verus!
