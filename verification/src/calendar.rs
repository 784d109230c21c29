//! Calendar arithmetic from the `chrono` crate, on timestamps held as seconds and nanoseconds.
use vstd::prelude::*;
use chrono::{DateTime, Datelike, NaiveDate, NaiveDateTime, TimeZone, Utc};
use crate::event::Timestamp;

verus! {

/// The UTC calendar year of a point in time (`Utc.timestamp_opt(..).single()` then
/// `Datelike::year`), `None` when chrono cannot represent the point.
pub uninterp spec fn spec_utc_year(secs: i64, nanos: u32) -> Option<i32>;

/// `NaiveDateTime::parse_from_str(text, format)` read as UTC, as seconds and nanoseconds
/// since the epoch; `None` when the text does not match the format.
pub uninterp spec fn spec_parse_utc(text: Seq<char>, format: Seq<char>) -> Option<(i64, u32)>;

/// `chrono::Utc.timestamp_opt(secs, nanos).single()` and `Datelike::year`: the calendar year
/// of the point in UTC. The contract names the result; it does not state the calendar.
#[verifier::external_body]
pub(crate) fn utc_year(t: Timestamp) -> (r: Option<i32>)
    ensures
        r == spec_utc_year(t.secs, t.nanos),
{
    Utc.timestamp_opt(t.secs, t.nanos).single().map(|d| d.year())
}

/// `chrono::NaiveDateTime::parse_from_str(text, format)`, placed in UTC with
/// `Utc.from_local_datetime(..).single()`: the point it names, or `None` when the text does
/// not follow the format. The contract names the result; it does not restate chrono's
/// format language.
#[verifier::external_body]
pub(crate) fn parse_utc(text: &str, format: &str) -> (r: Option<Timestamp>)
    ensures
        r matches Some(t) ==> spec_parse_utc(text@, format@) == Some((t.secs, t.nanos)),
        r is None ==> spec_parse_utc(text@, format@) is None,
{
    match NaiveDateTime::parse_from_str(text, format) {
        Ok(naive) => Utc.from_local_datetime(&naive).single().map(|d| Timestamp {
            secs: d.timestamp(),
            nanos: d.timestamp_subsec_nanos(),
        }),
        Err(_) => None,
    }
}

} // verus!

verus! {

/// The UTC calendar date (year, month, day) of a point in time
/// (`Utc.timestamp_opt(..).single()` then `date_naive`), `None` when chrono cannot represent
/// the point.
pub uninterp spec fn spec_utc_date(secs: i64, nanos: u32) -> Option<(i32, u32, u32)>;

/// `chrono::Utc.timestamp_opt(secs, nanos).single()` and `DateTime::date_naive`: the UTC
/// calendar date of the point. The contract names the result; it does not state the calendar.
#[verifier::external_body]
pub(crate) fn utc_date(t: Timestamp) -> (r: Option<(i32, u32, u32)>)
    ensures
        r == spec_utc_date(t.secs, t.nanos),
{
    Utc.timestamp_opt(t.secs, t.nanos).single().map(|d| {
        let date = d.date_naive();
        (date.year(), date.month(), date.day())
    })
}

} // verus!

verus! {

/// `chrono::Utc.timestamp_opt(secs, nanos).single()` formatted with `%Y%m%d-%H%M%S%.6f`:
/// the compact stamp archive files are named by.
pub uninterp spec fn spec_utc_stamp_text(secs: i64, nanos: u32) -> Option<Seq<char>>;


/// `Utc.timestamp_opt(..).single()` and `DateTime::format("%Y%m%d-%H%M%S%.6f")`: the point as
/// year, month, day, `-`, hour, minute, second and six digits of the fraction, or `None`
/// when chrono cannot represent it. The contract names the text; it does not restate
/// chrono's formatting.
#[verifier::external_body]
pub(crate) fn utc_stamp_text(t: Timestamp) -> (r: Option<String>)
    ensures
        r matches Some(s) ==> spec_utc_stamp_text(t.secs, t.nanos) == Some(s@),
        r is None ==> spec_utc_stamp_text(t.secs, t.nanos) is None,
{
    Utc.timestamp_opt(t.secs, t.nanos).single().map(|d| d.format("%Y%m%d-%H%M%S%.6f").to_string())
}

/// `chrono::Utc.timestamp_opt(secs, nanos).single()` formatted with `%Y-%m-%dT%H:%M:%SZ`.
pub uninterp spec fn spec_utc_minute_key_text(secs: i64, nanos: u32) -> Option<Seq<char>>;

/// `Utc.timestamp_opt(..).single()` and `DateTime::format("%Y-%m-%dT%H:%M:%SZ")`: the point to
/// the second in UTC with a `T` and a `Z`, or `None` when chrono cannot represent it. The
/// contract names the text.
#[verifier::external_body]
pub(crate) fn utc_minute_key_text(t: Timestamp) -> (r: Option<String>)
    ensures
        r matches Some(s) ==> spec_utc_minute_key_text(t.secs, t.nanos) == Some(s@),
        r is None ==> spec_utc_minute_key_text(t.secs, t.nanos) is None,
{
    Utc.timestamp_opt(t.secs, t.nanos).single().map(|d| d.format("%Y-%m-%dT%H:%M:%SZ").to_string())
}

/// `chrono::Utc.timestamp_opt(secs, nanos).single()` formatted with `%Y-%m-%d %H:%M:%S`.
pub uninterp spec fn spec_utc_second_text(secs: i64, nanos: u32) -> Option<Seq<char>>;

/// `Utc.timestamp_opt(..).single()` and `DateTime::format("%Y-%m-%d %H:%M:%S")`: the point to
/// the second in UTC, or `None` when chrono cannot represent it. The contract names the text.
#[verifier::external_body]
pub(crate) fn utc_second_text(t: Timestamp) -> (r: Option<String>)
    ensures
        r matches Some(s) ==> spec_utc_second_text(t.secs, t.nanos) == Some(s@),
        r is None ==> spec_utc_second_text(t.secs, t.nanos) is None,
{
    Utc.timestamp_opt(t.secs, t.nanos).single().map(|d| d.format("%Y-%m-%d %H:%M:%S").to_string())
}


} // verus!

verus! {

/// `DateTime::parse_from_rfc3339(text)` moved to UTC, as seconds and nanoseconds.
pub uninterp spec fn spec_parse_rfc3339(text: Seq<char>) -> Option<(i64, u32)>;

/// `NaiveDate::parse_from_str(text, format)` at midnight UTC, as seconds and nanoseconds.
pub uninterp spec fn spec_parse_date_midnight(text: Seq<char>, format: Seq<char>) -> Option<(i64, u32)>;

/// `chrono::DateTime::parse_from_rfc3339` and `with_timezone(&Utc)`: the point an RFC 3339
/// text names, or `None` when it is not RFC 3339. The contract names the result.
#[verifier::external_body]
pub(crate) fn parse_rfc3339(text: &str) -> (r: Option<Timestamp>)
    ensures
        r matches Some(t) ==> spec_parse_rfc3339(text@) == Some((t.secs, t.nanos)),
        r is None ==> spec_parse_rfc3339(text@) is None,
{
    DateTime::parse_from_rfc3339(text).ok().map(|d| {
        let d = d.with_timezone(&Utc);
        Timestamp { secs: d.timestamp(), nanos: d.timestamp_subsec_nanos() }
    })
}

/// `chrono::NaiveDate::parse_from_str(text, format)`, taken at 00:00:00 UTC: the start of the
/// day the text names, or `None` when it does not follow the format. The contract names the
/// result.
#[verifier::external_body]
pub(crate) fn parse_date_midnight(text: &str, format: &str) -> (r: Option<Timestamp>)
    ensures
        r matches Some(t) ==> spec_parse_date_midnight(text@, format@) == Some((t.secs, t.nanos)),
        r is None ==> spec_parse_date_midnight(text@, format@) is None,
{
    NaiveDate::parse_from_str(text, format).ok().and_then(|d| d.and_hms_opt(0, 0, 0)).map(|d| {
        let d = d.and_utc();
        Timestamp { secs: d.timestamp(), nanos: d.timestamp_subsec_nanos() }
    })
}

} // verus!

verus! {

/// `chrono::Utc.timestamp_opt(secs, nanos).single()` as `DateTime::to_rfc3339`.
pub uninterp spec fn spec_rfc3339_text(secs: i64, nanos: u32) -> Option<Seq<char>>;

/// `Utc.timestamp_opt(..).single()` and `DateTime::to_rfc3339`: the point in RFC 3339, or
/// `None` when chrono cannot represent it. The contract names the text.
#[verifier::external_body]
pub(crate) fn rfc3339_text(t: Timestamp) -> (r: Option<String>)
    ensures
        r matches Some(s) ==> spec_rfc3339_text(t.secs, t.nanos) == Some(s@),
        r is None ==> spec_rfc3339_text(t.secs, t.nanos) is None,
{
    Utc.timestamp_opt(t.secs, t.nanos).single().map(|d| d.to_rfc3339())
}

} // verus!

verus! {

/// `chrono::Utc.timestamp_opt(secs, nanos).single()` formatted with `%Y%m%d%H%M%S%.6f`.
pub uninterp spec fn spec_utc_compact_text(secs: i64, nanos: u32) -> Option<Seq<char>>;

/// `Utc.timestamp_opt(..).single()` and `DateTime::format("%Y%m%d%H%M%S%.6f")`: the point as
/// digits with six digits of the fraction, or `None` when chrono cannot represent it. The
/// contract names the text.
#[verifier::external_body]
pub(crate) fn utc_compact_text(t: Timestamp) -> (r: Option<String>)
    ensures
        r matches Some(s) ==> spec_utc_compact_text(t.secs, t.nanos) == Some(s@),
        r is None ==> spec_utc_compact_text(t.secs, t.nanos) is None,
{
    Utc.timestamp_opt(t.secs, t.nanos).single().map(|d| d.format("%Y%m%d%H%M%S%.6f").to_string())
}

} // verus!
