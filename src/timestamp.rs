//! Calendar stamps of Unix times, in UTC.
use vstd::prelude::*;

verus! {

/// The last second of the year 9999, in Unix seconds.
pub const LAST_SECOND_OF_9999: i64 = 253402300799;

/// `YYYYMMDD` of the Unix second `secs` in UTC, where it has a calendar date.
pub uninterp spec fn utc_date_of(secs: int) -> Option<Seq<char>>;

/// `YYYYMMDDTHHMMSSZ` of the Unix second `secs` in UTC, where it has a calendar date.
pub uninterp spec fn utc_date_time_of(secs: int) -> Option<Seq<char>>;

/// Relies on chrono's `DateTime::from_timestamp` and `format("%Y%m%d")`: the UTC date of
/// a Unix second; every second from the epoch to the end of the year 9999 has one.
#[verifier::external_body]
pub(crate) fn utc_date(secs: i64) -> (r: Option<String>)
    ensures
        r is Some <==> utc_date_of(secs as int) is Some,
        r matches Some(s) ==> s@ == utc_date_of(secs as int)->0,
        0 <= secs <= LAST_SECOND_OF_9999 ==> r is Some,
{
    chrono::DateTime::from_timestamp(secs, 0).map(|d| d.format("%Y%m%d").to_string())
}

/// Relies on chrono's `DateTime::from_timestamp` and `format("%Y%m%dT%H%M%SZ")`: the UTC
/// date and time of a Unix second; every second from the epoch to the end of the year 9999
/// has one.
#[verifier::external_body]
pub(crate) fn utc_date_time(secs: i64) -> (r: Option<String>)
    ensures
        r is Some <==> utc_date_time_of(secs as int) is Some,
        r matches Some(s) ==> s@ == utc_date_time_of(secs as int)->0,
        0 <= secs <= LAST_SECOND_OF_9999 ==> r is Some,
{
    chrono::DateTime::from_timestamp(secs, 0).map(|d| d.format("%Y%m%dT%H%M%SZ").to_string())
}

} // verus!
