//! The trusted boundary to the system clock, used to stamp new records.

use vstd::prelude::*;

verus! {

/// Relies on `std::time::SystemTime::now`, chrono's conversion from it
/// (which handles a clock before the Unix epoch without panicking) and
/// `chrono::DateTime::timestamp`: the current UTC time, in whole seconds
/// since the Unix epoch. A clock reading depends on the machine and the
/// moment, so nothing is promised of it.
#[verifier::external_body]
pub(crate) fn now_timestamp() -> i64 {
    let now: chrono::DateTime<chrono::Utc> = std::time::SystemTime::now().into();
    now.timestamp()
}

/// Whether the sortable UTC text form of a timestamp parses; parsing is a
/// function of the text alone.
pub uninterp spec fn timestamp_wf(s: Seq<char>) -> bool;

/// The UTC second a well-formed timestamp text denotes.
pub uninterp spec fn timestamp_of(s: Seq<char>) -> i64;

/// Relies on `str::parse::<chrono::DateTime<chrono::Utc>>` and
/// `chrono::DateTime::timestamp`: whether the text parses, and the second it
/// denotes, depend on the text alone.
#[verifier::external_body]
pub(crate) fn parse_timestamp(s: &str) -> (r: Option<i64>)
    ensures
        r is Some <==> timestamp_wf(s@),
        (r matches Some(t) ==> t == timestamp_of(s@)),
{
    match s.parse::<chrono::DateTime<chrono::Utc>>() {
        Ok(dt) => Some(dt.timestamp()),
        Err(_) => None,
    }
}

/// Whether a `%Y-%m-%d` date text parses; parsing is a function of the text
/// alone.
pub uninterp spec fn date_wf(s: Seq<char>) -> bool;

/// Midnight UTC of a well-formed `%Y-%m-%d` date text, as a Unix second.
pub uninterp spec fn date_start_of(s: Seq<char>) -> i64;

/// Relies on `chrono::NaiveDate::parse_from_str` with the `%Y-%m-%d` format,
/// `NaiveDate::and_hms_opt` (which accepts 0:00:00 for every date),
/// `chrono::DateTime::from_naive_utc_and_offset` and
/// `chrono::DateTime::timestamp`: whether the date text parses, and the
/// second its midnight denotes, depend on the text alone.
#[verifier::external_body]
pub(crate) fn date_to_utc_start(s: &str) -> (r: Option<i64>)
    ensures
        r is Some <==> date_wf(s@),
        (r matches Some(t) ==> t == date_start_of(s@)),
{
    match chrono::NaiveDate::parse_from_str(s, "%Y-%m-%d") {
        Ok(date) => match date.and_hms_opt(0, 0, 0) {
            Some(start) => Some(
                chrono::DateTime::<chrono::Utc>::from_naive_utc_and_offset(start, chrono::Utc)
                    .timestamp(),
            ),
            None => None,
        },
        Err(_) => None,
    }
}

} // verus!
