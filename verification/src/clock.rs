//! The wall clock and the range of timestamps.

use vstd::prelude::*;

verus! {

/// Milliseconds since the Unix epoch on the system clock, read with
/// `chrono::Utc::now` and `DateTime::timestamp_millis`. Nothing is claimed
/// of the value: it differs from call to call. `chrono` gives up on a system
/// clock that is set before the epoch.
#[verifier::external_body]
pub(crate) fn now_millis() -> (res: i64) {
    chrono::Utc::now().timestamp_millis()
}

/// The first millisecond of the year -262143, the earliest year that
/// `chrono` holds, counted from the Unix epoch.
pub const TIMESTAMP_MIN: i64 = -8_334_601_228_800_000;

/// The last millisecond of the year 262142, the latest year that `chrono`
/// holds, counted from the Unix epoch.
pub const TIMESTAMP_MAX: i64 = 8_210_266_876_799_999;

/// Whether `millis` milliseconds since the Unix epoch name a moment that
/// `chrono` can hold as a UTC date and time: one from the first millisecond
/// of its earliest year to the last millisecond of its latest.
pub open spec fn is_timestamp(millis: i64) -> bool {
    TIMESTAMP_MIN <= millis <= TIMESTAMP_MAX
}

/// Whether `chrono::DateTime::from_timestamp_millis` makes a date and time
/// of `millis`. The function turns the number into a day and a time of day
/// and gives nothing where the day lies outside the years that a date can
/// hold, -262143 to 262142; the contract states that range in
/// milliseconds.
#[verifier::external_body]
pub(crate) fn timestamp_exists(millis: i64) -> (res: bool)
    ensures
        res == is_timestamp(millis),
{
    chrono::DateTime::from_timestamp_millis(millis).is_some()
}

/// The text that `chrono` writes for the UTC date and time at `millis`
/// milliseconds since the Unix epoch.
pub uninterp spec fn utc_text(millis: i64) -> Seq<char>;

/// The text of the moment that `chrono::DateTime::from_timestamp_millis`
/// makes of `millis`, as the `Display` of `chrono::DateTime` writes it in
/// UTC. The text depends on the argument alone; the contract names it. The
/// precondition leaves out the numbers of which no moment is made.
#[verifier::external_body]
pub(crate) fn timestamp_text(millis: i64) -> (res: String)
    requires
        is_timestamp(millis),
    ensures
        res@ == utc_text(millis),
{
    chrono::DateTime::from_timestamp_millis(millis).map(|moment| moment.to_string()).unwrap_or_default()
}

} // verus!
