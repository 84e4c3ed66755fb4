//! Time as the library sees it: instants and spans are `i64` milliseconds
//! (instants count from the Unix epoch).
use vstd::prelude::*;

verus! {

/// One second in milliseconds.
pub const SECOND_MS: i64 = 1000;
/// One minute in milliseconds.
pub const MINUTE_MS: i64 = 60000;
/// One hour in milliseconds.
pub const HOUR_MS: i64 = 3600000;

/// The earliest instant a `chrono` date-time can hold (-262143-01-01T00:00:00 UTC).
pub const DATETIME_MIN_MS: i64 = -8334601228800000;
/// The latest instant a `chrono` date-time can hold, to the millisecond
/// (+262142-12-31T23:59:59.999 UTC).
pub const DATETIME_MAX_MS: i64 = 8210266876799999;

/// `t` is an instant that a `chrono` date-time can hold; adding a span to a
/// date-time panics in `chrono` when the sum leaves this range.
pub open spec fn in_datetime_range(t: int) -> bool {
    DATETIME_MIN_MS <= t <= DATETIME_MAX_MS
}

/// `t` is what `chrono`'s `timestamp_millis` can give: an instant a
/// date-time can hold, or up to a second more when the date-time carries a
/// leap second (second 60) at the very end of the range.
pub open spec fn in_instant_reading_range(t: int) -> bool {
    DATETIME_MIN_MS <= t <= DATETIME_MAX_MS + 1000
}

/// The current wall-clock time, read through `chrono::Local::now`, in
/// milliseconds since the Unix epoch. Only that it is an instant a `chrono`
/// date-time can hold is claimed: the value is whatever the clock says.
#[verifier::external_body]
pub(crate) fn now_millis() -> (t: i64)
    ensures
        in_datetime_range(t as int),
{
    chrono::Local::now().timestamp_millis()
}

} // verus!
