//! Wall-clock readings. Every result depends on the moment of the call, so
//! the contracts state only what holds of every outcome.

use vstd::prelude::*;

verus! {

/// Relies on `chrono::Utc::now` and `DateTime::to_rfc3339`: the current UTC
/// instant written as an RFC 3339 timestamp.
#[verifier::external_body]
pub fn now_rfc3339() -> (r: String) {
    chrono::Utc::now().to_rfc3339()
}

/// Relies on `chrono::Utc::now`, `Weekday::num_days_from_monday` and
/// `Timelike::hour`: the current UTC weekday (0 = Monday .. 6 = Sunday) and
/// hour of day (0..24).
#[verifier::external_body]
pub fn utc_weekday_hour() -> (r: (u8, u8))
    ensures
        r.0 < 7,
        r.1 < 24,
{
    let now = chrono::Utc::now();
    let weekday = chrono::Datelike::weekday(&now).num_days_from_monday() as u8;
    let hour = chrono::Timelike::hour(&now) as u8;
    (weekday, hour)
}

} // verus!
