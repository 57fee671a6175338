//! The trusted boundary to the system clock and the local time zone.
//!
//! Everything the rest of the crate learns about wall-clock time comes
//! through the functions here; each one wraps a single chrono call and
//! exposes only plain values.  Nothing is promised about the current
//! time itself, only the ranges that chrono documents for calendar
//! fields.

use vstd::prelude::*;

verus! {

/// Relies on chrono's `Utc::now` and `DateTime::timestamp`: the current
/// time as whole seconds since the Unix epoch.  Nothing can be promised
/// about the value.
#[verifier::external_body]
pub fn now_utc_seconds() -> i64 {
    chrono::Utc::now().timestamp()
}

/// Relies on chrono's `Utc::now` and `DateTime::to_rfc3339`: the current
/// time rendered as an RFC 3339 string, which always holds at least a
/// full date and time.
#[verifier::external_body]
pub fn now_utc_rfc3339() -> (r: String)
    ensures
        r@.len() >= 19,
{
    chrono::Utc::now().to_rfc3339()
}

/// Relies on chrono's `Local::now` and the `Datelike` accessors: today's
/// calendar date in the machine's local time zone, as (year, month, day).
/// chrono documents `month` as 1 to 12 and `day` as 1 to 31.
#[verifier::external_body]
pub fn today_local_civil() -> (r: (i64, u32, u32))
    ensures
        1 <= r.1 <= 12,
        1 <= r.2 <= 31,
{
    let now = chrono::Local::now();
    let date = now.date_naive();
    (
        chrono::Datelike::year(&date) as i64,
        chrono::Datelike::month(&date),
        chrono::Datelike::day(&date),
    )
}

/// Relies on chrono's `DateTime::from_timestamp`, `with_timezone` and the
/// `Datelike`/`Timelike` accessors: the local-time calendar rendering of a
/// Unix timestamp, as (year, month, day, seconds past midnight).  Returns
/// `None` only when chrono cannot represent the instant.  chrono documents
/// `month` as 1 to 12, `day` as 1 to 31, and `num_seconds_from_midnight`
/// as 0 to 86399.
#[verifier::external_body]
pub fn local_civil_of_utc(t: i64) -> (r: Option<(i64, u32, u32, u32)>)
    ensures
        r matches Some(p) ==> {
            &&& 1 <= p.1 <= 12
            &&& 1 <= p.2 <= 31
            &&& p.3 < 86400
        },
{
    chrono::DateTime::<chrono::Utc>::from_timestamp(t, 0).map(|u| {
        let l = u.with_timezone(&chrono::Local);
        (
            chrono::Datelike::year(&l) as i64,
            chrono::Datelike::month(&l),
            chrono::Datelike::day(&l),
            chrono::Timelike::num_seconds_from_midnight(&l),
        )
    })
}

} // verus!
