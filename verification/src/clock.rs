//! Wall-clock access and timestamp display. Each outside call stands in one
//! trusted wrapper; everything computed from what they return is verified.

use vstd::prelude::*;

use crate::model::NVTModels;
use chrono::{Datelike, TimeZone, Timelike};

verus! {

/// The text that the timestamp display produces for a given epoch second;
/// the result depends on the timestamp alone.
pub uninterp spec fn paris_timestamp_text(timestamp: i64) -> Seq<char>;

/// Relies on chrono's `Local::now` for the local civil date and time:
/// returns the date as a `YYYYMMDD` string, the weekday counted from Monday
/// as 0, and the seconds elapsed since local midnight. The weekday is below
/// 7 and the seconds below 86400, as chrono documents for `weekday`, `hour`,
/// `minute` and `second`; nothing more holds of every reading.
#[verifier::external_body]
pub fn local_day_now() -> (r: (String, u32, u32))
    ensures
        r.1 < 7,
        r.2 < 86400,
{
    let now = chrono::Local::now();
    let date = format!("{}{:02}{:02}", now.year(), now.month(), now.day());
    let weekday = now.weekday().num_days_from_monday();
    let seconds = now.hour() * 3600 + now.minute() * 60 + now.second();
    (date, weekday, seconds)
}

impl NVTModels {
    /// Relies on chrono's `Utc::now`: the current Unix timestamp in seconds.
    /// Nothing can be promised of the clock's reading.
    #[verifier::external_body]
    pub fn get_current_timestamp() -> (r: i64) {
        chrono::Utc::now().timestamp()
    }

    /// Relies on chrono and chrono-tz to render an epoch second as a
    /// `YYYY-MM-DD HH:MM:SS` string in the Paris time zone; out-of-range
    /// timestamps yield a fixed error text. The result is a function of the
    /// timestamp alone, named by [`paris_timestamp_text`].
    #[verifier::external_body]
    pub fn format_timestamp_full(timestamp: i64) -> (r: String)
        ensures
            r@ == paris_timestamp_text(timestamp),
    {
        match chrono::Utc.timestamp_opt(timestamp, 0).single() {
            Some(dt) => dt.with_timezone(&chrono_tz::Europe::Paris).format(
                "%Y-%m-%d %H:%M:%S",
            ).to_string(),
            None => format!("Invalid timestamp: {}", timestamp),
        }
    }
}

/// The current Unix time clamped to the epoch, as the cache stamps use it.
pub fn current_unix_seconds() -> (r: u64) {
    let t = NVTModels::get_current_timestamp();
    if t < 0 {
        0u64
    } else {
        t as u64
    }
}

} // verus!
