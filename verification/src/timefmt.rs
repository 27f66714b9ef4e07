//! Instants and their textual forms.
//!
//! Timestamps are milliseconds since the Unix epoch, UTC. The calendar
//! renderings — the hourly bucket, the day label, and the RFC 3339 form —
//! come from the chrono crate through trusted wrappers; each rendering
//! depends on the instant alone, so it is named by an uninterpreted
//! function the contracts share.

use vstd::prelude::*;

verus! {

/// The last instant the calendar renderings accept: the end of year 9999,
/// keeping the year at four digits.
pub const MAX_FORMAT_MS: u64 = 253_402_300_799_999;

/// The YYYYMMDDHH hour bucket of an instant.
pub uninterp spec fn hour_bucket_of(ms: u64) -> Seq<char>;

/// The YYYY-MM-DD day label of an instant.
pub uninterp spec fn day_label_of(ms: u64) -> Seq<char>;

/// The RFC 3339 rendering of an instant.
pub uninterp spec fn rfc3339_of(ms: u64) -> Seq<char>;

/// Relies on chrono's `DateTime::from_timestamp_millis` and `format` with
/// `%Y%m%d%H`: the hourly bucket of a UTC instant, ten characters for a
/// four-digit year; the result depends on the instant alone.
#[verifier::external_body]
pub fn format_hour_bucket(ms: u64) -> (r: String)
    requires
        ms <= MAX_FORMAT_MS,
    ensures
        r@ == hour_bucket_of(ms),
        r@.len() == 10,
{
    match chrono::DateTime::<chrono::Utc>::from_timestamp_millis(ms as i64) {
        Some(d) => d.format("%Y%m%d%H").to_string(),
        None => String::new(),
    }
}

/// Relies on chrono's `DateTime::from_timestamp_millis` and `format` with
/// `%Y-%m-%d`: the day label of a UTC instant, ten characters for a
/// four-digit year; the result depends on the instant alone.
#[verifier::external_body]
pub fn format_day_label(ms: u64) -> (r: String)
    requires
        ms <= MAX_FORMAT_MS,
    ensures
        r@ == day_label_of(ms),
        r@.len() == 10,
{
    match chrono::DateTime::<chrono::Utc>::from_timestamp_millis(ms as i64) {
        Some(d) => d.format("%Y-%m-%d").to_string(),
        None => String::new(),
    }
}

/// Relies on chrono's `DateTime::from_timestamp_millis` and `to_rfc3339`:
/// the RFC 3339 rendering of a UTC instant, never empty; the result
/// depends on the instant alone.
#[verifier::external_body]
pub fn format_rfc3339(ms: u64) -> (r: String)
    requires
        ms <= MAX_FORMAT_MS,
    ensures
        r@ == rfc3339_of(ms),
        r@.len() > 0,
{
    match chrono::DateTime::<chrono::Utc>::from_timestamp_millis(ms as i64) {
        Some(d) => d.to_rfc3339(),
        None => String::new(),
    }
}

/// Relies on std's `SystemTime::now` and `duration_since(UNIX_EPOCH)`:
/// milliseconds since the Unix epoch, or 0 when the machine clock reads
/// before the epoch (the error arm of `duration_since`; the clock is never
/// trusted to panic-free arithmetic elsewhere). Nothing more can be
/// promised of a clock reading.
#[verifier::external_body]
fn now_millis_raw() -> (r: u64) {
    match std::time::SystemTime::now().duration_since(std::time::UNIX_EPOCH) {
        Ok(d) => d.as_millis() as u64,
        Err(_) => 0,
    }
}

/// The current UTC instant in milliseconds, clamped to the representable
/// range: an instant beyond year 9999 is pinned to the bound, so the
/// result always formats.
pub fn current_time_millis() -> (r: u64)
    ensures
        r <= MAX_FORMAT_MS,
{
    let raw = now_millis_raw();
    if raw > MAX_FORMAT_MS {
        MAX_FORMAT_MS
    } else {
        raw
    }
}

/// The hour index of an instant: one bucket per hour.
pub open spec fn spec_hour_index(ms: u64) -> int {
    ms as int / 3_600_000
}

/// The canonical first instant of an instant's hour; two instants of the
/// same hour share it, so they share a bucket label.
pub fn hour_start(ms: u64) -> (r: u64)
    ensures
        r == spec_hour_index(ms) * 3_600_000,
        r <= ms,
{
    (ms / 3_600_000) * 3_600_000
}

/// The hour of day, 0 to 23, of an instant.
pub open spec fn spec_hour_of_day(ms: u64) -> int {
    (ms as int / 3_600_000) % 24
}

pub fn hour_of_day(ms: u64) -> (r: u32)
    ensures
        r == spec_hour_of_day(ms),
        r < 24,
{
    ((ms / 3_600_000) % 24) as u32
}

} // verus!
