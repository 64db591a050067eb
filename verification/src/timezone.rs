//! Resolving an IANA zone name to the UTC offset that geography scoring uses.
use vstd::prelude::*;
use chrono::Offset;
use chrono::TimeZone;

use crate::text::{trim, trimmed};

verus! {

/// Offsets are resolved against the first of January rather than against
/// today. An IANA zone's offset moves with daylight saving, so resolving at
/// score time would make the same pair score differently in March than in
/// July. The cost is that southern-hemisphere zones are recorded at their
/// summer-time offset; that is a consistent hour, not a drifting one.
pub const REFERENCE_YEAR: i32 = 2024;

/// What the tz database bundled with `chrono-tz` gives as the offset, in
/// seconds east of UTC, of the zone named `name` at the start (00:00 UTC) of
/// the given day; `None` when the name is not a zone it knows or the date
/// does not exist.
pub uninterp spec fn zone_offset_seconds_on(name: Seq<char>, year: i32, month: u32, day: u32) -> Option<i32>;

/// Parses `name` as a `chrono_tz::Tz`, builds the start of the given day with
/// `chrono::Utc.with_ymd_and_hms`, and reads the zone's offset there with
/// `offset_from_utc_datetime(..).fix().local_minus_utc()`. The contract claims
/// only that the result is the named offset for these arguments: one lookup in
/// the bundled tz database, from plain values to a plain value.
#[verifier::external_body]
fn zone_offset_seconds(name: &str, year: i32, month: u32, day: u32) -> (r: Option<i32>)
    ensures
        r == zone_offset_seconds_on(name@, year, month, day),
{
    let zone: chrono_tz::Tz = name.parse().ok()?;
    let start = chrono::Utc.with_ymd_and_hms(year, month, day, 0, 0, 0).single()?;
    Some(zone.offset_from_utc_datetime(&start.naive_utc()).fix().local_minus_utc())
}

/// Whole minutes in `seconds`, rounded toward zero as integer division does.
pub open spec fn whole_minutes(seconds: int) -> int {
    if seconds >= 0 {
        seconds / 60
    } else {
        -((-seconds) / 60)
    }
}

/// The offset in minutes recorded for a zone name: `None` for a blank name,
/// an unknown zone, or an offset that does not fit an `i16`.
pub open spec fn offset_minutes_for(name: Seq<char>) -> Option<i16> {
    let t = trimmed(name);
    if t.len() == 0 {
        None
    } else {
        match zone_offset_seconds_on(t, REFERENCE_YEAR, 1, 1) {
            Some(s) => if i16::MIN <= whole_minutes(s as int) <= i16::MAX {
                Some(whole_minutes(s as int) as i16)
            } else {
                None
            },
            None => None,
        }
    }
}

pub fn utc_offset_minutes(name: &str) -> (r: Option<i16>)
    ensures
        r == offset_minutes_for(name@),
{
    let t = trim(name);
    if t.as_str().is_empty() {
        return None;
    }
    match zone_offset_seconds(t.as_str(), REFERENCE_YEAR, 1, 1) {
        Some(seconds) => {
            let s = seconds as i64;
            let minutes: i64 = if s >= 0 {
                s / 60
            } else {
                -((-s) / 60)
            };
            if i16::MIN as i64 <= minutes && minutes <= i16::MAX as i64 {
                Some(minutes as i16)
            } else {
                None
            }
        },
        None => None,
    }
}

} // verus!
