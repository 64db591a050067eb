//! Geography fit: the same metro area scores full; otherwise working hours
//! that overlap score part.
use vstd::prelude::*;
use vstd::string::*;

use crate::scoring::profile::ScoredProfile;
use crate::scoring::roles::opt_text;
use crate::text::{decimal, decimal_text, lowercase, trim, trimmed, unicode_lowercase};

verus! {

/// Points for the same metro area.
pub const MAX_POINTS: u8 = 10;
/// Points for working hours that overlap.
pub const PARTIAL_POINTS: u8 = 5;
/// Three hours either side, in minutes. Beyond this a working day does not
/// meaningfully overlap.
pub const MAX_PARTIAL_OFFSET_MINUTES: i16 = 180;

/// A place name as compared: trimmed and lower-cased.
pub open spec fn normalized(s: Seq<char>) -> Seq<char> {
    unicode_lowercase(trimmed(s))
}

pub fn normalize(value: &str) -> (r: String)
    ensures
        r@ == normalized(value@),
        r@.len() == 0 <==> trimmed(value@).len() == 0,
{
    let t = trim(value);
    lowercase(t.as_str())
}

/// Blank counts as unknown, never as a match: otherwise every profile that
/// skipped the location fields shares a city with every other one.
pub open spec fn same_metro_of(v: ScoredProfile, c: ScoredProfile) -> bool {
    &&& normalized(v.city@).len() != 0
    &&& normalized(v.country@).len() != 0
    &&& normalized(v.city@) == normalized(c.city@)
    &&& normalized(v.country@) == normalized(c.country@)
}

/// Either side's city or country blank (empty once trimmed) is never the
/// same metro area.
pub open spec fn has_blank_place(v: ScoredProfile, c: ScoredProfile) -> bool {
    trimmed(v.city@).len() == 0 || trimmed(c.city@).len() == 0 || trimmed(v.country@).len() == 0
        || trimmed(c.country@).len() == 0
}

pub fn same_metro(viewer: &ScoredProfile, candidate: &ScoredProfile) -> (r: bool)
    ensures
        r == same_metro_of(*viewer, *candidate),
        has_blank_place(*viewer, *candidate) ==> !r,
{
    let city = normalize(viewer.city.as_str());
    let country = normalize(viewer.country.as_str());
    if city.as_str().is_empty() || country.as_str().is_empty() {
        return false;
    }
    let their_city = normalize(candidate.city.as_str());
    let their_country = normalize(candidate.country.as_str());
    if their_city.as_str().is_empty() || their_country.as_str().is_empty() {
        return false;
    }
    city == their_city && country == their_country
}

/// Minutes between two known UTC offsets.
pub open spec fn offset_gap(v: ScoredProfile, c: ScoredProfile) -> Option<int> {
    match (v.utc_offset_minutes, c.utc_offset_minutes) {
        (Some(a), Some(b)) => Some(if a >= b {
            a - b
        } else {
            b - a
        }),
        _ => None,
    }
}

/// The points geography is worth for a pair.
pub open spec fn geography_points(v: ScoredProfile, c: ScoredProfile) -> int {
    if same_metro_of(v, c) {
        MAX_POINTS as int
    } else {
        match offset_gap(v, c) {
            Some(apart) => if apart <= MAX_PARTIAL_OFFSET_MINUTES {
                PARTIAL_POINTS as int
            } else {
                0
            },
            None => 0,
        }
    }
}

/// The sentence for partial geography fit, from the gap rounded to whole hours.
pub open spec fn hours_reason(apart: int) -> Seq<char> {
    let hours = (apart + 30) / 60;
    if hours == 0 {
        "In the same timezone as you"@
    } else {
        "Within "@ + decimal(hours as nat) + " hour"@ + (if hours == 1 {
            ""@
        } else {
            "s"@
        }) + " of you"@
    }
}

pub open spec fn geography_reason(v: ScoredProfile, c: ScoredProfile) -> Option<Seq<char>> {
    if same_metro_of(v, c) {
        Some("Both in "@ + trimmed(v.city@))
    } else {
        match offset_gap(v, c) {
            Some(apart) => if apart <= MAX_PARTIAL_OFFSET_MINUTES {
                Some(hours_reason(apart))
            } else {
                None
            },
            None => None,
        }
    }
}

/// Geography fit: its points (whole numbers here, so exact) and the sentence.
#[derive(Debug)]
pub struct GeographyFit {
    pub points: u8,
    pub reason: Option<String>,
}

pub fn score_geography(viewer: &ScoredProfile, candidate: &ScoredProfile) -> (f: GeographyFit)
    ensures
        f.points == geography_points(*viewer, *candidate),
        has_blank_place(*viewer, *candidate) ==> !same_metro_of(*viewer, *candidate) && f.points
            != MAX_POINTS,
        opt_text(f.reason) == geography_reason(*viewer, *candidate),
{
    if same_metro(viewer, candidate) {
        let city = trim(viewer.city.as_str());
        let mut s = String::from_str("Both in ");
        s.append(city.as_str());
        return GeographyFit { points: MAX_POINTS, reason: Some(s) };
    }
    let (mine, theirs) = match (viewer.utc_offset_minutes, candidate.utc_offset_minutes) {
        (Some(a), Some(b)) => (a as i32, b as i32),
        _ => {
            return GeographyFit { points: 0, reason: None };
        },
    };
    let apart: i32 = if mine >= theirs {
        mine - theirs
    } else {
        theirs - mine
    };
    if apart > MAX_PARTIAL_OFFSET_MINUTES as i32 {
        return GeographyFit { points: 0, reason: None };
    }
    // The gap in hours, rounded half away from zero; the gap is never negative.
    let hours = (apart + 30) / 60;
    let reason = if hours == 0 {
        String::from_str("In the same timezone as you")
    } else {
        let mut s = String::from_str("Within ");
        let n = decimal_text(hours as u64);
        s.append(n.as_str());
        s.append(" hour");
        if hours != 1 {
            s.append("s");
        }
        s.append(" of you");
        proof {
            reveal_strlit("");
        }
        assert(s@ == hours_reason(apart as int));
        s
    };
    GeographyFit { points: PARTIAL_POINTS, reason: Some(reason) }
}

/// Geography is worth the same whichever of the two is the viewer.
pub proof fn lemma_geography_symmetric(v: ScoredProfile, c: ScoredProfile)
    ensures
        same_metro_of(v, c) == same_metro_of(c, v),
        geography_points(v, c) == geography_points(c, v),
{
}

/// Blank counts as unknown, never as a match: a pair where either side's
/// city or country is blank is never in the same metro area.
pub proof fn lemma_blank_place_never_matches(v: ScoredProfile, c: ScoredProfile)
    requires
        normalized(v.city@).len() == 0 || normalized(c.city@).len() == 0 || normalized(
            v.country@,
        ).len() == 0 || normalized(c.country@).len() == 0,
    ensures
        !same_metro_of(v, c),
{
}

} // verus!
