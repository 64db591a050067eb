//! Working-style fit across the six questionnaire axes. Each axis has an
//! ideal distance between the two founders, which is not the same thing as
//! being alike.
use vstd::prelude::*;
use vstd::string::*;

use crate::assessment::TraitScores;
use crate::questions::{axis_order, high_label_of, low_label_of, Axis};
use crate::scoring::profile::ScoredProfile;

verus! {

/// Points available for working-style fit, shared equally by the six axes.
pub const MAX_POINTS: u32 = 25;

/// What a healthy pair looks like on one axis.
#[derive(Debug, Clone, Copy, PartialEq, Eq, Structural)]
pub enum Ideal {
    Similar,
    MildDifference,
    Complementary,
}

/// The ideal distance, on the same 0–100 scale as the axis scores.
pub open spec fn target_of(i: Ideal) -> int {
    match i {
        Ideal::Similar => 0,
        Ideal::MildDifference => 25,
        Ideal::Complementary => 60,
    }
}

impl Ideal {
    pub fn target_distance(self) -> (r: u8)
        ensures
            r == target_of(self),
    {
        match self {
            Ideal::Similar => 0,
            Ideal::MildDifference => 25,
            Ideal::Complementary => 60,
        }
    }
}

/// What a healthy pair looks like on each axis, and why:
///
/// | axis           | ideal           | why                                       |
/// |----------------|-----------------|-------------------------------------------|
/// | risk_tolerance | similar         | divergent risk appetite breaks cofounders |
/// | pace_vs_rigor  | similar         | ship-fast and build-right partners fight  |
/// | conflict_style | similar         | mismatched styles breed resentment        |
/// | decision_basis | mild difference | instinct against evidence is productive   |
/// | work_mode      | complementary   | one goes deep, one runs relationships     |
/// | orientation    | complementary   | vision and execution is the classic pair  |
pub open spec fn ideal_of(axis: Axis) -> Ideal {
    match axis {
        Axis::RiskTolerance => Ideal::Similar,
        Axis::PaceVsRigor => Ideal::Similar,
        Axis::ConflictStyle => Ideal::Similar,
        Axis::DecisionBasis => Ideal::MildDifference,
        Axis::WorkMode => Ideal::Complementary,
        Axis::Orientation => Ideal::Complementary,
    }
}

pub fn ideal_for(axis: Axis) -> (r: Ideal)
    ensures
        r == ideal_of(axis),
{
    match axis {
        Axis::RiskTolerance => Ideal::Similar,
        Axis::PaceVsRigor => Ideal::Similar,
        Axis::ConflictStyle => Ideal::Similar,
        Axis::DecisionBasis => Ideal::MildDifference,
        Axis::WorkMode => Ideal::Complementary,
        Axis::Orientation => Ideal::Complementary,
    }
}

pub open spec fn value_spec(t: TraitScores, axis: Axis) -> i16 {
    match axis {
        Axis::RiskTolerance => t.risk_tolerance,
        Axis::PaceVsRigor => t.pace_vs_rigor,
        Axis::ConflictStyle => t.conflict_style,
        Axis::DecisionBasis => t.decision_basis,
        Axis::WorkMode => t.work_mode,
        Axis::Orientation => t.orientation,
    }
}

pub fn value_of(traits: &TraitScores, axis: Axis) -> (r: i16)
    ensures
        r == value_spec(*traits, axis),
{
    match axis {
        Axis::RiskTolerance => traits.risk_tolerance,
        Axis::PaceVsRigor => traits.pace_vs_rigor,
        Axis::ConflictStyle => traits.conflict_style,
        Axis::DecisionBasis => traits.decision_basis,
        Axis::WorkMode => traits.work_mode,
        Axis::Orientation => traits.orientation,
    }
}

pub open spec fn abs(x: int) -> int {
    if x < 0 {
        -x
    } else {
        x
    }
}

/// How far, capped at the full range of 100, the pair's distance on an axis
/// sits from that axis's ideal distance. The axis's fraction of its points is
/// `1 − miss / 100`: whole exactly on target, nothing a full range away.
pub open spec fn miss_of(v: TraitScores, c: TraitScores, axis: Axis) -> int {
    let miss = abs(abs(value_spec(v, axis) - value_spec(c, axis)) - target_of(ideal_of(axis)));
    if miss > 100 {
        100
    } else {
        miss
    }
}

pub fn axis_miss(viewer: &TraitScores, candidate: &TraitScores, axis: Axis) -> (r: u32)
    ensures
        r == miss_of(*viewer, *candidate, axis),
        r <= 100,
{
    let a = value_of(viewer, axis) as i32;
    let b = value_of(candidate, axis) as i32;
    let diff = a - b;
    let distance: i32 = if diff < 0 {
        -diff
    } else {
        diff
    };
    let off = distance - ideal_for(axis).target_distance() as i32;
    let miss: i32 = if off < 0 {
        -off
    } else {
        off
    };
    if miss > 100 {
        100
    } else {
        miss as u32
    }
}

/// The sentence for an axis: a complementary axis reads as the two ends
/// meeting; otherwise as the end the pair's midpoint leans to.
pub open spec fn explain_of(v: TraitScores, c: TraitScores, axis: Axis) -> Seq<char> {
    match ideal_of(axis) {
        Ideal::Complementary => low_label_of(axis) + " meets "@ + high_label_of(axis),
        _ => if value_spec(v, axis) + value_spec(c, axis) >= 100 {
            "Both "@ + high_label_of(axis)
        } else {
            "Both "@ + low_label_of(axis)
        },
    }
}

pub fn explain(viewer: &TraitScores, candidate: &TraitScores, axis: Axis) -> (r: String)
    ensures
        r@ == explain_of(*viewer, *candidate, axis),
{
    let a = value_of(viewer, axis) as i32;
    let b = value_of(candidate, axis) as i32;
    match ideal_for(axis) {
        Ideal::Complementary => {
            let mut s = String::from_str(axis.low_label());
            s.append(" meets ");
            s.append(axis.high_label());
            s
        },
        _ => {
            let mut s = String::from_str("Both ");
            if a + b >= 100 {
                s.append(axis.high_label());
            } else {
                s.append(axis.low_label());
            }
            s
        },
    }
}

/// The capped misses of every axis, in the questionnaire's order.
pub open spec fn misses_of(v: TraitScores, c: TraitScores) -> Seq<int> {
    axis_order().map_values(|a: Axis| miss_of(v, c, a))
}

/// The position of the first smallest miss among the first `n`.
pub open spec fn best_index(ms: Seq<int>, n: int) -> int
    decreases n,
{
    if n <= 1 {
        0
    } else {
        let b = best_index(ms, n - 1);
        if ms[n - 1] < ms[b] {
            n - 1
        } else {
            b
        }
    }
}

/// The axis that sits best, explained only when it actually sits well: a
/// card should not boast about the least bad of six poor fits.
pub open spec fn traits_reason(v: TraitScores, c: TraitScores) -> Option<Seq<char>> {
    let ms = misses_of(v, c);
    let b = best_index(ms, 6);
    if ms[b] <= 25 {
        Some(explain_of(v, c, axis_order()[b]))
    } else {
        None
    }
}

/// Working-style fit: the capped miss of each axis, in the questionnaire's
/// order, and the sentence for the best-sitting axis.
#[derive(Debug)]
pub struct TraitsFit {
    pub misses: Vec<u32>,
    pub reason: Option<String>,
}

pub fn score_traits(viewer: &ScoredProfile, candidate: &ScoredProfile) -> (f: TraitsFit)
    ensures
        f.misses@.len() == 6,
        forall|i: int| 0 <= i < 6 ==> f.misses@[i] == misses_of(viewer.traits, candidate.traits)[i],
        crate::scoring::roles::opt_text(f.reason) == traits_reason(viewer.traits, candidate.traits),
{
    let ghost ms = misses_of(viewer.traits, candidate.traits);
    let axes = Axis::all();
    let mut misses: Vec<u32> = Vec::new();
    let mut best: usize = 0;
    let mut i: usize = 0;
    while i < 6
        invariant
            i <= 6,
            axes@ == axis_order(),
            ms == misses_of(viewer.traits, candidate.traits),
            misses@.len() == i,
            forall|k: int| 0 <= k < i ==> misses@[k] == ms[k],
            i > 0 ==> best == best_index(ms, i as int),
            i > 0 ==> best < i,
            i == 0 ==> best == 0,
        decreases 6 - i,
    {
        let m = axis_miss(&viewer.traits, &candidate.traits, axes[i]);
        assert(m == ms[i as int]);
        proof {
            if i > 0 {
                assert(best_index(ms, i + 1) == (if ms[i as int] < ms[best as int] { i as int } else { best as int }));
            }
        }
        if i == 0 || m < misses[best] {
            best = i;
        }
        misses.push(m);
        i = i + 1;
    }
    let reason = if misses[best] <= 25 {
        Some(explain(&viewer.traits, &candidate.traits, axes[best]))
    } else {
        None
    };
    TraitsFit { misses, reason }
}

/// Every axis misses its ideal by the same amount whichever of the two is the viewer.
pub proof fn lemma_misses_symmetric(v: TraitScores, c: TraitScores)
    ensures
        misses_of(v, c) == misses_of(c, v),
{
    assert(misses_of(v, c) =~= misses_of(c, v));
}

} // verus!
