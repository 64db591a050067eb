//! Situation fit: how close two founders are on the commitment and stage
//! ladders. Commitment carries most of the weight; stage proximity
//! contributes a smaller share.
use vstd::prelude::*;
use vstd::string::*;

use crate::profiles::opt_view;
use crate::scoring::profile::ScoredProfile;
use crate::scoring::roles::opt_text;
use crate::vocab::{
    choices_view, commitments, commitments_table, label, label_of, position, position_of, stages,
    stages_table, Choice,
};

verus! {

/// Points available for situation fit.
pub const MAX_POINTS: u32 = 20;
/// The share of `MAX_POINTS` that commitment carries.
pub const COMMITMENT_POINTS: u32 = 14;
/// The share of `MAX_POINTS` that stage carries.
pub const STAGE_POINTS: u32 = 6;

/// The position of a chosen value on a ladder, if one is chosen and it is on the ladder.
pub open spec fn rung_of(cs: Seq<(Seq<char>, Seq<char>)>, id: Option<Seq<char>>) -> Option<int> {
    match id {
        Some(s) => position_of(cs, s),
        None => None,
    }
}

pub proof fn lemma_position_in_range(cs: Seq<(Seq<char>, Seq<char>)>, id: Seq<char>)
    ensures
        position_of(cs, id) matches Some(p) ==> 0 <= p < cs.len() && cs[p].0 == id,
    decreases cs.len(),
{
    if cs.len() > 0 && cs[0].0 != id {
        lemma_position_in_range(cs.drop_first(), id);
    }
}

/// Both vocabularies are ladders, so a position in the list is a meaningful
/// distance rather than an arbitrary index.
pub fn rung(choices: &[Choice], id: &Option<String>) -> (r: Option<usize>)
    ensures
        match r {
            Some(p) => rung_of(choices_view(choices@), opt_view(*id)) == Some(p as int),
            None => rung_of(choices_view(choices@), opt_view(*id)) is None,
        },
{
    match id {
        Some(s) => position(choices, s.as_str()),
        None => None,
    }
}

/// How many rungs apart two positions are, when both are known.
pub open spec fn steps_between(a: Option<int>, b: Option<int>) -> Option<int> {
    match (a, b) {
        (Some(x), Some(y)) => Some(if x >= y {
            x - y
        } else {
            y - x
        }),
        _ => None,
    }
}

pub open spec fn steps_view(s: Option<usize>) -> Option<int> {
    match s {
        Some(n) => Some(n as int),
        None => None,
    }
}

/// "Both ..." when the two founders stand on the same commitment rung.
pub open spec fn situation_reason(v: ScoredProfile, c: ScoredProfile) -> Option<Seq<char>> {
    let table = commitments_table();
    match (rung_of(table, opt_view(v.commitment)), rung_of(table, opt_view(c.commitment))) {
        (Some(a), Some(b)) => if a == b {
            match label_of(table, table[a].0) {
                Some(l) => Some("Both "@ + l),
                None => None,
            }
        } else {
            None
        },
        _ => None,
    }
}

/// Situation fit: rungs apart on the commitment ladder and on the stage
/// ladder (when both founders are on it), and the sentence that explains it.
/// Identical rungs score full, adjacent most, distant near zero.
#[derive(Debug)]
pub struct SituationFit {
    pub commitment_steps: Option<usize>,
    pub stage_steps: Option<usize>,
    pub reason: Option<String>,
}

fn distance(a: usize, b: usize) -> (r: usize)
    ensures
        r == (if a >= b {
            a - b
        } else {
            b - a
        }),
{
    if a >= b {
        a - b
    } else {
        b - a
    }
}

pub fn score_situation(viewer: &ScoredProfile, candidate: &ScoredProfile) -> (f: SituationFit)
    ensures
        steps_view(f.commitment_steps) == steps_between(
            rung_of(commitments_table(), opt_view(viewer.commitment)),
            rung_of(commitments_table(), opt_view(candidate.commitment)),
        ),
        steps_view(f.stage_steps) == steps_between(
            rung_of(stages_table(), opt_view(viewer.stage)),
            rung_of(stages_table(), opt_view(candidate.stage)),
        ),
        opt_text(f.reason) == situation_reason(*viewer, *candidate),
{
    let ladder = commitments();
    let mut reason: Option<String> = None;
    let mut commitment_steps: Option<usize> = None;
    match (rung(ladder.as_slice(), &viewer.commitment), rung(ladder.as_slice(), &candidate.commitment)) {
        (Some(a), Some(b)) => {
            let steps = distance(a, b);
            commitment_steps = Some(steps);
            proof {
                lemma_position_in_range(commitments_table(), opt_view(viewer.commitment)->0);
            }
            if steps == 0 {
                if let Some(l) = label(ladder.as_slice(), ladder[a].id) {
                    let mut s = String::from_str("Both ");
                    s.append(l);
                    reason = Some(s);
                }
            }
        },
        _ => {},
    }
    let stage_ladder = stages();
    let stage_steps = match (
        rung(stage_ladder.as_slice(), &viewer.stage),
        rung(stage_ladder.as_slice(), &candidate.stage),
    ) {
        (Some(a), Some(b)) => Some(distance(a, b)),
        _ => None,
    };
    SituationFit { commitment_steps, stage_steps, reason }
}

/// Two founders are as many rungs apart whichever of the two is the viewer,
/// and share the commitment sentence too.
pub proof fn lemma_situation_symmetric(v: ScoredProfile, c: ScoredProfile)
    ensures
        steps_between(rung_of(commitments_table(), opt_view(v.commitment)), rung_of(commitments_table(), opt_view(c.commitment)))
            == steps_between(rung_of(commitments_table(), opt_view(c.commitment)), rung_of(commitments_table(), opt_view(v.commitment))),
        steps_between(rung_of(stages_table(), opt_view(v.stage)), rung_of(stages_table(), opt_view(c.stage)))
            == steps_between(rung_of(stages_table(), opt_view(c.stage)), rung_of(stages_table(), opt_view(v.stage))),
        situation_reason(v, c) == situation_reason(c, v),
{
}

/// The commitment ladder is ordered by the time a founder can give: full
/// time now, full time once funded, part time, exploring, at rungs 0 to 3.
/// The stage ladder is ordered by progress: idea, prototype, users, revenue,
/// at rungs 0 to 3. So opposite ends of either ladder are three steps apart.
pub proof fn lemma_ladders_are_ordered()
    ensures
        rung_of(commitments_table(), Some("full_time_now"@)) == Some(0int),
        rung_of(commitments_table(), Some("full_time_when_funded"@)) == Some(1int),
        rung_of(commitments_table(), Some("part_time"@)) == Some(2int),
        rung_of(commitments_table(), Some("exploring"@)) == Some(3int),
        steps_between(
            rung_of(commitments_table(), Some("full_time_now"@)),
            rung_of(commitments_table(), Some("exploring"@)),
        ) == Some(3int),
        rung_of(stages_table(), Some("idea"@)) == Some(0int),
        rung_of(stages_table(), Some("prototype"@)) == Some(1int),
        rung_of(stages_table(), Some("users"@)) == Some(2int),
        rung_of(stages_table(), Some("revenue"@)) == Some(3int),
{
    reveal_strlit("full_time_now");
    reveal_strlit("full_time_when_funded");
    reveal_strlit("part_time");
    reveal_strlit("exploring");
    reveal_strlit("idea");
    reveal_strlit("prototype");
    reveal_strlit("users");
    reveal_strlit("revenue");
    let c = commitments_table();
    assert(c[0].0.len() == 13 && c[1].0.len() == 21);
    assert(c[0].0[0] == 'f' && c[1].0[0] == 'f' && c[2].0[0] == 'p' && c[3].0[0] == 'e');
    lemma_position_at(c, "full_time_now"@, 0);
    lemma_position_at(c, "full_time_when_funded"@, 1);
    lemma_position_at(c, "part_time"@, 2);
    lemma_position_at(c, "exploring"@, 3);
    let s = stages_table();
    assert(s[0].0[0] == 'i' && s[1].0[0] == 'p' && s[2].0[0] == 'u' && s[3].0[0] == 'r');
    lemma_position_at(s, "idea"@, 0);
    lemma_position_at(s, "prototype"@, 1);
    lemma_position_at(s, "users"@, 2);
    lemma_position_at(s, "revenue"@, 3);
}

proof fn lemma_position_at(cs: Seq<(Seq<char>, Seq<char>)>, id: Seq<char>, p: int)
    requires
        0 <= p < cs.len(),
        cs[p].0 == id,
        forall|k: int| 0 <= k < p ==> (#[trigger] cs[k]).0 != id,
    ensures
        position_of(cs, id) == Some(p),
    decreases p,
{
    if p > 0 {
        assert forall|k: int| 0 <= k < p - 1 implies (#[trigger] cs.drop_first()[k]).0 != id by {
            assert(cs.drop_first()[k] == cs[k + 1]);
        }
        lemma_position_at(cs.drop_first(), id, p - 1);
    }
}

} // verus!
