//! The personality questionnaire: six axes, three statements each, answered
//! on a 1–5 agreement scale. Versioned with the code rather than stored, so a
//! change to the wording is a reviewable diff and the scoring moves with it.
use vstd::prelude::*;

use crate::text::same_text;

verus! {

#[derive(Debug, Clone, Copy, PartialEq, Eq, Structural, Hash)]
pub enum Axis {
    RiskTolerance,
    PaceVsRigor,
    ConflictStyle,
    DecisionBasis,
    WorkMode,
    Orientation,
}

/// The position of an axis in the questionnaire's order.
pub open spec fn axis_index(a: Axis) -> int {
    match a {
        Axis::RiskTolerance => 0,
        Axis::PaceVsRigor => 1,
        Axis::ConflictStyle => 2,
        Axis::DecisionBasis => 3,
        Axis::WorkMode => 4,
        Axis::Orientation => 5,
    }
}

/// The axes in the questionnaire's order.
pub open spec fn axis_order() -> Seq<Axis> {
    seq![Axis::RiskTolerance, Axis::PaceVsRigor, Axis::ConflictStyle, Axis::DecisionBasis, Axis::WorkMode, Axis::Orientation]
}

/// The axis's identifier as the API spells it.
pub open spec fn slug_of(a: Axis) -> Seq<char> {
    match a {
        Axis::RiskTolerance => "risk_tolerance"@,
        Axis::PaceVsRigor => "pace_vs_rigor"@,
        Axis::ConflictStyle => "conflict_style"@,
        Axis::DecisionBasis => "decision_basis"@,
        Axis::WorkMode => "work_mode"@,
        Axis::Orientation => "orientation"@,
    }
}

/// The wording used on cards for the low end of the axis.
pub open spec fn low_label_of(a: Axis) -> Seq<char> {
    match a {
        Axis::RiskTolerance => "de-risk before committing"@,
        Axis::PaceVsRigor => "build it right"@,
        Axis::ConflictStyle => "seek harmony"@,
        Axis::DecisionBasis => "trust intuition"@,
        Axis::WorkMode => "deep solo work"@,
        Axis::Orientation => "near-term execution"@,
    }
}

/// The wording used on cards for the high end of the axis.
pub open spec fn high_label_of(a: Axis) -> Seq<char> {
    match a {
        Axis::RiskTolerance => "bet big early"@,
        Axis::PaceVsRigor => "ship it now"@,
        Axis::ConflictStyle => "address directly"@,
        Axis::DecisionBasis => "require data"@,
        Axis::WorkMode => "constant collaboration"@,
        Axis::Orientation => "long-range vision"@,
    }
}

impl Axis {
    /// Every axis, in the questionnaire's order.
    pub fn all() -> (r: Vec<Axis>)
        ensures
            r@ == axis_order(),
    {
        let mut r: Vec<Axis> = Vec::new();
        r.push(Axis::RiskTolerance);
        r.push(Axis::PaceVsRigor);
        r.push(Axis::ConflictStyle);
        r.push(Axis::DecisionBasis);
        r.push(Axis::WorkMode);
        r.push(Axis::Orientation);
        assert(r@ =~= axis_order());
        r
    }

    /// The axis's identifier as the API spells it.
    pub fn slug(self) -> (r: &'static str)
        ensures
            r@ == slug_of(self),
    {
        match self {
            Axis::RiskTolerance => "risk_tolerance",
            Axis::PaceVsRigor => "pace_vs_rigor",
            Axis::ConflictStyle => "conflict_style",
            Axis::DecisionBasis => "decision_basis",
            Axis::WorkMode => "work_mode",
            Axis::Orientation => "orientation",
        }
    }

    /// The wording used on cards for the low end. Taken from the design
    /// document's axis table so an explanation cannot describe an axis
    /// differently from the way it is scored.
    pub fn low_label(self) -> (r: &'static str)
        ensures
            r@ == low_label_of(self),
    {
        match self {
            Axis::RiskTolerance => "de-risk before committing",
            Axis::PaceVsRigor => "build it right",
            Axis::ConflictStyle => "seek harmony",
            Axis::DecisionBasis => "trust intuition",
            Axis::WorkMode => "deep solo work",
            Axis::Orientation => "near-term execution",
        }
    }

    /// The wording used on cards for the high end.
    pub fn high_label(self) -> (r: &'static str)
        ensures
            r@ == high_label_of(self),
    {
        match self {
            Axis::RiskTolerance => "bet big early",
            Axis::PaceVsRigor => "ship it now",
            Axis::ConflictStyle => "address directly",
            Axis::DecisionBasis => "require data",
            Axis::WorkMode => "constant collaboration",
            Axis::Orientation => "long-range vision",
        }
    }

}

#[derive(Debug, Clone, Copy)]
pub struct Question {
    pub id: &'static str,
    pub text: &'static str,
    pub axis: Axis,
    /// A high agreement on this item means a *low* axis score. Never sent to
    /// the client: knowing which items are flipped is enough to fake a
    /// coherent profile.
    pub reverse: bool,
}

pub const QUESTION_COUNT: usize = 18;

/// The ids of the questions, in order.
pub open spec fn question_ids() -> Seq<Seq<char>> {
    seq![
        "risk_1"@,
        "risk_2"@,
        "risk_3"@,
        "pace_1"@,
        "pace_2"@,
        "pace_3"@,
        "conflict_1"@,
        "conflict_2"@,
        "conflict_3"@,
        "decision_1"@,
        "decision_2"@,
        "decision_3"@,
        "work_1"@,
        "work_2"@,
        "work_3"@,
        "orientation_1"@,
        "orientation_2"@,
        "orientation_3"@,
    ]
}

/// The statements of the questions, in order.
pub open spec fn question_texts() -> Seq<Seq<char>> {
    seq![
        "I would rather launch an unproven idea than spend months validating it."@,
        "I need strong evidence that a market exists before I commit to building for it."@,
        "A big, uncertain outcome appeals to me more than a safe, modest one."@,
        "Shipping something rough this week beats shipping something polished next month."@,
        "I would hold a release back to fix problems most users would never notice."@,
        "I am comfortable taking on technical debt to hit a deadline."@,
        "When a teammate's work falls short, I tell them plainly and quickly."@,
        "I would rather let a small disagreement pass than risk souring the mood."@,
        "I raise disagreements in the room rather than working around them afterwards."@,
        "I want to see the numbers before I make a call."@,
        "When the evidence is ambiguous, I trust my instinct and move."@,
        "A decision with no measurable evidence behind it makes me uncomfortable."@,
        "I do my best work in long stretches of uninterrupted solo time."@,
        "I would rather think a problem through out loud with someone than alone."@,
        "A day full of conversations energizes me more than it drains me."@,
        "I spend more time on where we will be in five years than on what ships this week."@,
        "I would rather hit this quarter's targets than debate the ten-year plan."@,
        "Painting a compelling long-term picture is where I add the most value."@,
    ]
}

/// The axis each question measures, in order.
pub open spec fn question_axes() -> Seq<Axis> {
    seq![
        Axis::RiskTolerance,
        Axis::RiskTolerance,
        Axis::RiskTolerance,
        Axis::PaceVsRigor,
        Axis::PaceVsRigor,
        Axis::PaceVsRigor,
        Axis::ConflictStyle,
        Axis::ConflictStyle,
        Axis::ConflictStyle,
        Axis::DecisionBasis,
        Axis::DecisionBasis,
        Axis::DecisionBasis,
        Axis::WorkMode,
        Axis::WorkMode,
        Axis::WorkMode,
        Axis::Orientation,
        Axis::Orientation,
        Axis::Orientation,
    ]
}

/// Which questions are reverse-keyed, in order.
pub open spec fn question_reversed() -> Seq<bool> {
    seq![
        false,
        true,
        false,
        false,
        true,
        false,
        false,
        true,
        false,
        false,
        true,
        false,
        true,
        false,
        false,
        false,
        true,
        false,
    ]
}

/// Whether `q` is the questionnaire's question number `i`.
pub open spec fn is_question(q: Question, i: int) -> bool {
    &&& 0 <= i < QUESTION_COUNT
    &&& q.id@ == question_ids()[i]
    &&& q.text@ == question_texts()[i]
    &&& q.axis == question_axes()[i]
    &&& q.reverse == question_reversed()[i]
}

/// The position of the first question whose id is `id`, from position `i` on.
pub open spec fn question_position(id: Seq<char>, i: int) -> Option<int>
    decreases QUESTION_COUNT - i,
{
    if i < 0 || i >= QUESTION_COUNT {
        None
    } else if question_ids()[i] == id {
        Some(i)
    } else {
        question_position(id, i + 1)
    }
}

/// Question number `i` of the questionnaire.
pub fn question(i: usize) -> (q: Question)
    requires
        i < QUESTION_COUNT,
    ensures
        is_question(q, i as int),
{
    match i {
        0 => Question {
            id: "risk_1",
            text: "I would rather launch an unproven idea than spend months validating it.",
            axis: Axis::RiskTolerance,
            reverse: false,
        },
        1 => Question {
            id: "risk_2",
            text: "I need strong evidence that a market exists before I commit to building for it.",
            axis: Axis::RiskTolerance,
            reverse: true,
        },
        2 => Question {
            id: "risk_3",
            text: "A big, uncertain outcome appeals to me more than a safe, modest one.",
            axis: Axis::RiskTolerance,
            reverse: false,
        },
        3 => Question {
            id: "pace_1",
            text: "Shipping something rough this week beats shipping something polished next month.",
            axis: Axis::PaceVsRigor,
            reverse: false,
        },
        4 => Question {
            id: "pace_2",
            text: "I would hold a release back to fix problems most users would never notice.",
            axis: Axis::PaceVsRigor,
            reverse: true,
        },
        5 => Question {
            id: "pace_3",
            text: "I am comfortable taking on technical debt to hit a deadline.",
            axis: Axis::PaceVsRigor,
            reverse: false,
        },
        6 => Question {
            id: "conflict_1",
            text: "When a teammate's work falls short, I tell them plainly and quickly.",
            axis: Axis::ConflictStyle,
            reverse: false,
        },
        7 => Question {
            id: "conflict_2",
            text: "I would rather let a small disagreement pass than risk souring the mood.",
            axis: Axis::ConflictStyle,
            reverse: true,
        },
        8 => Question {
            id: "conflict_3",
            text: "I raise disagreements in the room rather than working around them afterwards.",
            axis: Axis::ConflictStyle,
            reverse: false,
        },
        9 => Question {
            id: "decision_1",
            text: "I want to see the numbers before I make a call.",
            axis: Axis::DecisionBasis,
            reverse: false,
        },
        10 => Question {
            id: "decision_2",
            text: "When the evidence is ambiguous, I trust my instinct and move.",
            axis: Axis::DecisionBasis,
            reverse: true,
        },
        11 => Question {
            id: "decision_3",
            text: "A decision with no measurable evidence behind it makes me uncomfortable.",
            axis: Axis::DecisionBasis,
            reverse: false,
        },
        12 => Question {
            id: "work_1",
            text: "I do my best work in long stretches of uninterrupted solo time.",
            axis: Axis::WorkMode,
            reverse: true,
        },
        13 => Question {
            id: "work_2",
            text: "I would rather think a problem through out loud with someone than alone.",
            axis: Axis::WorkMode,
            reverse: false,
        },
        14 => Question {
            id: "work_3",
            text: "A day full of conversations energizes me more than it drains me.",
            axis: Axis::WorkMode,
            reverse: false,
        },
        15 => Question {
            id: "orientation_1",
            text: "I spend more time on where we will be in five years than on what ships this week.",
            axis: Axis::Orientation,
            reverse: false,
        },
        16 => Question {
            id: "orientation_2",
            text: "I would rather hit this quarter's targets than debate the ten-year plan.",
            axis: Axis::Orientation,
            reverse: true,
        },
        _ => Question {
            id: "orientation_3",
            text: "Painting a compelling long-term picture is where I add the most value.",
            axis: Axis::Orientation,
            reverse: false,
        },
    }
}

/// The whole questionnaire, in order.
pub fn questions() -> (r: Vec<Question>)
    ensures
        r@.len() == QUESTION_COUNT,
        forall|i: int| 0 <= i < QUESTION_COUNT ==> is_question(#[trigger] r@[i], i),
{
    let mut r: Vec<Question> = Vec::new();
    let mut i: usize = 0;
    while i < QUESTION_COUNT
        invariant
            i <= QUESTION_COUNT,
            r@.len() == i,
            forall|k: int| 0 <= k < i ==> is_question(#[trigger] r@[k], k),
        decreases QUESTION_COUNT - i,
    {
        r.push(question(i));
        i = i + 1;
    }
    r
}

/// The question whose id is `id`, if there is one.
pub fn find(id: &str) -> (r: Option<Question>)
    ensures
        match r {
            Some(q) => exists|i: int| question_position(id@, 0) == Some(i) && is_question(q, i),
            None => question_position(id@, 0) is None,
        },
{
    let mut i: usize = 0;
    while i < QUESTION_COUNT
        invariant
            i <= QUESTION_COUNT,
            question_position(id@, 0) == question_position(id@, i as int),
        decreases QUESTION_COUNT - i,
    {
        let q = question(i);
        if same_text(q.id, id) {
            return Some(q);
        }
        i = i + 1;
    }
    None
}

/// The client-facing shape of a question. Note the absence of `reverse`:
/// knowing which items are flipped is enough to fake a coherent profile.
#[derive(Debug, Clone, Copy)]
pub struct PublicQuestion {
    pub id: &'static str,
    pub text: &'static str,
    pub axis: &'static str,
}

/// One point of the agreement scale and its wording.
#[derive(Debug, Clone, Copy)]
pub struct ScalePoint {
    pub value: i16,
    pub label: &'static str,
}

/// The questionnaire as served: every question without its keying, and the
/// wording of the scale, which ships with the questions so it lives in one place.
#[derive(Debug, Clone)]
pub struct QuestionnaireView {
    pub questions: Vec<PublicQuestion>,
    pub scale: Vec<ScalePoint>,
}

/// The scale's values and wording.
pub open spec fn scale_table() -> Seq<(i16, Seq<char>)> {
    seq![
        (1i16, "Strongly disagree"@),
        (2i16, "Disagree"@),
        (3i16, "Neutral"@),
        (4i16, "Agree"@),
        (5i16, "Strongly agree"@),
    ]
}

pub fn questionnaire() -> (v: QuestionnaireView)
    ensures
        v.questions@.len() == QUESTION_COUNT,
        forall|i: int|
            0 <= i < QUESTION_COUNT ==> {
                &&& (#[trigger] v.questions@[i]).id@ == question_ids()[i]
                &&& v.questions@[i].text@ == question_texts()[i]
                &&& v.questions@[i].axis@ == slug_of(question_axes()[i])
            },
        v.scale@.map_values(|p: ScalePoint| (p.value, p.label@)) == scale_table(),
{
    let mut qs: Vec<PublicQuestion> = Vec::new();
    let mut i: usize = 0;
    while i < QUESTION_COUNT
        invariant
            i <= QUESTION_COUNT,
            qs@.len() == i,
            forall|k: int|
                0 <= k < i ==> {
                    &&& (#[trigger] qs@[k]).id@ == question_ids()[k]
                    &&& qs@[k].text@ == question_texts()[k]
                    &&& qs@[k].axis@ == slug_of(question_axes()[k])
                },
        decreases QUESTION_COUNT - i,
    {
        let q = question(i);
        qs.push(PublicQuestion { id: q.id, text: q.text, axis: q.axis.slug() });
        i = i + 1;
    }
    let mut scale: Vec<ScalePoint> = Vec::new();
    scale.push(ScalePoint { value: 1, label: "Strongly disagree" });
    scale.push(ScalePoint { value: 2, label: "Disagree" });
    scale.push(ScalePoint { value: 3, label: "Neutral" });
    scale.push(ScalePoint { value: 4, label: "Agree" });
    scale.push(ScalePoint { value: 5, label: "Strongly agree" });
    assert(scale@.map_values(|p: ScalePoint| (p.value, p.label@)) =~= scale_table());
    QuestionnaireView { questions: qs, scale }
}

/// The statements that agree with an axis's low end, whose answers are
/// flipped before scoring: one per axis.
pub open spec fn reverse_keyed_ids() -> Seq<Seq<char>> {
    seq!["risk_2"@, "pace_2"@, "conflict_2"@, "decision_2"@, "work_1"@, "orientation_2"@]
}

/// No two questions share an id.
pub proof fn lemma_question_ids_distinct()
    ensures
        forall|j: int, k: int|
            0 <= j < QUESTION_COUNT && 0 <= k < QUESTION_COUNT && j != k ==> #[trigger] question_ids()[j]
                != #[trigger] question_ids()[k],
{
    let ids = question_ids();
    reveal_strlit("risk_1");
    reveal_strlit("risk_2");
    reveal_strlit("risk_3");
    reveal_strlit("pace_1");
    reveal_strlit("pace_2");
    reveal_strlit("pace_3");
    reveal_strlit("conflict_1");
    reveal_strlit("conflict_2");
    reveal_strlit("conflict_3");
    reveal_strlit("decision_1");
    reveal_strlit("decision_2");
    reveal_strlit("decision_3");
    reveal_strlit("work_1");
    reveal_strlit("work_2");
    reveal_strlit("work_3");
    reveal_strlit("orientation_1");
    reveal_strlit("orientation_2");
    reveal_strlit("orientation_3");
    assert(ids[0][0] == 'r' && ids[0].last() == '1');
    assert(ids[1][0] == 'r' && ids[1].last() == '2');
    assert(ids[2][0] == 'r' && ids[2].last() == '3');
    assert(ids[3][0] == 'p' && ids[3].last() == '1');
    assert(ids[4][0] == 'p' && ids[4].last() == '2');
    assert(ids[5][0] == 'p' && ids[5].last() == '3');
    assert(ids[6][0] == 'c' && ids[6].last() == '1');
    assert(ids[7][0] == 'c' && ids[7].last() == '2');
    assert(ids[8][0] == 'c' && ids[8].last() == '3');
    assert(ids[9][0] == 'd' && ids[9].last() == '1');
    assert(ids[10][0] == 'd' && ids[10].last() == '2');
    assert(ids[11][0] == 'd' && ids[11].last() == '3');
    assert(ids[12][0] == 'w' && ids[12].last() == '1');
    assert(ids[13][0] == 'w' && ids[13].last() == '2');
    assert(ids[14][0] == 'w' && ids[14].last() == '3');
    assert(ids[15][0] == 'o' && ids[15].last() == '1');
    assert(ids[16][0] == 'o' && ids[16].last() == '2');
    assert(ids[17][0] == 'o' && ids[17].last() == '3');
}

/// The keying of the questionnaire: a question is reverse-keyed exactly when
/// it is one of risk_2, pace_2, conflict_2, decision_2, work_1 and
/// orientation_2.
pub proof fn lemma_reverse_keying()
    ensures
        forall|k: int|
            0 <= k < QUESTION_COUNT ==> (#[trigger] question_reversed()[k]
                <==> reverse_keyed_ids().contains(question_ids()[k])),
{
    lemma_question_ids_distinct();
    let ids = question_ids();
    let r = reverse_keyed_ids();
    assert(r[0] == ids[1] && r[1] == ids[4] && r[2] == ids[7] && r[3] == ids[10] && r[4] == ids[12]
        && r[5] == ids[16]);
    assert forall|k: int| 0 <= k < QUESTION_COUNT implies (#[trigger] question_reversed()[k]
        <==> r.contains(ids[k])) by {
        if question_reversed()[k] {
            if k == 1 { assert(r[0] == ids[k]); }
            if k == 4 { assert(r[1] == ids[k]); }
            if k == 7 { assert(r[2] == ids[k]); }
            if k == 10 { assert(r[3] == ids[k]); }
            if k == 12 { assert(r[4] == ids[k]); }
            if k == 16 { assert(r[5] == ids[k]); }
        } else {
            assert forall|m: int| 0 <= m < r.len() implies r[m] != ids[k] by {}
        }
    }
}

} // verus!
