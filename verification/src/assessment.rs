//! The questionnaire's answers: checking a submitted batch, and turning a
//! complete set of answers into one 0–100 score per axis.
use vstd::prelude::*;
use vstd::hash_map::StringHashMap;
use vstd::string::*;

use crate::error::{errors_view, ApiError, FieldError};
use crate::questions::{
    axis_index, find, lemma_question_ids_distinct, lemma_reverse_keying, question, question_axes,
    question_ids, question_position, question_reversed, reverse_keyed_ids, Axis, QUESTION_COUNT,
};
use crate::text::same_text;

verus! {

broadcast use vstd::hash_map::group_hash_map_axioms;

pub const TOTAL_QUESTIONS: usize = 18;

/// One answer: a question id and a value on the 1–5 agreement scale.
#[derive(Debug, Clone, PartialEq, Eq)]
pub struct Response {
    pub question_id: String,
    pub value: i16,
}

impl View for Response {
    type V = (Seq<char>, i16);

    open spec fn view(&self) -> (Seq<char>, i16) {
        (self.question_id@, self.value)
    }
}

pub open spec fn responses_pairs(rs: Seq<Response>) -> Seq<(Seq<char>, i16)> {
    rs.map_values(|r: Response| r@)
}

/// A submitted batch of answers.
#[derive(Debug)]
pub struct ResponsesRequest {
    pub responses: Vec<Response>,
}

/// One 0–100 score per axis.
#[derive(Debug, Clone, Copy, PartialEq, Eq)]
pub struct TraitScores {
    pub risk_tolerance: i16,
    pub pace_vs_rigor: i16,
    pub conflict_style: i16,
    pub decision_basis: i16,
    pub work_mode: i16,
    pub orientation: i16,
}

/// A user's answers, by question id.
pub struct Answers {
    map: StringHashMap<i16>,
}

impl View for Answers {
    type V = Map<Seq<char>, i16>;

    closed spec fn view(&self) -> Map<Seq<char>, i16> {
        self.map@
    }
}

/// The answers a list of responses amounts to; a later response to the same
/// question replaces an earlier one.
pub open spec fn answers_of(rs: Seq<(Seq<char>, i16)>) -> Map<Seq<char>, i16>
    decreases rs.len(),
{
    if rs.len() == 0 {
        Map::empty()
    } else {
        answers_of(rs.drop_last()).insert(rs.last().0, rs.last().1)
    }
}

impl Answers {
    pub fn new() -> (r: Answers)
        ensures
            r@ == Map::<Seq<char>, i16>::empty(),
    {
        Answers { map: StringHashMap::new() }
    }

    pub fn insert(&mut self, question_id: String, value: i16)
        ensures
            final(self)@ == old(self)@.insert(question_id@, value),
    {
        self.map.insert(question_id, value);
    }

    pub fn get(&self, question_id: &str) -> (r: Option<i16>)
        ensures
            match r {
                Some(v) => self@.contains_key(question_id@) && self@[question_id@] == v,
                None => !self@.contains_key(question_id@),
            },
    {
        match self.map.get(question_id) {
            Some(v) => Some(*v),
            None => None,
        }
    }

    /// The answers as a map from question id to value, the shape scoring reads.
    pub fn from_responses(responses: &[Response]) -> (r: Answers)
        ensures
            r@ == answers_of(responses_pairs(responses@)),
    {
        let ghost rs = responses_pairs(responses@);
        let mut answers = Answers::new();
        let mut i: usize = 0;
        while i < responses.len()
            invariant
                i <= responses@.len(),
                rs == responses_pairs(responses@),
                answers@ == answers_of(rs.take(i as int)),
            decreases responses.len() - i,
        {
            assert(rs.take(i + 1).drop_last() =~= rs.take(i as int));
            answers.insert(responses[i].question_id.clone(), responses[i].value);
            i = i + 1;
        }
        assert(rs.take(responses@.len() as int) =~= rs);
        answers
    }
}

/// A 1–5 agreement value flipped around its midpoint when the item is
/// reverse-keyed: 1 becomes 5, 5 becomes 1.
pub open spec fn oriented(raw: i16, reverse: bool) -> int {
    if reverse {
        6 - raw
    } else {
        raw as int
    }
}

/// How many of the first `n` questions measure `a`.
pub open spec fn axis_count(a: Axis, n: int) -> int
    decreases n,
{
    if n <= 0 {
        0
    } else {
        axis_count(a, n - 1) + (if question_axes()[n - 1] == a {
            1int
        } else {
            0int
        })
    }
}

/// The oriented sum of the answers to the first `n` questions that measure `a`.
pub open spec fn axis_sum(ans: Map<Seq<char>, i16>, a: Axis, n: int) -> int
    decreases n,
{
    if n <= 0 {
        0
    } else {
        axis_sum(ans, a, n - 1) + (if question_axes()[n - 1] == a {
            oriented(ans[question_ids()[n - 1]], question_reversed()[n - 1])
        } else {
            0int
        })
    }
}

/// Whether every question that measures `a` has an answer.
pub open spec fn axis_answered(ans: Map<Seq<char>, i16>, a: Axis) -> bool {
    forall|i: int|
        0 <= i < QUESTION_COUNT && question_axes()[i] == a ==> ans.contains_key(
            #[trigger] question_ids()[i],
        )
}

/// `num / den` rounded to the nearest integer, halves away from zero (as `f64::round`).
pub open spec fn round_half_away(num: int, den: int) -> int {
    if num >= 0 {
        (2 * num + den) / (2 * den)
    } else {
        -((-2 * num + den) / (2 * den))
    }
}

/// `v` saturated into the range of an `i16`.
pub open spec fn saturate_i16(v: int) -> i16 {
    if v > i16::MAX {
        i16::MAX
    } else if v < i16::MIN {
        i16::MIN
    } else {
        v as i16
    }
}

/// The mean oriented answer over an axis's items, moved from the 1–5 scale to
/// 0–100 and rounded: `((sum / count − 1) / 4) · 100`.
pub open spec fn axis_percent(sum: int, count: int) -> i16 {
    saturate_i16(round_half_away(100 * (sum - count), 4 * count))
}

/// The score of one axis, if all of its questions are answered.
pub open spec fn axis_score_of(ans: Map<Seq<char>, i16>, a: Axis) -> Option<i16> {
    if axis_answered(ans, a) {
        Some(axis_percent(axis_sum(ans, a, QUESTION_COUNT as int), axis_count(a, QUESTION_COUNT as int)))
    } else {
        None
    }
}

/// Every question is answered.
pub open spec fn all_answered(ans: Map<Seq<char>, i16>) -> bool {
    forall|i: int| 0 <= i < QUESTION_COUNT ==> ans.contains_key(#[trigger] question_ids()[i])
}

/// The trait scores a set of answers gives: `None` unless every question has an answer.
pub open spec fn trait_scores_of(ans: Map<Seq<char>, i16>) -> Option<TraitScores> {
    if all_answered(ans) {
        Some(
            TraitScores {
                risk_tolerance: axis_score_of(ans, Axis::RiskTolerance)->0,
                pace_vs_rigor: axis_score_of(ans, Axis::PaceVsRigor)->0,
                conflict_style: axis_score_of(ans, Axis::ConflictStyle)->0,
                decision_basis: axis_score_of(ans, Axis::DecisionBasis)->0,
                work_mode: axis_score_of(ans, Axis::WorkMode)->0,
                orientation: axis_score_of(ans, Axis::Orientation)->0,
            },
        )
    } else {
        None
    }
}

/// Question `i` is reverse-keyed and its answer is so negative that flipping
/// it around the midpoint overflows an `i16`.
pub open spec fn flip_overflows(ans: Map<Seq<char>, i16>, i: int) -> bool {
    &&& question_reversed()[i]
    &&& ans.contains_key(question_ids()[i])
    &&& ans[question_ids()[i]] < i16::MIN + 7
}

/// Scoring axis `a` reaches an answer whose flip overflows: every earlier
/// question of the axis is answered, so the scan has not stopped before it.
pub open spec fn axis_overflows(ans: Map<Seq<char>, i16>, a: Axis) -> bool {
    exists|i: int|
        0 <= i < QUESTION_COUNT && question_axes()[i] == a && #[trigger] flip_overflows(ans, i)
            && forall|j: int|
            0 <= j < i && question_axes()[j] == a ==> ans.contains_key(#[trigger] question_ids()[j])
}

/// Scoring, which visits the axes in order and stops at the first one with
/// a missing answer, reaches an overflowing flip. These are the inputs on
/// which the arithmetic of the scale cannot be carried out.
pub open spec fn scoring_overflows(ans: Map<Seq<char>, i16>) -> bool {
    axis_overflows(ans, Axis::RiskTolerance) || (axis_answered(ans, Axis::RiskTolerance) && (
    axis_overflows(ans, Axis::PaceVsRigor) || (axis_answered(ans, Axis::PaceVsRigor) && (
    axis_overflows(ans, Axis::ConflictStyle) || (axis_answered(ans, Axis::ConflictStyle) && (
    axis_overflows(ans, Axis::DecisionBasis) || (axis_answered(ans, Axis::DecisionBasis) && (
    axis_overflows(ans, Axis::WorkMode) || (axis_answered(ans, Axis::WorkMode)
        && axis_overflows(ans, Axis::Orientation))))))))))
}

/// Each axis is measured by exactly three questions.
pub proof fn lemma_three_items_per_axis(a: Axis)
    ensures
        axis_count(a, QUESTION_COUNT as int) == 3,
{
    reveal_with_fuel(axis_count, 19);
}

fn axis_score(answers: &Answers, axis: Axis) -> (r: Option<i16>)
    requires
        !axis_overflows(answers@, axis),
    ensures
        r == axis_score_of(answers@, axis),
{
    let mut sum: i64 = 0;
    let mut count: i64 = 0;
    let mut i: usize = 0;
    while i < QUESTION_COUNT
        invariant
            i <= QUESTION_COUNT,
            !axis_overflows(answers@, axis),
            sum == axis_sum(answers@, axis, i as int),
            count == axis_count(axis, i as int),
            0 <= count <= i,
            -32775 * count <= sum <= 32775 * count,
            forall|k: int|
                0 <= k < i && question_axes()[k] == axis ==> answers@.contains_key(
                    #[trigger] question_ids()[k],
                ),
        decreases QUESTION_COUNT - i,
    {
        let q = question(i);
        if q.axis == axis {
            let raw = match answers.get(q.id) {
                Some(v) => v,
                None => {
                    return None;
                },
            };
            if q.reverse && raw < i16::MIN + 7 {
                assert(flip_overflows(answers@, i as int));
                assert(false);
            }
            let oriented_value: i16 = if q.reverse {
                6 - raw
            } else {
                raw
            };
            sum = sum + oriented_value as i64;
            count = count + 1;
        }
        i = i + 1;
    }
    proof {
        lemma_three_items_per_axis(axis);
    }
    let num: i64 = 100 * (sum - count);
    let den: i64 = 4 * count;
    let rounded: i64 = if num >= 0 {
        (2 * num + den) / (2 * den)
    } else {
        -((-2 * num + den) / (2 * den))
    };
    let score: i16 = if rounded > i16::MAX as i64 {
        i16::MAX
    } else if rounded < i16::MIN as i64 {
        i16::MIN
    } else {
        rounded as i16
    };
    Some(score)
}

/// `None` unless every one of the 18 questions has an answer. An axis mean
/// over one item is not comparable with one over three, and a partial score
/// would quietly skew every match the deck produces.
///
/// The mean is taken exactly: with three items per axis the quotient is never
/// a half, so the rounded whole number is the one a floating-point mean
/// rounds to as well.
pub fn compute(answers: &Answers) -> (r: Option<TraitScores>)
    requires
        !scoring_overflows(answers@),
    ensures
        r == trait_scores_of(answers@),
{
    proof {
        lemma_all_answered_iff_axes(answers@);
    }
    let risk_tolerance = match axis_score(answers, Axis::RiskTolerance) {
        Some(v) => v,
        None => return None,
    };
    let pace_vs_rigor = match axis_score(answers, Axis::PaceVsRigor) {
        Some(v) => v,
        None => return None,
    };
    let conflict_style = match axis_score(answers, Axis::ConflictStyle) {
        Some(v) => v,
        None => return None,
    };
    let decision_basis = match axis_score(answers, Axis::DecisionBasis) {
        Some(v) => v,
        None => return None,
    };
    let work_mode = match axis_score(answers, Axis::WorkMode) {
        Some(v) => v,
        None => return None,
    };
    let orientation = match axis_score(answers, Axis::Orientation) {
        Some(v) => v,
        None => return None,
    };
    Some(
        TraitScores {
            risk_tolerance,
            pace_vs_rigor,
            conflict_style,
            decision_basis,
            work_mode,
            orientation,
        },
    )
}

/// Every question is answered exactly when every axis has all of its answers.
pub proof fn lemma_all_answered_iff_axes(ans: Map<Seq<char>, i16>)
    ensures
        all_answered(ans) <==> (axis_answered(ans, Axis::RiskTolerance) && axis_answered(
            ans,
            Axis::PaceVsRigor,
        ) && axis_answered(ans, Axis::ConflictStyle) && axis_answered(ans, Axis::DecisionBasis)
            && axis_answered(ans, Axis::WorkMode) && axis_answered(ans, Axis::Orientation)),
{
    if axis_answered(ans, Axis::RiskTolerance) && axis_answered(ans, Axis::PaceVsRigor)
        && axis_answered(ans, Axis::ConflictStyle) && axis_answered(ans, Axis::DecisionBasis)
        && axis_answered(ans, Axis::WorkMode) && axis_answered(ans, Axis::Orientation) {
        assert forall|i: int| 0 <= i < QUESTION_COUNT implies ans.contains_key(
            #[trigger] question_ids()[i],
        ) by {
            let a = question_axes()[i];
            assert(axis_answered(ans, a));
        }
    }
}

/// Scores exist exactly when the assessment is complete, which is what lets
/// stored scores stand as a reliable signal of completeness.
pub proof fn lemma_scores_iff_complete(ans: Map<Seq<char>, i16>)
    ensures
        trait_scores_of(ans) is Some <==> all_answered(ans),
{
}

/// Every answer to the questionnaire is on the 1–5 scale.
pub open spec fn on_scale(ans: Map<Seq<char>, i16>) -> bool {
    forall|i: int|
        0 <= i < QUESTION_COUNT && ans.contains_key(#[trigger] question_ids()[i]) ==> 1 <= ans[question_ids()[i]]
            <= 5
}

proof fn lemma_axis_sum_bounds(ans: Map<Seq<char>, i16>, a: Axis, n: int)
    requires
        on_scale(ans),
        axis_answered(ans, a),
        0 <= n <= QUESTION_COUNT,
    ensures
        axis_count(a, n) <= axis_sum(ans, a, n) <= 5 * axis_count(a, n),
    decreases n,
{
    if n > 0 {
        lemma_axis_sum_bounds(ans, a, n - 1);
        if question_axes()[n - 1] == a {
            assert(ans.contains_key(question_ids()[n - 1]));
        }
    }
}

/// Answers on the 1–5 scale can always be scored: no flip overflows.
pub proof fn lemma_on_scale_never_overflows(ans: Map<Seq<char>, i16>)
    requires
        on_scale(ans),
    ensures
        !scoring_overflows(ans),
{
    assert forall|i: int| 0 <= i < QUESTION_COUNT implies !#[trigger] flip_overflows(ans, i) by {
        if ans.contains_key(question_ids()[i]) {
            assert(1 <= ans[question_ids()[i]]);
        }
    }
}

/// With every answer on the 1–5 scale, every axis score lies between 0 and 100.
pub proof fn lemma_axis_scores_in_range(ans: Map<Seq<char>, i16>, a: Axis)
    requires
        on_scale(ans),
        axis_answered(ans, a),
    ensures
        axis_score_of(ans, a) matches Some(v) && 0 <= v <= 100,
{
    lemma_axis_sum_bounds(ans, a, QUESTION_COUNT as int);
    lemma_three_items_per_axis(a);
    let sum = axis_sum(ans, a, QUESTION_COUNT as int);
    assert(3 <= sum <= 15);
    let num = 100 * (sum - 3);
    assert(0 <= num <= 1200);
    assert(0 <= (2 * num + 12) / 24 <= 100);
}

/// The ids of the responses, in order, that name a question of the questionnaire.
pub open spec fn seen_ids(rs: Seq<(Seq<char>, i16)>) -> Seq<Seq<char>>
    decreases rs.len(),
{
    if rs.len() == 0 {
        seq![]
    } else if question_position(rs.last().0, 0) is Some {
        seen_ids(rs.drop_last()).push(rs.last().0)
    } else {
        seen_ids(rs.drop_last())
    }
}

/// What is wrong with one response, given the known ids answered before it.
pub open spec fn response_problems(r: (Seq<char>, i16), seen: Seq<Seq<char>>) -> Seq<
    (Seq<char>, Seq<char>),
> {
    if question_position(r.0, 0) is None {
        seq![(r.0, "is not a question in this assessment"@)]
    } else {
        (if 1 <= r.1 <= 5 {
            seq![]
        } else {
            seq![(r.0, "must be between 1 and 5"@)]
        }) + (if seen.contains(r.0) {
            seq![(r.0, "was answered twice in one submission"@)]
        } else {
            seq![]
        })
    }
}

/// Every complaint about a submitted batch, in order.
pub open spec fn batch_errors(rs: Seq<(Seq<char>, i16)>) -> Seq<(Seq<char>, Seq<char>)>
    decreases rs.len(),
{
    if rs.len() == 0 {
        seq![]
    } else {
        batch_errors(rs.drop_last()) + response_problems(rs.last(), seen_ids(rs.drop_last()))
    }
}

/// A batch is accepted exactly when every response names a question, holds
/// a value from 1 to 5, and answers a question no earlier response answers.
pub open spec fn acceptable(rs: Seq<(Seq<char>, i16)>) -> bool {
    forall|i: int|
        0 <= i < rs.len() ==> {
            &&& question_position((#[trigger] rs[i]).0, 0) is Some
            &&& 1 <= rs[i].1 <= 5
            &&& forall|j: int| 0 <= j < i ==> rs[j].0 != rs[i].0
        }
}

proof fn lemma_seen_ids(rs: Seq<(Seq<char>, i16)>, id: Seq<char>)
    requires
        question_position(id, 0) is Some,
    ensures
        seen_ids(rs).contains(id) <==> exists|j: int| 0 <= j < rs.len() && rs[j].0 == id,
    decreases rs.len(),
{
    if rs.len() > 0 {
        let prev = rs.drop_last();
        lemma_seen_ids(prev, id);
        if question_position(rs.last().0, 0) is Some {
            vstd::seq_lib::lemma_seq_contains_after_push(seen_ids(prev), rs.last().0, id);
        }
        if exists|j: int| 0 <= j < rs.len() && rs[j].0 == id {
            let j = choose|j: int| 0 <= j < rs.len() && rs[j].0 == id;
            if j < rs.len() - 1 {
                assert(prev[j].0 == id);
            }
        }
        if exists|j: int| 0 <= j < prev.len() && prev[j].0 == id {
            let j = choose|j: int| 0 <= j < prev.len() && prev[j].0 == id;
            assert(rs[j].0 == id);
        }
    }
}

/// The batch rule: a submission is accepted exactly when it is acceptable.
pub proof fn lemma_batch_rule(rs: Seq<(Seq<char>, i16)>)
    ensures
        batch_errors(rs).len() == 0 <==> acceptable(rs),
    decreases rs.len(),
{
    if rs.len() > 0 {
        let prev = rs.drop_last();
        let r = rs.last();
        lemma_batch_rule(prev);
        let seen = seen_ids(prev);
        if question_position(r.0, 0) is Some {
            lemma_seen_ids(prev, r.0);
        }
        if acceptable(rs) {
            assert forall|i: int| 0 <= i < prev.len() implies {
                &&& question_position((#[trigger] prev[i]).0, 0) is Some
                &&& 1 <= prev[i].1 <= 5
                &&& forall|j: int| 0 <= j < i ==> prev[j].0 != prev[i].0
            } by {
                assert(prev[i] == rs[i]);
                assert forall|j: int| 0 <= j < i implies prev[j].0 != prev[i].0 by {
                    assert(prev[j] == rs[j]);
                }
            }
            assert(rs[rs.len() - 1] == r);
            assert(!seen.contains(r.0));
        }
        if batch_errors(rs).len() == 0 {
            assert(batch_errors(rs) == batch_errors(prev) + response_problems(r, seen));
            assert forall|i: int| 0 <= i < rs.len() implies {
                &&& question_position((#[trigger] rs[i]).0, 0) is Some
                &&& 1 <= rs[i].1 <= 5
                &&& forall|j: int| 0 <= j < i ==> rs[j].0 != rs[i].0
            } by {
                if i < rs.len() - 1 {
                    assert(rs[i] == prev[i]);
                    assert forall|j: int| 0 <= j < i implies rs[j].0 != rs[i].0 by {
                        assert(prev[j] == rs[j]);
                    }
                } else {
                    assert forall|j: int| 0 <= j < i implies rs[j].0 != rs[i].0 by {
                        if rs[j].0 == rs[i].0 {
                            assert(prev[j].0 == r.0);
                        }
                    }
                }
            }
        }
    }
}

fn contains_id(seen: &Vec<String>, id: &str) -> (r: bool)
    ensures
        r == seen@.map_values(|s: String| s@).contains(id@),
{
    let ghost sv = seen@.map_values(|s: String| s@);
    let mut i: usize = 0;
    while i < seen.len()
        invariant
            i <= seen@.len(),
            sv == seen@.map_values(|s: String| s@),
            forall|k: int| 0 <= k < i ==> sv[k] != id@,
        decreases seen.len() - i,
    {
        if same_text(seen[i].as_str(), id) {
            assert(sv[i as int] == id@);
            return true;
        }
        i = i + 1;
    }
    false
}

/// Accepts a batch exactly when every response names a question of the
/// questionnaire, holds a value from 1 to 5, and answers a question no other
/// response in the batch answers; otherwise reports every problem.
pub fn validate(submitted: &[Response]) -> (r: Result<(), ApiError>)
    ensures
        match r {
            Ok(()) => batch_errors(responses_pairs(submitted@)).len() == 0,
            Err(e) => batch_errors(responses_pairs(submitted@)).len() != 0 && (
            e matches ApiError::Validation(es) && errors_view(es@) == batch_errors(
                responses_pairs(submitted@),
            )),
        },
{
    let ghost rs = responses_pairs(submitted@);
    let mut errors: Vec<FieldError> = Vec::new();
    let mut seen: Vec<String> = Vec::new();
    let mut i: usize = 0;
    while i < submitted.len()
        invariant
            i <= submitted@.len(),
            rs == responses_pairs(submitted@),
            errors_view(errors@) == batch_errors(rs.take(i as int)),
            seen@.map_values(|s: String| s@) == seen_ids(rs.take(i as int)),
        decreases submitted.len() - i,
    {
        assert(rs.take(i + 1).drop_last() =~= rs.take(i as int));
        let ghost before = errors_view(errors@);
        let id = submitted[i].question_id.as_str();
        if find(id).is_none() {
            errors.push(FieldError::new(id, "is not a question in this assessment"));
            assert(errors_view(errors@) =~= before + response_problems(rs[i as int], seen_ids(rs.take(i as int))));
        } else {
            let v = submitted[i].value;
            if !(1 <= v && v <= 5) {
                errors.push(FieldError::new(id, "must be between 1 and 5"));
            }
            let ghost middle = errors_view(errors@);
            if contains_id(&seen, id) {
                errors.push(FieldError::new(id, "was answered twice in one submission"));
            }
            seen.push(submitted[i].question_id.clone());
            assert(errors_view(errors@) =~= before + response_problems(rs[i as int], seen_ids(rs.take(i as int))));
            assert(seen@.map_values(|s: String| s@) =~= seen_ids(rs.take(i + 1)));
        }
        i = i + 1;
    }
    assert(rs.take(submitted@.len() as int) =~= rs);
    if errors.len() == 0 {
        Ok(())
    } else {
        Err(ApiError::Validation(errors))
    }
}

/// A user's answers as the client sees them.
#[derive(Debug)]
pub struct ResponsesView {
    pub responses: Vec<Response>,
    pub answered: usize,
    pub total: usize,
    pub complete: bool,
}

/// The view of a user's stored answers: how many there are out of how many,
/// and whether that is all of them.
pub fn responses_view(responses: Vec<Response>) -> (v: ResponsesView)
    ensures
        v.responses == responses,
        v.answered == responses@.len(),
        v.total == TOTAL_QUESTIONS,
        v.complete == (responses@.len() == TOTAL_QUESTIONS),
{
    let answered = responses.len();
    ResponsesView { responses, answered, total: TOTAL_QUESTIONS, complete: answered == TOTAL_QUESTIONS }
}

/// The score of axis `a` in `t`.
pub open spec fn score_on(t: TraitScores, a: Axis) -> i16 {
    match a {
        Axis::RiskTolerance => t.risk_tolerance,
        Axis::PaceVsRigor => t.pace_vs_rigor,
        Axis::ConflictStyle => t.conflict_style,
        Axis::DecisionBasis => t.decision_basis,
        Axis::WorkMode => t.work_mode,
        Axis::Orientation => t.orientation,
    }
}

proof fn lemma_axis_sum_after_insert(ans: Map<Seq<char>, i16>, a: Axis, n: int, k: int, v: i16)
    requires
        0 <= k < QUESTION_COUNT,
        0 <= n <= QUESTION_COUNT,
        ans.contains_key(question_ids()[k]),
    ensures
        axis_sum(ans.insert(question_ids()[k], v), a, n) == axis_sum(ans, a, n) + (if k < n
            && question_axes()[k] == a {
            oriented(v, question_reversed()[k]) - oriented(ans[question_ids()[k]], question_reversed()[k])
        } else {
            0
        }),
    decreases n,
{
    if n > 0 {
        lemma_axis_sum_after_insert(ans, a, n - 1, k, v);
        lemma_question_ids_distinct();
        if n - 1 != k {
            assert(question_ids()[n - 1] != question_ids()[k]);
        }
    }
}

proof fn lemma_percent_ordered(s1: int, s2: int)
    requires
        3 <= s1 <= s2 <= 15,
    ensures
        axis_percent(s1, 3) <= axis_percent(s2, 3),
        0 <= axis_percent(s1, 3) <= 100,
{
    let x1 = 200 * (s1 - 3) + 12;
    let x2 = 200 * (s2 - 3) + 12;
    assert(12 <= x1 <= x2 <= 2412);
    assert(x1 / 24 <= x2 / 24) by (nonlinear_arith)
        requires
            12 <= x1 <= x2,
    ;
    assert(0 <= x1 / 24 <= 100 && 0 <= x2 / 24 <= 100) by (nonlinear_arith)
        requires
            12 <= x1 <= x2 <= 2412,
    ;
    assert(round_half_away(100 * (s1 - 3), 12int) == x1 / 24);
    assert(round_half_away(100 * (s2 - 3), 12int) == x2 / 24);
}

/// Raising one answer of a complete, on-scale set moves only its own axis,
/// and in the direction of its keying: raising agreement with a statement of
/// an axis's low end (risk_2, pace_2, conflict_2, decision_2, work_1,
/// orientation_2) never raises that axis's score, and raising agreement with
/// any other statement never lowers it.
pub proof fn lemma_raising_an_answer(ans: Map<Seq<char>, i16>, k: int, v: i16, b: Axis)
    requires
        0 <= k < QUESTION_COUNT,
        on_scale(ans),
        all_answered(ans),
        ans[question_ids()[k]] <= v <= 5,
    ensures
        trait_scores_of(ans) is Some,
        trait_scores_of(ans.insert(question_ids()[k], v)) is Some,
        reverse_keyed_ids().contains(question_ids()[k]) ==> score_on(
            trait_scores_of(ans.insert(question_ids()[k], v))->0,
            question_axes()[k],
        ) <= score_on(trait_scores_of(ans)->0, question_axes()[k]),
        !reverse_keyed_ids().contains(question_ids()[k]) ==> score_on(
            trait_scores_of(ans.insert(question_ids()[k], v))->0,
            question_axes()[k],
        ) >= score_on(trait_scores_of(ans)->0, question_axes()[k]),
        b != question_axes()[k] ==> score_on(trait_scores_of(ans.insert(question_ids()[k], v))->0, b)
            == score_on(trait_scores_of(ans)->0, b),
{
    let id = question_ids()[k];
    let after = ans.insert(id, v);
    assert(ans.contains_key(id));
    assert forall|i: int| 0 <= i < QUESTION_COUNT implies after.contains_key(#[trigger] question_ids()[i]) by {
        assert(ans.contains_key(question_ids()[i]));
    }
    assert forall|i: int|
        0 <= i < QUESTION_COUNT && after.contains_key(#[trigger] question_ids()[i]) implies 1
        <= after[question_ids()[i]] <= 5 by {
        assert(ans.contains_key(question_ids()[i]));
    }
    lemma_reverse_keying();
    assert(question_reversed()[k] <==> reverse_keyed_ids().contains(id));
    let a = question_axes()[k];
    assert forall|c: Axis| axis_answered(ans, c) && axis_answered(after, c) by {
        assert forall|i: int| 0 <= i < QUESTION_COUNT && question_axes()[i] == c implies ans.contains_key(
            #[trigger] question_ids()[i],
        ) by {}
    }
    lemma_axis_sum_after_insert(ans, a, QUESTION_COUNT as int, k, v);
    lemma_axis_sum_after_insert(ans, b, QUESTION_COUNT as int, k, v);
    lemma_axis_sum_bounds(ans, a, QUESTION_COUNT as int);
    lemma_axis_sum_bounds(after, a, QUESTION_COUNT as int);
    lemma_three_items_per_axis(a);
    let s1 = axis_sum(ans, a, QUESTION_COUNT as int);
    let s2 = axis_sum(after, a, QUESTION_COUNT as int);
    if question_reversed()[k] {
        lemma_percent_ordered(s2, s1);
    } else {
        lemma_percent_ordered(s1, s2);
    }
}

} // verus!
