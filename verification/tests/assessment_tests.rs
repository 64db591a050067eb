use cofounder_api::assessment::{compute, responses_view, validate, Answers, Response, TraitScores};
use cofounder_api::error::ApiError;
use cofounder_api::questions::{find, questionnaire, questions, Axis};

fn answer_all(value_for: impl Fn(bool) -> i16) -> Answers {
    let mut answers = Answers::new();
    for q in questions() {
        answers.insert(q.id.to_string(), value_for(q.reverse));
    }
    answers
}

#[test]
fn neutral_answers_score_fifty_everywhere() {
    let scores = compute(&answer_all(|_| 3)).expect("complete");
    assert_eq!(
        scores,
        TraitScores {
            risk_tolerance: 50,
            pace_vs_rigor: 50,
            conflict_style: 50,
            decision_basis: 50,
            work_mode: 50,
            orientation: 50,
        }
    );
}

#[test]
fn reverse_keyed_items_are_flipped() {
    // Strong agreement with forward items and strong disagreement with
    // reversed ones is the top of every axis.
    let top = compute(&answer_all(|reverse| if reverse { 1 } else { 5 })).unwrap();
    assert_eq!(top.risk_tolerance, 100);
    assert_eq!(top.orientation, 100);
    let bottom = compute(&answer_all(|reverse| if reverse { 5 } else { 1 })).unwrap();
    assert_eq!(bottom.work_mode, 0);
    // Agreeing with everything: two forward fives and one flipped one.
    let agree = compute(&answer_all(|_| 5)).unwrap();
    // mean (5 + 5 + 1) / 3 = 11/3 -> ((11/3 - 1) / 4) * 100 = 66.67 -> 67
    assert_eq!(agree.pace_vs_rigor, 67);
}

#[test]
fn one_third_steps_round_to_nearest() {
    let mut answers = answer_all(|_| 3);
    // risk_1 forward 4, others neutral: sum 10 -> 58.33 -> 58
    answers.insert("risk_1".to_string(), 4);
    assert_eq!(compute(&answers).unwrap().risk_tolerance, 58);
    // risk_3 forward 4 as well: sum 11 -> 66.67 -> 67
    answers.insert("risk_3".to_string(), 4);
    assert_eq!(compute(&answers).unwrap().risk_tolerance, 67);
}

#[test]
fn incomplete_answers_give_no_scores() {
    let mut answers = Answers::new();
    for q in questions().into_iter().skip(1) {
        answers.insert(q.id.to_string(), 3);
    }
    assert!(compute(&answers).is_none());
    assert!(compute(&Answers::new()).is_none());
}

#[test]
fn later_responses_replace_earlier_ones() {
    let responses = vec![
        Response { question_id: "risk_1".into(), value: 2 },
        Response { question_id: "risk_1".into(), value: 5 },
    ];
    let answers = Answers::from_responses(&responses);
    assert_eq!(answers.get("risk_1"), Some(5));
    assert_eq!(answers.get("risk_2"), None);
}

fn field_errors(result: Result<(), ApiError>) -> Vec<(String, String)> {
    match result {
        Err(ApiError::Validation(errors)) => {
            errors.into_iter().map(|e| (e.field, e.message)).collect()
        }
        Ok(()) => Vec::new(),
        Err(other) => panic!("unexpected error {other:?}"),
    }
}

#[test]
fn a_clean_batch_is_accepted() {
    let batch = vec![
        Response { question_id: "risk_1".into(), value: 1 },
        Response { question_id: "work_3".into(), value: 5 },
    ];
    assert!(validate(&batch).is_ok());
    assert!(validate(&[]).is_ok());
}

#[test]
fn every_problem_in_a_batch_is_reported() {
    let batch = vec![
        Response { question_id: "nope".into(), value: 9 },
        Response { question_id: "pace_1".into(), value: 0 },
        Response { question_id: "pace_1".into(), value: 3 },
        Response { question_id: "pace_2".into(), value: 6 },
    ];
    assert_eq!(
        field_errors(validate(&batch)),
        vec![
            ("nope".to_string(), "is not a question in this assessment".to_string()),
            ("pace_1".to_string(), "must be between 1 and 5".to_string()),
            ("pace_1".to_string(), "was answered twice in one submission".to_string()),
            ("pace_2".to_string(), "must be between 1 and 5".to_string()),
        ]
    );
}

#[test]
fn responses_view_reports_completeness() {
    let some = responses_view(vec![Response { question_id: "risk_1".into(), value: 3 }]);
    assert_eq!((some.answered, some.total, some.complete), (1, 18, false));
    let all: Vec<Response> = questions()
        .into_iter()
        .map(|q| Response { question_id: q.id.to_string(), value: 3 })
        .collect();
    let view = responses_view(all);
    assert!(view.complete);
    assert_eq!(view.answered, 18);
}

#[test]
fn questions_are_found_by_id() {
    let q = find("decision_2").expect("a question");
    assert_eq!(q.axis, Axis::DecisionBasis);
    assert!(q.reverse);
    assert_eq!(q.text, "When the evidence is ambiguous, I trust my instinct and move.");
    assert!(find("decision_4").is_none());
    assert!(find("").is_none());
}

#[test]
fn the_instrument_has_three_items_per_axis() {
    let qs = questions();
    assert_eq!(qs.len(), 18);
    for axis in Axis::all() {
        assert_eq!(qs.iter().filter(|q| q.axis == axis).count(), 3);
    }
    let mut ids: Vec<&str> = qs.iter().map(|q| q.id).collect();
    ids.sort();
    ids.dedup();
    assert_eq!(ids.len(), 18);
}

#[test]
fn axis_labels_follow_the_design_table() {
    assert_eq!(Axis::RiskTolerance.slug(), "risk_tolerance");
    assert_eq!(Axis::PaceVsRigor.low_label(), "build it right");
    assert_eq!(Axis::Orientation.high_label(), "long-range vision");
    assert_eq!(Axis::WorkMode.low_label(), "deep solo work");
}

#[test]
fn the_questionnaire_hides_keying_and_ships_the_scale() {
    let view = questionnaire();
    assert_eq!(view.questions.len(), 18);
    assert_eq!(view.questions[4].id, "pace_2");
    assert_eq!(view.questions[4].axis, "pace_vs_rigor");
    let labels: Vec<(i16, &str)> = view.scale.iter().map(|p| (p.value, p.label)).collect();
    assert_eq!(
        labels,
        vec![
            (1, "Strongly disagree"),
            (2, "Disagree"),
            (3, "Neutral"),
            (4, "Agree"),
            (5, "Strongly agree")
        ]
    );
}
