use cofounder_api::assessment::TraitScores;
use cofounder_api::deck::{pass_overlap, rank_cards, DeckCard, PassOverlap};
use cofounder_api::questions::Axis;
use cofounder_api::scoring::geography::{normalize, same_metro, score_geography};
use cofounder_api::scoring::interests::score_interests;
use cofounder_api::scoring::profile::{Component, ScoredProfile};
use cofounder_api::scoring::roles::{coverage, score_roles};
use cofounder_api::scoring::score::{top_reasons, RankedComponent};
use cofounder_api::scoring::situation::{rung, score_situation};
use cofounder_api::scoring::traits::{axis_miss, explain, ideal_for, score_traits, Ideal};
use cofounder_api::vocab::stages;

fn traits(v: i16) -> TraitScores {
    TraitScores {
        risk_tolerance: v,
        pace_vs_rigor: v,
        conflict_style: v,
        decision_basis: v,
        work_mode: v,
        orientation: v,
    }
}

fn profile(id: u128) -> ScoredProfile {
    ScoredProfile {
        user_id: id,
        display_name: format!("user {id}"),
        roles: vec![],
        seeking_roles: vec![],
        interests: vec![],
        idea_status: None,
        stage: None,
        commitment: None,
        city: String::new(),
        country: String::new(),
        utc_offset_minutes: None,
        traits: traits(50),
    }
}

fn strings(xs: &[&str]) -> Vec<String> {
    xs.iter().map(|s| s.to_string()).collect()
}

#[test]
fn role_coverage_counts_and_names_in_vocabulary_order() {
    let c = coverage(&strings(&["product", "engineering"]), &strings(&["engineering", "gtm", "product"]));
    assert_eq!((c.matched, c.wanted), (2, 3));
    // Vocabulary order puts engineering before product.
    assert_eq!(c.first, Some("Engineering"));
    let none = coverage(&strings(&["design"]), &[]);
    assert_eq!((none.matched, none.wanted, none.first), (0, 0, None));
}

#[test]
fn role_reasons_describe_each_direction() {
    let mut viewer = profile(1);
    let mut candidate = profile(2);
    viewer.roles = strings(&["engineering"]);
    viewer.seeking_roles = strings(&["gtm"]);
    candidate.roles = strings(&["gtm"]);
    candidate.seeking_roles = strings(&["engineering"]);
    let fit = score_roles(&viewer, &candidate);
    assert_eq!(fit.reason.as_deref(), Some("They bring GTM / Sales, you bring Engineering"));
    candidate.seeking_roles = strings(&["design"]);
    let fit = score_roles(&viewer, &candidate);
    assert_eq!(fit.reason.as_deref(), Some("Brings GTM / Sales, which you're after"));
    assert_eq!((fit.you.matched, fit.you.wanted), (0, 1));
    candidate.roles = strings(&["research"]);
    candidate.seeking_roles = strings(&["engineering"]);
    let fit = score_roles(&viewer, &candidate);
    assert_eq!(fit.reason.as_deref(), Some("Looking for Engineering, which you bring"));
}

#[test]
fn trait_misses_measure_distance_from_the_ideal() {
    assert_eq!(ideal_for(Axis::DecisionBasis), Ideal::MildDifference);
    assert_eq!(Ideal::Complementary.target_distance(), 60);
    let a = traits(20);
    let b = traits(80);
    // Similar axes want zero distance: 60 apart misses by 60.
    assert_eq!(axis_miss(&a, &b, Axis::RiskTolerance), 60);
    // Complementary axes want 60 apart: exactly on target.
    assert_eq!(axis_miss(&a, &b, Axis::WorkMode), 0);
    // Mild difference wants 25 apart: misses by 35.
    assert_eq!(axis_miss(&a, &b, Axis::DecisionBasis), 35);
    // Misses are capped at the full range.
    assert_eq!(axis_miss(&traits(-200), &traits(300), Axis::PaceVsRigor), 100);
}

#[test]
fn traits_explain_the_best_axis_only_when_it_sits_well() {
    let mut viewer = profile(1);
    let mut candidate = profile(2);
    viewer.traits = traits(20);
    candidate.traits = traits(80);
    let fit = score_traits(&viewer, &candidate);
    assert_eq!(fit.misses, vec![60, 60, 60, 35, 0, 0]);
    assert_eq!(fit.reason.as_deref(), Some("deep solo work meets constant collaboration"));
    viewer.traits = traits(70);
    candidate.traits = traits(70);
    let fit = score_traits(&viewer, &candidate);
    assert_eq!(fit.reason.as_deref(), Some("Both bet big early"));
    viewer.traits = traits(0);
    candidate.traits = traits(100);
    viewer.traits.work_mode = 50;
    viewer.traits.orientation = 50;
    candidate.traits.work_mode = 50;
    candidate.traits.orientation = 50;
    candidate.traits.decision_basis = 40;
    // Best is decision_basis: 40 apart misses 25 by 15; midpoint 20 leans low.
    let fit = score_traits(&viewer, &candidate);
    assert_eq!(fit.misses, vec![100, 100, 100, 15, 60, 60]);
    assert_eq!(fit.reason.as_deref(), Some("Both trust intuition"));
    assert_eq!(explain(&traits(10), &traits(10), Axis::ConflictStyle), "Both seek harmony");
}

#[test]
fn no_trait_reason_when_every_axis_sits_badly() {
    let mut viewer = profile(1);
    let mut candidate = profile(2);
    viewer.traits = traits(0);
    candidate.traits = traits(100);
    let fit = score_traits(&viewer, &candidate);
    assert_eq!(fit.misses, vec![100, 100, 100, 75, 40, 40]);
    assert_eq!(fit.reason, None);
}

#[test]
fn situation_counts_rungs_apart() {
    let mut viewer = profile(1);
    let mut candidate = profile(2);
    viewer.commitment = Some("part_time".into());
    candidate.commitment = Some("part_time".into());
    viewer.stage = Some("idea".into());
    candidate.stage = Some("revenue".into());
    let fit = score_situation(&viewer, &candidate);
    assert_eq!(fit.commitment_steps, Some(0));
    assert_eq!(fit.stage_steps, Some(3));
    assert_eq!(fit.reason.as_deref(), Some("Both Part-time"));
    candidate.commitment = Some("full_time_now".into());
    candidate.stage = None;
    let fit = score_situation(&viewer, &candidate);
    assert_eq!(fit.commitment_steps, Some(2));
    assert_eq!(fit.stage_steps, None);
    assert_eq!(fit.reason, None);
    assert_eq!(rung(&stages(), &Some("users".into())), Some(2));
    assert_eq!(rung(&stages(), &Some("ipo".into())), None);
}

#[test]
fn interests_overlap_as_sets() {
    let mut viewer = profile(1);
    let mut candidate = profile(2);
    viewer.interests = strings(&["saas", "fintech", "saas", "climate"]);
    candidate.interests = strings(&["fintech", "saas", "gaming"]);
    let fit = score_interests(&viewer, &candidate);
    assert_eq!((fit.shared, fit.union), (2, 4));
    // Named in vocabulary order: fintech comes before saas.
    assert_eq!(fit.reason.as_deref(), Some("Share 2 interests including Fintech"));
    candidate.interests = strings(&["climate"]);
    let fit = score_interests(&viewer, &candidate);
    assert_eq!(fit.reason.as_deref(), Some("Both into Climate"));
    let empty = score_interests(&profile(3), &profile(4));
    assert_eq!((empty.shared, empty.union, empty.reason), (0, 0, None));
}

#[test]
fn geography_prefers_the_same_metro() {
    let mut viewer = profile(1);
    let mut candidate = profile(2);
    viewer.city = "  Berlin ".into();
    viewer.country = "Germany".into();
    candidate.city = "BERLIN".into();
    candidate.country = "germany ".into();
    assert!(same_metro(&viewer, &candidate));
    let fit = score_geography(&viewer, &candidate);
    assert_eq!(fit.points, 10);
    assert_eq!(fit.reason.as_deref(), Some("Both in Berlin"));
    assert_eq!(normalize("  ÉCOLE "), "école");
}

#[test]
fn blank_places_never_match() {
    let viewer = profile(1);
    let candidate = profile(2);
    assert!(!same_metro(&viewer, &candidate));
    assert_eq!(score_geography(&viewer, &candidate).points, 0);
}

#[test]
fn nearby_timezones_score_part() {
    let mut viewer = profile(1);
    let mut candidate = profile(2);
    viewer.utc_offset_minutes = Some(60);
    candidate.utc_offset_minutes = Some(60);
    let same = score_geography(&viewer, &candidate);
    assert_eq!((same.points, same.reason.as_deref()), (5, Some("In the same timezone as you")));
    candidate.utc_offset_minutes = Some(-30);
    let near = score_geography(&viewer, &candidate);
    assert_eq!(near.reason.as_deref(), Some("Within 2 hours of you"));
    candidate.utc_offset_minutes = Some(30);
    assert_eq!(score_geography(&viewer, &candidate).reason.as_deref(), Some("Within 1 hour of you"));
    candidate.utc_offset_minutes = Some(-121);
    let far = score_geography(&viewer, &candidate);
    assert_eq!((far.points, far.reason), (0, None));
}

fn ranked(component: Component, weight: u64, reason: Option<&str>) -> RankedComponent {
    RankedComponent { component, weight, reason: reason.map(|r| r.to_string()) }
}

#[test]
fn reasons_are_the_three_strongest_contributions() {
    let reasons = top_reasons(vec![
        ranked(Component::Roles, 10, Some("roles")),
        ranked(Component::Traits, 30, Some("traits")),
        ranked(Component::Situation, 0, Some("situation")),
        ranked(Component::Interests, 30, Some("interests")),
        ranked(Component::Geography, 20, None),
    ]);
    let got: Vec<(Component, &str)> = reasons.iter().map(|r| (r.component, r.text.as_str())).collect();
    assert_eq!(
        got,
        vec![(Component::Traits, "traits"), (Component::Interests, "interests"), (Component::Roles, "roles")]
    );
}

#[test]
fn float_bits_order_positive_points() {
    let points = [14.0_f64, 9.8, 25.0, 0.5];
    let reasons = top_reasons(
        points
            .iter()
            .map(|p| ranked(Component::Situation, p.to_bits(), Some(&format!("{p}"))))
            .collect(),
    );
    let got: Vec<&str> = reasons.iter().map(|r| r.text.as_str()).collect();
    assert_eq!(got, vec!["25", "14", "9.8"]);
}

fn card(id: u128, score: u16) -> DeckCard {
    DeckCard {
        user_id: id,
        display_name: String::new(),
        headline: String::new(),
        bio: String::new(),
        city: String::new(),
        country: String::new(),
        roles: vec![],
        seeking_roles: vec![],
        interests: vec![],
        score,
        reasons: vec![],
    }
}

#[test]
fn the_deck_is_ranked_by_score_then_id() {
    let deck = rank_cards(vec![card(5, 40), card(3, 90), card(9, 40), card(1, 40), card(2, 100)]);
    let order: Vec<(u128, u16)> = deck.iter().map(|c| (c.user_id, c.score)).collect();
    assert_eq!(order, vec![(2, 100), (3, 90), (1, 40), (5, 40), (9, 40)]);
}

#[test]
fn the_deck_holds_at_most_twenty_cards() {
    let cards: Vec<DeckCard> = (0..30u128).map(|i| card(i, (i % 7) as u16)).collect();
    let deck = rank_cards(cards);
    assert_eq!(deck.len(), 20);
    assert_eq!(deck[0].score, 6);
    assert!(deck.windows(2).all(|w| w[0].score > w[1].score
        || (w[0].score == w[1].score && w[0].user_id < w[1].user_id)));
    // Everything left out scores no better than the last card kept.
    assert!(deck[19].score >= 2);
}

#[test]
fn pass_overlap_counts_shared_tags() {
    let mut candidate = profile(7);
    candidate.roles = strings(&["design"]);
    candidate.interests = strings(&["gaming", "media", "saas"]);
    let passed = strings(&["gaming", "design", "biotech"]);
    assert_eq!(pass_overlap(&candidate, &passed), Some(PassOverlap { shared: 2, own: 4 }));
    assert_eq!(pass_overlap(&candidate, &[]), None);
    assert_eq!(pass_overlap(&profile(8), &passed), None);
}
