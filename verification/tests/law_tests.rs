use cofounder_api::assessment::TraitScores;
use cofounder_api::error::ApiError;
use cofounder_api::profiles::{normalize_and_validate, ProfileInput};
use cofounder_api::scoring::geography::score_geography;
use cofounder_api::scoring::interests::score_interests;
use cofounder_api::scoring::profile::ScoredProfile;
use cofounder_api::scoring::roles::{coverage, score_roles};
use cofounder_api::scoring::situation::score_situation;
use cofounder_api::scoring::traits::score_traits;
use cofounder_api::text::trim;
use cofounder_api::vocab::{contains, label, roles};

fn strings(xs: &[&str]) -> Vec<String> {
    xs.iter().map(|s| s.to_string()).collect()
}

fn founder(id: u128) -> ScoredProfile {
    ScoredProfile {
        user_id: id,
        display_name: format!("founder {id}"),
        roles: vec![],
        seeking_roles: vec![],
        interests: vec![],
        idea_status: None,
        stage: None,
        commitment: None,
        city: String::new(),
        country: String::new(),
        utc_offset_minutes: None,
        traits: TraitScores {
            risk_tolerance: 50,
            pace_vs_rigor: 50,
            conflict_style: 50,
            decision_basis: 50,
            work_mode: 50,
            orientation: 50,
        },
    }
}

fn pair() -> (ScoredProfile, ScoredProfile) {
    let mut a = founder(1);
    let mut b = founder(2);
    a.roles = strings(&["engineering", "product"]);
    a.seeking_roles = strings(&["gtm", "design"]);
    a.interests = strings(&["fintech", "saas"]);
    a.commitment = Some("full_time_now".into());
    a.stage = Some("idea".into());
    a.city = "Paris".into();
    a.country = "France".into();
    a.utc_offset_minutes = Some(60);
    a.traits.work_mode = 10;
    a.traits.risk_tolerance = 80;
    b.roles = strings(&["gtm"]);
    b.seeking_roles = strings(&["engineering"]);
    b.interests = strings(&["saas", "climate"]);
    b.commitment = Some("full_time_when_funded".into());
    b.stage = Some("users".into());
    b.city = "Lyon".into();
    b.country = "France".into();
    b.utc_offset_minutes = Some(120);
    b.traits.work_mode = 90;
    (a, b)
}

#[test]
fn role_fit_is_mirrored() {
    let (a, b) = pair();
    let ab = score_roles(&a, &b);
    let ba = score_roles(&b, &a);
    assert_eq!(ab.they, ba.you);
    assert_eq!(ab.you, ba.they);
    assert_eq!((ab.they.matched, ab.they.wanted), (1, 2));
    assert_eq!((ab.you.matched, ab.you.wanted), (1, 1));
}

#[test]
fn full_and_empty_role_coverage() {
    let full = coverage(&strings(&["gtm", "design", "research"]), &strings(&["design", "gtm"]));
    assert_eq!(full.matched, full.wanted);
    let none = coverage(&strings(&["research"]), &strings(&["design", "gtm"]));
    assert_eq!(none.matched, 0);
    assert_eq!(none.first, None);
}

#[test]
fn trait_misses_are_symmetric() {
    let (a, b) = pair();
    assert_eq!(score_traits(&a, &b).misses, score_traits(&b, &a).misses);
}

#[test]
fn situation_is_symmetric() {
    let (a, b) = pair();
    let ab = score_situation(&a, &b);
    let ba = score_situation(&b, &a);
    assert_eq!((ab.commitment_steps, ab.stage_steps), (ba.commitment_steps, ba.stage_steps));
    assert_eq!(ab.commitment_steps, Some(1));
    assert_eq!(ab.reason, ba.reason);
}

#[test]
fn interests_are_symmetric() {
    let (a, b) = pair();
    let ab = score_interests(&a, &b);
    let ba = score_interests(&b, &a);
    assert_eq!((ab.shared, ab.union), (ba.shared, ba.union));
    assert_eq!((ab.shared, ab.union), (1, 3));
    assert_eq!(ab.reason, ba.reason);
}

#[test]
fn geography_is_symmetric() {
    let (a, b) = pair();
    let ab = score_geography(&a, &b);
    let ba = score_geography(&b, &a);
    assert_eq!(ab.points, ba.points);
    assert_eq!(ab.points, 5);
    assert_eq!(ab.reason.as_deref(), Some("Within 1 hour of you"));
    assert_eq!(ab.reason, ba.reason);
}

fn profile_with_links(link: &str) -> ProfileInput {
    ProfileInput {
        display_name: "Grace".into(),
        headline: String::new(),
        bio: "Compilers.".into(),
        city: String::new(),
        country: String::new(),
        timezone: String::new(),
        utc_offset_minutes: None,
        linkedin_url: Some(link.into()),
        github_url: None,
        website_url: Some(format!(" {link} ")),
        roles: vec![],
        seeking_roles: vec![],
        idea_status: None,
        stage: None,
        commitment: None,
        interests: vec![],
    }
}

#[test]
fn script_links_are_never_accepted() {
    let mut p = profile_with_links("javascript:alert(1)");
    match normalize_and_validate(&mut p) {
        Err(ApiError::Validation(errors)) => {
            assert_eq!(errors.len(), 2);
            assert_eq!(errors[0].field, "linkedin_url");
            assert_eq!(errors[0].message, "must start with http:// or https://");
            assert_eq!(errors[1].field, "website_url");
        }
        other => panic!("unexpected {other:?}"),
    }
    let mut ok = profile_with_links("https://grace.dev");
    assert!(normalize_and_validate(&mut ok).is_ok());
    assert_eq!(ok.website_url.as_deref(), Some("https://grace.dev"));
}

#[test]
fn normalising_twice_changes_nothing() {
    let mut once = profile_with_links("  https://grace.dev  ");
    once.display_name = "  Grace  ".into();
    once.timezone = " Europe/Paris ".into();
    normalize_and_validate(&mut once).unwrap();
    let mut twice = once.clone();
    normalize_and_validate(&mut twice).unwrap();
    assert_eq!(twice.display_name, once.display_name);
    assert_eq!(twice.timezone, once.timezone);
    assert_eq!(twice.utc_offset_minutes, once.utc_offset_minutes);
    assert_eq!(twice.utc_offset_minutes, Some(60));
    assert_eq!(twice.linkedin_url, once.linkedin_url);
    assert_eq!(twice.website_url, once.website_url);
}

#[test]
fn trimming_settles_after_once() {
    let once = trim("\u{2003} spaced out \n");
    assert_eq!(trim(&once), once);
}

#[test]
fn a_label_exists_exactly_for_known_ids() {
    for id in ["engineering", "gtm", "nope", ""] {
        assert_eq!(label(&roles(), id).is_some(), contains(&roles(), id));
    }
}

#[test]
fn reading_the_recording_mailer_does_not_drain_it() {
    let mut m = cofounder_api::mailer::RecordingMailer::new();
    for i in 0..5 {
        m.send_login_link(&format!("u{i}@x.io"), &format!("link-{i}"));
    }
    let first = m.sent();
    assert_eq!(first.len(), 5);
    assert_eq!(first[4], ("u4@x.io".to_string(), "link-4".to_string()));
    assert_eq!(m.sent(), first);
}

#[test]
fn the_last_link_is_the_latest_of_a_run() {
    let mut m = cofounder_api::mailer::LastLinkMailer::new();
    for i in 0..4 {
        m.send_login_link("a@x.io", &format!("link-{i}"));
    }
    assert_eq!(m.last().as_deref(), Some("link-3"));
    assert_eq!(m.last().as_deref(), Some("link-3"));
}

#[test]
fn white_space_places_never_match() {
    let (mut a, mut b) = pair();
    a.city = "   ".into();
    b.city = "\t".into();
    a.country = "France".into();
    b.country = "France".into();
    a.utc_offset_minutes = None;
    let fit = score_geography(&a, &b);
    assert_eq!(fit.points, 0);
    assert_eq!(fit.reason, None);
}
