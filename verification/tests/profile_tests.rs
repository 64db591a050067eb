use cofounder_api::error::{ApiError, FieldError};
use cofounder_api::profiles::{
    build_view, check_choice, check_length, check_tags, empty_row, missing_requirements,
    normalize_and_validate, normalize_link, ProfileInput,
};
use cofounder_api::timezone::utc_offset_minutes;
use cofounder_api::vocab::{commitments, roles};

fn input() -> ProfileInput {
    ProfileInput {
        display_name: "  Ada  ".into(),
        headline: "Building tools".into(),
        bio: "\tI like compilers.\n".into(),
        city: " London ".into(),
        country: "UK".into(),
        timezone: " Europe/London ".into(),
        utc_offset_minutes: Some(999),
        linkedin_url: Some("   ".into()),
        github_url: Some(" https://github.com/ada ".into()),
        website_url: None,
        roles: vec!["engineering".into()],
        seeking_roles: vec!["gtm".into(), "design".into()],
        idea_status: Some("flexible_idea".into()),
        stage: Some("prototype".into()),
        commitment: Some("full_time_now".into()),
        interests: vec!["fintech".into(), "saas".into()],
    }
}

fn errors_of(result: Result<(), ApiError>) -> Vec<(String, String)> {
    match result {
        Err(ApiError::Validation(errors)) => {
            errors.into_iter().map(|e| (e.field, e.message)).collect()
        }
        Ok(()) => Vec::new(),
        Err(other) => panic!("unexpected {other:?}"),
    }
}

#[test]
fn a_good_profile_is_normalised_and_accepted() {
    let mut p = input();
    assert!(normalize_and_validate(&mut p).is_ok());
    assert_eq!(p.display_name, "Ada");
    assert_eq!(p.bio, "I like compilers.");
    assert_eq!(p.city, "London");
    assert_eq!(p.timezone, "Europe/London");
    assert_eq!(p.utc_offset_minutes, Some(0));
    assert_eq!(p.linkedin_url, None);
    assert_eq!(p.github_url.as_deref(), Some("https://github.com/ada"));
    assert_eq!(p.website_url, None);
}

#[test]
fn zone_offsets_are_taken_on_new_year() {
    assert_eq!(utc_offset_minutes("America/New_York"), Some(-300));
    assert_eq!(utc_offset_minutes(" Asia/Kolkata "), Some(330));
    // Southern-hemisphere zones are recorded at their January (summer) offset.
    assert_eq!(utc_offset_minutes("Australia/Sydney"), Some(660));
    assert_eq!(utc_offset_minutes("Mars/Olympus"), None);
    assert_eq!(utc_offset_minutes("   "), None);
}

#[test]
fn an_unknown_zone_is_a_validation_failure() {
    let mut p = input();
    p.timezone = "Nowhere/Special".into();
    assert_eq!(
        errors_of(normalize_and_validate(&mut p)),
        vec![(
            "timezone".to_string(),
            "is not a known timezone, for example Europe/London".to_string()
        )]
    );
    assert_eq!(p.utc_offset_minutes, None);
}

#[test]
fn a_blank_zone_clears_the_offset() {
    let mut p = input();
    p.timezone = "  ".into();
    assert!(normalize_and_validate(&mut p).is_ok());
    assert_eq!(p.utc_offset_minutes, None);
    assert_eq!(p.timezone, "");
}

#[test]
fn every_problem_is_reported_in_field_order() {
    let mut p = input();
    p.display_name = "x".repeat(81);
    p.roles = vec!["engineering".into(), "engineering".into()];
    p.interests = vec!["knitting".into()];
    p.stage = Some("unicorn".into());
    p.website_url = Some("javascript:alert(1)".into());
    assert_eq!(
        errors_of(normalize_and_validate(&mut p)),
        vec![
            ("display_name".to_string(), "must be 80 characters or fewer".to_string()),
            ("roles".to_string(), "lists engineering more than once".to_string()),
            ("interests".to_string(), "contains an unknown option: knitting".to_string()),
            ("stage".to_string(), "is not one of the available options".to_string()),
            ("website_url".to_string(), "must start with http:// or https://".to_string()),
        ]
    );
    assert_eq!(p.website_url.as_deref(), Some("javascript:alert(1)"));
}

#[test]
fn lengths_count_characters_not_bytes() {
    let mut errors: Vec<FieldError> = Vec::new();
    check_length(&mut errors, "bio", &"é".repeat(2000), 2000);
    assert!(errors.is_empty());
    check_length(&mut errors, "bio", &"é".repeat(2001), 2000);
    assert_eq!(errors.len(), 1);
    assert_eq!(errors[0].message, "must be 2000 characters or fewer");
}

#[test]
fn tag_lists_are_bounded() {
    let mut errors: Vec<FieldError> = Vec::new();
    let too_many: Vec<String> = (0..7).map(|_| "design".to_string()).collect();
    check_tags(&mut errors, "roles", &too_many, &roles(), 6);
    assert_eq!(errors.len(), 1);
    assert_eq!(errors[0].field, "roles");
    assert_eq!(errors[0].message, "may hold at most 6 selections");
}

#[test]
fn choices_must_come_from_the_vocabulary() {
    let mut errors: Vec<FieldError> = Vec::new();
    check_choice(&mut errors, "commitment", &Some("part_time".into()), &commitments());
    check_choice(&mut errors, "commitment", &None, &commitments());
    assert!(errors.is_empty());
    check_choice(&mut errors, "commitment", &Some("weekends".into()), &commitments());
    assert_eq!(errors[0].message, "is not one of the available options");
}

#[test]
fn links_are_checked_and_trimmed() {
    let mut errors: Vec<FieldError> = Vec::new();
    let mut link = Some(format!("http://{}", "a".repeat(300)));
    normalize_link(&mut errors, "website_url", &mut link);
    assert_eq!(errors.len(), 1);
    assert_eq!(errors[0].message, "must be 300 characters or fewer");
    let mut blank: Option<String> = None;
    normalize_link(&mut errors, "website_url", &mut blank);
    assert_eq!(blank, None);
    assert_eq!(errors.len(), 1);
}

#[test]
fn missing_requirements_are_listed_in_order() {
    let row = empty_row();
    assert_eq!(
        missing_requirements(&row, 0),
        vec!["bio", "roles", "seeking_roles", "commitment", "responses"]
    );
    let mut complete = empty_row();
    complete.bio = "hello".into();
    complete.roles = vec!["design".into()];
    complete.seeking_roles = vec!["engineering".into()];
    complete.commitment = Some("exploring".into());
    assert!(missing_requirements(&complete, 18).is_empty());
    assert_eq!(missing_requirements(&complete, 17), vec!["responses"]);
    let mut blank_bio = complete.clone();
    blank_bio.bio = "   ".into();
    assert_eq!(missing_requirements(&blank_bio, 18), vec!["bio"]);
}

#[test]
fn the_view_is_complete_only_without_missing_items() {
    let view = build_view(empty_row(), vec!["saas".into()], 18);
    assert!(!view.complete);
    assert_eq!(view.missing, vec!["bio", "roles", "seeking_roles", "commitment"]);
    assert_eq!(view.profile.interests, vec!["saas".to_string()]);
}
