use cofounder_api::auth::{
    check_login_email, is_plausible_email, login_link, removal_cookie, session_cookie,
    SESSION_COOKIE,
};
use cofounder_api::config::{Config, ConfigError};
use cofounder_api::error::{ApiError, FieldError};
use cofounder_api::mailer::{LastLinkMailer, RecordingMailer};
use cofounder_api::messaging::{
    check_new_conversation_allowance, continue_can_message, ensure_can_message, ordered, preview,
    Conversation, MessagingCheck, MessagingStep,
};
use cofounder_api::moderation::{target, validate_report};
use cofounder_api::swipes::{
    check_swipe_target, completes_match, parse_direction, swipe_result, Direction, SwipeOutcome,
};
use cofounder_api::text::{decimal_text, trim};
use cofounder_api::tokens::{encode_token, generate_token, hash_token};
use cofounder_api::users::normalize;
use cofounder_api::vocab::{contains, interests, label, report_reasons, roles};

fn single(e: &ApiError) -> (String, String) {
    match e {
        ApiError::Validation(errors) if errors.len() == 1 => {
            (errors[0].field.clone(), errors[0].message.clone())
        }
        other => panic!("expected one field error, got {other:?}"),
    }
}

#[test]
fn plausible_emails() {
    assert!(is_plausible_email("ada@example.com"));
    assert!(is_plausible_email("  ada@example.co.uk \n"));
    assert!(is_plausible_email("a@b.c"));
    assert!(!is_plausible_email("ada.example.com"));
    assert!(!is_plausible_email("@example.com"));
    assert!(!is_plausible_email("ada@localhost"));
    assert!(!is_plausible_email("ada@.example.com"));
    assert!(!is_plausible_email("ada@example.com."));
    assert!(!is_plausible_email("ada lovelace@example.com"));
    assert!(!is_plausible_email(""));
    // Only the first @ splits; the rest belongs to the domain.
    assert!(is_plausible_email("ada@ex@ample.com"));
}

#[test]
fn an_implausible_address_is_refused() {
    let e = check_login_email("nope").unwrap_err();
    assert_eq!(single(&e), ("email".to_string(), "must be a valid email address".to_string()));
    assert!(check_login_email("ada@example.com").is_ok());
}

#[test]
fn login_links_carry_the_token() {
    assert_eq!(
        login_link("https://cofounder.example", "abc_123"),
        "https://cofounder.example/verify?token=abc_123"
    );
}

#[test]
fn session_cookies_are_locked_down() {
    let c = session_cookie("tok".into(), true, 30);
    assert_eq!(c.name, SESSION_COOKIE);
    assert_eq!(c.name, "session");
    assert_eq!(c.value, "tok");
    assert!(c.http_only && c.same_site_lax && c.secure);
    assert_eq!(c.path, "/");
    assert_eq!(c.max_age_days, Some(30));
    let r = removal_cookie();
    assert_eq!((r.name, r.value.as_str(), r.path), ("session", "", "/"));
}

#[test]
fn tokens_are_url_safe_and_random() {
    let a = generate_token().unwrap();
    let b = generate_token().unwrap();
    assert_eq!(a.len(), 43);
    assert!(a.chars().all(|c| c.is_ascii_alphanumeric() || c == '-' || c == '_'));
    assert_ne!(a, b);
}

#[test]
fn token_hashes_are_sha256() {
    let h = hash_token("abc");
    let hex: String = h.iter().map(|b| format!("{b:02x}")).collect();
    assert_eq!(hex, "ba7816bf8f01cfea414140de5dae2223b00361a396177a9cb410ff61f20015ad");
    assert_eq!(hash_token("abc"), h);
    assert_ne!(hash_token("abd"), h);
}

#[test]
fn emails_are_normalised() {
    assert_eq!(normalize("  Ada@Example.COM\t"), "ada@example.com");
}

#[test]
fn configuration_defaults_and_requirements() {
    let c = Config::from_settings(Some("postgres://db".into()), Some("https://x".into()), None, None)
        .unwrap();
    assert_eq!(c.app_env, "development");
    assert_eq!(c.bind_addr, "0.0.0.0:8080");
    assert!(c.is_development());
    let p = Config::from_settings(
        Some("postgres://db".into()),
        Some("https://x".into()),
        Some("production".into()),
        Some("127.0.0.1:9000".into()),
    )
    .unwrap();
    assert!(!p.is_development());
    assert_eq!(p.bind_addr, "127.0.0.1:9000");
    let e = Config::from_settings(None, Some("https://x".into()), None, None).unwrap_err();
    assert_eq!(e, ConfigError::MissingDatabaseUrl);
    assert_eq!(e.message(), "DATABASE_URL is required");
    let e = Config::from_settings(Some("db".into()), None, None, None).unwrap_err();
    assert_eq!(e.message(), "BASE_URL is required");
}

#[test]
fn the_recording_mailer_keeps_everything_in_order() {
    let mut m = RecordingMailer::new();
    assert!(m.sent().is_empty());
    m.send_login_link("a@x.io", "link-1");
    m.send_login_link("b@x.io", "link-2");
    assert_eq!(
        m.sent(),
        vec![
            ("a@x.io".to_string(), "link-1".to_string()),
            ("b@x.io".to_string(), "link-2".to_string())
        ]
    );
}

#[test]
fn the_last_link_mailer_remembers_the_latest() {
    let mut m = LastLinkMailer::new();
    assert_eq!(m.last(), None);
    m.send_login_link("a@x.io", "link-1");
    m.send_login_link("a@x.io", "link-2");
    assert_eq!(m.last().as_deref(), Some("link-2"));
}

fn run(sender: u128, other: u128, answers: [bool; 4]) -> Result<(), ApiError> {
    let mut step = ensure_can_message(sender, other);
    loop {
        match step {
            MessagingStep::Decided(result) => return result,
            MessagingStep::Ask(check) => {
                let answer = match check {
                    MessagingCheck::RecipientExists => answers[0],
                    MessagingCheck::SenderComplete => answers[1],
                    MessagingCheck::RecipientComplete => answers[2],
                    MessagingCheck::Blocked => answers[3],
                };
                step = continue_can_message(check, answer);
            }
        }
    }
}

#[test]
fn messaging_preconditions_in_order() {
    assert!(run(1, 2, [true, true, true, false]).is_ok());
    let e = run(1, 1, [true, true, true, false]).unwrap_err();
    assert_eq!(single(&e), ("user_id".to_string(), "you cannot message yourself".to_string()));
    assert!(matches!(run(1, 2, [false, true, true, false]), Err(ApiError::NotFound)));
    assert!(matches!(run(1, 2, [true, false, false, true]), Err(ApiError::ProfileIncomplete)));
    assert!(matches!(run(1, 2, [true, true, false, false]), Err(ApiError::Forbidden)));
    assert!(matches!(run(1, 2, [true, true, true, true]), Err(ApiError::Forbidden)));
}

#[test]
fn new_conversations_are_rate_limited() {
    assert!(check_new_conversation_allowance(9).is_ok());
    match check_new_conversation_allowance(10) {
        Err(ApiError::RateLimited { retry_after_seconds }) => assert_eq!(retry_after_seconds, 86_400),
        other => panic!("expected a rate limit, got {other:?}"),
    }
}

#[test]
fn pairs_are_ordered_either_way_round() {
    assert_eq!(ordered(9, 4), (4, 9));
    assert_eq!(ordered(4, 9), (4, 9));
    assert_eq!(ordered(7, 7), (7, 7));
}

#[test]
fn conversations_know_their_members() {
    let c = Conversation {
        id: 100,
        user_a_id: 1,
        user_b_id: 2,
        started_by: 2,
        created_at: 0,
        last_message_at: None,
    };
    assert!(c.includes(1) && c.includes(2) && !c.includes(3));
    assert_eq!(c.other_than(1), 2);
    assert_eq!(c.other_than(2), 1);
    assert_eq!(c.other_than(3), 3);
}

#[test]
fn swipes() {
    assert_eq!(parse_direction("left").unwrap(), Direction::Left);
    assert_eq!(parse_direction(Direction::Right.as_str()).unwrap(), Direction::Right);
    let e = parse_direction("up").unwrap_err();
    assert_eq!(single(&e), ("direction".to_string(), "must be left or right".to_string()));
    let e = check_swipe_target(5, 5).unwrap_err();
    assert_eq!(single(&e), ("target_id".to_string(), "you cannot swipe on yourself".to_string()));
    assert!(check_swipe_target(5, 6).is_ok());
    assert!(completes_match(Direction::Right, true));
    assert!(!completes_match(Direction::Left, true));
    assert!(!completes_match(Direction::Right, false));
    assert_eq!(swipe_result(Some(SwipeOutcome { matched: true })).unwrap(), SwipeOutcome { matched: true });
    assert!(matches!(swipe_result(None), Err(ApiError::Conflict)));
}

#[test]
fn reports_and_blocks() {
    let e = target(3, 3).unwrap_err();
    assert_eq!(single(&e), ("user_id".to_string(), "you cannot do that to yourself".to_string()));
    assert!(target(3, 4).is_ok());
    assert_eq!(validate_report("spam", "  buy now  ").unwrap(), "buy now");
    let e = validate_report("rude", "").unwrap_err();
    assert_eq!(single(&e), ("reason".to_string(), "is not one of the available reasons".to_string()));
    let e = validate_report("other", &"x".repeat(2001)).unwrap_err();
    assert_eq!(single(&e), ("body".to_string(), "must be 2000 characters or fewer".to_string()));
    assert!(validate_report("other", &format!(" {} ", "x".repeat(2000))).is_ok());
}

#[test]
fn problems_never_leak_internal_causes() {
    let p = ApiError::Internal("password=hunter2".into()).into_problem();
    assert_eq!(p.status, 500);
    assert_eq!(p.type_slug, "internal_error");
    assert_eq!(p.title, "something went wrong");
    assert!(p.internal);
    let p = ApiError::RateLimited { retry_after_seconds: 60 }.into_problem();
    assert_eq!((p.status, p.type_slug, p.retry_after), (429, "rate_limited", Some(60)));
    assert_eq!(p.title, "too many requests");
    let p = ApiError::Validation(vec![FieldError::new("bio", "too long")]).into_problem();
    assert_eq!((p.status, p.type_slug), (422, "validation_failed"));
    assert_eq!(p.errors.unwrap()[0].message, "too long");
    assert_eq!(ApiError::InvalidToken.status(), 400);
    assert_eq!(ApiError::InvalidToken.message(), "this login link is no longer valid");
    assert_eq!(ApiError::Unauthorized.type_slug(), "unauthorized");
    assert_eq!(ApiError::NotFound.status(), 404);
}

#[test]
fn vocabularies() {
    assert!(contains(&roles(), "gtm"));
    assert!(!contains(&roles(), "GTM"));
    assert_eq!(label(&roles(), "ops_finance"), Some("Ops / Finance"));
    assert_eq!(label(&interests(), "nope"), None);
    assert_eq!(interests().len(), 18);
    assert_eq!(report_reasons().len(), 5);
}

#[test]
fn text_helpers() {
    assert_eq!(trim("\u{3000} hi there \u{85}"), "hi there");
    assert_eq!(trim("   "), "");
    assert_eq!(decimal_text(0), "0");
    assert_eq!(decimal_text(2000), "2000");
    assert_eq!(decimal_text(u64::MAX), u64::MAX.to_string());
}

#[test]
fn previews_carry_the_first_hundred_characters() {
    assert_eq!(preview("short"), "short");
    let long: String = "é".repeat(150);
    assert_eq!(preview(&long), "é".repeat(100));
    assert_eq!(preview(""), "");
}

#[test]
fn token_text_is_unpadded_url_safe_base64() {
    let mut bytes = [0u8; 32];
    bytes[0] = 0xfb;
    bytes[1] = 0xff;
    bytes[31] = 0xbf;
    let t = encode_token(&bytes);
    assert_eq!(t.len(), 43);
    assert!(t.starts_with("-_8"));
    assert!(t.ends_with("AL8"));
    assert_eq!(encode_token(&[0u8; 32]), "A".repeat(43));
}
