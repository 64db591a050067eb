//! Founder profiles: the stored and submitted shapes, the normalisation and
//! validation of a submitted profile, and the completeness rule.
use vstd::prelude::*;
use vstd::string::*;

use crate::error::{errors_view, ApiError, FieldError};
use crate::text::{
    decimal, decimal_text, lemma_trim_idempotent, starts_with, strings_view, text_starts_with, trim,
    trimmed,
};
use crate::timezone::{offset_minutes_for, utc_offset_minutes};
use crate::vocab::{
    choices_view, commitments, commitments_table, contains, has_id, idea_statuses,
    idea_statuses_table, interests, interests_table, roles, roles_table, stages, stages_table,
    Choice,
};

verus! {

pub const MAX_DISPLAY_NAME: usize = 80;
pub const MAX_HEADLINE: usize = 140;
pub const MAX_BIO: usize = 2000;
pub const MAX_PLACE: usize = 80;
pub const MAX_TIMEZONE: usize = 64;
pub const MAX_INTERESTS: usize = 10;
pub const MAX_LINK: usize = 300;
/// Every completeness requirement answers all of the questionnaire.
pub const TOTAL_QUESTIONS: usize = 18;

/// A stored profile.
#[derive(Debug, Clone, PartialEq, Eq)]
pub struct ProfileRow {
    pub display_name: String,
    pub headline: String,
    pub bio: String,
    pub city: String,
    pub country: String,
    pub timezone: String,
    /// Derived from `timezone` when the profile is saved.
    pub utc_offset_minutes: Option<i16>,
    pub linkedin_url: Option<String>,
    pub github_url: Option<String>,
    pub website_url: Option<String>,
    pub roles: Vec<String>,
    pub seeking_roles: Vec<String>,
    pub idea_status: Option<String>,
    pub stage: Option<String>,
    pub commitment: Option<String>,
}

/// The write shape. Every field is replaced on save: the profile is edited as
/// one document, so a partial update would silently discard whatever the form
/// did not send.
#[derive(Debug, Clone)]
pub struct ProfileInput {
    pub display_name: String,
    pub headline: String,
    pub bio: String,
    pub city: String,
    pub country: String,
    pub timezone: String,
    /// Filled in by validation from `timezone`; whatever the client sent is replaced.
    pub utc_offset_minutes: Option<i16>,
    pub linkedin_url: Option<String>,
    pub github_url: Option<String>,
    pub website_url: Option<String>,
    pub roles: Vec<String>,
    pub seeking_roles: Vec<String>,
    pub idea_status: Option<String>,
    pub stage: Option<String>,
    pub commitment: Option<String>,
    pub interests: Vec<String>,
}

/// What the client sees: the stored profile plus its interests, which live in
/// their own table but are edited as part of the same document.
#[derive(Debug)]
pub struct ProfileBody {
    pub profile: ProfileRow,
    pub interests: Vec<String>,
}

#[derive(Debug)]
pub struct ProfileView {
    pub profile: ProfileBody,
    pub complete: bool,
    pub missing: Vec<String>,
}

pub open spec fn opt_view(o: Option<String>) -> Option<Seq<char>> {
    match o {
        Some(s) => Some(s@),
        None => None,
    }
}

pub type Errors = Seq<(Seq<char>, Seq<char>)>;

pub open spec fn length_errors(field: Seq<char>, value: Seq<char>, max: nat) -> Errors {
    if value.len() > max {
        seq![(field, "must be "@ + decimal(max) + " characters or fewer"@)]
    } else {
        seq![]
    }
}

pub open spec fn choice_errors(
    field: Seq<char>,
    value: Option<Seq<char>>,
    choices: Seq<(Seq<char>, Seq<char>)>,
) -> Errors {
    match value {
        Some(id) => if has_id(choices, id) {
            seq![]
        } else {
            seq![(field, "is not one of the available options"@)]
        },
        None => seq![],
    }
}

/// The complaint about the first tag, from position `i` on, that is either not
/// in the vocabulary or repeats an earlier tag.
pub open spec fn tag_problem(
    values: Seq<Seq<char>>,
    choices: Seq<(Seq<char>, Seq<char>)>,
    i: int,
) -> Option<Seq<char>>
    decreases values.len() - i,
{
    if i < 0 || i >= values.len() {
        None
    } else if !has_id(choices, values[i]) {
        Some("contains an unknown option: "@ + values[i])
    } else if values.take(i).contains(values[i]) {
        Some("lists "@ + values[i] + " more than once"@)
    } else {
        tag_problem(values, choices, i + 1)
    }
}

pub open spec fn tag_errors(
    field: Seq<char>,
    values: Seq<Seq<char>>,
    choices: Seq<(Seq<char>, Seq<char>)>,
    max: nat,
) -> Errors {
    if values.len() > max {
        seq![(field, "may hold at most "@ + decimal(max) + " selections"@)]
    } else {
        match tag_problem(values, choices, 0) {
            Some(m) => seq![(field, m)],
            None => seq![],
        }
    }
}

/// A link after normalisation: blank means "not set".
pub open spec fn normalized_link(value: Option<Seq<char>>) -> Option<Seq<char>> {
    let t = trimmed(
        match value {
            Some(v) => v,
            None => Seq::<char>::empty(),
        },
    );
    if t.len() == 0 {
        None
    } else {
        Some(t)
    }
}

pub open spec fn is_web_address(t: Seq<char>) -> bool {
    starts_with(t, "http://"@) || starts_with(t, "https://"@)
}

pub open spec fn link_errors(field: Seq<char>, value: Option<Seq<char>>) -> Errors {
    match normalized_link(value) {
        None => seq![],
        Some(t) => (if is_web_address(t) {
            seq![]
        } else {
            seq![(field, "must start with http:// or https://"@)]
        }) + (if t.len() > 300 {
            seq![(field, "must be 300 characters or fewer"@)]
        } else {
            seq![]
        }),
    }
}

/// A named zone that cannot be resolved is a validation failure rather than a
/// silent null: the user typed something, and geography scoring would quietly
/// ignore it.
pub open spec fn timezone_errors(tz: Seq<char>) -> Errors {
    if tz.len() != 0 && offset_minutes_for(tz) is None {
        seq![("timezone"@, "is not a known timezone, for example Europe/London"@)]
    } else {
        seq![]
    }
}

/// Every complaint about a submitted profile, in the order they are reported.
pub open spec fn input_errors(i: ProfileInput) -> Errors {
    length_errors("display_name"@, trimmed(i.display_name@), MAX_DISPLAY_NAME as nat)
        + length_errors("headline"@, trimmed(i.headline@), MAX_HEADLINE as nat)
        + length_errors("bio"@, trimmed(i.bio@), MAX_BIO as nat)
        + length_errors("city"@, trimmed(i.city@), MAX_PLACE as nat)
        + length_errors("country"@, trimmed(i.country@), MAX_PLACE as nat)
        + length_errors("timezone"@, trimmed(i.timezone@), MAX_TIMEZONE as nat)
        + timezone_errors(trimmed(i.timezone@))
        + tag_errors("roles"@, strings_view(i.roles@), roles_table(), roles_table().len())
        + tag_errors("seeking_roles"@, strings_view(i.seeking_roles@), roles_table(), roles_table().len())
        + tag_errors("interests"@, strings_view(i.interests@), interests_table(), MAX_INTERESTS as nat)
        + choice_errors("idea_status"@, opt_view(i.idea_status), idea_statuses_table())
        + choice_errors("stage"@, opt_view(i.stage), stages_table())
        + choice_errors("commitment"@, opt_view(i.commitment), commitments_table())
        + link_errors("linkedin_url"@, opt_view(i.linkedin_url))
        + link_errors("github_url"@, opt_view(i.github_url))
        + link_errors("website_url"@, opt_view(i.website_url))
}

/// A submitted profile as it is stored: text trimmed, blank links cleared and
/// the zone offset derived from the zone name.
pub open spec fn is_normalized_from(n: ProfileInput, i: ProfileInput) -> bool {
    &&& n.display_name@ == trimmed(i.display_name@)
    &&& n.headline@ == trimmed(i.headline@)
    &&& n.bio@ == trimmed(i.bio@)
    &&& n.city@ == trimmed(i.city@)
    &&& n.country@ == trimmed(i.country@)
    &&& n.timezone@ == trimmed(i.timezone@)
    &&& n.utc_offset_minutes == offset_minutes_for(trimmed(i.timezone@))
    &&& opt_view(n.linkedin_url) == normalized_link(opt_view(i.linkedin_url))
    &&& opt_view(n.github_url) == normalized_link(opt_view(i.github_url))
    &&& opt_view(n.website_url) == normalized_link(opt_view(i.website_url))
    &&& n.roles == i.roles
    &&& n.seeking_roles == i.seeking_roles
    &&& n.interests == i.interests
    &&& n.idea_status == i.idea_status
    &&& n.stage == i.stage
    &&& n.commitment == i.commitment
}

/// A profile that has never been saved.
pub fn empty_row() -> (r: ProfileRow)
    ensures
        r.display_name@.len() == 0,
        r.headline@.len() == 0,
        r.bio@.len() == 0,
        r.city@.len() == 0,
        r.country@.len() == 0,
        r.timezone@.len() == 0,
        r.utc_offset_minutes is None,
        r.linkedin_url is None,
        r.github_url is None,
        r.website_url is None,
        r.roles@.len() == 0,
        r.seeking_roles@.len() == 0,
        r.idea_status is None,
        r.stage is None,
        r.commitment is None,
{
    ProfileRow {
        display_name: String::new(),
        headline: String::new(),
        bio: String::new(),
        city: String::new(),
        country: String::new(),
        timezone: String::new(),
        utc_offset_minutes: None,
        linkedin_url: None,
        github_url: None,
        website_url: None,
        roles: Vec::new(),
        seeking_roles: Vec::new(),
        idea_status: None,
        stage: None,
        commitment: None,
    }
}

fn push_error(errors: &mut Vec<FieldError>, field: &str, message: String)
    ensures
        errors_view(final(errors)@) == errors_view(old(errors)@).push((field@, message@)),
{
    errors.push(FieldError { field: String::from_str(field), message });
    assert(errors_view(errors@) =~= errors_view(old(errors)@).push((field@, message@)));
}

pub fn check_length(errors: &mut Vec<FieldError>, field: &str, value: &str, max: usize)
    ensures
        errors_view(final(errors)@) == errors_view(old(errors)@) + length_errors(
            field@,
            value@,
            max as nat,
        ),
{
    if value.unicode_len() > max {
        let mut message = String::from_str("must be ");
        let digits = decimal_text(max as u64);
        message.append(digits.as_str());
        message.append(" characters or fewer");
        push_error(errors, field, message);
    } else {
        assert(errors_view(errors@) =~= errors_view(old(errors)@) + Seq::<(Seq<char>, Seq<char>)>::empty());
    }
}

pub fn check_choice(
    errors: &mut Vec<FieldError>,
    field: &str,
    value: &Option<String>,
    choices: &[Choice],
)
    ensures
        errors_view(final(errors)@) == errors_view(old(errors)@) + choice_errors(
            field@,
            opt_view(*value),
            choices_view(choices@),
        ),
{
    if let Some(id) = value {
        if !contains(choices, id.as_str()) {
            push_error(errors, field, String::from_str("is not one of the available options"));
            return;
        }
    }
    assert(errors_view(errors@) =~= errors_view(old(errors)@) + Seq::<(Seq<char>, Seq<char>)>::empty());
}

/// Whether `values[i]` repeats one of the values before it.
fn repeats_earlier(values: &[String], i: usize) -> (r: bool)
    requires
        i < values@.len(),
    ensures
        r == strings_view(values@).take(i as int).contains(strings_view(values@)[i as int]),
{
    let ghost vs = strings_view(values@);
    let mut j: usize = 0;
    while j < i
        invariant
            j <= i < values@.len(),
            vs == strings_view(values@),
            forall|k: int| 0 <= k < j ==> vs[k] != vs[i as int],
        decreases i - j,
    {
        if crate::text::same_text(values[j].as_str(), values[i].as_str()) {
            assert(vs.take(i as int)[j as int] == vs[i as int]);
            return true;
        }
        j = j + 1;
    }
    assert forall|k: int| 0 <= k < vs.take(i as int).len() implies vs.take(i as int)[k] != vs[i as int] by {
        assert(vs.take(i as int)[k] == vs[k]);
    }
    false
}

pub fn check_tags(
    errors: &mut Vec<FieldError>,
    field: &str,
    values: &[String],
    choices: &[Choice],
    max: usize,
)
    ensures
        errors_view(final(errors)@) == errors_view(old(errors)@) + tag_errors(
            field@,
            strings_view(values@),
            choices_view(choices@),
            max as nat,
        ),
{
    let ghost vs = strings_view(values@);
    let ghost cs = choices_view(choices@);
    if values.len() > max {
        let mut message = String::from_str("may hold at most ");
        let digits = decimal_text(max as u64);
        message.append(digits.as_str());
        message.append(" selections");
        push_error(errors, field, message);
        return;
    }
    let mut i: usize = 0;
    while i < values.len()
        invariant
            i <= values@.len() <= max,
            vs == strings_view(values@),
            cs == choices_view(choices@),
            errors@ == old(errors)@,
            tag_problem(vs, cs, 0) == tag_problem(vs, cs, i as int),
        decreases values.len() - i,
    {
        if !contains(choices, values[i].as_str()) {
            let mut message = String::from_str("contains an unknown option: ");
            message.append(values[i].as_str());
            push_error(errors, field, message);
            return;
        }
        if repeats_earlier(values, i) {
            let mut message = String::from_str("lists ");
            message.append(values[i].as_str());
            message.append(" more than once");
            push_error(errors, field, message);
            return;
        }
        i = i + 1;
    }
    assert(errors_view(errors@) =~= errors_view(old(errors)@) + Seq::<(Seq<char>, Seq<char>)>::empty());
}

/// A blank link means "not set", not "invalid". Anything else must be an
/// ordinary web address: rendering an attacker-supplied `javascript:` URL as
/// an anchor is a stored XSS.
pub fn normalize_link(errors: &mut Vec<FieldError>, field: &str, value: &mut Option<String>)
    ensures
        opt_view(*final(value)) == normalized_link(opt_view(*old(value))),
        errors_view(final(errors)@) == errors_view(old(errors)@) + link_errors(
            field@,
            opt_view(*old(value)),
        ),
{
    let t = match value {
        Some(v) => trim(v.as_str()),
        None => trim(""),
    };
    proof {
        reveal_strlit("");
    }
    if t.as_str().is_empty() {
        *value = None;
        assert(errors_view(errors@) =~= errors_view(old(errors)@) + Seq::<(Seq<char>, Seq<char>)>::empty());
        return;
    }
    let ghost before = errors_view(errors@);
    let web = text_starts_with(t.as_str(), "http://") || text_starts_with(t.as_str(), "https://");
    if !web {
        push_error(errors, field, String::from_str("must start with http:// or https://"));
    }
    let ghost middle = errors_view(errors@);
    if t.unicode_len() > MAX_LINK {
        push_error(errors, field, String::from_str("must be 300 characters or fewer"));
    }
    assert(errors_view(errors@) =~= before + link_errors(field@, opt_view(*old(value))));
    *value = Some(t);
}

fn tag_check(errors: &mut Vec<FieldError>, field: &str, values: &Vec<String>, choices: Vec<Choice>, max: usize)
    ensures
        errors_view(final(errors)@) == errors_view(old(errors)@) + tag_errors(
            field@,
            strings_view(values@),
            choices_view(choices@),
            max as nat,
        ),
{
    check_tags(errors, field, values.as_slice(), choices.as_slice(), max);
}

/// Trims every text field, clears blank links, derives the zone offset, and
/// reports every problem with the result. `Ok` exactly when there is none.
#[verifier::rlimit(50)]
pub fn normalize_and_validate(input: &mut ProfileInput) -> (r: Result<(), ApiError>)
    ensures
        is_normalized_from(*final(input), *old(input)),
        match r {
            Ok(()) => input_errors(*old(input)).len() == 0,
            Err(e) => input_errors(*old(input)).len() != 0 && (e matches ApiError::Validation(es)
                && errors_view(es@) == input_errors(*old(input))),
        },
{
    let ghost given = *input;
    input.display_name = trim(input.display_name.as_str());
    input.headline = trim(input.headline.as_str());
    input.bio = trim(input.bio.as_str());
    input.city = trim(input.city.as_str());
    input.country = trim(input.country.as_str());
    input.timezone = trim(input.timezone.as_str());

    let mut errors: Vec<FieldError> = Vec::new();
    check_length(&mut errors, "display_name", input.display_name.as_str(), MAX_DISPLAY_NAME);
    check_length(&mut errors, "headline", input.headline.as_str(), MAX_HEADLINE);
    check_length(&mut errors, "bio", input.bio.as_str(), MAX_BIO);
    check_length(&mut errors, "city", input.city.as_str(), MAX_PLACE);
    check_length(&mut errors, "country", input.country.as_str(), MAX_PLACE);
    check_length(&mut errors, "timezone", input.timezone.as_str(), MAX_TIMEZONE);
    let ghost after_lengths = errors_view(errors@);

    if input.timezone.as_str().is_empty() {
        input.utc_offset_minutes = None;
        proof {
            reveal_strlit("");
        }
        assert(trimmed(Seq::<char>::empty()) == Seq::<char>::empty());
    } else {
        match utc_offset_minutes(input.timezone.as_str()) {
            Some(offset) => input.utc_offset_minutes = Some(offset),
            None => {
                input.utc_offset_minutes = None;
                push_error(
                    &mut errors,
                    "timezone",
                    String::from_str("is not a known timezone, for example Europe/London"),
                );
            },
        }
    }
    assert(errors_view(errors@) =~= after_lengths + timezone_errors(trimmed(given.timezone@)));

    let role_max = roles().len();
    tag_check(&mut errors, "roles", &input.roles, roles(), role_max);
    tag_check(&mut errors, "seeking_roles", &input.seeking_roles, roles(), role_max);
    tag_check(&mut errors, "interests", &input.interests, interests(), MAX_INTERESTS);

    let idea = idea_statuses();
    check_choice(&mut errors, "idea_status", &input.idea_status, idea.as_slice());
    let st = stages();
    check_choice(&mut errors, "stage", &input.stage, st.as_slice());
    let cm = commitments();
    check_choice(&mut errors, "commitment", &input.commitment, cm.as_slice());

    normalize_link(&mut errors, "linkedin_url", &mut input.linkedin_url);
    normalize_link(&mut errors, "github_url", &mut input.github_url);
    normalize_link(&mut errors, "website_url", &mut input.website_url);

    assert(errors_view(errors@) =~= input_errors(given));
    if errors.len() == 0 {
        Ok(())
    } else {
        Err(ApiError::Validation(errors))
    }
}

/// The completeness requirements a profile still misses, in the design's
/// order: bio, at least one role, at least one sought role, a commitment
/// level, and all 18 answers.
pub open spec fn missing_of(p: ProfileRow, answered: i64) -> Seq<Seq<char>> {
    (if trimmed(p.bio@).len() == 0 { seq!["bio"@] } else { seq![] })
        + (if p.roles@.len() == 0 { seq!["roles"@] } else { seq![] })
        + (if p.seeking_roles@.len() == 0 { seq!["seeking_roles"@] } else { seq![] })
        + (if p.commitment is None { seq!["commitment"@] } else { seq![] })
        + (if answered < TOTAL_QUESTIONS as i64 { seq!["responses"@] } else { seq![] })
}

/// Incomplete profiles never enter a deck and cannot message — this is the
/// primary spam filter.
pub fn missing_requirements(profile: &ProfileRow, answered: i64) -> (r: Vec<String>)
    ensures
        strings_view(r@) == missing_of(*profile, answered),
{
    let mut missing: Vec<String> = Vec::new();
    let ghost m0 = strings_view(missing@);
    let bio = trim(profile.bio.as_str());
    if bio.as_str().is_empty() {
        missing.push(String::from_str("bio"));
    }
    if profile.roles.len() == 0 {
        missing.push(String::from_str("roles"));
    }
    if profile.seeking_roles.len() == 0 {
        missing.push(String::from_str("seeking_roles"));
    }
    if profile.commitment.is_none() {
        missing.push(String::from_str("commitment"));
    }
    if answered < TOTAL_QUESTIONS as i64 {
        missing.push(String::from_str("responses"));
    }
    assert(strings_view(missing@) =~= missing_of(*profile, answered));
    missing
}

/// The client's view of a profile, given how many questions its owner has answered.
pub fn build_view(profile: ProfileRow, interests: Vec<String>, answered: i64) -> (v: ProfileView)
    ensures
        v.profile.profile == profile,
        v.profile.interests == interests,
        strings_view(v.missing@) == missing_of(profile, answered),
        v.complete == (missing_of(profile, answered).len() == 0),
{
    let missing = missing_requirements(&profile, answered);
    let complete = missing.len() == 0;
    ProfileView { profile: ProfileBody { profile, interests }, complete, missing }
}

/// An accepted profile only ever stores links that are ordinary web
/// addresses of at most 300 characters: an attacker-supplied `javascript:`
/// URL, rendered as an anchor, would be a stored XSS.
pub proof fn lemma_accepted_links_are_web_addresses(i: ProfileInput, n: ProfileInput)
    requires
        is_normalized_from(n, i),
        input_errors(i).len() == 0,
    ensures
        opt_view(n.linkedin_url) is None || (is_web_address(opt_view(n.linkedin_url)->0)
            && opt_view(n.linkedin_url)->0.len() <= MAX_LINK),
        opt_view(n.github_url) is None || (is_web_address(opt_view(n.github_url)->0)
            && opt_view(n.github_url)->0.len() <= MAX_LINK),
        opt_view(n.website_url) is None || (is_web_address(opt_view(n.website_url)->0)
            && opt_view(n.website_url)->0.len() <= MAX_LINK),
{
}

/// Normalising what normalisation produced changes nothing: a saved profile
/// saved again is stored as it was.
pub proof fn lemma_normalization_settles(i: ProfileInput, n: ProfileInput, m: ProfileInput)
    requires
        is_normalized_from(n, i),
        is_normalized_from(m, n),
    ensures
        m.display_name@ == n.display_name@,
        m.headline@ == n.headline@,
        m.bio@ == n.bio@,
        m.city@ == n.city@,
        m.country@ == n.country@,
        m.timezone@ == n.timezone@,
        m.utc_offset_minutes == n.utc_offset_minutes,
        opt_view(m.linkedin_url) == opt_view(n.linkedin_url),
        opt_view(m.github_url) == opt_view(n.github_url),
        opt_view(m.website_url) == opt_view(n.website_url),
        m.roles == n.roles,
        m.seeking_roles == n.seeking_roles,
        m.interests == n.interests,
        m.idea_status == n.idea_status,
        m.stage == n.stage,
        m.commitment == n.commitment,
{
    lemma_trim_idempotent(i.display_name@);
    lemma_trim_idempotent(i.headline@);
    lemma_trim_idempotent(i.bio@);
    lemma_trim_idempotent(i.city@);
    lemma_trim_idempotent(i.country@);
    lemma_trim_idempotent(i.timezone@);
    lemma_link_settles(opt_view(i.linkedin_url));
    lemma_link_settles(opt_view(i.github_url));
    lemma_link_settles(opt_view(i.website_url));
}

proof fn lemma_link_settles(v: Option<Seq<char>>)
    ensures
        normalized_link(normalized_link(v)) == normalized_link(v),
{
    let raw = match v {
        Some(x) => x,
        None => Seq::<char>::empty(),
    };
    lemma_trim_idempotent(raw);
    assert(trimmed(Seq::<char>::empty()) =~= Seq::<char>::empty());
}

/// Each requirement is reported missing exactly when the profile lacks it: a
/// bio that is blank once trimmed, no role of its own (whatever it seeks), no
/// sought role, no commitment, fewer than all 18 answers. The profile is
/// complete exactly when none is lacking.
pub proof fn lemma_missing_means_lacking(p: ProfileRow, answered: i64)
    ensures
        missing_of(p, answered).contains("bio"@) <==> trimmed(p.bio@).len() == 0,
        missing_of(p, answered).contains("roles"@) <==> p.roles@.len() == 0,
        missing_of(p, answered).contains("seeking_roles"@) <==> p.seeking_roles@.len() == 0,
        missing_of(p, answered).contains("commitment"@) <==> p.commitment is None,
        missing_of(p, answered).contains("responses"@) <==> answered < 18,
        missing_of(p, answered).len() == 0 <==> (trimmed(p.bio@).len() != 0 && p.roles@.len() != 0
            && p.seeking_roles@.len() != 0 && p.commitment is Some && answered >= 18),
{
    reveal_strlit("bio");
    reveal_strlit("roles");
    reveal_strlit("seeking_roles");
    reveal_strlit("commitment");
    reveal_strlit("responses");
    let b1: Seq<Seq<char>> = if trimmed(p.bio@).len() == 0 { seq!["bio"@] } else { seq![] };
    let b2: Seq<Seq<char>> = if p.roles@.len() == 0 { seq!["roles"@] } else { seq![] };
    let b3: Seq<Seq<char>> = if p.seeking_roles@.len() == 0 { seq!["seeking_roles"@] } else { seq![] };
    let b4: Seq<Seq<char>> = if p.commitment is None { seq!["commitment"@] } else { seq![] };
    let b5: Seq<Seq<char>> = if answered < 18 { seq!["responses"@] } else { seq![] };
    assert(missing_of(p, answered) == b1 + b2 + b3 + b4 + b5);
    assert("bio"@[0] == 'b' && "roles"@[0] == 'r' && "seeking_roles"@[0] == 's');
    assert("commitment"@[0] == 'c' && "responses"@[0] == 'r');
    assert("roles"@.len() == 5 && "responses"@.len() == 9);
    assert forall|e: Seq<char>| #[trigger] missing_of(p, answered).contains(e) <==> (b1.contains(e)
        || b2.contains(e) || b3.contains(e) || b4.contains(e) || b5.contains(e)) by {
        lemma_contains_concat(b1, b2, e);
        lemma_contains_concat(b1 + b2, b3, e);
        lemma_contains_concat(b1 + b2 + b3, b4, e);
        lemma_contains_concat(b1 + b2 + b3 + b4, b5, e);
    }
    assert forall|n: Seq<char>, e: Seq<char>| #[trigger] seq![n].contains(e) <==> n == e by {
        if n == e {
            assert(seq![n][0] == e);
        }
    }
    assert(missing_of(p, answered).contains("bio"@) == b1.contains("bio"@));
    assert(missing_of(p, answered).contains("roles"@) == b2.contains("roles"@));
    assert(missing_of(p, answered).contains("seeking_roles"@) == b3.contains("seeking_roles"@));
    assert(missing_of(p, answered).contains("commitment"@) == b4.contains("commitment"@));
    assert(missing_of(p, answered).contains("responses"@) == b5.contains("responses"@));
}

proof fn lemma_contains_concat<A>(x: Seq<A>, y: Seq<A>, e: A)
    ensures
        (x + y).contains(e) <==> (x.contains(e) || y.contains(e)),
{
    if (x + y).contains(e) {
        let i = choose|i: int| 0 <= i < (x + y).len() && (x + y)[i] == e;
        if i < x.len() {
            assert(x[i] == e);
        } else {
            assert(y[i - x.len()] == e);
        }
    }
    if x.contains(e) {
        let i = choose|i: int| 0 <= i < x.len() && x[i] == e;
        assert((x + y)[i] == e);
    }
    if y.contains(e) {
        let i = choose|i: int| 0 <= i < y.len() && y[i] == e;
        assert((x + y)[i + x.len()] == e);
    }
}

/// A list of interests that is short enough, names only known interests and
/// repeats none.
pub open spec fn acceptable_interests(v: Seq<Seq<char>>) -> bool {
    &&& v.len() <= 10
    &&& v.no_duplicates()
    &&& forall|k: int| 0 <= k < v.len() ==> has_id(interests_table(), #[trigger] v[k])
}

proof fn lemma_no_tag_problem(values: Seq<Seq<char>>, choices: Seq<(Seq<char>, Seq<char>)>, i: int)
    requires
        0 <= i,
        values.no_duplicates(),
        forall|k: int| 0 <= k < values.len() ==> has_id(choices, #[trigger] values[k]),
    ensures
        tag_problem(values, choices, i) is None,
    decreases values.len() - i,
{
    if i < values.len() {
        assert(has_id(choices, values[i]));
        if values.take(i).contains(values[i]) {
            let k = choose|k: int| 0 <= k < values.take(i).len() && values.take(i)[k] == values[i];
            assert(values[k] == values[i]);
        }
        lemma_no_tag_problem(values, choices, i + 1);
    }
}

/// Up to ten interests are allowed: two profiles that differ only in their
/// interests, each naming at most ten distinct known interests, draw exactly
/// the same complaints, so such a list never causes one.
pub proof fn lemma_up_to_ten_interests_are_accepted(i: ProfileInput, j: ProfileInput)
    requires
        acceptable_interests(strings_view(i.interests@)),
        acceptable_interests(strings_view(j.interests@)),
        i.display_name == j.display_name,
        i.headline == j.headline,
        i.bio == j.bio,
        i.city == j.city,
        i.country == j.country,
        i.timezone == j.timezone,
        i.linkedin_url == j.linkedin_url,
        i.github_url == j.github_url,
        i.website_url == j.website_url,
        i.roles == j.roles,
        i.seeking_roles == j.seeking_roles,
        i.idea_status == j.idea_status,
        i.stage == j.stage,
        i.commitment == j.commitment,
    ensures
        input_errors(i) == input_errors(j),
{
    lemma_no_tag_problem(strings_view(i.interests@), interests_table(), 0);
    lemma_no_tag_problem(strings_view(j.interests@), interests_table(), 0);
}

/// More than ten interests are always refused for their number.
pub proof fn lemma_more_than_ten_interests_are_refused(i: ProfileInput)
    requires
        strings_view(i.interests@).len() > 10,
    ensures
        input_errors(i).contains(("interests"@, "may hold at most 10 selections"@)),
{
    reveal_strlit("may hold at most ");
    reveal_strlit(" selections");
    reveal_strlit("may hold at most 10 selections");
    reveal_with_fuel(decimal, 2);
    let e = ("interests"@, "may hold at most 10 selections"@);
    assert("may hold at most "@ + decimal(10) + " selections"@ =~= "may hold at most 10 selections"@);
    let t = tag_errors("interests"@, strings_view(i.interests@), interests_table(), MAX_INTERESTS as nat);
    assert(t == seq![e]);
    let pre = length_errors("display_name"@, trimmed(i.display_name@), MAX_DISPLAY_NAME as nat)
        + length_errors("headline"@, trimmed(i.headline@), MAX_HEADLINE as nat)
        + length_errors("bio"@, trimmed(i.bio@), MAX_BIO as nat)
        + length_errors("city"@, trimmed(i.city@), MAX_PLACE as nat)
        + length_errors("country"@, trimmed(i.country@), MAX_PLACE as nat)
        + length_errors("timezone"@, trimmed(i.timezone@), MAX_TIMEZONE as nat)
        + timezone_errors(trimmed(i.timezone@))
        + tag_errors("roles"@, strings_view(i.roles@), roles_table(), roles_table().len())
        + tag_errors("seeking_roles"@, strings_view(i.seeking_roles@), roles_table(), roles_table().len());
    lemma_contains_concat(pre, t, e);
    assert(t[0] == e);
    assert((pre + t).contains(e));
    let rest = choice_errors("idea_status"@, opt_view(i.idea_status), idea_statuses_table())
        + choice_errors("stage"@, opt_view(i.stage), stages_table())
        + choice_errors("commitment"@, opt_view(i.commitment), commitments_table())
        + link_errors("linkedin_url"@, opt_view(i.linkedin_url))
        + link_errors("github_url"@, opt_view(i.github_url))
        + link_errors("website_url"@, opt_view(i.website_url));
    assert(input_errors(i) =~= (pre + t) + rest);
    lemma_contains_concat(pre + t, rest, e);
}

} // verus!
