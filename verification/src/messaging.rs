//! Who may message whom, conversations between two people, and the limit on
//! starting new ones.
use vstd::prelude::*;
use vstd::string::*;

use crate::error::{is_single_validation, ApiError};

verus! {

/// Ten new conversations per rolling twenty-four hours. Replies within an
/// existing conversation are unlimited: the limit exists to stop bulk
/// outreach, not to ration talking to someone who answered.
pub const MAX_NEW_CONVERSATIONS_PER_DAY: i64 = 10;
pub const NEW_CONVERSATION_WINDOW_MINUTES: i64 = 1440;

/// A message to send in a conversation.
#[derive(Debug, Clone)]
pub struct SendMessageRequest {
    pub body: String,
}

/// How many characters of a message a notification carries.
pub const PREVIEW_CHARS: usize = 100;

/// The start of a message, enough to render a notification without a second
/// request but not the whole body: its first `PREVIEW_CHARS` characters.
pub fn preview(body: &str) -> (r: String)
    ensures
        r@ == body@.take(if body@.len() < PREVIEW_CHARS { body@.len() as int } else { PREVIEW_CHARS as int }),
{
    let n = body.unicode_len();
    let end = if n < PREVIEW_CHARS { n } else { PREVIEW_CHARS };
    let r = String::from_str(body.substring_char(0, end));
    assert(r@ =~= body@.take(end as int));
    r
}

/// The two ids in a fixed order, so a pair is one row whichever way round it is given.
pub open spec fn ordered_pair(a: u128, b: u128) -> (u128, u128) {
    if a < b {
        (a, b)
    } else {
        (b, a)
    }
}

pub fn ordered(a: u128, b: u128) -> (r: (u128, u128))
    ensures
        r == ordered_pair(a, b),
{
    if a < b {
        (a, b)
    } else {
        (b, a)
    }
}

/// A conversation between two people. Ids are the users' 128-bit ids;
/// times are microseconds since the Unix epoch.
#[derive(Debug, Clone, Copy, PartialEq, Eq)]
pub struct Conversation {
    pub id: u128,
    pub user_a_id: u128,
    pub user_b_id: u128,
    pub started_by: u128,
    pub created_at: i64,
    pub last_message_at: Option<i64>,
}

impl Conversation {
    pub open spec fn has_member(self, user_id: u128) -> bool {
        self.user_a_id == user_id || self.user_b_id == user_id
    }

    /// The member who is not `user_id`; `user_id` itself for a non-member.
    pub open spec fn other_member(self, user_id: u128) -> u128 {
        if self.user_a_id == user_id {
            self.user_b_id
        } else if self.user_b_id == user_id {
            self.user_a_id
        } else {
            user_id
        }
    }

    pub fn includes(&self, user_id: u128) -> (r: bool)
        ensures
            r == self.has_member(user_id),
    {
        self.user_a_id == user_id || self.user_b_id == user_id
    }

    /// The participant who is not `user_id`. Callers have already checked
    /// membership, so a conversation the user is not in returns their own id
    /// rather than panicking.
    pub fn other_than(&self, user_id: u128) -> (r: u128)
        ensures
            r == self.other_member(user_id),
    {
        if self.user_a_id == user_id {
            self.user_b_id
        } else if self.user_b_id == user_id {
            self.user_a_id
        } else {
            user_id
        }
    }
}

/// A fact about the two people that decides whether one may message the other.
#[derive(Debug, Clone, Copy, PartialEq, Eq, Structural)]
pub enum MessagingCheck {
    /// Does the recipient exist?
    RecipientExists,
    /// Is the sender's profile complete?
    SenderComplete,
    /// Is the recipient's profile complete? Someone who cannot appear in a
    /// deck cannot be written to either.
    RecipientComplete,
    /// Has either blocked the other?
    Blocked,
}

/// Why a message is refused.
#[derive(Debug, Clone, Copy, PartialEq, Eq, Structural)]
pub enum Denial {
    SelfTarget,
    UnknownRecipient,
    SenderIncomplete,
    Forbidden,
}

/// The error each refusal is reported as.
pub open spec fn reports(e: ApiError, d: Denial) -> bool {
    match d {
        Denial::SelfTarget => is_single_validation(e, "user_id"@, "you cannot message yourself"@),
        Denial::UnknownRecipient => e is NotFound,
        Denial::SenderIncomplete => e is ProfileIncomplete,
        Denial::Forbidden => e is Forbidden,
    }
}

/// The answers to every check, for stating what the checks decide.
pub struct MessagingFacts {
    pub recipient_exists: bool,
    pub sender_complete: bool,
    pub recipient_complete: bool,
    pub blocked: bool,
}

/// Every precondition for one person messaging another, in one place: not
/// oneself, the recipient exists, both profiles are complete, and neither
/// has blocked the other.
pub open spec fn message_denial(sender_id: u128, other_id: u128, f: MessagingFacts) -> Option<Denial> {
    if sender_id == other_id {
        Some(Denial::SelfTarget)
    } else if !f.recipient_exists {
        Some(Denial::UnknownRecipient)
    } else if !f.sender_complete {
        Some(Denial::SenderIncomplete)
    } else if !f.recipient_complete {
        Some(Denial::Forbidden)
    } else if f.blocked {
        Some(Denial::Forbidden)
    } else {
        None
    }
}

/// Where the checks stand: a fact still to look up, or the decision.
#[derive(Debug)]
pub enum MessagingStep {
    Ask(MessagingCheck),
    Decided(Result<(), ApiError>),
}

/// The same, with a refusal in place of its error.
pub enum StepSpec {
    Ask(MessagingCheck),
    Decided(Option<Denial>),
}

pub open spec fn step_is(s: MessagingStep, t: StepSpec) -> bool {
    match (s, t) {
        (MessagingStep::Ask(c), StepSpec::Ask(d)) => c == d,
        (MessagingStep::Decided(Ok(())), StepSpec::Decided(None)) => true,
        (MessagingStep::Decided(Err(e)), StepSpec::Decided(Some(d))) => reports(e, d),
        _ => false,
    }
}

pub open spec fn first_step(sender_id: u128, other_id: u128) -> StepSpec {
    if sender_id == other_id {
        StepSpec::Decided(Some(Denial::SelfTarget))
    } else {
        StepSpec::Ask(MessagingCheck::RecipientExists)
    }
}

pub open spec fn next_step(check: MessagingCheck, answer: bool) -> StepSpec {
    match check {
        MessagingCheck::RecipientExists => if answer {
            StepSpec::Ask(MessagingCheck::SenderComplete)
        } else {
            StepSpec::Decided(Some(Denial::UnknownRecipient))
        },
        MessagingCheck::SenderComplete => if answer {
            StepSpec::Ask(MessagingCheck::RecipientComplete)
        } else {
            StepSpec::Decided(Some(Denial::SenderIncomplete))
        },
        MessagingCheck::RecipientComplete => if answer {
            StepSpec::Ask(MessagingCheck::Blocked)
        } else {
            StepSpec::Decided(Some(Denial::Forbidden))
        },
        MessagingCheck::Blocked => if answer {
            StepSpec::Decided(Some(Denial::Forbidden))
        } else {
            StepSpec::Decided(None)
        },
    }
}

/// The first step of deciding whether `sender_id` may message `other_id`:
/// messaging oneself is refused before anything is looked up.
pub fn ensure_can_message(sender_id: u128, other_id: u128) -> (s: MessagingStep)
    ensures
        step_is(s, first_step(sender_id, other_id)),
{
    if sender_id == other_id {
        MessagingStep::Decided(Err(ApiError::invalid_field("user_id", "you cannot message yourself")))
    } else {
        MessagingStep::Ask(MessagingCheck::RecipientExists)
    }
}

/// The step after looking up `check` and finding `answer`.
pub fn continue_can_message(check: MessagingCheck, answer: bool) -> (s: MessagingStep)
    ensures
        step_is(s, next_step(check, answer)),
{
    match check {
        MessagingCheck::RecipientExists => if answer {
            MessagingStep::Ask(MessagingCheck::SenderComplete)
        } else {
            MessagingStep::Decided(Err(ApiError::NotFound))
        },
        MessagingCheck::SenderComplete => if answer {
            MessagingStep::Ask(MessagingCheck::RecipientComplete)
        } else {
            MessagingStep::Decided(Err(ApiError::ProfileIncomplete))
        },
        MessagingCheck::RecipientComplete => if answer {
            MessagingStep::Ask(MessagingCheck::Blocked)
        } else {
            MessagingStep::Decided(Err(ApiError::Forbidden))
        },
        MessagingCheck::Blocked => if answer {
            MessagingStep::Decided(Err(ApiError::Forbidden))
        } else {
            MessagingStep::Decided(Ok(()))
        },
    }
}

pub open spec fn answer_of(check: MessagingCheck, f: MessagingFacts) -> bool {
    match check {
        MessagingCheck::RecipientExists => f.recipient_exists,
        MessagingCheck::SenderComplete => f.sender_complete,
        MessagingCheck::RecipientComplete => f.recipient_complete,
        MessagingCheck::Blocked => f.blocked,
    }
}

/// Follows the checks, answering each from `f`, for at most `fuel` lookups.
pub open spec fn run_checks(s: StepSpec, f: MessagingFacts, fuel: nat) -> StepSpec
    decreases fuel,
{
    match s {
        StepSpec::Ask(c) => if fuel == 0 {
            s
        } else {
            run_checks(next_step(c, answer_of(c, f)), f, (fuel - 1) as nat)
        },
        StepSpec::Decided(_) => s,
    }
}

/// Answering the checks one after another, as they are asked, always reaches
/// a decision within four lookups, and that decision is the messaging rule.
pub proof fn lemma_checks_decide_the_rule(sender_id: u128, other_id: u128, f: MessagingFacts)
    ensures
        run_checks(first_step(sender_id, other_id), f, 4) == StepSpec::Decided(
            message_denial(sender_id, other_id, f),
        ),
{
    reveal_with_fuel(run_checks, 5);
}

/// Whether a new conversation may be started by someone who has started
/// `started` within the window: refused, with the window as the wait, once
/// the daily allowance is used up. Reopening an existing thread never
/// reaches this check.
pub fn check_new_conversation_allowance(started: i64) -> (r: Result<(), ApiError>)
    ensures
        match r {
            Ok(()) => started < MAX_NEW_CONVERSATIONS_PER_DAY,
            Err(e) => started >= MAX_NEW_CONVERSATIONS_PER_DAY && e == ApiError::RateLimited {
                retry_after_seconds: (NEW_CONVERSATION_WINDOW_MINUTES * 60) as u64,
            },
        },
{
    if started >= MAX_NEW_CONVERSATIONS_PER_DAY {
        Err(ApiError::RateLimited { retry_after_seconds: (NEW_CONVERSATION_WINDOW_MINUTES * 60) as u64 })
    } else {
        Ok(())
    }
}

/// `ordered` puts the smaller id first and gives the same pair whichever way
/// round the two are given, so one conversation or match serves both.
pub proof fn lemma_ordered_is_symmetric(a: u128, b: u128)
    ensures
        ordered_pair(a, b) == ordered_pair(b, a),
        ordered_pair(a, b).0 <= ordered_pair(a, b).1,
        (ordered_pair(a, b) == (a, b)) || (ordered_pair(a, b) == (b, a)),
{
}

/// For a member of a two-person conversation, `other_than` names the other
/// member, and asking for the other of that gives the member back.
pub proof fn lemma_other_than_is_the_other_member(c: Conversation, user_id: u128)
    requires
        c.has_member(user_id),
        c.user_a_id != c.user_b_id,
    ensures
        c.has_member(c.other_member(user_id)),
        c.other_member(user_id) != user_id,
        c.other_member(c.other_member(user_id)) == user_id,
{
}

} // verus!
