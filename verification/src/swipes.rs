//! Swipes and the matches that mutual right swipes create.
use vstd::prelude::*;

use crate::error::{is_single_validation, ApiError};
use crate::text::same_text;

verus! {

#[derive(Debug, Clone, Copy, PartialEq, Eq, Structural)]
pub enum Direction {
    Left,
    Right,
}

pub open spec fn direction_text(d: Direction) -> Seq<char> {
    match d {
        Direction::Left => "left"@,
        Direction::Right => "right"@,
    }
}

impl Direction {
    pub fn as_str(self) -> (r: &'static str)
        ensures
            r@ == direction_text(self),
    {
        match self {
            Direction::Left => "left",
            Direction::Right => "right",
        }
    }
}

/// The direction named by a request. A bad value is reported in the same
/// validation shape as any other bad field.
pub fn parse_direction(s: &str) -> (r: Result<Direction, ApiError>)
    ensures
        match r {
            Ok(d) => direction_text(d) == s@,
            Err(e) => s@ != "left"@ && s@ != "right"@ && is_single_validation(
                e,
                "direction"@,
                "must be left or right"@,
            ),
        },
{
    if same_text(s, "left") {
        Ok(Direction::Left)
    } else if same_text(s, "right") {
        Ok(Direction::Right)
    } else {
        Err(ApiError::invalid_field("direction", "must be left or right"))
    }
}

/// A direction's name parses back to the same direction.
pub proof fn lemma_direction_round_trip(d: Direction, e: Direction)
    ensures
        direction_text(d) == direction_text(e) ==> d == e,
{
    reveal_strlit("left");
    reveal_strlit("right");
    if direction_text(d) == direction_text(e) && d != e {
        assert(direction_text(d).len() != direction_text(e).len());
    }
}

#[derive(Debug, Clone, Copy, PartialEq, Eq)]
pub struct SwipeOutcome {
    pub matched: bool,
}

/// Nobody swipes on themselves.
pub fn check_swipe_target(swiper_id: u128, target_id: u128) -> (r: Result<(), ApiError>)
    ensures
        match r {
            Ok(()) => swiper_id != target_id,
            Err(e) => swiper_id == target_id && is_single_validation(
                e,
                "target_id"@,
                "you cannot swipe on yourself"@,
            ),
        },
{
    if swiper_id == target_id {
        Err(ApiError::invalid_field("target_id", "you cannot swipe on yourself"))
    } else {
        Ok(())
    }
}

/// A swipe completes a match exactly when it is a right swipe answering a
/// right swipe from the target.
pub fn completes_match(direction: Direction, reciprocated: bool) -> (r: bool)
    ensures
        r == (direction == Direction::Right && reciprocated),
{
    direction == Direction::Right && reciprocated
}

/// What recording a swipe reports. Swipes are permanent, so a second swipe
/// on the same person (`None` from storage) is a conflict rather than an update.
pub fn swipe_result(recorded: Option<SwipeOutcome>) -> (r: Result<SwipeOutcome, ApiError>)
    ensures
        match recorded {
            Some(o) => r == Ok::<SwipeOutcome, ApiError>(o),
            None => r matches Err(ApiError::Conflict),
        },
{
    match recorded {
        Some(o) => Ok(o),
        None => Err(ApiError::Conflict),
    }
}

} // verus!
