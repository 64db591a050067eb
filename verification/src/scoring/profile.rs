//! What the scorer is allowed to see, and what it reports.
use vstd::prelude::*;

use crate::assessment::TraitScores;

verus! {

/// Everything the scorer is allowed to see about one person; the scorer
/// itself never touches storage.
#[derive(Debug, Clone, PartialEq, Eq)]
pub struct ScoredProfile {
    /// The user id's 128 bits, which order users as their ids do.
    pub user_id: u128,
    pub display_name: String,
    pub roles: Vec<String>,
    pub seeking_roles: Vec<String>,
    pub interests: Vec<String>,
    pub idea_status: Option<String>,
    pub stage: Option<String>,
    pub commitment: Option<String>,
    pub city: String,
    pub country: String,
    /// Derived from the IANA name when the profile is saved. `None` for a
    /// profile written before the column existed, or one with no timezone.
    pub utc_offset_minutes: Option<i16>,
    pub traits: TraitScores,
}

#[derive(Debug, Clone, Copy, PartialEq, Eq, Structural)]
pub enum Component {
    Roles,
    Traits,
    Situation,
    Interests,
    Geography,
}

/// One line of explanation on a card, and the component it comes from.
#[derive(Debug, Clone, PartialEq)]
pub struct Reason {
    pub component: Component,
    pub text: String,
}

impl View for Reason {
    type V = (Component, Seq<char>);

    open spec fn view(&self) -> (Component, Seq<char>) {
        (self.component, self.text@)
    }
}

#[derive(Debug, Clone, PartialEq)]
pub struct MatchScore {
    pub total: u16,
    pub reasons: Vec<Reason>,
}

} // verus!
