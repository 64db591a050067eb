//! Accounts.
use vstd::prelude::*;

use crate::text::{lowercase, trim, trimmed, unicode_lowercase};

verus! {

/// An email address as it is stored and looked up: trimmed and lower-cased,
/// so that one mailbox is one account however it was typed.
pub fn normalize(email: &str) -> (r: String)
    ensures
        r@ == unicode_lowercase(trimmed(email@)),
        r@.len() == 0 <==> trimmed(email@).len() == 0,
{
    let t = trim(email);
    lowercase(t.as_str())
}

} // verus!
