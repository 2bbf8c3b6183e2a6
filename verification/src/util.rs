//! Small formatting helpers with no dependencies on the rest of the crate.

use crate::text;
use vstd::prelude::*;

verus! {

/// The leading 8 characters of an id, which is what the UI shows in place of a full UUID.
pub fn short(s: &str) -> (r: String)
    ensures
        r@ == text::prefix(s@, 8),
{
    text::first_chars(s, 8)
}

} // verus!
