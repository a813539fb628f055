//! Small helpers for phrasing counts in English.

use vstd::prelude::*;

verus! {

/// The form of "to be" that agrees with `count` things.
pub fn correct_to_be_form(count: usize) -> (r: &'static str)
    ensures
        r@ == (if count == 1 { "is"@ } else { "are"@ }),
{
    if count == 1 {
        "is"
    } else {
        "are"
    }
}

/// The plural suffix for a noun that counts `count` things.
pub fn optional_s(count: usize) -> (r: &'static str)
    ensures
        r@ == (if count == 1 { ""@ } else { "s"@ }),
{
    if count == 1 {
        ""
    } else {
        "s"
    }
}

} // verus!
