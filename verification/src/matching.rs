//! Matching on an optional number.

use vstd::prelude::*;

verus! {

/// One more than the number inside, if there is one; nothing for nothing.
/// The successor has to fit in an `i32`.
pub fn plus_one(x: Option<i32>) -> (y: Option<i32>)
    requires
        x != Some(i32::MAX),
    ensures
        x is None ==> y is None,
        x matches Some(i) ==> (y matches Some(j) && j == i + 1),
{
    match x {
        None => None,
        Some(i) => Some(i + 1),
    }
}

} // verus!
