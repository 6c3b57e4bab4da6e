//! A public module that reaches the crate's shared helpers.

use crate::crate_helper_module;
use vstd::prelude::*;

verus! {

/// Calls the shared helper: an item of this crate may use the public
/// interface of a sibling module.
pub fn my_method() {
    crate_helper_module::crate_helper();
}

/// The work behind `my_method`.
pub fn my_implementation() {
}

} // verus!
