//! Helpers shared inside the crate.

use vstd::prelude::*;

verus! {

/// Usable by every module of the crate.
pub fn crate_helper() {
}

/// Visible in this module and its descendants only.
#[allow(dead_code)]
fn implementation_detail() {
}

} // verus!
