//! Sum of squares over unbounded integers, with the byte layout of the
//! result that is handed across a C boundary, and a set of small verified
//! routines on numbers, text and records.

use vstd::prelude::*;

pub mod bigint;
pub mod boundary;
pub mod crate_helper_module;
pub mod decimal;
pub mod engine;
pub mod expressions;
pub mod generics;
pub mod guessing;
pub mod lifetime;
pub mod matching;
pub mod method;
pub mod submodule;
pub mod summary;
pub mod text;
pub mod users;

verus! {

/// Public at the crate root: any crate that links this one can call it.
pub fn public_api() {
}

} // verus!
