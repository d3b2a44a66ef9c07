//! The marker that keeps the kinds of watch closed to this crate.

use vstd::prelude::*;

verus! {

/// Implemented only by the kinds of watch this crate defines.
pub trait Sealed {}

} // verus!
