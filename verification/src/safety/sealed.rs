//! Seals the safety-mode trait so that no other crate can add a third mode.

use vstd::prelude::*;

verus! {

/// Sealed supertrait: only the two marker types of this crate implement it.
pub trait Safety: Copy + Clone + PartialEq + Eq + PartialOrd + Ord + core::fmt::Debug + core::hash::Hash {

}

} // verus!
