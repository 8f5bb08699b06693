//! Home of the `Safety` sealed type and its two variants [`Checked`] and [`Unchecked`].

use vstd::prelude::*;

mod sealed;

verus! {

/// Enforces using only checked arithmetic operations with an amount.
///
/// This is a zero-sized marker type meant only for use in type bounds.
#[derive(Copy, Clone, PartialEq, Eq, PartialOrd, Ord, Debug, Hash)]
pub struct Checked;

/// Allows the full set of arithmetic operations with an amount, including operations that are
/// rejected (by precondition) on inputs that would overflow, underflow or divide by zero.
///
/// This is a zero-sized marker type meant only for use in type bounds.
#[derive(Copy, Clone, PartialEq, Eq, PartialOrd, Ord, Debug, Hash)]
pub struct Unchecked;

impl sealed::Safety for Unchecked {

}

impl sealed::Safety for Checked {

}

/// The safety level of arithmetic operations. Can be set to either [`Checked`] or [`Unchecked`].
///
/// When [`Unchecked`], the full suite of arithmetic operations is allowed, with fatal inputs
/// (overflow, underflow, division by zero) ruled out by each operation's precondition.
///
/// When [`Checked`] is selected, only checked arithmetic operations are available: every
/// fallible operation returns an optional result that the caller must consume.
pub trait Safety: sealed::Safety {

}

impl<S: sealed::Safety> Safety for S {

}

} // verus!
