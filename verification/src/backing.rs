//! The [`Backing`] trait: the contract an integer type must meet to back an amount
//! of some currency, together with its implementation for `u64`.

use vstd::prelude::*;

verus! {

/// Provides access to the count of trailing zero bits without needing a full
/// primitive-integer trait hierarchy.
pub trait TrailingZeros {
    /// The number of trailing zero bits, at the specification level.
    spec fn spec_trailing_zeros(&self) -> u32;

    /// Returns the number of trailing zeros at the end of `self`.
    fn trailing_zeros(&self) -> (r: u32)
        ensures
            r == self.spec_trailing_zeros(),
    ;
}

impl TrailingZeros for u64 {
    open spec fn spec_trailing_zeros(&self) -> u32 {
        vstd::std_specs::bits::u64_trailing_zeros(*self)
    }

    fn trailing_zeros(&self) -> (r: u32) {
        u64::trailing_zeros(*self)
    }
}

/// Implemented by types capable of being used as the backing integer for an amount
/// of some currency.
///
/// A backing type stands for an unsigned integer in `[0, modulus())`. Every operation
/// is specified against that mathematical value: operations whose result would leave
/// the range either carry a precondition ruling such inputs out (the unchecked family)
/// or return `None` exactly on those inputs (the checked family).
pub trait Backing: Copy + Clone + PartialEq + Eq + PartialOrd + Ord + core::hash::Hash + core::fmt::Debug + TrailingZeros + Sized {
    /// The mathematical value this backing integer stands for.
    spec fn bval(self) -> nat;

    /// One more than the largest representable value.
    spec fn modulus() -> nat;

    /// Every backing type spans at least the range of `u64`.
    proof fn lemma_modulus()
        ensures
            Self::modulus() >= 0x1_0000_0000_0000_0000,
    ;

    /// A backing value always lies below the modulus.
    proof fn lemma_bval_bounded(self)
        ensures
            self.bval() < Self::modulus(),
    ;

    /// Widens a `u64`, which always fits.
    fn b_from_u64(v: u64) -> (r: Self)
        ensures
            r.bval() == v as nat,
    ;

    /// Widens a `u128` that is known to fit.
    fn b_from_u128(v: u128) -> (r: Self)
        requires
            (v as nat) < Self::modulus(),
        ensures
            r.bval() == v as nat,
    ;

    /// Narrows to a `u64`; absent exactly when the value does not fit.
    fn b_to_u64(self) -> (r: Option<u64>)
        ensures
            self.bval() <= u64::MAX as nat ==> (r matches Some(v) && v as nat == self.bval()),
            self.bval() > u64::MAX as nat ==> r is None,
    ;

    /// Value equality.
    fn b_eq(self, rhs: Self) -> (r: bool)
        ensures
            r <==> self.bval() == rhs.bval(),
    ;

    /// Value ordering.
    fn b_lt(self, rhs: Self) -> (r: bool)
        ensures
            r <==> self.bval() < rhs.bval(),
    ;

    /// Whether the value is zero.
    fn b_is_zero(self) -> (r: bool)
        ensures
            r <==> self.bval() == 0,
    ;

    /// Exact addition; overflowing inputs are ruled out.
    fn b_add(self, rhs: Self) -> (r: Self)
        requires
            self.bval() + rhs.bval() < Self::modulus(),
        ensures
            r.bval() == self.bval() + rhs.bval(),
    ;

    /// Exact subtraction; underflowing inputs are ruled out.
    fn b_sub(self, rhs: Self) -> (r: Self)
        requires
            rhs.bval() <= self.bval(),
        ensures
            r.bval() == self.bval() - rhs.bval(),
    ;

    /// Exact multiplication; overflowing inputs are ruled out.
    fn b_mul(self, rhs: Self) -> (r: Self)
        requires
            self.bval() * rhs.bval() < Self::modulus(),
        ensures
            r.bval() == self.bval() * rhs.bval(),
    ;

    /// Floor division; a zero divisor is ruled out.
    fn b_div(self, rhs: Self) -> (r: Self)
        requires
            rhs.bval() != 0,
        ensures
            r.bval() == self.bval() / rhs.bval(),
    ;

    /// Remainder; a zero divisor is ruled out.
    fn b_rem(self, rhs: Self) -> (r: Self)
        requires
            rhs.bval() != 0,
        ensures
            r.bval() == self.bval() % rhs.bval(),
    ;

    /// Addition that is absent exactly on overflow.
    fn b_checked_add(self, rhs: Self) -> (r: Option<Self>)
        ensures
            self.bval() + rhs.bval() < Self::modulus() ==> (r matches Some(v) && v.bval()
                == self.bval() + rhs.bval()),
            self.bval() + rhs.bval() >= Self::modulus() ==> r is None,
    ;

    /// Subtraction that is absent exactly on underflow.
    fn b_checked_sub(self, rhs: Self) -> (r: Option<Self>)
        ensures
            rhs.bval() <= self.bval() ==> (r matches Some(v) && v.bval() == self.bval()
                - rhs.bval()),
            rhs.bval() > self.bval() ==> r is None,
    ;

    /// Multiplication that is absent exactly on overflow.
    fn b_checked_mul(self, rhs: Self) -> (r: Option<Self>)
        ensures
            self.bval() * rhs.bval() < Self::modulus() ==> (r matches Some(v) && v.bval()
                == self.bval() * rhs.bval()),
            self.bval() * rhs.bval() >= Self::modulus() ==> r is None,
    ;

    /// Division that is absent exactly on a zero divisor.
    fn b_checked_div(self, rhs: Self) -> (r: Option<Self>)
        ensures
            rhs.bval() != 0 ==> (r matches Some(v) && v.bval() == self.bval() / rhs.bval()),
            rhs.bval() == 0 ==> r is None,
    ;
}

impl Backing for u64 {
    open spec fn bval(self) -> nat {
        self as nat
    }

    open spec fn modulus() -> nat {
        0x1_0000_0000_0000_0000
    }

    proof fn lemma_modulus() {
    }

    proof fn lemma_bval_bounded(self) {
    }

    fn b_from_u64(v: u64) -> (r: Self) {
        v
    }

    fn b_from_u128(v: u128) -> (r: Self) {
        v as u64
    }

    fn b_to_u64(self) -> (r: Option<u64>) {
        Some(self)
    }

    fn b_eq(self, rhs: Self) -> (r: bool) {
        self == rhs
    }

    fn b_lt(self, rhs: Self) -> (r: bool) {
        self < rhs
    }

    fn b_is_zero(self) -> (r: bool) {
        self == 0
    }

    fn b_add(self, rhs: Self) -> (r: Self) {
        self + rhs
    }

    fn b_sub(self, rhs: Self) -> (r: Self) {
        self - rhs
    }

    fn b_mul(self, rhs: Self) -> (r: Self) {
        self * rhs
    }

    fn b_div(self, rhs: Self) -> (r: Self) {
        self / rhs
    }

    fn b_rem(self, rhs: Self) -> (r: Self) {
        self % rhs
    }

    fn b_checked_add(self, rhs: Self) -> (r: Option<Self>) {
        self.checked_add(rhs)
    }

    fn b_checked_sub(self, rhs: Self) -> (r: Option<Self>) {
        self.checked_sub(rhs)
    }

    fn b_checked_mul(self, rhs: Self) -> (r: Option<Self>) {
        self.checked_mul(rhs)
    }

    fn b_checked_div(self, rhs: Self) -> (r: Option<Self>) {
        self.checked_div(rhs)
    }
}

} // verus!
