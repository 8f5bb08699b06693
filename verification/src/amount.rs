//! Home of the [`Amount`] struct: a fixed-point quantity of one currency.

use core::marker::PhantomData;
use vstd::prelude::*;

use crate::backing::Backing;
use crate::currency::Currency;
use crate::currency::USD;
use crate::safety::Checked;
use crate::safety::Safety;
use crate::safety::Unchecked;

verus! {

/// Generically represents an amount of a specified [`Currency`].
///
/// The value is one backing integer holding the amount in minor units (already
/// multiplied by the currency's scale factor). Amounts of different currencies, or
/// of different safety modes, are different types: a cross-currency operation does
/// not type-check, so no runtime check is ever needed.
///
/// Setting the safety mode to [`Unchecked`] gives the full set of arithmetic
/// operations; inputs on which an operation would be fatal (overflow, underflow,
/// division by zero) are ruled out by that operation's precondition.
/// Setting it to [`Checked`] replaces them with checked counterparts that return an
/// optional result which is absent exactly on those inputs.
#[derive(Copy, PartialEq, Eq, PartialOrd, Ord, Hash, Debug)]
pub struct Amount<C: Currency = USD, S: Safety = Unchecked> {
    raw: C::Backing,
    currency: PhantomData<C>,
    safety: PhantomData<S>,
}

impl<C: Currency, S: Safety> Clone for Amount<C, S> {
    /// A copy of the amount.
    fn clone(&self) -> (r: Self)
        ensures
            r == *self,
    {
        *self
    }
}

impl<C: Currency, S: Safety> Amount<C, S> {
    /// The amount's value in minor units, at the specification level.
    pub closed spec fn amt_val(self) -> nat {
        self.raw.bval()
    }

    /// An amount's value always lies below the backing type's modulus.
    pub proof fn lemma_amt_val_bounded(self)
        ensures
            self.amt_val() < <C::Backing as Backing>::modulus(),
    {
        self.raw.lemma_bval_bounded();
    }

    /// Constructs an [`Amount`] from a compatible raw backing value, taken as a
    /// count of minor units. Any value is accepted; the caller is responsible for
    /// its meaning.
    pub fn from_raw(amount: C::Backing) -> (r: Self)
        ensures
            r.amt_val() == amount.bval(),
    {
        Amount { raw: amount, currency: PhantomData, safety: PhantomData }
    }

    /// The raw backing value: the amount in minor units.
    pub fn raw_backing(&self) -> (r: C::Backing)
        ensures
            r.bval() == self.amt_val(),
    {
        self.raw
    }

    /// Whether two amounts hold the same value.
    pub fn eq_amount(&self, rhs: &Self) -> (r: bool)
        ensures
            r <==> self.amt_val() == rhs.amt_val(),
    {
        self.raw.b_eq(rhs.raw)
    }

    /// Whether this amount is strictly smaller than another.
    pub fn lt_amount(&self, rhs: &Self) -> (r: bool)
        ensures
            r <==> self.amt_val() < rhs.amt_val(),
    {
        self.raw.b_lt(rhs.raw)
    }

    /// The remainder of the raw values, as an amount; a zero divisor is ruled out
    /// in both safety modes.
    pub fn rem(self, rhs: Self) -> (r: Self)
        requires
            rhs.amt_val() != 0,
        ensures
            r.amt_val() == self.amt_val() % rhs.amt_val(),
    {
        Self::from_raw(self.raw.b_rem(rhs.raw))
    }
}

impl<C: Currency> Amount<C, Unchecked> {
    /// Addition of the raw minor-unit values; overflowing inputs are ruled out.
    pub fn add(self, rhs: Self) -> (r: Self)
        requires
            self.amt_val() + rhs.amt_val() < <C::Backing as Backing>::modulus(),
        ensures
            r.amt_val() == self.amt_val() + rhs.amt_val(),
    {
        Self::from_raw(self.raw.b_add(rhs.raw))
    }

    /// Subtraction of the raw minor-unit values; underflowing inputs are ruled out.
    pub fn sub(self, rhs: Self) -> (r: Self)
        requires
            rhs.amt_val() <= self.amt_val(),
        ensures
            r.amt_val() == self.amt_val() - rhs.amt_val(),
    {
        Self::from_raw(self.raw.b_sub(rhs.raw))
    }

    /// Fixed-point multiplication: the product of the raw values divided by the
    /// scale factor, so that the result is again in minor units. Inputs whose raw
    /// product overflows are ruled out.
    pub fn mul(self, rhs: Self) -> (r: Self)
        requires
            self.amt_val() * rhs.amt_val() < <C::Backing as Backing>::modulus(),
        ensures
            r.amt_val() == (self.amt_val() * rhs.amt_val()) / C::spec_base(),
    {
        proof {
            C::lemma_descriptor_wf();
        }
        Self::from_raw(self.raw.b_mul(rhs.raw).b_div(C::base()))
    }

    /// Division of the raw values: a dimensionless ratio, not an amount. A zero
    /// divisor is ruled out.
    pub fn div(self, rhs: Self) -> (r: C::Backing)
        requires
            rhs.amt_val() != 0,
        ensures
            r.bval() == self.amt_val() / rhs.amt_val(),
    {
        self.raw.b_div(rhs.raw)
    }

    /// Rescaling by a plain scalar: multiplies the raw value without dividing by
    /// the scale factor. Overflowing inputs are ruled out.
    pub fn mul_u64(self, rhs: u64) -> (r: Self)
        requires
            self.amt_val() * (rhs as nat) < <C::Backing as Backing>::modulus(),
        ensures
            r.amt_val() == self.amt_val() * rhs as nat,
    {
        Self::from_raw(self.raw.b_mul(<C::Backing as Backing>::b_from_u64(rhs)))
    }

    /// Rescaling by a `u8` scalar; see [`Self::mul_u64`].
    pub fn mul_u8(self, rhs: u8) -> (r: Self)
        requires
            self.amt_val() * (rhs as nat) < <C::Backing as Backing>::modulus(),
        ensures
            r.amt_val() == self.amt_val() * rhs as nat,
    {
        self.mul_u64(rhs as u64)
    }

    /// Rescaling by a `u16` scalar; see [`Self::mul_u64`].
    pub fn mul_u16(self, rhs: u16) -> (r: Self)
        requires
            self.amt_val() * (rhs as nat) < <C::Backing as Backing>::modulus(),
        ensures
            r.amt_val() == self.amt_val() * rhs as nat,
    {
        self.mul_u64(rhs as u64)
    }

    /// Rescaling by a `u32` scalar; see [`Self::mul_u64`].
    pub fn mul_u32(self, rhs: u32) -> (r: Self)
        requires
            self.amt_val() * (rhs as nat) < <C::Backing as Backing>::modulus(),
        ensures
            r.amt_val() == self.amt_val() * rhs as nat,
    {
        self.mul_u64(rhs as u64)
    }

    /// Rescaling by a `usize` scalar; see [`Self::mul_u64`].
    pub fn mul_usize(self, rhs: usize) -> (r: Self)
        requires
            self.amt_val() * (rhs as nat) < <C::Backing as Backing>::modulus(),
        ensures
            r.amt_val() == self.amt_val() * rhs as nat,
    {
        self.mul_u64(rhs as u64)
    }

    /// Rescaling by a `u128` scalar, which must fit the backing type; see
    /// [`Self::mul_u64`].
    pub fn mul_u128(self, rhs: u128) -> (r: Self)
        requires
            (rhs as nat) < <C::Backing as Backing>::modulus(),
            self.amt_val() * (rhs as nat) < <C::Backing as Backing>::modulus(),
        ensures
            r.amt_val() == self.amt_val() * rhs as nat,
    {
        Self::from_raw(self.raw.b_mul(<C::Backing as Backing>::b_from_u128(rhs)))
    }

    /// Rescaling by an `i32` scalar, which may not be negative; see
    /// [`Self::mul_u64`].
    pub fn mul_i32(self, rhs: i32) -> (r: Self)
        requires
            rhs >= 0,
            self.amt_val() * (rhs as nat) < <C::Backing as Backing>::modulus(),
        ensures
            r.amt_val() == self.amt_val() * rhs as nat,
    {
        self.mul_u64(rhs as u64)
    }

    /// In-place addition; overflowing inputs are ruled out.
    pub fn add_assign(&mut self, rhs: Self)
        requires
            old(self).amt_val() + rhs.amt_val() < <C::Backing as Backing>::modulus(),
        ensures
            final(self).amt_val() == old(self).amt_val() + rhs.amt_val(),
    {
        *self = self.add(rhs);
    }

    /// In-place subtraction; underflowing inputs are ruled out.
    pub fn sub_assign(&mut self, rhs: Self)
        requires
            rhs.amt_val() <= old(self).amt_val(),
        ensures
            final(self).amt_val() == old(self).amt_val() - rhs.amt_val(),
    {
        *self = self.sub(rhs);
    }

    /// In-place fixed-point multiplication; overflowing inputs are ruled out.
    pub fn mul_assign(&mut self, rhs: Self)
        requires
            old(self).amt_val() * rhs.amt_val() < <C::Backing as Backing>::modulus(),
        ensures
            final(self).amt_val() == (old(self).amt_val() * rhs.amt_val()) / C::spec_base(),
    {
        *self = self.mul(rhs);
    }

    /// One minor unit.
    pub fn one() -> (r: Self)
        ensures
            r.amt_val() == 1,
    {
        proof {
            <C::Backing as Backing>::lemma_modulus();
        }
        Self::from_raw(<C::Backing as Backing>::b_from_u64(1))
    }

    /// The zero amount.
    pub fn zero() -> (r: Self)
        ensures
            r.amt_val() == 0,
    {
        proof {
            <C::Backing as Backing>::lemma_modulus();
        }
        Self::from_raw(<C::Backing as Backing>::b_from_u64(0))
    }

    /// Whether the amount is zero.
    pub fn is_zero(&self) -> (r: bool)
        ensures
            r <==> self.amt_val() == 0,
    {
        self.raw.b_is_zero()
    }
}

impl<C: Currency> Amount<C, Checked> {
    /// Addition of the raw minor-unit values; absent exactly on overflow.
    pub fn checked_add(self, rhs: Self) -> (r: Option<Self>)
        ensures
            match r {
                Some(v) => v.amt_val() == self.amt_val() + rhs.amt_val(),
                None => self.amt_val() + rhs.amt_val() >= <C::Backing as Backing>::modulus(),
            },
    {
        match self.raw.b_checked_add(rhs.raw) {
            Some(res) => Some(Self::from_raw(res)),
            None => None,
        }
    }

    /// Subtraction of the raw minor-unit values; absent exactly on underflow.
    pub fn checked_sub(self, rhs: Self) -> (r: Option<Self>)
        ensures
            match r {
                Some(v) => rhs.amt_val() <= self.amt_val() && v.amt_val() == self.amt_val()
                    - rhs.amt_val(),
                None => rhs.amt_val() > self.amt_val(),
            },
    {
        match self.raw.b_checked_sub(rhs.raw) {
            Some(res) => Some(Self::from_raw(res)),
            None => None,
        }
    }

    /// Fixed-point multiplication (see the unchecked counterpart); absent exactly
    /// when the raw product overflows. The subsequent division by the scale factor
    /// cannot fail, since a well-formed descriptor's scale factor is positive.
    pub fn checked_mul(self, rhs: Self) -> (r: Option<Self>)
        ensures
            match r {
                Some(v) => v.amt_val() == (self.amt_val() * rhs.amt_val()) / C::spec_base(),
                None => self.amt_val() * rhs.amt_val() >= <C::Backing as Backing>::modulus(),
            },
    {
        proof {
            C::lemma_descriptor_wf();
        }
        match self.raw.b_checked_mul(rhs.raw) {
            Some(product) => match product.b_checked_div(C::base()) {
                Some(q) => Some(Self::from_raw(q)),
                None => {
                    proof {
                        assert(false);
                    }
                    None
                },
            },
            None => None,
        }
    }

    /// Division of the raw values, a dimensionless ratio; absent exactly on a zero
    /// divisor.
    pub fn checked_div(self, rhs: Self) -> (r: Option<C::Backing>)
        ensures
            match r {
                Some(v) => rhs.amt_val() != 0 && v.bval() == self.amt_val() / rhs.amt_val(),
                None => rhs.amt_val() == 0,
            },
    {
        self.raw.b_checked_div(rhs.raw)
    }
}

/// For all same-currency unchecked amounts `a` and `b` whose sum does not overflow,
/// adding `b` to `a` and then subtracting `b` yields `a` again: any `sum` meeting
/// the contract of [`Amount::add`] and any `back` meeting the contract of
/// [`Amount::sub`] applied to it hold the value of `a`.
pub proof fn lemma_unchecked_add_sub_cancel<C: Currency>(
    a: Amount<C, Unchecked>,
    b: Amount<C, Unchecked>,
    sum: Amount<C, Unchecked>,
    back: Amount<C, Unchecked>,
)
    requires
        a.amt_val() + b.amt_val() < <C::Backing as Backing>::modulus(),
        sum.amt_val() == a.amt_val() + b.amt_val(),
        back.amt_val() == sum.amt_val() - b.amt_val(),
    ensures
        back.amt_val() == a.amt_val(),
{
}

} // verus!
