//! A 256-bit unsigned integer backing type.
//!
//! The value is held as four 64-bit limbs (most significant first, so that the
//! derived ordering agrees with the numeric one). All arithmetic is carried out by
//! [`primitive_types::U256`] behind trusted wrappers whose contracts state the exact
//! mathematical result; everything built on top of those wrappers is verified.

use vstd::arithmetic::power2::pow2;
use vstd::prelude::*;

use crate::backing::Backing;
use crate::backing::TrailingZeros;

verus! {

/// One more than the largest value a [`U256`] can hold, i.e. `2^256`.
pub open spec fn u256_modulus() -> nat {
    0x10000000000000000000000000000000000000000000000000000000000000000nat
}

/// A 256-bit unsigned integer, stored as four base-`2^64` limbs.
///
/// `limb0` is the least significant limb; limbs are declared most significant first
/// so that the derived lexicographic ordering equals the numeric ordering.
#[derive(Copy, Clone, PartialEq, Eq, PartialOrd, Ord, Hash, Debug)]
pub struct U256 {
    /// Bits 192..256.
    pub limb3: u64,
    /// Bits 128..192.
    pub limb2: u64,
    /// Bits 64..128.
    pub limb1: u64,
    /// Bits 0..64.
    pub limb0: u64,
}

impl U256 {
    /// The mathematical value of this integer.
    pub open spec fn uval(self) -> nat {
        (self.limb0 + self.limb1 * 0x10000000000000000 + self.limb2
            * 0x100000000000000000000000000000000nat + self.limb3
            * 0x1000000000000000000000000000000000000000000000000nat) as nat
    }
}

/// The strict lexicographic order on limbs, most significant first.
pub open spec fn limbs_below(a: U256, b: U256) -> bool {
    ||| a.limb3 < b.limb3
    ||| (a.limb3 == b.limb3 && a.limb2 < b.limb2)
    ||| (a.limb3 == b.limb3 && a.limb2 == b.limb2 && a.limb1 < b.limb1)
    ||| (a.limb3 == b.limb3 && a.limb2 == b.limb2 && a.limb1 == b.limb1 && a.limb0 < b.limb0)
}

/// Every 256-bit value lies below `2^256`.
pub proof fn lemma_uval_bound(a: U256)
    ensures
        a.uval() < u256_modulus(),
{
}

/// The limb order decides the numeric order: two values compare numerically
/// exactly as their limbs compare lexicographically.
pub proof fn lemma_uval_order(a: U256, b: U256)
    ensures
        (a.uval() < b.uval()) <==> limbs_below(a, b),
        (a.uval() == b.uval()) <==> (a.limb3 == b.limb3 && a.limb2 == b.limb2 && a.limb1
            == b.limb1 && a.limb0 == b.limb0),
{
}

// ---------------------------------------------------------------------------
// Trusted wrappers around primitive_types::U256. Each one holds exactly one
// call into the outside crate; its contract states what the crate's source
// shows for that call.
// ---------------------------------------------------------------------------
/// Relies on `primitive_types::U256`'s `Add` impl: it panics on overflow and
/// otherwise returns the exact sum.
#[verifier::external_body]
fn pt_add(a: U256, b: U256) -> (r: U256)
    requires
        a.uval() + b.uval() < u256_modulus(),
    ensures
        r.uval() == a.uval() + b.uval(),
{
    let x = primitive_types::U256([a.limb0, a.limb1, a.limb2, a.limb3]);
    let y = primitive_types::U256([b.limb0, b.limb1, b.limb2, b.limb3]);
    let z = x + y;
    U256 { limb3: z.0[3], limb2: z.0[2], limb1: z.0[1], limb0: z.0[0] }
}

/// Relies on `primitive_types::U256`'s `Sub` impl: it panics on underflow and
/// otherwise returns the exact difference.
#[verifier::external_body]
fn pt_sub(a: U256, b: U256) -> (r: U256)
    requires
        b.uval() <= a.uval(),
    ensures
        r.uval() == a.uval() - b.uval(),
{
    let x = primitive_types::U256([a.limb0, a.limb1, a.limb2, a.limb3]);
    let y = primitive_types::U256([b.limb0, b.limb1, b.limb2, b.limb3]);
    let z = x - y;
    U256 { limb3: z.0[3], limb2: z.0[2], limb1: z.0[1], limb0: z.0[0] }
}

/// Relies on `primitive_types::U256`'s `Mul` impl: it panics on overflow and
/// otherwise returns the exact product.
#[verifier::external_body]
fn pt_mul(a: U256, b: U256) -> (r: U256)
    requires
        a.uval() * b.uval() < u256_modulus(),
    ensures
        r.uval() == a.uval() * b.uval(),
{
    let x = primitive_types::U256([a.limb0, a.limb1, a.limb2, a.limb3]);
    let y = primitive_types::U256([b.limb0, b.limb1, b.limb2, b.limb3]);
    let z = x * y;
    U256 { limb3: z.0[3], limb2: z.0[2], limb1: z.0[1], limb0: z.0[0] }
}

/// Relies on `primitive_types::U256`'s `Div` impl: it panics on a zero divisor and
/// otherwise returns the floor quotient.
#[verifier::external_body]
fn pt_div(a: U256, b: U256) -> (r: U256)
    requires
        b.uval() != 0,
    ensures
        r.uval() == a.uval() / b.uval(),
{
    let x = primitive_types::U256([a.limb0, a.limb1, a.limb2, a.limb3]);
    let y = primitive_types::U256([b.limb0, b.limb1, b.limb2, b.limb3]);
    let z = x / y;
    U256 { limb3: z.0[3], limb2: z.0[2], limb1: z.0[1], limb0: z.0[0] }
}

/// Relies on `primitive_types::U256`'s `Rem` impl: it panics on a zero divisor and
/// otherwise returns the remainder of floor division.
#[verifier::external_body]
fn pt_rem(a: U256, b: U256) -> (r: U256)
    requires
        b.uval() != 0,
    ensures
        r.uval() == a.uval() % b.uval(),
{
    let x = primitive_types::U256([a.limb0, a.limb1, a.limb2, a.limb3]);
    let y = primitive_types::U256([b.limb0, b.limb1, b.limb2, b.limb3]);
    let z = x % y;
    U256 { limb3: z.0[3], limb2: z.0[2], limb1: z.0[1], limb0: z.0[0] }
}

/// Relies on `primitive_types::U256::checked_add`: absent exactly on overflow.
#[verifier::external_body]
fn pt_checked_add(a: U256, b: U256) -> (r: Option<U256>)
    ensures
        match r {
            Some(v) => v.uval() == a.uval() + b.uval(),
            None => a.uval() + b.uval() >= u256_modulus(),
        },
{
    let x = primitive_types::U256([a.limb0, a.limb1, a.limb2, a.limb3]);
    let y = primitive_types::U256([b.limb0, b.limb1, b.limb2, b.limb3]);
    match x.checked_add(y) {
        Some(z) => Some(U256 { limb3: z.0[3], limb2: z.0[2], limb1: z.0[1], limb0: z.0[0] }),
        None => None,
    }
}

/// Relies on `primitive_types::U256::checked_sub`: absent exactly on underflow.
#[verifier::external_body]
fn pt_checked_sub(a: U256, b: U256) -> (r: Option<U256>)
    ensures
        match r {
            Some(v) => v.uval() == a.uval() - b.uval() && b.uval() <= a.uval(),
            None => b.uval() > a.uval(),
        },
{
    let x = primitive_types::U256([a.limb0, a.limb1, a.limb2, a.limb3]);
    let y = primitive_types::U256([b.limb0, b.limb1, b.limb2, b.limb3]);
    match x.checked_sub(y) {
        Some(z) => Some(U256 { limb3: z.0[3], limb2: z.0[2], limb1: z.0[1], limb0: z.0[0] }),
        None => None,
    }
}

/// Relies on `primitive_types::U256::checked_mul`: absent exactly on overflow.
#[verifier::external_body]
fn pt_checked_mul(a: U256, b: U256) -> (r: Option<U256>)
    ensures
        match r {
            Some(v) => v.uval() == a.uval() * b.uval(),
            None => a.uval() * b.uval() >= u256_modulus(),
        },
{
    let x = primitive_types::U256([a.limb0, a.limb1, a.limb2, a.limb3]);
    let y = primitive_types::U256([b.limb0, b.limb1, b.limb2, b.limb3]);
    match x.checked_mul(y) {
        Some(z) => Some(U256 { limb3: z.0[3], limb2: z.0[2], limb1: z.0[1], limb0: z.0[0] }),
        None => None,
    }
}

/// Relies on `primitive_types::U256::checked_div`: absent exactly on a zero divisor.
#[verifier::external_body]
fn pt_checked_div(a: U256, b: U256) -> (r: Option<U256>)
    ensures
        match r {
            Some(v) => b.uval() != 0 && v.uval() == a.uval() / b.uval(),
            None => b.uval() == 0,
        },
{
    let x = primitive_types::U256([a.limb0, a.limb1, a.limb2, a.limb3]);
    let y = primitive_types::U256([b.limb0, b.limb1, b.limb2, b.limb3]);
    match x.checked_div(y) {
        Some(z) => Some(U256 { limb3: z.0[3], limb2: z.0[2], limb1: z.0[1], limb0: z.0[0] }),
        None => None,
    }
}

/// Relies on `primitive_types::U256::saturating_add`: the exact sum, clamped to the maximum.
#[verifier::external_body]
fn pt_saturating_add(a: U256, b: U256) -> (r: U256)
    ensures
        a.uval() + b.uval() < u256_modulus() ==> r.uval() == a.uval() + b.uval(),
        a.uval() + b.uval() >= u256_modulus() ==> r.uval() == u256_modulus() - 1,
{
    let x = primitive_types::U256([a.limb0, a.limb1, a.limb2, a.limb3]);
    let y = primitive_types::U256([b.limb0, b.limb1, b.limb2, b.limb3]);
    let z = x.saturating_add(y);
    U256 { limb3: z.0[3], limb2: z.0[2], limb1: z.0[1], limb0: z.0[0] }
}

/// Relies on `primitive_types::U256::saturating_sub`: the exact difference, clamped to zero.
#[verifier::external_body]
fn pt_saturating_sub(a: U256, b: U256) -> (r: U256)
    ensures
        b.uval() <= a.uval() ==> r.uval() == a.uval() - b.uval(),
        b.uval() > a.uval() ==> r.uval() == 0,
{
    let x = primitive_types::U256([a.limb0, a.limb1, a.limb2, a.limb3]);
    let y = primitive_types::U256([b.limb0, b.limb1, b.limb2, b.limb3]);
    let z = x.saturating_sub(y);
    U256 { limb3: z.0[3], limb2: z.0[2], limb1: z.0[1], limb0: z.0[0] }
}

/// Relies on `primitive_types::U256::saturating_mul`: the exact product, clamped to the maximum.
#[verifier::external_body]
fn pt_saturating_mul(a: U256, b: U256) -> (r: U256)
    ensures
        a.uval() * b.uval() < u256_modulus() ==> r.uval() == a.uval() * b.uval(),
        a.uval() * b.uval() >= u256_modulus() ==> r.uval() == u256_modulus() - 1,
{
    let x = primitive_types::U256([a.limb0, a.limb1, a.limb2, a.limb3]);
    let y = primitive_types::U256([b.limb0, b.limb1, b.limb2, b.limb3]);
    let z = x.saturating_mul(y);
    U256 { limb3: z.0[3], limb2: z.0[2], limb1: z.0[1], limb0: z.0[0] }
}

// ---------------------------------------------------------------------------
// Verified construction and conversion.
// ---------------------------------------------------------------------------
impl U256 {
    /// The value zero.
    pub fn zero() -> (r: U256)
        ensures
            r.uval() == 0,
    {
        U256 { limb3: 0, limb2: 0, limb1: 0, limb0: 0 }
    }

    /// The value one.
    pub fn one() -> (r: U256)
        ensures
            r.uval() == 1,
    {
        U256 { limb3: 0, limb2: 0, limb1: 0, limb0: 1 }
    }

    /// The largest representable value, `2^256 - 1`.
    pub fn max_value() -> (r: U256)
        ensures
            r.uval() == u256_modulus() - 1,
    {
        U256 { limb3: u64::MAX, limb2: u64::MAX, limb1: u64::MAX, limb0: u64::MAX }
    }

    /// The smallest representable value, zero.
    pub fn min_value() -> (r: U256)
        ensures
            r.uval() == 0,
    {
        U256::zero()
    }

    /// Whether the value is zero.
    pub fn is_zero(&self) -> (r: bool)
        ensures
            r <==> self.uval() == 0,
    {
        self.limb3 == 0 && self.limb2 == 0 && self.limb1 == 0 && self.limb0 == 0
    }

    /// Widens a `u64`.
    pub fn from_u64(v: u64) -> (r: U256)
        ensures
            r.uval() == v as nat,
    {
        U256 { limb3: 0, limb2: 0, limb1: 0, limb0: v }
    }

    /// Widens a `u128`.
    pub fn from_u128(v: u128) -> (r: U256)
        ensures
            r.uval() == v as nat,
    {
        proof {
            assert(v / 0x10000000000000000 < 0x10000000000000000) by (nonlinear_arith);
            vstd::arithmetic::div_mod::lemma_fundamental_div_mod(
                v as int,
                0x10000000000000000,
            );
        }
        let hi = (v / 0x10000000000000000u128) as u64;
        let lo = (v % 0x10000000000000000u128) as u64;
        U256 { limb3: 0, limb2: 0, limb1: hi, limb0: lo }
    }

    /// Widens a `u8`.
    pub fn from_u8(v: u8) -> (r: U256)
        ensures
            r.uval() == v as nat,
    {
        U256::from_u64(v as u64)
    }

    /// Widens a `u16`.
    pub fn from_u16(v: u16) -> (r: U256)
        ensures
            r.uval() == v as nat,
    {
        U256::from_u64(v as u64)
    }

    /// Widens a `u32`.
    pub fn from_u32(v: u32) -> (r: U256)
        ensures
            r.uval() == v as nat,
    {
        U256::from_u64(v as u64)
    }

    /// Widens a non-negative `i8`.
    pub fn from_i8(v: i8) -> (r: U256)
        requires
            v >= 0,
        ensures
            r.uval() == v as nat,
    {
        U256::from_u64(v as u64)
    }

    /// Widens a non-negative `i16`.
    pub fn from_i16(v: i16) -> (r: U256)
        requires
            v >= 0,
        ensures
            r.uval() == v as nat,
    {
        U256::from_u64(v as u64)
    }

    /// Widens a non-negative `i32`.
    pub fn from_i32(v: i32) -> (r: U256)
        requires
            v >= 0,
        ensures
            r.uval() == v as nat,
    {
        U256::from_u64(v as u64)
    }

    /// Widens a non-negative `i64`.
    pub fn from_i64(v: i64) -> (r: U256)
        requires
            v >= 0,
        ensures
            r.uval() == v as nat,
    {
        U256::from_u64(v as u64)
    }

    /// Widens a non-negative `i128`.
    pub fn from_i128(v: i128) -> (r: U256)
        requires
            v >= 0,
        ensures
            r.uval() == v as nat,
    {
        U256::from_u128(v as u128)
    }

    /// Narrows to a `u64`; absent exactly when high bits are set.
    pub fn to_u64(&self) -> (r: Option<u64>)
        ensures
            self.uval() <= u64::MAX as nat ==> (r matches Some(v) && v as nat == self.uval()),
            self.uval() > u64::MAX as nat ==> r is None,
    {
        if self.limb3 == 0 && self.limb2 == 0 && self.limb1 == 0 {
            Some(self.limb0)
        } else {
            proof {
                lemma_uval_order(*self, U256 { limb3: 0, limb2: 0, limb1: 0, limb0: u64::MAX });
            }
            None
        }
    }

    /// Narrows to an `i64`; absent exactly when the value exceeds `i64::MAX`.
    pub fn to_i64(&self) -> (r: Option<i64>)
        ensures
            self.uval() <= i64::MAX as nat ==> (r matches Some(v) && v as nat == self.uval()),
            self.uval() > i64::MAX as nat ==> r is None,
    {
        if self.limb3 == 0 && self.limb2 == 0 && self.limb1 == 0 && self.limb0 <= i64::MAX as u64 {
            Some(self.limb0 as i64)
        } else {
            None
        }
    }
}

impl U256 {
    /// The decimal digit string of the value.
    pub fn to_decimal_string(&self) -> (r: String)
        ensures
            r@ == crate::digits::spec_dec(self.uval()),
    {
        crate::digits::dec_string(*self)
    }
}

/// Constructs a [`U256`] from a `u64`, useful for specifying the scale factor of
/// currencies whose backing type is [`U256`].
pub fn u64_to_u256(n: u64) -> (r: U256)
    ensures
        r.uval() == n as nat,
{
    U256::from_u64(n)
}

// ---------------------------------------------------------------------------
// Verified arithmetic.
// ---------------------------------------------------------------------------
impl U256 {
    /// Exact addition; overflowing inputs are ruled out.
    pub fn add(self, rhs: U256) -> (r: U256)
        requires
            self.uval() + rhs.uval() < u256_modulus(),
        ensures
            r.uval() == self.uval() + rhs.uval(),
    {
        pt_add(self, rhs)
    }

    /// Exact subtraction; underflowing inputs are ruled out.
    pub fn sub(self, rhs: U256) -> (r: U256)
        requires
            rhs.uval() <= self.uval(),
        ensures
            r.uval() == self.uval() - rhs.uval(),
    {
        pt_sub(self, rhs)
    }

    /// Exact multiplication; overflowing inputs are ruled out.
    pub fn mul(self, rhs: U256) -> (r: U256)
        requires
            self.uval() * rhs.uval() < u256_modulus(),
        ensures
            r.uval() == self.uval() * rhs.uval(),
    {
        pt_mul(self, rhs)
    }

    /// Floor division; a zero divisor is ruled out.
    pub fn div(self, rhs: U256) -> (r: U256)
        requires
            rhs.uval() != 0,
        ensures
            r.uval() == self.uval() / rhs.uval(),
    {
        pt_div(self, rhs)
    }

    /// Remainder of floor division; a zero divisor is ruled out.
    pub fn rem(self, rhs: U256) -> (r: U256)
        requires
            rhs.uval() != 0,
        ensures
            r.uval() == self.uval() % rhs.uval(),
    {
        pt_rem(self, rhs)
    }

    /// Addition that is absent exactly on overflow.
    pub fn checked_add(&self, rhs: &U256) -> (r: Option<U256>)
        ensures
            self.uval() + rhs.uval() < u256_modulus() ==> (r matches Some(v) && v.uval()
                == self.uval() + rhs.uval()),
            self.uval() + rhs.uval() >= u256_modulus() ==> r is None,
    {
        pt_checked_add(*self, *rhs)
    }

    /// Subtraction that is absent exactly on underflow.
    pub fn checked_sub(&self, rhs: &U256) -> (r: Option<U256>)
        ensures
            rhs.uval() <= self.uval() ==> (r matches Some(v) && v.uval() == self.uval()
                - rhs.uval()),
            rhs.uval() > self.uval() ==> r is None,
    {
        pt_checked_sub(*self, *rhs)
    }

    /// Multiplication that is absent exactly on overflow.
    pub fn checked_mul(&self, rhs: &U256) -> (r: Option<U256>)
        ensures
            self.uval() * rhs.uval() < u256_modulus() ==> (r matches Some(v) && v.uval()
                == self.uval() * rhs.uval()),
            self.uval() * rhs.uval() >= u256_modulus() ==> r is None,
    {
        pt_checked_mul(*self, *rhs)
    }

    /// Division that is absent exactly on a zero divisor.
    pub fn checked_div(&self, rhs: &U256) -> (r: Option<U256>)
        ensures
            rhs.uval() != 0 ==> (r matches Some(v) && v.uval() == self.uval() / rhs.uval()),
            rhs.uval() == 0 ==> r is None,
    {
        pt_checked_div(*self, *rhs)
    }

    /// Addition clamped to the maximum value.
    pub fn saturating_add(self, rhs: U256) -> (r: U256)
        ensures
            self.uval() + rhs.uval() < u256_modulus() ==> r.uval() == self.uval() + rhs.uval(),
            self.uval() + rhs.uval() >= u256_modulus() ==> r.uval() == u256_modulus() - 1,
    {
        pt_saturating_add(self, rhs)
    }

    /// Subtraction clamped to zero.
    pub fn saturating_sub(self, rhs: U256) -> (r: U256)
        ensures
            rhs.uval() <= self.uval() ==> r.uval() == self.uval() - rhs.uval(),
            rhs.uval() > self.uval() ==> r.uval() == 0,
    {
        pt_saturating_sub(self, rhs)
    }

    /// Multiplication clamped to the maximum value.
    pub fn saturating_mul(&self, rhs: &U256) -> (r: U256)
        ensures
            self.uval() * rhs.uval() < u256_modulus() ==> r.uval() == self.uval() * rhs.uval(),
            self.uval() * rhs.uval() >= u256_modulus() ==> r.uval() == u256_modulus() - 1,
    {
        pt_saturating_mul(*self, *rhs)
    }

    /// In-place addition; overflowing inputs are ruled out.
    pub fn add_assign(&mut self, rhs: U256)
        requires
            old(self).uval() + rhs.uval() < u256_modulus(),
        ensures
            final(self).uval() == old(self).uval() + rhs.uval(),
    {
        *self = pt_add(*self, rhs);
    }

    /// In-place subtraction; underflowing inputs are ruled out.
    pub fn sub_assign(&mut self, rhs: U256)
        requires
            rhs.uval() <= old(self).uval(),
        ensures
            final(self).uval() == old(self).uval() - rhs.uval(),
    {
        *self = pt_sub(*self, rhs);
    }

    /// In-place multiplication; overflowing inputs are ruled out.
    pub fn mul_assign(&mut self, rhs: U256)
        requires
            old(self).uval() * rhs.uval() < u256_modulus(),
        ensures
            final(self).uval() == old(self).uval() * rhs.uval(),
    {
        *self = pt_mul(*self, rhs);
    }

    /// In-place division; a zero divisor is ruled out.
    pub fn div_assign(&mut self, rhs: U256)
        requires
            rhs.uval() != 0,
        ensures
            final(self).uval() == old(self).uval() / rhs.uval(),
    {
        *self = pt_div(*self, rhs);
    }
}

// ---------------------------------------------------------------------------
// The backing-integer contract.
// ---------------------------------------------------------------------------
impl TrailingZeros for U256 {
    open spec fn spec_trailing_zeros(&self) -> u32 {
        if self.limb0 != 0 {
            vstd::std_specs::bits::u64_trailing_zeros(self.limb0)
        } else if self.limb1 != 0 {
            (64 + vstd::std_specs::bits::u64_trailing_zeros(self.limb1)) as u32
        } else if self.limb2 != 0 {
            (128 + vstd::std_specs::bits::u64_trailing_zeros(self.limb2)) as u32
        } else if self.limb3 != 0 {
            (192 + vstd::std_specs::bits::u64_trailing_zeros(self.limb3)) as u32
        } else {
            256
        }
    }

    fn trailing_zeros(&self) -> (r: u32) {
        if self.limb0 != 0 {
            u64::trailing_zeros(self.limb0)
        } else if self.limb1 != 0 {
            proof {
                vstd::std_specs::bits::axiom_u64_trailing_zeros(self.limb1);
            }
            64 + u64::trailing_zeros(self.limb1)
        } else if self.limb2 != 0 {
            proof {
                vstd::std_specs::bits::axiom_u64_trailing_zeros(self.limb2);
            }
            128 + u64::trailing_zeros(self.limb2)
        } else if self.limb3 != 0 {
            proof {
                vstd::std_specs::bits::axiom_u64_trailing_zeros(self.limb3);
            }
            192 + u64::trailing_zeros(self.limb3)
        } else {
            256
        }
    }
}

impl Backing for U256 {
    open spec fn bval(self) -> nat {
        self.uval()
    }

    open spec fn modulus() -> nat {
        u256_modulus()
    }

    proof fn lemma_modulus() {
    }

    proof fn lemma_bval_bounded(self) {
        lemma_uval_bound(self);
    }

    fn b_from_u64(v: u64) -> (r: Self) {
        U256::from_u64(v)
    }

    fn b_from_u128(v: u128) -> (r: Self) {
        U256::from_u128(v)
    }

    fn b_to_u64(self) -> (r: Option<u64>) {
        self.to_u64()
    }

    fn b_eq(self, rhs: Self) -> (r: bool) {
        proof {
            lemma_uval_order(self, rhs);
        }
        self.limb3 == rhs.limb3 && self.limb2 == rhs.limb2 && self.limb1 == rhs.limb1 && self.limb0
            == rhs.limb0
    }

    fn b_lt(self, rhs: Self) -> (r: bool) {
        proof {
            lemma_uval_order(self, rhs);
        }
        if self.limb3 != rhs.limb3 {
            self.limb3 < rhs.limb3
        } else if self.limb2 != rhs.limb2 {
            self.limb2 < rhs.limb2
        } else if self.limb1 != rhs.limb1 {
            self.limb1 < rhs.limb1
        } else {
            self.limb0 < rhs.limb0
        }
    }

    fn b_is_zero(self) -> (r: bool) {
        self.is_zero()
    }

    fn b_add(self, rhs: Self) -> (r: Self) {
        self.add(rhs)
    }

    fn b_sub(self, rhs: Self) -> (r: Self) {
        self.sub(rhs)
    }

    fn b_mul(self, rhs: Self) -> (r: Self) {
        self.mul(rhs)
    }

    fn b_div(self, rhs: Self) -> (r: Self) {
        self.div(rhs)
    }

    fn b_rem(self, rhs: Self) -> (r: Self) {
        self.rem(rhs)
    }

    fn b_checked_add(self, rhs: Self) -> (r: Option<Self>) {
        self.checked_add(&rhs)
    }

    fn b_checked_sub(self, rhs: Self) -> (r: Option<Self>) {
        self.checked_sub(&rhs)
    }

    fn b_checked_mul(self, rhs: Self) -> (r: Option<Self>) {
        self.checked_mul(&rhs)
    }

    fn b_checked_div(self, rhs: Self) -> (r: Option<Self>) {
        self.checked_div(&rhs)
    }
}


// ---------------------------------------------------------------------------
// Trusted wrappers for the bitwise operations and shifts.
// ---------------------------------------------------------------------------
/// Relies on `primitive_types::U256`'s `BitAnd` impl: it works limb by limb.
#[verifier::external_body]
fn pt_bitand(a: U256, b: U256) -> (r: U256)
    ensures
        r.limb0 == a.limb0 & b.limb0,
        r.limb1 == a.limb1 & b.limb1,
        r.limb2 == a.limb2 & b.limb2,
        r.limb3 == a.limb3 & b.limb3,
{
    let x = primitive_types::U256([a.limb0, a.limb1, a.limb2, a.limb3]);
    let y = primitive_types::U256([b.limb0, b.limb1, b.limb2, b.limb3]);
    let z = x & y;
    U256 { limb3: z.0[3], limb2: z.0[2], limb1: z.0[1], limb0: z.0[0] }
}

/// Relies on `primitive_types::U256`'s `BitOr` impl: it works limb by limb.
#[verifier::external_body]
fn pt_bitor(a: U256, b: U256) -> (r: U256)
    ensures
        r.limb0 == a.limb0 | b.limb0,
        r.limb1 == a.limb1 | b.limb1,
        r.limb2 == a.limb2 | b.limb2,
        r.limb3 == a.limb3 | b.limb3,
{
    let x = primitive_types::U256([a.limb0, a.limb1, a.limb2, a.limb3]);
    let y = primitive_types::U256([b.limb0, b.limb1, b.limb2, b.limb3]);
    let z = x | y;
    U256 { limb3: z.0[3], limb2: z.0[2], limb1: z.0[1], limb0: z.0[0] }
}

/// Relies on `primitive_types::U256`'s `BitXor` impl: it works limb by limb.
#[verifier::external_body]
fn pt_bitxor(a: U256, b: U256) -> (r: U256)
    ensures
        r.limb0 == a.limb0 ^ b.limb0,
        r.limb1 == a.limb1 ^ b.limb1,
        r.limb2 == a.limb2 ^ b.limb2,
        r.limb3 == a.limb3 ^ b.limb3,
{
    let x = primitive_types::U256([a.limb0, a.limb1, a.limb2, a.limb3]);
    let y = primitive_types::U256([b.limb0, b.limb1, b.limb2, b.limb3]);
    let z = x ^ y;
    U256 { limb3: z.0[3], limb2: z.0[2], limb1: z.0[1], limb0: z.0[0] }
}

/// Relies on `primitive_types::U256`'s `Not` impl: it works limb by limb.
#[verifier::external_body]
fn pt_not(a: U256) -> (r: U256)
    ensures
        r.limb0 == !a.limb0,
        r.limb1 == !a.limb1,
        r.limb2 == !a.limb2,
        r.limb3 == !a.limb3,
{
    let x = primitive_types::U256([a.limb0, a.limb1, a.limb2, a.limb3]);
    let z = !x;
    U256 { limb3: z.0[3], limb2: z.0[2], limb1: z.0[1], limb0: z.0[0] }
}

/// Relies on `primitive_types::U256`'s `Shl` impl: a left shift keeps the low
/// `256 - k` bits, i.e. multiplies by `2^k` modulo `2^256`.
#[verifier::external_body]
fn pt_shl(a: U256, k: usize) -> (r: U256)
    ensures
        r.uval() == (a.uval() * pow2(k as nat)) % u256_modulus(),
{
    let x = primitive_types::U256([a.limb0, a.limb1, a.limb2, a.limb3]);
    let z = x << k;
    U256 { limb3: z.0[3], limb2: z.0[2], limb1: z.0[1], limb0: z.0[0] }
}

/// Relies on `primitive_types::U256`'s `Shr` impl: a right shift divides by `2^k`.
#[verifier::external_body]
fn pt_shr(a: U256, k: usize) -> (r: U256)
    ensures
        r.uval() == a.uval() / pow2(k as nat),
{
    let x = primitive_types::U256([a.limb0, a.limb1, a.limb2, a.limb3]);
    let z = x >> k;
    U256 { limb3: z.0[3], limb2: z.0[2], limb1: z.0[1], limb0: z.0[0] }
}

// ---------------------------------------------------------------------------
// Verified bitwise operations and shifts.
// ---------------------------------------------------------------------------
impl U256 {
    /// Bitwise conjunction, limb by limb.
    pub fn bitand(self, rhs: U256) -> (r: U256)
        ensures
            r.limb0 == self.limb0 & rhs.limb0,
            r.limb1 == self.limb1 & rhs.limb1,
            r.limb2 == self.limb2 & rhs.limb2,
            r.limb3 == self.limb3 & rhs.limb3,
    {
        pt_bitand(self, rhs)
    }

    /// Bitwise disjunction, limb by limb.
    pub fn bitor(self, rhs: U256) -> (r: U256)
        ensures
            r.limb0 == self.limb0 | rhs.limb0,
            r.limb1 == self.limb1 | rhs.limb1,
            r.limb2 == self.limb2 | rhs.limb2,
            r.limb3 == self.limb3 | rhs.limb3,
    {
        pt_bitor(self, rhs)
    }

    /// Bitwise exclusive or, limb by limb.
    pub fn bitxor(self, rhs: U256) -> (r: U256)
        ensures
            r.limb0 == self.limb0 ^ rhs.limb0,
            r.limb1 == self.limb1 ^ rhs.limb1,
            r.limb2 == self.limb2 ^ rhs.limb2,
            r.limb3 == self.limb3 ^ rhs.limb3,
    {
        pt_bitxor(self, rhs)
    }

    /// Bitwise complement, limb by limb.
    pub fn not(self) -> (r: U256)
        ensures
            r.limb0 == !self.limb0,
            r.limb1 == !self.limb1,
            r.limb2 == !self.limb2,
            r.limb3 == !self.limb3,
    {
        pt_not(self)
    }

    /// Left shift by a bit count: multiplication by `2^k` modulo `2^256`.
    pub fn shl(self, k: usize) -> (r: U256)
        ensures
            r.uval() == (self.uval() * pow2(k as nat)) % u256_modulus(),
    {
        pt_shl(self, k)
    }

    /// Right shift by a bit count: floor division by `2^k`.
    pub fn shr(self, k: usize) -> (r: U256)
        ensures
            r.uval() == self.uval() / pow2(k as nat),
    {
        pt_shr(self, k)
    }

    /// Left shift by another 256-bit value, which must denote a feasible bit count.
    pub fn shl_big(self, k: U256) -> (r: U256)
        requires
            k.uval() <= usize::MAX as nat,
        ensures
            r.uval() == (self.uval() * pow2(k.uval())) % u256_modulus(),
    {
        let kk = match k.to_u64() {
            Some(v) => v,
            None => 0,
        };
        pt_shl(self, kk as usize)
    }

    /// Right shift by another 256-bit value, which must denote a feasible bit count.
    pub fn shr_big(self, k: U256) -> (r: U256)
        requires
            k.uval() <= usize::MAX as nat,
        ensures
            r.uval() == self.uval() / pow2(k.uval()),
    {
        let kk = match k.to_u64() {
            Some(v) => v,
            None => 0,
        };
        pt_shr(self, kk as usize)
    }
}

// ---------------------------------------------------------------------------
// Verified number theory: floor division, gcd, lcm, divisibility, parity.
// ---------------------------------------------------------------------------
/// The greatest common divisor by Euclid's scheme of repeated floor remainders.
pub open spec fn gcd_nat(a: nat, b: nat) -> nat
    decreases b,
{
    if b == 0 {
        a
    } else {
        gcd_nat(b, a % b)
    }
}

/// The greatest common divisor of two values that are not both zero is positive.
pub proof fn lemma_gcd_pos(a: nat, b: nat)
    requires
        a != 0 || b != 0,
    ensures
        gcd_nat(a, b) > 0,
    decreases b,
{
    if b != 0 {
        lemma_gcd_pos(b, a % b);
    }
}

impl U256 {
    /// Floor division; a zero divisor is ruled out. Identical to [`U256::div`]
    /// on an unsigned type.
    pub fn div_floor(&self, other: &U256) -> (r: U256)
        requires
            other.uval() != 0,
        ensures
            r.uval() == self.uval() / other.uval(),
    {
        pt_div(*self, *other)
    }

    /// Remainder of floor division; a zero divisor is ruled out.
    pub fn mod_floor(&self, other: &U256) -> (r: U256)
        requires
            other.uval() != 0,
        ensures
            r.uval() == self.uval() % other.uval(),
    {
        pt_rem(*self, *other)
    }

    /// Floor quotient and remainder together.
    pub fn div_rem(&self, other: &U256) -> (r: (U256, U256))
        requires
            other.uval() != 0,
        ensures
            r.0.uval() == self.uval() / other.uval(),
            r.1.uval() == self.uval() % other.uval(),
    {
        (self.div_floor(other), self.mod_floor(other))
    }

    /// Floor quotient and remainder together.
    pub fn div_mod_floor(&self, other: &U256) -> (r: (U256, U256))
        requires
            other.uval() != 0,
        ensures
            r.0.uval() == self.uval() / other.uval(),
            r.1.uval() == self.uval() % other.uval(),
    {
        (self.div_floor(other), self.mod_floor(other))
    }

    /// The greatest common divisor, by repeated floor remainders.
    pub fn gcd(&self, other: &U256) -> (r: U256)
        ensures
            r.uval() == gcd_nat(self.uval(), other.uval()),
    {
        let mut a = *self;
        let mut b = *other;
        while !b.is_zero()
            invariant
                gcd_nat(a.uval(), b.uval()) == gcd_nat(self.uval(), other.uval()),
            decreases b.uval(),
        {
            let temp = b;
            b = a.rem(b);
            a = temp;
        }
        a
    }

    /// The least common multiple, `(self * other) / gcd`. The inputs may not both
    /// be zero (the quotient is undefined there), and the raw product must be
    /// representable, exactly as for [`U256::mul`].
    pub fn lcm(&self, other: &U256) -> (r: U256)
        requires
            self.uval() * other.uval() < u256_modulus(),
            self.uval() != 0 || other.uval() != 0,
        ensures
            r.uval() == (self.uval() * other.uval()) / gcd_nat(self.uval(), other.uval()),
    {
        proof {
            lemma_gcd_pos(self.uval(), other.uval());
        }
        let product = pt_mul(*self, *other);
        let gcd_val = self.gcd(other);
        pt_div(product, gcd_val)
    }

    /// Whether `self` divides `other`: true exactly when `self` is non-zero and
    /// `other` is a multiple of it. Every value divides zero; zero divides nothing.
    pub fn divides(&self, other: &U256) -> (r: bool)
        ensures
            r <==> (self.uval() != 0 && other.uval() % self.uval() == 0),
    {
        if self.is_zero() {
            false
        } else {
            pt_rem(*other, *self).is_zero()
        }
    }

    /// Whether `self` is a multiple of `other`: the symmetric restatement of
    /// [`U256::divides`].
    pub fn is_multiple_of(&self, other: &U256) -> (r: bool)
        ensures
            r <==> (other.uval() != 0 && self.uval() % other.uval() == 0),
    {
        if other.is_zero() {
            false
        } else {
            pt_rem(*self, *other).is_zero()
        }
    }

    /// Whether the value is even.
    pub fn is_even(&self) -> (r: bool)
        ensures
            r <==> self.uval() % 2 == 0,
    {
        proof {
            lemma_parity(*self);
        }
        self.limb0 & 1 == 0
    }

    /// Whether the value is odd.
    pub fn is_odd(&self) -> (r: bool)
        ensures
            r <==> self.uval() % 2 != 0,
    {
        !self.is_even()
    }
}

/// A 256-bit value has the parity of its least significant limb's lowest bit.
proof fn lemma_parity(a: U256)
    ensures
        (a.uval() % 2 == 0) <==> (a.limb0 & 1 == 0),
{
    let high = a.limb1 * 0x8000000000000000 + a.limb2 * 0x80000000000000000000000000000000nat
        + a.limb3 * 0x800000000000000000000000000000000000000000000000nat;
    assert(a.uval() == 2 * high + a.limb0);
    vstd::arithmetic::div_mod::lemma_mod_multiples_vanish(high as int, a.limb0 as int, 2);
    let l0 = a.limb0;
    assert(l0 % 2 == (l0 & 1)) by (bit_vector);
}



// ---------------------------------------------------------------------------
// Laws of the floor-division family.
// ---------------------------------------------------------------------------
/// Floor quotient and remainder reassemble the dividend: for any `a` and any
/// non-zero `b`, the values returned by [`U256::div_floor`] and
/// [`U256::mod_floor`] satisfy `(a / b) * b + a % b == a`.
pub proof fn lemma_div_mod_identity(a: nat, b: nat)
    requires
        b != 0,
    ensures
        (a / b) * b + a % b == a,
{
    vstd::arithmetic::div_mod::lemma_fundamental_div_mod(a as int, b as int);
    assert((a / b) * b == b * (a / b)) by (nonlinear_arith);
}

/// The greatest common divisor is positive and divides both of its arguments,
/// whenever they are not both zero.
pub proof fn lemma_gcd_divides(a: nat, b: nat)
    requires
        a != 0 || b != 0,
    ensures
        gcd_nat(a, b) > 0,
        a % gcd_nat(a, b) == 0,
        b % gcd_nat(a, b) == 0,
    decreases b,
{
    if b == 0 {
        vstd::arithmetic::div_mod::lemma_mod_self_0(a as int);
        vstd::arithmetic::div_mod::lemma_small_mod(0, a);
    } else {
        lemma_gcd_divides(b, a % b);
        let g = gcd_nat(b, a % b);
        vstd::arithmetic::div_mod::lemma_fundamental_div_mod(a as int, b as int);
        vstd::arithmetic::div_mod::lemma_fundamental_div_mod(b as int, g as int);
        vstd::arithmetic::div_mod::lemma_fundamental_div_mod((a % b) as int, g as int);
        let k = (b / g) * (a / b) + (a % b) / g;
        assert(a == g * k) by (nonlinear_arith)
            requires
                a == b * (a / b) + a % b,
                b == g * (b / g),
                a % b == g * ((a % b) / g),
                k == (b / g) * (a / b) + (a % b) / g,
        ;
        vstd::arithmetic::div_mod::lemma_mod_multiples_vanish(k as int, 0, g as int);
        vstd::arithmetic::div_mod::lemma_small_mod(0, g);
    }
}

/// The greatest common divisor is greatest: every common divisor of the two
/// arguments divides it (and so, when the gcd is positive, is at most the gcd).
pub proof fn lemma_gcd_greatest(a: nat, b: nat, d: nat)
    requires
        d > 0,
        a % d == 0,
        b % d == 0,
    ensures
        gcd_nat(a, b) % d == 0,
        gcd_nat(a, b) != 0 ==> d <= gcd_nat(a, b),
    decreases b,
{
    if b == 0 {
    } else {
        vstd::arithmetic::div_mod::lemma_fundamental_div_mod(a as int, b as int);
        vstd::arithmetic::div_mod::lemma_fundamental_div_mod(a as int, d as int);
        vstd::arithmetic::div_mod::lemma_fundamental_div_mod(b as int, d as int);
        let k: int = a / d - (b / d) * (a / b);
        assert(a == d * (a / d));
        assert(b == d * (b / d));
        assert(b * (a / b) == d * ((b / d) * (a / b))) by (nonlinear_arith)
            requires
                b == d * (b / d),
        ;
        assert(d * (a / d) - d * ((b / d) * (a / b)) == d * k) by (nonlinear_arith)
            requires
                k == a / d - (b / d) * (a / b),
        ;
        assert((a % b) as int == d * k);
        vstd::arithmetic::div_mod::lemma_mod_multiples_vanish(k, 0, d as int);
        vstd::arithmetic::div_mod::lemma_small_mod(0, d);
        lemma_gcd_greatest(b, a % b, d);
    }
    let g = gcd_nat(a, b);
    if g != 0 {
        vstd::arithmetic::div_mod::lemma_fundamental_div_mod(g as int, d as int);
        assert(d <= g) by (nonlinear_arith)
            requires
                g == d * (g / d) + 0,
                g > 0,
                d > 0,
        ;
    }
}



// ---------------------------------------------------------------------------
// Radix string conversion.
// ---------------------------------------------------------------------------
/// Why a radix string failed to convert.
#[derive(Copy, Clone, PartialEq, Eq, Hash, Debug)]
pub enum FromRadixError {
    /// Only radix 10 and radix 16 are supported.
    UnsupportedRadix,
    /// A character is not a digit of the radix.
    InvalidCharacter,
    /// The digit string denotes a value too large for 256 bits.
    ValueTooLarge,
}

/// The value of one digit character in the given radix, if it is one: `0-9`
/// always, and `a-f` or `A-F` for radix 16.
pub open spec fn spec_radix_digit(c: char, radix: nat) -> Option<nat> {
    let v = c as u32;
    if 48 <= v && v <= 57 {
        Some((v - 48) as nat)
    } else if 97 <= v && v <= 102 && radix == 16 {
        Some((v - 87) as nat)
    } else if 65 <= v && v <= 70 && radix == 16 {
        Some((v - 55) as nat)
    } else {
        None
    }
}

/// The value a digit string denotes in the radix, read from the most significant
/// digit down; absent if any character is not a digit of the radix. The empty
/// string denotes zero.
pub open spec fn spec_radix_val(s: Seq<char>, radix: nat) -> Option<nat>
    decreases s.len(),
{
    if s.len() == 0 {
        Some(0)
    } else {
        match (spec_radix_val(s.drop_last(), radix), spec_radix_digit(s.last(), radix)) {
            (Some(hi), Some(d)) => Some(hi * radix + d),
            _ => None,
        }
    }
}

/// The value of a sequence of digit values in the radix.
pub open spec fn spec_radix_vals(ds: Seq<u8>, radix: nat) -> nat
    decreases ds.len(),
{
    if ds.len() == 0 {
        0
    } else {
        (spec_radix_vals(ds.drop_last(), radix) * radix + ds.last()) as nat
    }
}

/// A digit string with an undigestible prefix is undigestible as a whole.
proof fn lemma_radix_val_extend_none(s: Seq<char>, j: int, radix: nat)
    requires
        0 <= j <= s.len(),
        spec_radix_val(s.take(j), radix) is None,
    ensures
        spec_radix_val(s, radix) is None,
    decreases s.len() - j,
{
    if j < s.len() {
        assert(s.take(j + 1).drop_last() =~= s.take(j));
        lemma_radix_val_extend_none(s, j + 1, radix);
    } else {
        assert(s.take(j) =~= s);
    }
}

/// Every prefix of a digit-value sequence denotes at most the whole sequence.
proof fn lemma_radix_vals_prefix(ds: Seq<u8>, j: int, radix: nat)
    requires
        0 <= j <= ds.len(),
        radix >= 1,
    ensures
        spec_radix_vals(ds.take(j), radix) <= spec_radix_vals(ds, radix),
    decreases ds.len() - j,
{
    if j < ds.len() {
        assert(ds.take(j + 1).drop_last() =~= ds.take(j));
        let prev = spec_radix_vals(ds.take(j), radix);
        assert(prev * radix >= prev) by (nonlinear_arith)
            requires
                radix >= 1,
                prev >= 0,
        ;
        lemma_radix_vals_prefix(ds, j + 1, radix);
    } else {
        assert(ds.take(j) =~= ds);
    }
}

/// The digit value of a character in the radix; absent exactly on non-digits.
fn radix_digit(c: char, radix: u32) -> (r: Option<u8>)
    requires
        radix == 10 || radix == 16,
    ensures
        (match r {
            Some(d) => spec_radix_digit(c, radix as nat) == Some(d as nat) && d < radix,
            None => spec_radix_digit(c, radix as nat) is None,
        }),
{
    match crate::digits::char_to_digit(c) {
        Some(d) => Some(d),
        None => {
            if radix == 16 {
                match c {
                    'a' => Some(10),
                    'b' => Some(11),
                    'c' => Some(12),
                    'd' => Some(13),
                    'e' => Some(14),
                    'f' => Some(15),
                    'A' => Some(10),
                    'B' => Some(11),
                    'C' => Some(12),
                    'D' => Some(13),
                    'E' => Some(14),
                    'F' => Some(15),
                    _ => None,
                }
            } else {
                None
            }
        },
    }
}

impl U256 {
    /// Converts a string slice in a given base to an integer. Only radix 10 and
    /// radix 16 are supported. A digit is `0-9` and, for radix 16, `a-f` or
    /// `A-F`; no sign, prefix or grouping is accepted, and the empty string
    /// denotes zero. The conversion fails on the first unsupported radix, on any
    /// non-digit character, and on a value of 256 bits or more, in that order.
    pub fn from_str_radix(txt: &str, radix: u32) -> (r: Result<U256, FromRadixError>)
        ensures
            (radix != 10 && radix != 16) ==> r == Err::<U256, FromRadixError>(
                FromRadixError::UnsupportedRadix,
            ),
            (radix == 10 || radix == 16) ==> (match r {
                Ok(v) => spec_radix_val(txt@, radix as nat) == Some(v.uval()),
                Err(e) => match e {
                    FromRadixError::UnsupportedRadix => false,
                    FromRadixError::InvalidCharacter => spec_radix_val(txt@, radix as nat)
                        is None,
                    FromRadixError::ValueTooLarge => (spec_radix_val(txt@, radix as nat)
                        matches Some(n) && n >= u256_modulus()),
                },
            }),
    {
        if radix != 10 && radix != 16 {
            return Err(FromRadixError::UnsupportedRadix);
        }
        let chars = crate::digits::str_chars(txt);
        let n = chars.len();
        let mut ds: Vec<u8> = Vec::new();
        let mut i: usize = 0;
        while i < n
            invariant
                i <= n,
                n == chars@.len(),
                chars@ == txt@,
                radix == 10 || radix == 16,
                ds@.len() == i,
                forall|k: int| 0 <= k < ds@.len() ==> #[trigger] ds@[k] < radix,
                spec_radix_val(txt@.take(i as int), radix as nat) == Some(
                    spec_radix_vals(ds@, radix as nat),
                ),
            decreases n - i,
        {
            let c = chars[i];
            proof {
                assert(txt@.take(i + 1).drop_last() =~= txt@.take(i as int));
                assert(txt@.take(i + 1).last() == c);
            }
            match radix_digit(c, radix) {
                Some(d) => {
                    proof {
                        assert(ds@.push(d).drop_last() =~= ds@);
                    }
                    ds.push(d);
                    i = i + 1;
                },
                None => {
                    proof {
                        lemma_radix_val_extend_none(txt@, i + 1, radix as nat);
                    }
                    return Err(FromRadixError::InvalidCharacter);
                },
            }
        }
        proof {
            assert(txt@.take(n as int) =~= txt@);
        }
        let rad = U256::from_u64(radix as u64);
        let mut acc = U256::zero();
        let mut j: usize = 0;
        while j < ds.len()
            invariant
                j <= ds@.len(),
                radix == 10 || radix == 16,
                rad.uval() == radix,
                forall|k: int| 0 <= k < ds@.len() ==> #[trigger] ds@[k] < radix,
                spec_radix_val(txt@, radix as nat) == Some(spec_radix_vals(ds@, radix as nat)),
                acc.uval() == spec_radix_vals(ds@.take(j as int), radix as nat),
            decreases ds@.len() - j,
        {
            let d = ds[j];
            proof {
                assert(ds@.take(j + 1).drop_last() =~= ds@.take(j as int));
                assert(ds@.take(j + 1).last() == d);
            }
            let shifted = match acc.checked_mul(&rad) {
                Some(x) => x,
                None => {
                    proof {
                        lemma_radix_vals_prefix(ds@, j + 1, radix as nat);
                        let prev = spec_radix_vals(ds@.take(j as int), radix as nat);
                        assert(prev * radix + d >= prev * radix);
                    }
                    return Err(FromRadixError::ValueTooLarge);
                },
            };
            acc = match shifted.checked_add(&U256::from_u64(d as u64)) {
                Some(x) => x,
                None => {
                    proof {
                        lemma_radix_vals_prefix(ds@, j + 1, radix as nat);
                    }
                    return Err(FromRadixError::ValueTooLarge);
                },
            };
            j = j + 1;
        }
        proof {
            assert(ds@.take(ds@.len() as int) =~= ds@);
        }
        Ok(acc)
    }
}


} // verus!
