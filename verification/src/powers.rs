//! Powers of ten at the specification level, used to relate scale factors,
//! decimal digit counts and digit strings.

use vstd::arithmetic::power::lemma_pow_adds;
use vstd::arithmetic::power::lemma_pow_increases;
use vstd::arithmetic::power::lemma_pow_positive;
use vstd::arithmetic::power::pow;
use vstd::prelude::*;

verus! {

/// `10^e` as a mathematical integer.
pub open spec fn pow10(e: nat) -> nat {
    pow(10, e) as nat
}

/// A power of ten is always positive.
pub proof fn lemma_pow10_pos(e: nat)
    ensures
        pow10(e) >= 1,
{
    lemma_pow_positive(10, e);
}

/// Powers of ten multiply when exponents add.
pub proof fn lemma_pow10_adds(a: nat, b: nat)
    ensures
        pow10(a + b) == pow10(a) * pow10(b),
{
    lemma_pow_adds(10, a, b);
    lemma_pow_positive(10, a);
    lemma_pow_positive(10, b);
}

/// The concrete powers of ten that the currency descriptors use.
pub proof fn lemma_pow10_vals()
    ensures
        pow10(0) == 1,
        pow10(1) == 10,
        pow10(2) == 100,
        pow10(3) == 1000,
        pow10(6) == 1000000,
        pow10(8) == 100000000,
        pow10(10) == 10000000000,
        pow10(12) == 1000000000000,
        pow10(18) == 1000000000000000000,
{
    reveal_with_fuel(pow, 19);
}

} // verus!
