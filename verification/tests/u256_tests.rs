use currencies::u256::u64_to_u256;
use currencies::u256::FromRadixError;
use currencies::u256::U256;

#[test]
fn test_mod_and_is_zero() {
    let a: U256 = U256::from_u64(20);
    let b: U256 = U256::from_u64(4);

    assert_eq!(a.rem(b), U256::zero());
    assert!(a.rem(b).is_zero());
}

#[test]
fn test_div_floor() {
    let a: U256 = U256::from_u64(13);
    let b: U256 = U256::from_u64(5);
    let result = a.div_floor(&b);
    assert_eq!(result, U256::from_u64(2));
}

#[test]
fn test_mod_floor() {
    let a: U256 = U256::from_u64(13);
    let b: U256 = U256::from_u64(5);
    let result = a.mod_floor(&b);
    assert_eq!(result, U256::from_u64(3));
}

#[test]
fn test_gcd() {
    let a: U256 = U256::from_u64(56);
    let b: U256 = U256::from_u64(98);
    let result = a.gcd(&b);
    assert_eq!(result, U256::from_u64(14));
}

#[test]
fn test_lcm() {
    let a: U256 = U256::from_u64(4);
    let b: U256 = U256::from_u64(5);
    let result = a.lcm(&b);
    assert_eq!(result, U256::from_u64(20));
}

#[test]
fn test_divides() {
    let a: U256 = U256::from_u64(4);
    let b: U256 = U256::from_u64(20);
    assert!(a.divides(&b));

    let c: U256 = U256::from_u64(3);
    assert!(!c.divides(&b));

    let a = U256::from_u64(24);
    let b = U256::from_u64(4);
    let c = U256::from_u64(5);
    let d = U256::from_u64(0);
    let e = U256::from_u64(1);

    assert!(b.divides(&a)); // 4 divides 24
    assert!(!c.divides(&a)); // 5 doesn't divide 24
    assert!(!d.divides(&a)); // 0 doesn't divide any number
    assert!(e.divides(&a)); // 1 divides every number
    assert!(a.divides(&d)); // Every number divides 0
}

#[test]
fn test_is_multiple_of() {
    let a: U256 = U256::from_u64(20);
    let b: U256 = U256::from_u64(4);
    assert!(a.is_multiple_of(&b));

    let c: U256 = U256::from_u64(3);
    assert!(!a.is_multiple_of(&c));
}

#[test]
fn test_is_even_odd() {
    let a: U256 = U256::from_u64(4);
    assert!(a.is_even());
    assert!(!a.is_odd());

    let b: U256 = U256::from_u64(3);
    assert!(!b.is_even());
    assert!(b.is_odd());
}

#[test]
fn test_div_rem() {
    let a: U256 = U256::from_u64(13);
    let b: U256 = U256::from_u64(5);
    let (div, rem) = a.div_rem(&b);
    assert_eq!(div, U256::from_u64(2));
    assert_eq!(rem, U256::from_u64(3));
}

#[test]
fn test_modulo_operation() {
    let a: U256 = U256::from_u64(20);
    let b: U256 = U256::from_u64(4);

    assert_eq!(a.rem(b), U256::zero());

    let c: U256 = U256::from_u64(23);
    let d: U256 = U256::from_u64(5);

    assert_eq!(c.rem(d), U256::from_u64(3));
}

#[test]
fn test_div_mod_floor() {
    let a = U256::from_u64(105u64);
    let b = U256::from_u64(4u64);

    let (quotient, remainder) = a.div_mod_floor(&b);

    assert_eq!(quotient, U256::from_u64(26u64)); // 105 / 4 = 26
    assert_eq!(remainder, U256::from_u64(1u64)); // 105 % 4 = 1
}

#[test]
fn u256_test_display() {
    assert_eq!(U256::from_u64(267).to_decimal_string(), "267");
}

#[test]
fn test_debug() {
    assert_eq!(U256::from_u64(1337).to_decimal_string(), "1337");
}

#[test]
fn test_addition_with_max_value() {
    let max_val = U256::max_value();
    let one = U256::from_u64(1);
    assert_eq!(max_val.saturating_add(one), U256::max_value());
}

#[test]
fn test_subtraction_with_min_value() {
    let min_val = U256::zero();
    let one = U256::from_u64(1);
    assert_eq!(min_val.saturating_sub(one), U256::zero());
}

#[test]
fn test_multiplication_with_max_value() {
    let max_val = U256::max_value();
    let two = U256::from_u64(2);
    assert_eq!(max_val.saturating_mul(&two), U256::max_value());
}

#[test]
fn test_division_with_min_value() {
    let min_val = U256::zero();
    let two = U256::from_u64(2);
    assert_eq!(min_val.div(two), U256::zero()); // Division by 2 of 0 remains 0; no change needed.
}

#[test]
fn test_bit_operations() {
    let max_val = U256::max_value();
    let min_val = U256::zero();

    // Bitwise AND with the maximum should return the other operand
    assert_eq!(max_val.bitand(U256::from_u64(12345)), U256::from_u64(12345));

    // Bitwise AND with zero should return zero
    assert_eq!(min_val.bitand(U256::from_u64(12345)), U256::zero());

    // Bitwise OR with the maximum should return the maximum
    assert_eq!(max_val.bitor(U256::from_u64(12345)), U256::max_value());

    // Bitwise OR with zero should return the other operand
    assert_eq!(min_val.bitor(U256::from_u64(12345)), U256::from_u64(12345));

    // Bitwise NOT of zero should return the maximum
    assert_eq!(min_val.not(), U256::max_value());

    // Bitwise NOT of the maximum should return zero
    assert_eq!(max_val.not(), U256::zero());

    // Exclusive or against zero and against the value itself
    assert_eq!(min_val.bitxor(U256::from_u64(12345)), U256::from_u64(12345));
    assert_eq!(U256::from_u64(12345).bitxor(U256::from_u64(12345)), U256::zero());
}

#[test]
fn test_div_mod_floor_extended() {
    // A scale factor similar to the one used for 18-digit cryptocurrencies.
    let base: U256 = U256::from_u128(1_000_000_000_000_000_000u128);

    // Use a number slightly bigger than the base.
    let value = base.add(U256::from_u128(123_456_789_123_456_789u128));

    let (quotient, remainder) = value.div_mod_floor(&base);

    assert_eq!(quotient, U256::from_u64(1)); // one whole base plus some remainder
    assert_eq!(remainder, U256::from_u128(123_456_789_123_456_789u128));
}

#[test]
fn division_identity_holds_on_samples() {
    let a = U256::from_u128(123456789123456789123456789u128);
    let b = U256::from_u64(97);
    let q = a.div_floor(&b);
    let r = a.mod_floor(&b);
    assert_eq!(q.mul(b).add(r), a);
}

#[test]
fn checked_add_at_max_is_absent() {
    let max_val = U256::max_value();
    let one = U256::from_u64(1);
    assert!(max_val.checked_add(&one).is_none());
    assert!(max_val.checked_sub(&one).is_some());
    assert!(max_val.checked_mul(&U256::from_u64(2)).is_none());
    assert!(U256::from_u64(1).checked_div(&U256::zero()).is_none());
}

#[test]
fn shifts_move_bits() {
    let v = U256::from_u64(5);
    assert_eq!(v.shl(3), U256::from_u64(40));
    assert_eq!(v.shr(1), U256::from_u64(2));
    assert_eq!(v.shl_big(U256::from_u64(3)), U256::from_u64(40));
    assert_eq!(v.shr_big(U256::from_u64(1)), U256::from_u64(2));
    assert_eq!(U256::from_u64(1).shl(256), U256::zero());
}

#[test]
fn conversions_round_trip() {
    assert_eq!(u64_to_u256(77).to_u64(), Some(77));
    assert_eq!(U256::from_u128(1u128 << 100).to_u64(), None);
    assert_eq!(U256::from_i64(42).to_i64(), Some(42));
    assert_eq!(U256::max_value().to_i64(), None);
    assert_eq!(U256::from_i128(1i128 << 100).to_u64(), None);
    assert_eq!(U256::min_value(), U256::zero());
    assert_eq!(U256::from_u8(8).to_u64(), Some(8));
    assert_eq!(U256::from_u16(16).to_u64(), Some(16));
    assert_eq!(U256::from_u32(32).to_u64(), Some(32));
    assert_eq!(U256::from_i8(7).to_u64(), Some(7));
    assert_eq!(U256::from_i16(15).to_u64(), Some(15));
    assert_eq!(U256::from_i32(31).to_u64(), Some(31));
}

#[test]
fn in_place_ops_update_the_value() {
    let mut v = U256::from_u64(10);
    v.add_assign(U256::from_u64(5));
    assert_eq!(v, U256::from_u64(15));
    v.sub_assign(U256::from_u64(3));
    assert_eq!(v, U256::from_u64(12));
    v.mul_assign(U256::from_u64(4));
    assert_eq!(v, U256::from_u64(48));
    v.div_assign(U256::from_u64(6));
    assert_eq!(v, U256::from_u64(8));
}

#[test]
fn from_str_radix_reads_decimal_and_hex() {
    assert_eq!(U256::from_str_radix("1337", 10), Ok(U256::from_u64(1337)));
    assert_eq!(U256::from_str_radix("", 10), Ok(U256::zero()));
    assert_eq!(U256::from_str_radix("ff", 16), Ok(U256::from_u64(255)));
    assert_eq!(U256::from_str_radix("FF", 16), Ok(U256::from_u64(255)));
    assert_eq!(U256::from_str_radix("1a", 16), Ok(U256::from_u64(26)));
    assert_eq!(U256::from_str_radix("12x", 10), Err(FromRadixError::InvalidCharacter));
    assert_eq!(U256::from_str_radix("ff", 10), Err(FromRadixError::InvalidCharacter));
    assert_eq!(U256::from_str_radix("101", 2), Err(FromRadixError::UnsupportedRadix));
    let too_big = "9".repeat(78);
    assert_eq!(U256::from_str_radix(&too_big, 10), Err(FromRadixError::ValueTooLarge));
}
