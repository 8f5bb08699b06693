use currencies::amount::Amount;
use currencies::backing::TrailingZeros;
use currencies::currency::Currency;
use currencies::currency::AUD;
use currencies::currency::DOT;
use currencies::currency::ETH;
use currencies::currency::KSM;
use currencies::currency::USD;
use currencies::safety::Checked;
use currencies::u256::U256;

#[test]
fn show_off_currency_math() {
    let apple_cost = Amount::<USD>::from_raw(3_24);
    let orange_cost = Amount::<USD>::from_raw(7_97);
    assert!(apple_cost < orange_cost);
    assert!(apple_cost.add(orange_cost) > orange_cost);
    assert_eq!(apple_cost.mul(orange_cost).format(), "$25.82");
    assert_eq!(apple_cost.mul_i32(3).format(), "$9.72");

    let mut total = Amount::<DOT>::from_raw(U256::from_u128(5762244984_10000000004));
    total.sub_assign(Amount::from_raw(U256::from_u128(1000_0000000000)));
    total.mul_assign(Amount::from_raw(U256::from_u64(2_0000000000)));
    assert_eq!(total.format(), "115244897682.0000000008 DOT");
}

#[test]
fn show_off_checked_math() {
    // With `Safety = Checked` only checked math is available: every fallible
    // operation hands back an `Option` that must be consumed explicitly, so
    // amounts of this kind are suitable for critical/infallible environments.
    let drink_cost = Amount::<USD, Checked>::from_raw(6_29);
    let movie_cost = Amount::<USD, Checked>::from_raw(24_99);
    let Some(outing_cost) = drink_cost.checked_add(movie_cost) else {
        panic!("compiler forces you to handle this!")
    };
    assert_eq!(outing_cost.format(), "$31.28");
}

#[test]
fn test_from_raw() {
    let a: Amount = Amount::from_raw(1000_00);
    let b: Amount = Amount::from_raw(200_00);
    let c: Amount<USD> = Amount::from_raw(50);
    assert!(a != b);
    assert!(a == a);
    assert!(b != c);
    assert!(a != c);
    assert!(!a.eq_amount(&b));
    assert!(a.eq_amount(&a));
    assert!(b.lt_amount(&a));
    assert!(!a.lt_amount(&b));
}

#[test]
fn test_basic_ops_unchecked() {
    let a = Amount::<USD>::from_raw(100_00);
    let b = Amount::<USD>::from_raw(50_00);
    assert!(a.add(b) == Amount::from_raw(150_00));
    assert!(a.div(b) == 2);
    assert!(a.mul(b) == Amount::from_raw(5000_00));
    let mut c = a;
    c.add_assign(b);
    assert!(c == Amount::from_raw(150_00));
    assert!(a.mul_u8(3u8) == Amount::from_raw(300_00));
    assert!(a.mul_u16(3u16) == Amount::from_raw(300_00));
    assert!(a.mul_u32(3u32) == Amount::from_raw(300_00));
    assert!(a.mul_u64(3u64) == Amount::from_raw(300_00));
    assert!(a.mul_u128(3u128) == Amount::from_raw(300_00));
    assert!(a.mul_usize(3usize) == Amount::from_raw(300_00));
    let a = Amount::<USD>::from_raw(u64::MAX);
    assert!(a.sub(Amount::<USD>::from_raw(0_01)) < a);
    assert!(a.sub(Amount::<USD>::from_raw(0_01)) > b);
}

#[test]
fn test_basic_ops_checked() {
    let a = Amount::<USD, Checked>::from_raw(33_26);
    let b = Amount::<USD, Checked>::from_raw(245_23);
    assert!(a.checked_sub(b).is_none());
    assert!(a.checked_add(b).unwrap() == Amount::from_raw(278_49));
    assert!(a.checked_div(b).unwrap() == 0);
    assert!(b.checked_div(a).unwrap() == 7);
    assert!(a.checked_div(Amount::from_raw(0)).is_none());
    let a = Amount::<ETH, Checked>::from_raw(U256::max_value());
    assert!(a.checked_add(Amount::from_raw(U256::from_u64(1))).is_none());
    assert!(a.checked_sub(Amount::from_raw(U256::from_u64(1))).is_some());
}

#[test]
fn amount_test_display() {
    assert_eq!(ETH::base().trailing_zeros(), 18);
    let a = Amount::<USD>::from_raw(124_27);
    let b = Amount::<ETH>::from_raw(U256::from_u128(500000000_000000000000000001u128));
    let c = Amount::<AUD>::from_raw(365000000_23);
    let d = Amount::<DOT>::from_raw(U256::from_u64(457_0000000003));
    let e = Amount::<KSM>::from_raw(U256::from_u128(249879873_700000000004));
    assert_eq!(a.format(), "$124.27");
    assert_eq!(b.format(), "500000000.000000000000000001 ETH");
    assert_eq!(c.format(), "$365000000.23");
    assert_eq!(d.format(), "457.0000000003 DOT");
    assert_eq!(e.format(), "249879873.700000000004 KSM");
}

#[test]
fn add_then_sub_returns_left_operand() {
    let a = Amount::<USD>::from_raw(123_45);
    let b = Amount::<USD>::from_raw(999_99);
    assert_eq!(a.add(b).sub(b), a);
    let x = Amount::<ETH>::from_raw(U256::from_u128(123456789012345678901234567890u128));
    let y = Amount::<ETH>::from_raw(U256::from_u64(42));
    assert_eq!(x.add(y).sub(y), x);
}

#[test]
fn fixed_point_multiply_rescales_by_base() {
    let a = Amount::<USD>::from_raw(324);
    let b = Amount::<USD>::from_raw(797);
    assert_eq!(a.mul(b), Amount::from_raw(2582));
}

#[test]
fn division_yields_ratio_not_amount() {
    let a = Amount::<USD>::from_raw(10000);
    let b = Amount::<USD>::from_raw(5000);
    let ratio: u64 = a.div(b);
    assert_eq!(ratio, 2);
}

#[test]
fn checked_division_by_zero_is_absent() {
    let one = Amount::<USD, Checked>::from_raw(1);
    let zero = Amount::<USD, Checked>::from_raw(0);
    assert!(one.checked_div(zero).is_none());
}

#[test]
fn rem_and_zero_helpers() {
    let a = Amount::<USD>::from_raw(10_07);
    let b = Amount::<USD>::from_raw(5_00);
    assert_eq!(a.rem(b), Amount::from_raw(7));
    assert!(Amount::<USD>::zero().is_zero());
    assert!(!Amount::<USD>::one().is_zero());
    assert_eq!(Amount::<USD>::one(), Amount::from_raw(1));
}
