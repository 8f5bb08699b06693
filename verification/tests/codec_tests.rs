use currencies::amount::Amount;
use currencies::codec::ParseErrorKind;
use currencies::codec::ParsedAmount;
use currencies::currency::Currency;
use currencies::currency::ADA;
use currencies::currency::BTC;
use currencies::currency::ETH;
use currencies::currency::USD;
use currencies::safety::Checked;
use currencies::safety::Unchecked;
use currencies::u256::U256;

#[test]
fn test_parsing_usd() {
    assert_eq!(USD::decimal_digits(), 2);

    let amount: Amount<USD> = Amount::parse("$1,000.00").unwrap();
    assert_eq!(amount, Amount::from_raw(1_000_00));

    assert!(Amount::<USD>::parse("$1,00000").unwrap_err().message().contains("expected `.`"));

    let amount: Amount<USD> = Amount::parse("$2748972.98").unwrap();
    assert_eq!(amount, Amount::from_raw(2748972_98));

    let amount: Amount<USD> = Amount::parse("$0.01").unwrap();
    assert_eq!(amount, Amount::from_raw(0_01));

    assert!(
        Amount::<USD>::parse("$0.001").unwrap_err().message().contains("too many decimal digits")
    );

    let amount: Amount<USD> = Amount::parse("$0.1").unwrap();
    assert_eq!(Amount::<USD>::from_raw(010).format(), "$0.10");
    assert_eq!(amount.format(), "$0.10");
    assert_eq!(amount, Amount::from_raw(010));
}

#[test]
fn test_parsing_ada() {
    assert_eq!(ADA::decimal_digits(), 6);

    let amount: Amount<ADA> = Amount::parse("₳1,000.000000").unwrap();
    assert_eq!(amount, Amount::from_raw(1_000_000_000));
}

#[test]
fn test_amt_usd_unchecked() {
    let amount: Amount<USD, Unchecked> = Amount::parse("$3.24").unwrap();
    assert_eq!(amount.format(), "$3.24");
}

#[test]
fn test_amt_usd_checked() {
    let amount: Amount<USD, Checked> = Amount::parse("$3.24").unwrap();
    assert_eq!(amount.format(), "$3.24");
}

#[test]
fn test_amt_btc_checked() {
    let amount: Amount<BTC, Checked> = Amount::parse("0.00000001 BTC").unwrap();
    assert_eq!(amount.format(), "0.00000001 BTC");
}

#[test]
fn test_amt_btc_unchecked() {
    let amount: Amount<BTC, Unchecked> = Amount::parse("0.00000001 BTC").unwrap();
    assert_eq!(amount.format(), "0.00000001 BTC");
}

#[test]
fn round_trip_over_raw_values() {
    for raw in [0u64, 1, 9, 10, 99, 100, 12345, 1_000_000_007, u64::MAX] {
        let a = Amount::<USD>::from_raw(raw);
        assert_eq!(Amount::<USD>::parse(&a.format()).unwrap(), a);
        let b = Amount::<BTC>::from_raw(raw);
        assert_eq!(Amount::<BTC>::parse(&b.format()).unwrap(), b);
    }
    let big = Amount::<ETH>::from_raw(U256::from_u128(123456789012345678901234567890u128));
    assert_eq!(Amount::<ETH>::parse(&big.format()).unwrap(), big);
    let max = Amount::<ETH>::from_raw(U256::max_value());
    assert_eq!(Amount::<ETH>::parse(&max.format()).unwrap(), max);
}

#[test]
fn parse_reports_the_consumed_span() {
    let p: ParsedAmount<USD> = ParsedAmount::parse("$12.34").unwrap();
    assert_eq!(p.amount, Amount::from_raw(12_34));
    assert_eq!(p.span.start, 0);
    assert_eq!(p.span.end, 6);
    // Trailing text is left unread.
    let p: ParsedAmount<USD> = ParsedAmount::parse("$12.34 and change").unwrap();
    assert_eq!(p.span.end, 6);
}

#[test]
fn each_error_kind_has_an_input() {
    // Missing prefix symbol.
    let e = Amount::<USD, Unchecked>::parse("1.00").unwrap_err();
    assert!(matches!(e.kind, ParseErrorKind::ExpectedSymbol));
    assert!(e.message().contains("expected symbol"));
    // No digits in the whole part.
    let e = Amount::<USD, Unchecked>::parse("$.50").unwrap_err();
    assert!(matches!(e.kind, ParseErrorKind::ExpectedDigit));
    // Missing decimal point.
    let e = Amount::<USD, Unchecked>::parse("$100").unwrap_err();
    assert!(matches!(e.kind, ParseErrorKind::ExpectedPoint));
    // A comma not followed by a digit.
    let e = Amount::<USD, Unchecked>::parse("$1,,000.00").unwrap_err();
    assert!(matches!(e.kind, ParseErrorKind::ExpectedDigit));
    assert!(e.message().contains("expected digit"));
    // Too many fractional digits.
    let e = Amount::<USD, Unchecked>::parse("$0.001").unwrap_err();
    assert!(matches!(e.kind, ParseErrorKind::TooManyDecimalDigits));
    assert_eq!(e.span.start, 3);
    assert_eq!(e.span.end, 6);
    // A digit string too large for the backing type.
    let e = Amount::<USD, Unchecked>::parse("$99999999999999999999.00").unwrap_err();
    assert!(matches!(e.kind, ParseErrorKind::InvalidAmount));
    assert!(e.message().contains("invalid amount"));
    // Missing space before a spaced suffix symbol.
    let e = Amount::<BTC, Unchecked>::parse("0.00000001BTC").unwrap_err();
    assert!(matches!(e.kind, ParseErrorKind::ExpectedSpace));
    assert!(e.message().contains("expected ` `"));
    // Missing suffix symbol.
    let e = Amount::<BTC, Unchecked>::parse("0.00000001 LTC").unwrap_err();
    assert!(matches!(e.kind, ParseErrorKind::ExpectedSymbol));
}

#[test]
fn fewer_fractional_digits_are_right_padded() {
    assert_eq!(Amount::<BTC, Unchecked>::parse("1.5 BTC").unwrap(), Amount::from_raw(1_50000000));
    assert_eq!(Amount::<USD, Unchecked>::parse("$3.").unwrap(), Amount::from_raw(3_00));
}
