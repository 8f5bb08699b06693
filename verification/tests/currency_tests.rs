use currencies::currency::Currency;
use currencies::currency::FormatStyle;
use currencies::currency::BTC;
use currencies::currency::ETH;
use currencies::currency::USD;

#[test]
fn descriptors_carry_their_static_data() {
    assert_eq!(USD::base(), 100);
    assert_eq!(USD::decimal_digits(), 2);
    assert_eq!(USD::code(), "USD");
    assert_eq!(USD::symbol(), "$");
    assert_eq!(USD::proper_name(), "United States Dollar");
    assert!(matches!(USD::style(), FormatStyle::PrefixAttached));
    assert!(USD::is_iso());
    assert!(!USD::is_crypto());

    assert_eq!(BTC::base(), 100000000);
    assert_eq!(BTC::decimal_digits(), 8);
    assert!(matches!(BTC::style(), FormatStyle::SuffixSpaced));
    assert!(!BTC::is_iso());
    assert!(BTC::is_crypto());

    assert_eq!(ETH::decimal_digits(), 18);
    assert_eq!(ETH::symbol(), "ETH");
}

#[test]
fn default_style_attaches_the_symbol_in_front() {
    assert!(matches!(FormatStyle::default(), FormatStyle::PrefixAttached));
}
