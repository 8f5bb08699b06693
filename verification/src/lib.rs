//! Generic manipulation of currency amounts.
//!
//! An amount of a currency is a fixed-point value: one backing integer holding the
//! value in minor units (already multiplied by the currency's scale factor). The
//! currency is a type-level parameter, so amounts of different currencies can never
//! be mixed in one operation, and a type-level safety mode selects between the
//! unchecked arithmetic family (fatal inputs ruled out by precondition) and the
//! checked family (optional results the caller must consume).
//!
//! The three load-bearing pieces are the fixed-point arithmetic engine of
//! [`Amount`], the 256-bit backing integer [`U256`] for currencies whose range
//! exceeds the native machine widths, and the decimal text codec in [`codec`],
//! whose round trip (parsing a formatted amount yields the amount back) is proved
//! in [`codec::lemma_amount_round_trip`].

pub mod amount;
pub mod backing;
pub mod codec;
pub mod currency;
pub mod digits;
pub mod powers;
pub mod safety;
pub mod u256;

pub use amount::Amount;
pub use backing::Backing;
pub use backing::TrailingZeros;
pub use codec::ParseError;
pub use codec::ParseErrorKind;
pub use codec::ParsedAmount;
pub use codec::Span;
pub use currency::Currency;
pub use currency::FormatStyle;
pub use u256::u64_to_u256;
pub use u256::U256;
