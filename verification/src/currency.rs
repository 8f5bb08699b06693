//! The [`Currency`] trait — the static descriptor of one currency — and the
//! concrete currencies this crate ships.

use vstd::prelude::*;

use crate::backing::Backing;
use crate::powers::lemma_pow10_vals;
use crate::powers::pow10;
use crate::u256::U256;

verus! {

/// How a formatted amount and the currency's symbol are put together.
#[derive(Copy, Clone, PartialEq, Eq, PartialOrd, Ord, Hash, Debug)]
pub enum FormatStyle {
    /// The symbol prefixes the amount with no space, like `$40.00`. Common
    /// for major English-speaking locales.
    PrefixAttached,
    /// The symbol suffixes the amount with no space, like `40.00EUR`.
    SuffixAttached,
    /// The symbol prefixes the amount with a space, like `$ 40.00`. Generally not used.
    PrefixSpaced,
    /// The symbol suffixes the amount with a space, like `40.00 AUD`.
    /// Commonly used by currencies with a multi-character or alphabetic symbol.
    SuffixSpaced,
}

impl Default for FormatStyle {
    /// The default style attaches the symbol in front of the number.
    fn default() -> (r: Self)
        ensures
            r == FormatStyle::PrefixAttached,
    {
        FormatStyle::PrefixAttached
    }
}

/// Uniquely defines a particular currency.
///
/// A currency is described entirely by static data: the backing integer type, the
/// scale factor separating minor units from major units, the number of decimal
/// digits (stored explicitly, since a few currencies use a scale factor that is not
/// a power of ten), a short code, a display symbol, a proper name, the display
/// style, and whether the currency is ISO-governed or a cryptocurrency.
///
/// Each exec item is pinned to a spec-level counterpart, and
/// [`Currency::lemma_descriptor_wf`] obliges every implementation to prove its
/// descriptor well-formed: the scale factor is positive, representable in the
/// backing type, and consistent with the decimal digit count (minor units always
/// fit in that many decimal digits).
pub trait Currency: Copy + Clone + PartialEq + Eq + PartialOrd + Ord + core::hash::Hash {
    /// The integer type used to represent amounts of this currency.
    type Backing: Backing;

    /// The scale factor, at the specification level.
    spec fn spec_base() -> nat;

    /// The count of decimal digits, at the specification level.
    spec fn spec_decimals() -> nat;

    /// The short code, at the specification level.
    spec fn spec_code() -> Seq<char>;

    /// The display symbol, at the specification level.
    spec fn spec_symbol() -> Seq<char>;

    /// The proper name, at the specification level.
    spec fn spec_proper_name() -> Seq<char>;

    /// The display style, at the specification level.
    spec fn spec_style() -> FormatStyle;

    /// Whether the currency is ISO-governed, at the specification level.
    spec fn spec_is_iso() -> bool;

    /// Whether the currency is a cryptocurrency, at the specification level.
    spec fn spec_is_crypto() -> bool;

    /// Every descriptor is well-formed: the scale factor is positive, fits the
    /// backing type, and minor units fit in the declared count of decimal digits.
    proof fn lemma_descriptor_wf()
        ensures
            0 < Self::spec_base(),
            Self::spec_base() < Self::Backing::modulus(),
            Self::spec_base() <= pow10(Self::spec_decimals()),
    ;

    /// The numerical scale factor of an amount of this currency: the count of
    /// minor units in one major unit.
    fn base() -> (r: Self::Backing)
        ensures
            r.bval() == Self::spec_base(),
    ;

    /// How many digits to the right of the decimal point a formatted amount carries.
    fn decimal_digits() -> (r: usize)
        ensures
            r as nat == Self::spec_decimals(),
    ;

    /// A 3-4 character code: the ISO-4217 alphabetic code for ISO currencies, or a
    /// short globally unique code for the rest.
    fn code() -> (r: &'static str)
        ensures
            r@ == Self::spec_code(),
    ;

    /// The monetary symbol commonly associated with this currency. Symbols can be
    /// several characters long and are not globally unique.
    fn symbol() -> (r: &'static str)
        ensures
            r@ == Self::spec_symbol(),
    ;

    /// A long-hand / proper name, such as "United States Dollar".
    fn proper_name() -> (r: &'static str)
        ensures
            r@ == Self::spec_proper_name(),
    ;

    /// How a formatted amount of this currency is put together with the symbol.
    fn style() -> (r: FormatStyle)
        ensures
            r == Self::spec_style(),
    ;

    /// Whether this currency is governed by ISO-4217.
    fn is_iso() -> (r: bool)
        ensures
            r == Self::spec_is_iso(),
    ;

    /// Whether this currency is a cryptocurrency.
    fn is_crypto() -> (r: bool)
        ensures
            r == Self::spec_is_crypto(),
    ;
}

/// United States Dollar ($).
#[derive(Copy, Clone, PartialEq, Eq, PartialOrd, Ord, Hash, Debug)]
pub struct USD;

impl Currency for USD {
    type Backing = u64;

    open spec fn spec_base() -> nat {
        100
    }

    open spec fn spec_decimals() -> nat {
        2
    }

    open spec fn spec_code() -> Seq<char> {
        "USD"@
    }

    open spec fn spec_symbol() -> Seq<char> {
        "$"@
    }

    open spec fn spec_proper_name() -> Seq<char> {
        "United States Dollar"@
    }

    open spec fn spec_style() -> FormatStyle {
        FormatStyle::PrefixAttached
    }

    open spec fn spec_is_iso() -> bool {
        true
    }

    open spec fn spec_is_crypto() -> bool {
        false
    }

    proof fn lemma_descriptor_wf() {
        lemma_pow10_vals();
    }

    fn base() -> (r: u64) {
        100
    }

    fn decimal_digits() -> (r: usize) {
        2
    }

    fn code() -> (r: &'static str) {
        "USD"
    }

    fn symbol() -> (r: &'static str) {
        "$"
    }

    fn proper_name() -> (r: &'static str) {
        "United States Dollar"
    }

    fn style() -> (r: FormatStyle) {
        FormatStyle::PrefixAttached
    }

    fn is_iso() -> (r: bool) {
        true
    }

    fn is_crypto() -> (r: bool) {
        false
    }
}

/// Australian Dollar ($).
#[derive(Copy, Clone, PartialEq, Eq, PartialOrd, Ord, Hash, Debug)]
pub struct AUD;

impl Currency for AUD {
    type Backing = u64;

    open spec fn spec_base() -> nat {
        100
    }

    open spec fn spec_decimals() -> nat {
        2
    }

    open spec fn spec_code() -> Seq<char> {
        "AUD"@
    }

    open spec fn spec_symbol() -> Seq<char> {
        "$"@
    }

    open spec fn spec_proper_name() -> Seq<char> {
        "Australian Dollar"@
    }

    open spec fn spec_style() -> FormatStyle {
        FormatStyle::PrefixAttached
    }

    open spec fn spec_is_iso() -> bool {
        true
    }

    open spec fn spec_is_crypto() -> bool {
        false
    }

    proof fn lemma_descriptor_wf() {
        lemma_pow10_vals();
    }

    fn base() -> (r: u64) {
        100
    }

    fn decimal_digits() -> (r: usize) {
        2
    }

    fn code() -> (r: &'static str) {
        "AUD"
    }

    fn symbol() -> (r: &'static str) {
        "$"
    }

    fn proper_name() -> (r: &'static str) {
        "Australian Dollar"
    }

    fn style() -> (r: FormatStyle) {
        FormatStyle::PrefixAttached
    }

    fn is_iso() -> (r: bool) {
        true
    }

    fn is_crypto() -> (r: bool) {
        false
    }
}

/// Bitcoin (BTC).
#[derive(Copy, Clone, PartialEq, Eq, PartialOrd, Ord, Hash, Debug)]
pub struct BTC;

impl Currency for BTC {
    type Backing = u64;

    open spec fn spec_base() -> nat {
        100000000
    }

    open spec fn spec_decimals() -> nat {
        8
    }

    open spec fn spec_code() -> Seq<char> {
        "BTC"@
    }

    open spec fn spec_symbol() -> Seq<char> {
        "BTC"@
    }

    open spec fn spec_proper_name() -> Seq<char> {
        "Bitcoin"@
    }

    open spec fn spec_style() -> FormatStyle {
        FormatStyle::SuffixSpaced
    }

    open spec fn spec_is_iso() -> bool {
        false
    }

    open spec fn spec_is_crypto() -> bool {
        true
    }

    proof fn lemma_descriptor_wf() {
        lemma_pow10_vals();
    }

    fn base() -> (r: u64) {
        100000000
    }

    fn decimal_digits() -> (r: usize) {
        8
    }

    fn code() -> (r: &'static str) {
        "BTC"
    }

    fn symbol() -> (r: &'static str) {
        "BTC"
    }

    fn proper_name() -> (r: &'static str) {
        "Bitcoin"
    }

    fn style() -> (r: FormatStyle) {
        FormatStyle::SuffixSpaced
    }

    fn is_iso() -> (r: bool) {
        false
    }

    fn is_crypto() -> (r: bool) {
        true
    }
}

/// Cardano (\u{20b3}).
#[derive(Copy, Clone, PartialEq, Eq, PartialOrd, Ord, Hash, Debug)]
pub struct ADA;

impl Currency for ADA {
    type Backing = u64;

    open spec fn spec_base() -> nat {
        1000000
    }

    open spec fn spec_decimals() -> nat {
        6
    }

    open spec fn spec_code() -> Seq<char> {
        "ADA"@
    }

    open spec fn spec_symbol() -> Seq<char> {
        "\u{20b3}"@
    }

    open spec fn spec_proper_name() -> Seq<char> {
        "Cardano"@
    }

    open spec fn spec_style() -> FormatStyle {
        FormatStyle::PrefixAttached
    }

    open spec fn spec_is_iso() -> bool {
        false
    }

    open spec fn spec_is_crypto() -> bool {
        true
    }

    proof fn lemma_descriptor_wf() {
        lemma_pow10_vals();
    }

    fn base() -> (r: u64) {
        1000000
    }

    fn decimal_digits() -> (r: usize) {
        6
    }

    fn code() -> (r: &'static str) {
        "ADA"
    }

    fn symbol() -> (r: &'static str) {
        "\u{20b3}"
    }

    fn proper_name() -> (r: &'static str) {
        "Cardano"
    }

    fn style() -> (r: FormatStyle) {
        FormatStyle::PrefixAttached
    }

    fn is_iso() -> (r: bool) {
        false
    }

    fn is_crypto() -> (r: bool) {
        true
    }
}

/// Ethereum (ETH).
#[derive(Copy, Clone, PartialEq, Eq, PartialOrd, Ord, Hash, Debug)]
pub struct ETH;

impl Currency for ETH {
    type Backing = U256;

    open spec fn spec_base() -> nat {
        1000000000000000000
    }

    open spec fn spec_decimals() -> nat {
        18
    }

    open spec fn spec_code() -> Seq<char> {
        "ETH"@
    }

    open spec fn spec_symbol() -> Seq<char> {
        "ETH"@
    }

    open spec fn spec_proper_name() -> Seq<char> {
        "Ethereum"@
    }

    open spec fn spec_style() -> FormatStyle {
        FormatStyle::SuffixSpaced
    }

    open spec fn spec_is_iso() -> bool {
        false
    }

    open spec fn spec_is_crypto() -> bool {
        true
    }

    proof fn lemma_descriptor_wf() {
        lemma_pow10_vals();
    }

    fn base() -> (r: U256) {
        U256::from_u64(1000000000000000000)
    }

    fn decimal_digits() -> (r: usize) {
        18
    }

    fn code() -> (r: &'static str) {
        "ETH"
    }

    fn symbol() -> (r: &'static str) {
        "ETH"
    }

    fn proper_name() -> (r: &'static str) {
        "Ethereum"
    }

    fn style() -> (r: FormatStyle) {
        FormatStyle::SuffixSpaced
    }

    fn is_iso() -> (r: bool) {
        false
    }

    fn is_crypto() -> (r: bool) {
        true
    }
}

/// Polkadot (DOT).
#[derive(Copy, Clone, PartialEq, Eq, PartialOrd, Ord, Hash, Debug)]
pub struct DOT;

impl Currency for DOT {
    type Backing = U256;

    open spec fn spec_base() -> nat {
        10000000000
    }

    open spec fn spec_decimals() -> nat {
        10
    }

    open spec fn spec_code() -> Seq<char> {
        "DOT"@
    }

    open spec fn spec_symbol() -> Seq<char> {
        "DOT"@
    }

    open spec fn spec_proper_name() -> Seq<char> {
        "Polkadot"@
    }

    open spec fn spec_style() -> FormatStyle {
        FormatStyle::SuffixSpaced
    }

    open spec fn spec_is_iso() -> bool {
        false
    }

    open spec fn spec_is_crypto() -> bool {
        true
    }

    proof fn lemma_descriptor_wf() {
        lemma_pow10_vals();
    }

    fn base() -> (r: U256) {
        U256::from_u64(10000000000)
    }

    fn decimal_digits() -> (r: usize) {
        10
    }

    fn code() -> (r: &'static str) {
        "DOT"
    }

    fn symbol() -> (r: &'static str) {
        "DOT"
    }

    fn proper_name() -> (r: &'static str) {
        "Polkadot"
    }

    fn style() -> (r: FormatStyle) {
        FormatStyle::SuffixSpaced
    }

    fn is_iso() -> (r: bool) {
        false
    }

    fn is_crypto() -> (r: bool) {
        true
    }
}

/// Kusama (KSM).
#[derive(Copy, Clone, PartialEq, Eq, PartialOrd, Ord, Hash, Debug)]
pub struct KSM;

impl Currency for KSM {
    type Backing = U256;

    open spec fn spec_base() -> nat {
        1000000000000
    }

    open spec fn spec_decimals() -> nat {
        12
    }

    open spec fn spec_code() -> Seq<char> {
        "KSM"@
    }

    open spec fn spec_symbol() -> Seq<char> {
        "KSM"@
    }

    open spec fn spec_proper_name() -> Seq<char> {
        "Kusama"@
    }

    open spec fn spec_style() -> FormatStyle {
        FormatStyle::SuffixSpaced
    }

    open spec fn spec_is_iso() -> bool {
        false
    }

    open spec fn spec_is_crypto() -> bool {
        true
    }

    proof fn lemma_descriptor_wf() {
        lemma_pow10_vals();
    }

    fn base() -> (r: U256) {
        U256::from_u64(1000000000000)
    }

    fn decimal_digits() -> (r: usize) {
        12
    }

    fn code() -> (r: &'static str) {
        "KSM"
    }

    fn symbol() -> (r: &'static str) {
        "KSM"
    }

    fn proper_name() -> (r: &'static str) {
        "Kusama"
    }

    fn style() -> (r: FormatStyle) {
        FormatStyle::SuffixSpaced
    }

    fn is_iso() -> (r: bool) {
        false
    }

    fn is_crypto() -> (r: bool) {
        true
    }
}

} // verus!
