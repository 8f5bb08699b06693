//! The decimal text codec: formatting an amount as `{major}.{minor}` wrapped in
//! the currency's symbol, and parsing such text back, with exact character-level
//! specifications for both directions.

use vstd::prelude::*;

use crate::amount::Amount;
use crate::backing::Backing;
use crate::currency::Currency;
use crate::currency::FormatStyle;
use crate::currency::USD;
use crate::digits::char_to_digit;
use crate::digits::dec_string;
use crate::digits::digit_char;
use crate::digits::digits_to_backing;
use crate::digits::digits_val;
use crate::digits::is_dec_digit;
use crate::digits::lemma_digit_val_char;
use crate::digits::lemma_digits_val_append;
use crate::digits::lemma_spec_dec_pad_val;
use crate::digits::lemma_spec_dec_val;
use crate::digits::pad_string;
use crate::digits::spec_dec;
use crate::digits::str_chars;
use crate::digits::spec_dec_pad;
use crate::digits::vals_to_chars;
use crate::powers::pow10;
use crate::safety::Safety;
use crate::safety::Unchecked;

verus! {

/// The source span a parse step consumed or complained about: start and end
/// character offsets into the input.
#[derive(Copy, Clone, PartialEq, Eq, Hash, Debug)]
pub struct Span {
    /// The first character offset of the span.
    pub start: usize,
    /// One past the last character offset of the span.
    pub end: usize,
}

/// What a parse rejected.
#[derive(Copy, Clone, PartialEq, Eq, Hash, Debug)]
pub enum ParseErrorKind {
    /// The currency's symbol was missing where its display style demands it.
    ExpectedSymbol,
    /// The space between number and symbol was missing where the display style
    /// demands it.
    ExpectedSpace,
    /// The mandatory decimal point was missing.
    ExpectedPoint,
    /// A grouping comma was not followed by a digit.
    ExpectedDigit,
    /// The fractional part carries more digits than the currency allows; accepting
    /// it would silently lose precision.
    TooManyDecimalDigits,
    /// The digit string does not fit the currency's backing type.
    InvalidAmount,
}

/// A recoverable parse error: what was rejected, and where. Syntax errors (a
/// missing symbol, space, point or digit) carry an empty span at the position of
/// the missing item; the semantic errors carry the span of the offending digits.
#[derive(Copy, Clone, PartialEq, Eq, Hash, Debug)]
pub struct ParseError {
    /// What was rejected.
    pub kind: ParseErrorKind,
    /// Where it was rejected.
    pub span: Span,
}

/// The wording of each parse error kind.
pub open spec fn spec_message(kind: ParseErrorKind) -> Seq<char> {
    match kind {
        ParseErrorKind::ExpectedSymbol => "expected symbol"@,
        ParseErrorKind::ExpectedSpace => "expected ` `"@,
        ParseErrorKind::ExpectedPoint => "expected `.`"@,
        ParseErrorKind::ExpectedDigit => "expected digit"@,
        ParseErrorKind::TooManyDecimalDigits => "too many decimal digits"@,
        ParseErrorKind::InvalidAmount => "invalid amount"@,
    }
}

impl ParseError {
    /// A human-readable description of the error.
    pub fn message(&self) -> (r: String)
        ensures
            r@ == spec_message(self.kind),
    {
        match self.kind {
            ParseErrorKind::ExpectedSymbol => String::from_str("expected symbol"),
            ParseErrorKind::ExpectedSpace => String::from_str("expected ` `"),
            ParseErrorKind::ExpectedPoint => String::from_str("expected `.`"),
            ParseErrorKind::ExpectedDigit => String::from_str("expected digit"),
            ParseErrorKind::TooManyDecimalDigits => String::from_str("too many decimal digits"),
            ParseErrorKind::InvalidAmount => String::from_str("invalid amount"),
        }
    }
}

/// An [`Amount`] parsed from text, together with the source span the parse
/// consumed.
#[derive(Copy, PartialEq, Eq, Hash, Debug)]
pub struct ParsedAmount<C: Currency = USD, S: Safety = Unchecked> {
    /// The parsed amount.
    pub amount: Amount<C, S>,
    /// The span of the consumed text.
    pub span: Span,
}

impl<C: Currency, S: Safety> Clone for ParsedAmount<C, S> {
    /// A copy of the parsed amount.
    fn clone(&self) -> (r: Self)
        ensures
            r == *self,
    {
        *self
    }
}

// ---------------------------------------------------------------------------
// The format direction.
// ---------------------------------------------------------------------------
/// The bare decimal rendering of a raw value: major units, a point, and the minor
/// units left-zero-padded to exactly the currency's digit count.
pub open spec fn spec_number(v: nat, base: nat, decimals: nat) -> Seq<char>
    recommends
        base > 0,
{
    spec_dec(v / base) + seq!['.'] + spec_dec_pad(v % base, decimals)
}

/// The full text of a formatted amount: the decimal rendering wrapped in the
/// currency's symbol according to the display style.
pub open spec fn spec_format(
    v: nat,
    base: nat,
    decimals: nat,
    sym: Seq<char>,
    style: FormatStyle,
) -> Seq<char>
    recommends
        base > 0,
{
    let number = spec_number(v, base, decimals);
    match style {
        FormatStyle::PrefixAttached => sym + number,
        FormatStyle::PrefixSpaced => sym + seq![' '] + number,
        FormatStyle::SuffixAttached => number + sym,
        FormatStyle::SuffixSpaced => number + seq![' '] + sym,
    }
}

impl<C: Currency, S: Safety> Amount<C, S> {
    /// Renders the amount as text: major units, a decimal point, the minor units
    /// left-zero-padded to exactly the currency's digit count, wrapped in the
    /// currency's symbol according to its display style. No grouping separators
    /// are emitted.
    pub fn format(&self) -> (r: String)
        ensures
            r@ == spec_format(
                self.amt_val(),
                C::spec_base(),
                C::spec_decimals(),
                C::spec_symbol(),
                C::spec_style(),
            ),
    {
        proof {
            C::lemma_descriptor_wf();
            reveal_strlit(" ");
            reveal_strlit(".");
        }
        let base = C::base();
        let raw = self.raw_backing();
        let major = raw.b_div(base);
        let minor = raw.b_rem(base);
        let mut number = dec_string(major);
        number.append(".");
        let pad = pad_string(minor, C::decimal_digits());
        number.append(pad.as_str());
        proof {
            assert(number@ =~= spec_number(self.amt_val(), C::spec_base(), C::spec_decimals()));
        }
        let mut out = String::new();
        match C::style() {
            FormatStyle::PrefixAttached => {
                out.append(C::symbol());
                out.append(number.as_str());
            },
            FormatStyle::PrefixSpaced => {
                out.append(C::symbol());
                out.append(" ");
                out.append(number.as_str());
            },
            FormatStyle::SuffixAttached => {
                out.append(number.as_str());
                out.append(C::symbol());
            },
            FormatStyle::SuffixSpaced => {
                out.append(number.as_str());
                out.append(" ");
                out.append(C::symbol());
            },
        }
        proof {
            assert(out@ =~= spec_format(
                self.amt_val(),
                C::spec_base(),
                C::spec_decimals(),
                C::spec_symbol(),
                C::spec_style(),
            ));
        }
        out
    }
}


// ---------------------------------------------------------------------------
// The parse direction: the grammar at the specification level.
// ---------------------------------------------------------------------------
/// Whether `pat` occurs in `s` starting at position `i`.
pub open spec fn matches_at(s: Seq<char>, i: int, pat: Seq<char>) -> bool {
    0 <= i && i + pat.len() <= s.len() && s.subrange(i, i + pat.len()) == pat
}

/// One past the last position of the maximal run of decimal digits starting at `i`.
pub open spec fn digit_run_end(s: Seq<char>, i: int) -> int
    recommends
        0 <= i <= s.len(),
    decreases s.len() - i,
    when 0 <= i <= s.len()
{
    if i < s.len() && is_dec_digit(s[i]) {
        digit_run_end(s, i + 1)
    } else {
        i
    }
}

/// What scanning the whole (pre-point) part yields: the digits with grouping
/// commas stripped and the position after them, or the position of a grouping
/// comma that is not followed by a digit.
pub enum WholeScan {
    /// The scan succeeded.
    Scanned {
        /// The digit characters, commas stripped.
        digits: Seq<char>,
        /// The position after the last digit consumed.
        end: int,
    },
    /// A comma stood after at least one digit but no digit followed it.
    BadComma {
        /// The position right after the offending comma, where a digit was missing.
        at: int,
    },
}

/// Prepends already-scanned digits to a scan's outcome.
pub open spec fn scan_glue(ds: Seq<char>, w: WholeScan) -> WholeScan {
    match w {
        WholeScan::Scanned { digits, end } => WholeScan::Scanned { digits: ds + digits, end },
        WholeScan::BadComma { at } => WholeScan::BadComma { at },
    }
}

/// Scans the whole part starting at `i`: digits optionally interspersed with
/// grouping commas, where a comma counts only after at least one digit (`have`)
/// and must be followed by a digit. The scan itself accepts an empty run;
/// [`spec_parse`] rejects one.
pub open spec fn scan_whole(s: Seq<char>, i: int, have: bool) -> WholeScan
    recommends
        0 <= i <= s.len(),
    decreases s.len() - i,
    when 0 <= i <= s.len()
{
    if i < s.len() && is_dec_digit(s[i]) {
        scan_glue(seq![s[i]], scan_whole(s, i + 1, true))
    } else if i < s.len() && have && s[i] == ',' {
        if i + 1 < s.len() && is_dec_digit(s[i + 1]) {
            scan_glue(seq![s[i + 1]], scan_whole(s, i + 2, true))
        } else {
            WholeScan::BadComma { at: i + 1 }
        }
    } else {
        WholeScan::Scanned { digits: Seq::empty(), end: i }
    }
}

/// Glueing is associative with sequence concatenation.
proof fn lemma_scan_glue_assoc(a: Seq<char>, b: Seq<char>, w: WholeScan)
    ensures
        scan_glue(a, scan_glue(b, w)) == scan_glue(a + b, w),
{
    match w {
        WholeScan::Scanned { digits, .. } => {
            assert(a + (b + digits) =~= (a + b) + digits);
        },
        WholeScan::BadComma { .. } => {
        },
    }
}

/// The outcome of parsing an amount from text.
pub enum ParseOutcome {
    /// The text parses: the raw value it denotes and the position one past the
    /// consumed span (trailing text is left unread).
    Parsed {
        /// The raw value in minor units: the whole digits weighted by ten to the
        /// decimal digit count, plus the right-zero-padded fractional digits.
        value: nat,
        /// One past the last consumed character.
        end: int,
    },
    /// The text is rejected.
    Failed {
        /// What was rejected.
        kind: ParseErrorKind,
        /// Start of the offending span.
        from: int,
        /// End of the offending span.
        to: int,
    },
}

/// How many characters the symbol-and-space prefix occupies for a style.
pub open spec fn prefix_len(sym: Seq<char>, style: FormatStyle) -> int {
    match style {
        FormatStyle::PrefixAttached => sym.len() as int,
        FormatStyle::PrefixSpaced => sym.len() + 1int,
        FormatStyle::SuffixAttached => 0int,
        FormatStyle::SuffixSpaced => 0int,
    }
}

/// The exact meaning of parsing an amount of a currency with symbol `sym`,
/// display style `style` and `decimals` fractional digits into a backing type
/// with modulus `modulus`, from the text `s`:
///
/// an optional leading symbol (and space) per the prefix styles; one or more
/// digits optionally interspersed with grouping commas (a comma must stand
/// between digits); a mandatory point; at most `decimals` further digits (more
/// are rejected rather than silently truncated, fewer count as right-zero-padded);
/// a value check against the backing type; and an optional trailing space and
/// symbol per the suffix styles.
pub open spec fn spec_parse(s: Seq<char>, sym: Seq<char>, style: FormatStyle, decimals: nat, modulus: nat) -> ParseOutcome {
    if (style == FormatStyle::PrefixAttached || style == FormatStyle::PrefixSpaced)
        && !matches_at(s, 0, sym) {
        (ParseOutcome::Failed { kind: ParseErrorKind::ExpectedSymbol, from: 0, to: 0 })
    } else if style == FormatStyle::PrefixSpaced && !matches_at(s, sym.len() as int, seq![' ']) {
        (ParseOutcome::Failed {
            kind: ParseErrorKind::ExpectedSpace,
            from: sym.len() as int,
            to: sym.len() as int,
        })
    } else {
        let start = prefix_len(sym, style);
        match scan_whole(s, start, false) {
            WholeScan::BadComma { at } => (ParseOutcome::Failed {
                kind: ParseErrorKind::ExpectedDigit,
                from: at,
                to: at,
            }),
            WholeScan::Scanned { digits: whole, end: dot } => {
                if whole.len() == 0 {
                    (ParseOutcome::Failed {
                        kind: ParseErrorKind::ExpectedDigit,
                        from: start,
                        to: start,
                    })
                } else if !matches_at(s, dot, seq!['.']) {
                    (ParseOutcome::Failed { kind: ParseErrorKind::ExpectedPoint, from: dot, to: dot })
                } else {
                    let fs = dot + 1;
                    let fe = digit_run_end(s, fs);
                    if fe - fs > decimals {
                        (ParseOutcome::Failed {
                            kind: ParseErrorKind::TooManyDecimalDigits,
                            from: fs,
                            to: fe,
                        })
                    } else {
                        let value = digits_val(whole) * pow10(decimals) + digits_val(
                            s.subrange(fs, fe),
                        ) * pow10((decimals - (fe - fs)) as nat);
                        if value >= modulus {
                            (ParseOutcome::Failed {
                                kind: ParseErrorKind::InvalidAmount,
                                from: start,
                                to: fe,
                            })
                        } else if style == FormatStyle::SuffixSpaced && !matches_at(
                            s,
                            fe,
                            seq![' '],
                        ) {
                            (ParseOutcome::Failed {
                                kind: ParseErrorKind::ExpectedSpace,
                                from: fe,
                                to: fe,
                            })
                        } else {
                            let sp = if style == FormatStyle::SuffixSpaced {
                                fe + 1
                            } else {
                                fe
                            };
                            if (style == FormatStyle::SuffixAttached || style
                                == FormatStyle::SuffixSpaced) && !matches_at(s, sp, sym) {
                                (ParseOutcome::Failed {
                                    kind: ParseErrorKind::ExpectedSymbol,
                                    from: sp,
                                    to: sp,
                                })
                            } else {
                                let fin = if style == FormatStyle::SuffixAttached || style
                                    == FormatStyle::SuffixSpaced {
                                    sp + sym.len()
                                } else {
                                    sp
                                };
                                (ParseOutcome::Parsed { value, end: fin })
                            }
                        }
                    }
                }
            },
        }
    }
}

// ---------------------------------------------------------------------------
// The parse direction: the verified parser.
// ---------------------------------------------------------------------------
/// Whether `pat` occurs in `chars` starting at position `i`.
fn match_at(chars: &Vec<char>, i: usize, pat: &str) -> (r: bool)
    ensures
        r == matches_at(chars@, i as int, pat@),
{
    let n = chars.len();
    let m = pat.unicode_len();
    if i > n || m > n - i {
        return false;
    }
    let mut j: usize = 0;
    while j < m
        invariant
            j <= m,
            m == pat@.len(),
            n == chars@.len(),
            i + m <= n,
            forall|k: int| 0 <= k < j ==> chars@[i + k] == pat@[k],
        decreases m - j,
    {
        if chars[i + j] != pat.get_char(j) {
            proof {
                assert(chars@.subrange(i as int, i + m as int)[j as int] != pat@[j as int]);
            }
            return false;
        }
        j = j + 1;
    }
    proof {
        assert(chars@.subrange(i as int, i + m as int) =~= pat@);
    }
    true
}

/// Scans the whole part: digits with grouping commas, per [`scan_whole`]. Yields
/// the digit values and the end position, or the position where a digit was
/// missing after a comma.
fn scan_whole_exec(chars: &Vec<char>, start: usize) -> (r: Result<(Vec<u8>, usize), usize>)
    requires
        start <= chars@.len(),
    ensures
        (match r {
            Ok(p) => scan_whole(chars@, start as int, false) == (WholeScan::Scanned {
                digits: vals_to_chars(p.0@),
                end: p.1 as int,
            }) && start <= p.1 <= chars@.len() && (forall|k: int|
                0 <= k < p.0@.len() ==> #[trigger] p.0@[k] < 10),
            Err(at) => scan_whole(chars@, start as int, false) == (WholeScan::BadComma {
                at: at as int,
            }) && at <= chars@.len(),
        }),
{
    let ghost s = chars@;
    let n = chars.len();
    let mut ds: Vec<u8> = Vec::new();
    let mut i: usize = start;
    loop
        invariant
            start <= i <= n,
            n == s.len(),
            s == chars@,
            forall|k: int| 0 <= k < ds@.len() ==> #[trigger] ds@[k] < 10,
            scan_whole(s, start as int, false) == scan_glue(
                vals_to_chars(ds@),
                scan_whole(s, i as int, ds@.len() > 0),
            ),
        ensures
            start <= i <= n,
            forall|k: int| 0 <= k < ds@.len() ==> #[trigger] ds@[k] < 10,
            scan_whole(s, start as int, false) == (WholeScan::Scanned {
                digits: vals_to_chars(ds@),
                end: i as int,
            }),
        decreases n - i,
    {
        let ghost have = ds@.len() > 0;
        proof {
            assert(vals_to_chars(ds@) + Seq::<char>::empty() =~= vals_to_chars(ds@));
        }
        if i == n {
            break;
        }
        let c = chars[i];
        match char_to_digit(c) {
            Some(d) => {
                proof {
                    lemma_digit_val_char(c);
                    assert(vals_to_chars(ds@.push(d)) =~= vals_to_chars(ds@) + seq![c]);
                    lemma_scan_glue_assoc(vals_to_chars(ds@), seq![c], scan_whole(s, i + 1, true));
                }
                ds.push(d);
                i = i + 1;
            },
            None => {
                if ds.len() > 0 && c == ',' {
                    if i + 1 < n {
                        let c2 = chars[i + 1];
                        match char_to_digit(c2) {
                            Some(d) => {
                                proof {
                                    lemma_digit_val_char(c2);
                                    assert(vals_to_chars(ds@.push(d)) =~= vals_to_chars(ds@)
                                        + seq![c2]);
                                    lemma_scan_glue_assoc(
                                        vals_to_chars(ds@),
                                        seq![c2],
                                        scan_whole(s, i + 2, true),
                                    );
                                }
                                ds.push(d);
                                i = i + 2;
                            },
                            None => {
                                return Err(i + 1);
                            },
                        }
                    } else {
                        return Err(i + 1);
                    }
                } else {
                    break;
                }
            },
        }
    }
    Ok((ds, i))
}

/// Scans the maximal run of digits starting at `start`, yielding their values and
/// the end of the run.
fn scan_frac(chars: &Vec<char>, start: usize) -> (r: (Vec<u8>, usize))
    requires
        start <= chars@.len(),
    ensures
        r.1 as int == digit_run_end(chars@, start as int),
        start <= r.1 <= chars@.len(),
        vals_to_chars(r.0@) == chars@.subrange(start as int, r.1 as int),
        forall|k: int| 0 <= k < r.0@.len() ==> #[trigger] r.0@[k] < 10,
{
    let ghost s = chars@;
    let n = chars.len();
    let mut ds: Vec<u8> = Vec::new();
    let mut i: usize = start;
    loop
        invariant
            start <= i <= n,
            n == s.len(),
            s == chars@,
            forall|k: int| 0 <= k < ds@.len() ==> #[trigger] ds@[k] < 10,
            vals_to_chars(ds@) =~= s.subrange(start as int, i as int),
            digit_run_end(s, start as int) == digit_run_end(s, i as int),
        ensures
            start <= i <= n,
            forall|k: int| 0 <= k < ds@.len() ==> #[trigger] ds@[k] < 10,
            vals_to_chars(ds@) =~= s.subrange(start as int, i as int),
            digit_run_end(s, start as int) == i as int,
        decreases n - i,
    {
        if i == n {
            break;
        }
        let c = chars[i];
        match char_to_digit(c) {
            Some(d) => {
                proof {
                    lemma_digit_val_char(c);
                    assert(vals_to_chars(ds@.push(d)) =~= vals_to_chars(ds@).push(
                        digit_char(d as nat),
                    ));
                    assert(vals_to_chars(ds@).push(digit_char(d as nat)) =~= s.subrange(
                        start as int,
                        i + 1,
                    ));
                }
                ds.push(d);
                i = i + 1;
            },
            None => {
                break;
            },
        }
    }
    (ds, i)
}

/// A run of zero digit values reads back as zero.
proof fn lemma_zeros_val(ds: Seq<u8>)
    requires
        forall|k: int| 0 <= k < ds.len() ==> #[trigger] ds[k] == 0,
    ensures
        digits_val(vals_to_chars(ds)) == 0,
    decreases ds.len(),
{
    if ds.len() > 0 {
        lemma_zeros_val(ds.drop_last());
        assert(vals_to_chars(ds).drop_last() =~= vals_to_chars(ds.drop_last()));
        assert(vals_to_chars(ds).last() == digit_char(0));
    }
}

impl<C: Currency, S: Safety> ParsedAmount<C, S> {
    /// Parses an amount of the currency from the front of `s`, per [`spec_parse`]:
    /// the result carries the parsed amount and the consumed span; an error carries
    /// what was rejected and where. Trailing text after the amount is left unread.
    pub fn parse(s: &str) -> (r: Result<ParsedAmount<C, S>, ParseError>)
        ensures
            (match r {
                Ok(p) => spec_parse(
                    s@,
                    C::spec_symbol(),
                    C::spec_style(),
                    C::spec_decimals(),
                    <C::Backing as Backing>::modulus(),
                ) == (ParseOutcome::Parsed { value: p.amount.amt_val(), end: p.span.end as int })
                    && p.span.start == 0,
                Err(e) => spec_parse(
                    s@,
                    C::spec_symbol(),
                    C::spec_style(),
                    C::spec_decimals(),
                    <C::Backing as Backing>::modulus(),
                ) == (ParseOutcome::Failed {
                    kind: e.kind,
                    from: e.span.start as int,
                    to: e.span.end as int,
                }),
            }),
    {
        proof {
            C::lemma_descriptor_wf();
            reveal_strlit(" ");
            reveal_strlit(".");
            assert(" "@ =~= seq![' ']);
            assert("."@ =~= seq!['.']);
        }
        let ghost sym_spec = C::spec_symbol();
        let ghost style_spec = C::spec_style();
        let chars = str_chars(s);
        let n = chars.len();
        let sym = C::symbol();
        let style = C::style();
        let is_prefix = match style {
            FormatStyle::PrefixAttached => true,
            FormatStyle::PrefixSpaced => true,
            _ => false,
        };
        let is_spaced_prefix = match style {
            FormatStyle::PrefixSpaced => true,
            _ => false,
        };
        let mut pos: usize = 0;
        if is_prefix {
            if !match_at(&chars, 0, sym) {
                return Err(ParseError {
                    kind: ParseErrorKind::ExpectedSymbol,
                    span: Span { start: 0, end: 0 },
                });
            }
            pos = sym.unicode_len();
        }
        if is_spaced_prefix {
            if !match_at(&chars, pos, " ") {
                return Err(ParseError {
                    kind: ParseErrorKind::ExpectedSpace,
                    span: Span { start: pos, end: pos },
                });
            }
            pos = pos + 1;
        }
        proof {
            assert(pos as int == prefix_len(sym_spec, style_spec));
        }
        let whole_start = pos;
        let (whole_ds, dot_pos) = match scan_whole_exec(&chars, pos) {
            Ok(p) => p,
            Err(at) => {
                return Err(ParseError {
                    kind: ParseErrorKind::ExpectedDigit,
                    span: Span { start: at, end: at },
                });
            },
        };
        if whole_ds.len() == 0 {
            return Err(ParseError {
                kind: ParseErrorKind::ExpectedDigit,
                span: Span { start: whole_start, end: whole_start },
            });
        }
        if !match_at(&chars, dot_pos, ".") {
            return Err(ParseError {
                kind: ParseErrorKind::ExpectedPoint,
                span: Span { start: dot_pos, end: dot_pos },
            });
        }
        let fs = dot_pos + 1;
        let (frac_ds, fe) = scan_frac(&chars, fs);
        let decimals = C::decimal_digits();
        let frac_count = fe - fs;
        if frac_count > decimals {
            return Err(ParseError {
                kind: ParseErrorKind::TooManyDecimalDigits,
                span: Span { start: fs, end: fe },
            });
        }
        let ghost whole_chars = vals_to_chars(whole_ds@);
        let ghost frac_chars = vals_to_chars(frac_ds@);
        let ghost base_len = whole_ds@.len() + frac_ds@.len();
        let mut all = whole_ds;
        let ghost whole_vals = all@;
        let mut frac_moved = frac_ds;
        let ghost frac_vals = frac_moved@;
        all.append(&mut frac_moved);
        let mut pad: usize = frac_count;
        while pad < decimals
            invariant
                frac_count <= pad,
                pad <= decimals || pad == frac_count,
                all@.len() == base_len + (pad - frac_count),
                base_len == whole_vals.len() + frac_vals.len(),
                frac_vals.len() == frac_count,
                forall|k: int| 0 <= k < base_len ==> all@[k] == (whole_vals + frac_vals)[k],
                forall|k: int| base_len <= k < all@.len() ==> all@[k] == 0u8,
            decreases decimals - pad,
        {
            all.push(0);
            pad = pad + 1;
        }
        let ghost zeros = all@.skip(base_len as int);
        let ghost dval = digits_val(whole_chars) * pow10(C::spec_decimals()) + digits_val(
            frac_chars,
        ) * pow10((C::spec_decimals() - frac_chars.len()) as nat);
        proof {
            assert(all@.len() == base_len + (decimals - frac_count));
            assert(zeros.len() == decimals - frac_count);
            assert(forall|k: int| 0 <= k < zeros.len() ==> #[trigger] zeros[k] == 0u8);
            lemma_zeros_val(zeros);
            assert(all@ =~= (whole_vals + frac_vals) + zeros);
            assert(vals_to_chars(all@) =~= (whole_chars + frac_chars) + vals_to_chars(zeros));
            lemma_digits_val_append(whole_chars + frac_chars, vals_to_chars(zeros));
            lemma_digits_val_append(whole_chars, frac_chars);
            crate::powers::lemma_pow10_adds(
                frac_chars.len(),
                (C::spec_decimals() - frac_chars.len()) as nat,
            );
            let w = digits_val(whole_chars);
            let f = digits_val(frac_chars);
            let p1 = pow10(frac_chars.len());
            let p2 = pow10((C::spec_decimals() - frac_chars.len()) as nat);
            assert((w * p1 + f) * p2 == w * (p1 * p2) + f * p2) by (nonlinear_arith);
            assert(w * (p1 * p2) == w * pow10(C::spec_decimals())) by (nonlinear_arith)
                requires
                    p1 * p2 == pow10(C::spec_decimals()),
            ;
            assert(digits_val(vals_to_chars(all@)) == dval);
        }
        let value = match digits_to_backing::<C::Backing>(&all) {
            Some(v) => v,
            None => {
                return Err(ParseError {
                    kind: ParseErrorKind::InvalidAmount,
                    span: Span { start: whole_start, end: fe },
                });
            },
        };
        proof {
            value.lemma_bval_bounded();
        }
        let is_suffix = match style {
            FormatStyle::SuffixAttached => true,
            FormatStyle::SuffixSpaced => true,
            _ => false,
        };
        let is_spaced_suffix = match style {
            FormatStyle::SuffixSpaced => true,
            _ => false,
        };
        let mut sp = fe;
        if is_spaced_suffix {
            if !match_at(&chars, fe, " ") {
                return Err(ParseError {
                    kind: ParseErrorKind::ExpectedSpace,
                    span: Span { start: fe, end: fe },
                });
            }
            sp = fe + 1;
        }
        let mut end = sp;
        if is_suffix {
            if !match_at(&chars, sp, sym) {
                return Err(ParseError {
                    kind: ParseErrorKind::ExpectedSymbol,
                    span: Span { start: sp, end: sp },
                });
            }
            end = sp + sym.unicode_len();
        }
        Ok(ParsedAmount { amount: Amount::from_raw(value), span: Span { start: 0, end } })
    }
}

impl<C: Currency, S: Safety> Amount<C, S> {
    /// Parses an amount of the currency from the front of `s`: the amount of a
    /// successful [`ParsedAmount::parse`], with the span dropped.
    pub fn parse(s: &str) -> (r: Result<Amount<C, S>, ParseError>)
        ensures
            (match r {
                Ok(a) => spec_parse(
                    s@,
                    C::spec_symbol(),
                    C::spec_style(),
                    C::spec_decimals(),
                    <C::Backing as Backing>::modulus(),
                ) matches ParseOutcome::Parsed { value, .. } && value == a.amt_val(),
                Err(e) => spec_parse(
                    s@,
                    C::spec_symbol(),
                    C::spec_style(),
                    C::spec_decimals(),
                    <C::Backing as Backing>::modulus(),
                ) == (ParseOutcome::Failed {
                    kind: e.kind,
                    from: e.span.start as int,
                    to: e.span.end as int,
                }),
            }),
    {
        match ParsedAmount::<C, S>::parse(s) {
            Ok(p) => Ok(p.amount),
            Err(e) => Err(e),
        }
    }
}


// ---------------------------------------------------------------------------
// The round trip: parsing a formatted amount yields the amount back.
// ---------------------------------------------------------------------------
/// A maximal digit run is delimited by its first non-digit (or the end).
proof fn lemma_digit_run_end_of(s: Seq<char>, i: int, j: int)
    requires
        0 <= i <= j <= s.len(),
        forall|k: int| i <= k < j ==> is_dec_digit(#[trigger] s[k]),
        j == s.len() || !is_dec_digit(s[j]),
    ensures
        digit_run_end(s, i) == j,
    decreases j - i,
{
    if i < j {
        lemma_digit_run_end_of(s, i + 1, j);
    }
}

/// Scanning a plain digit run (no commas) that is delimited by a character that is
/// neither a digit nor a comma yields exactly that run.
proof fn lemma_scan_whole_plain(s: Seq<char>, i: int, j: int, have: bool)
    requires
        0 <= i <= j <= s.len(),
        forall|k: int| i <= k < j ==> is_dec_digit(#[trigger] s[k]),
        j == s.len() || (!is_dec_digit(s[j]) && s[j] != ','),
    ensures
        scan_whole(s, i, have) == (WholeScan::Scanned { digits: s.subrange(i, j), end: j }),
    decreases j - i,
{
    if i == j {
        assert(s.subrange(i, j) =~= Seq::<char>::empty());
    } else {
        lemma_scan_whole_plain(s, i + 1, j, true);
        assert(seq![s[i]] + s.subrange(i + 1, j) =~= s.subrange(i, j));
    }
}

/// The round trip at the heart of the codec: for any value below the backing
/// modulus, and any currency descriptor whose scale factor is exactly ten to its
/// decimal digit count (and whose symbol, in the suffix-attached style, does not
/// begin with a digit), parsing the formatted text yields the value back, with
/// the whole text consumed.
pub proof fn lemma_format_parse_round_trip(
    v: nat,
    base: nat,
    decimals: nat,
    sym: Seq<char>,
    style: FormatStyle,
    modulus: nat,
)
    requires
        base == pow10(decimals),
        v < modulus,
        (style == FormatStyle::SuffixAttached && sym.len() > 0) ==> !is_dec_digit(sym[0]),
    ensures
        spec_parse(spec_format(v, base, decimals, sym, style), sym, style, decimals, modulus)
            == (ParseOutcome::Parsed {
            value: v,
            end: spec_format(v, base, decimals, sym, style).len() as int,
        }),
{
    crate::powers::lemma_pow10_pos(decimals);
    let major = v / base;
    let minor = v % base;
    lemma_spec_dec_val(major);
    lemma_spec_dec_pad_val(minor, decimals);
    let w = spec_dec(major);
    let f = spec_dec_pad(minor, decimals);
    let number = w + seq!['.'] + f;
    let s = spec_format(v, base, decimals, sym, style);
    let p0 = prefix_len(sym, style);
    let dot = p0 + w.len();
    let fs = dot + 1;
    let fe = fs + decimals;
    assert(pow10(0) == 1) by {
        reveal_with_fuel(vstd::arithmetic::power::pow, 1);
    }
    vstd::arithmetic::div_mod::lemma_fundamental_div_mod(v as int, base as int);
    // The text around the number, by style.
    match style {
        FormatStyle::PrefixAttached => {
            assert(s =~= sym + number);
            assert(s.subrange(0, sym.len() as int) =~= sym);
        },
        FormatStyle::PrefixSpaced => {
            assert(s =~= sym + seq![' '] + number);
            assert(s.subrange(0, sym.len() as int) =~= sym);
            assert(s.subrange(sym.len() as int, sym.len() + 1int) =~= seq![' ']);
        },
        FormatStyle::SuffixAttached => {
            assert(s =~= number + sym);
        },
        FormatStyle::SuffixSpaced => {
            assert(s =~= number + seq![' '] + sym);
        },
    }
    // The number itself always occupies [p0, fe) with the point at `dot`.
    assert(forall|k: int| p0 <= k < dot ==> s[k] == w[k - p0]);
    assert(forall|k: int| p0 <= k < dot ==> is_dec_digit(#[trigger] s[k]));
    assert(s[dot] == '.');
    assert(s.subrange(dot, dot + 1) =~= seq!['.']);
    assert(!is_dec_digit('.') && '.' != ',');
    lemma_scan_whole_plain(s, p0, dot, false);
    assert(s.subrange(p0, dot) =~= w);
    assert(forall|k: int| fs <= k < fe ==> s[k] == f[k - fs]);
    assert(forall|k: int| fs <= k < fe ==> is_dec_digit(#[trigger] s[k]));
    // What delimits the fractional run, by style.
    match style {
        FormatStyle::PrefixAttached => {
            assert(fe == s.len());
        },
        FormatStyle::PrefixSpaced => {
            assert(fe == s.len());
        },
        FormatStyle::SuffixAttached => {
            if sym.len() > 0 {
                assert(s[fe] == sym[0]);
                assert(!is_dec_digit(s[fe]));
            } else {
                assert(fe == s.len());
            }
            assert(s.subrange(fe, fe + sym.len() as int) =~= sym);
        },
        FormatStyle::SuffixSpaced => {
            assert(s[fe] == ' ');
            assert(!is_dec_digit(' '));
            assert(s.subrange(fe, fe + 1) =~= seq![' ']);
            assert(s.subrange(fe + 1, fe + 1 + sym.len() as int) =~= sym);
        },
    }
    lemma_digit_run_end_of(s, fs, fe);
    assert(s.subrange(fs, fe) =~= f);
    // The value read back is exactly v.
    assert(minor < base) by {
        vstd::arithmetic::div_mod::lemma_mod_bound(v as int, base as int);
    }
    assert(digits_val(f) == minor);
    assert(digits_val(w) == major);
    assert(pow10((decimals - (fe - fs)) as nat) == 1);
    assert(major * base == base * major) by (nonlinear_arith);
    assert(v == base * major + minor);
    assert(digits_val(f) * pow10((decimals - (fe - fs)) as nat) == minor) by (nonlinear_arith)
        requires
            digits_val(f) == minor,
            pow10((decimals - (fe - fs)) as nat) == 1,
    ;
    assert(digits_val(w) * pow10(decimals) == major * base);
    assert(digits_val(w) * pow10(decimals) + digits_val(f) * pow10((decimals - (fe - fs)) as nat)
        == v);
    assert(spec_parse(s, sym, style, decimals, modulus) == (ParseOutcome::Parsed {
        value: v,
        end: s.len() as int,
    }));
}

/// The round trip for an amount of a currency: with a scale factor of exactly ten
/// to the decimal digit count (and, in the suffix-attached style, a symbol that
/// does not begin with a digit), parsing the formatted text of any amount yields
/// that amount's value, consuming the whole text.
pub proof fn lemma_amount_round_trip<C: Currency, S: Safety>(a: Amount<C, S>)
    requires
        C::spec_base() == pow10(C::spec_decimals()),
        (C::spec_style() == FormatStyle::SuffixAttached && C::spec_symbol().len() > 0)
            ==> !is_dec_digit(C::spec_symbol()[0]),
    ensures
        spec_parse(
            spec_format(
                a.amt_val(),
                C::spec_base(),
                C::spec_decimals(),
                C::spec_symbol(),
                C::spec_style(),
            ),
            C::spec_symbol(),
            C::spec_style(),
            C::spec_decimals(),
            <C::Backing as Backing>::modulus(),
        ) == (ParseOutcome::Parsed {
            value: a.amt_val(),
            end: spec_format(
                a.amt_val(),
                C::spec_base(),
                C::spec_decimals(),
                C::spec_symbol(),
                C::spec_style(),
            ).len() as int,
        }),
{
    a.lemma_amt_val_bounded();
    lemma_format_parse_round_trip(
        a.amt_val(),
        C::spec_base(),
        C::spec_decimals(),
        C::spec_symbol(),
        C::spec_style(),
        <C::Backing as Backing>::modulus(),
    );
}


} // verus!
