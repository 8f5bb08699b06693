//! Decimal digit strings at the specification level, and the verified helpers
//! that build them from, and read them back into, a backing integer.

use vstd::prelude::*;

use crate::backing::Backing;
use crate::powers::lemma_pow10_adds;
use crate::powers::lemma_pow10_pos;
use crate::powers::pow10;

verus! {

/// Whether a character is a decimal digit.
pub open spec fn is_dec_digit(c: char) -> bool {
    48 <= c as u32 && c as u32 <= 57
}

/// The numerical value of a decimal digit character.
pub open spec fn digit_val(c: char) -> nat {
    ((c as u32) - 48) as nat
}

/// The character standing for one decimal digit value.
pub open spec fn digit_char(d: nat) -> char {
    if d == 0 {
        '0'
    } else if d == 1 {
        '1'
    } else if d == 2 {
        '2'
    } else if d == 3 {
        '3'
    } else if d == 4 {
        '4'
    } else if d == 5 {
        '5'
    } else if d == 6 {
        '6'
    } else if d == 7 {
        '7'
    } else if d == 8 {
        '8'
    } else {
        '9'
    }
}

/// The two digit views invert one another on the values they are meant for.
pub proof fn lemma_digit_char_val(d: nat)
    requires
        d < 10,
    ensures
        is_dec_digit(digit_char(d)),
        digit_val(digit_char(d)) == d,
{
}

/// A digit character comes back unchanged from its value.
pub proof fn lemma_digit_val_char(c: char)
    requires
        is_dec_digit(c),
    ensures
        digit_val(c) < 10,
        digit_char(digit_val(c)) == c,
{
}

/// Whether every character of a sequence is a decimal digit.
pub open spec fn all_dec_digits(s: Seq<char>) -> bool {
    forall|i: int| 0 <= i < s.len() ==> is_dec_digit(#[trigger] s[i])
}

/// The numerical value of a sequence of decimal digit characters, read from the
/// most significant digit down.
pub open spec fn digits_val(s: Seq<char>) -> nat
    decreases s.len(),
{
    if s.len() == 0 {
        0
    } else {
        digits_val(s.drop_last()) * 10 + digit_val(s.last())
    }
}

/// The characters standing for a sequence of digit values.
pub open spec fn vals_to_chars(ds: Seq<u8>) -> Seq<char> {
    ds.map_values(|d: u8| digit_char(d as nat))
}

/// Concatenating digit strings weighs the left part by ten to the length of the
/// right part.
pub proof fn lemma_digits_val_append(a: Seq<char>, b: Seq<char>)
    ensures
        digits_val(a + b) == digits_val(a) * pow10(b.len()) + digits_val(b),
    decreases b.len(),
{
    if b.len() == 0 {
        assert(a + b =~= a);
        assert(pow10(0) == 1) by {
            reveal_with_fuel(vstd::arithmetic::power::pow, 1);
        }
    } else {
        lemma_digits_val_append(a, b.drop_last());
        assert((a + b).drop_last() =~= a + b.drop_last());
        assert((a + b).last() == b.last());
        lemma_pow10_adds(1, (b.len() - 1) as nat);
        let va = digits_val(a);
        let vb = digits_val(b.drop_last());
        let p = pow10((b.len() - 1) as nat);
        assert((va * p + vb) * 10 == va * (p * 10) + vb * 10) by (nonlinear_arith);
        assert(pow10(b.len()) == 10 * p) by {
            assert(pow10(1) == 10) by {
                reveal_with_fuel(vstd::arithmetic::power::pow, 2);
            }
        }
        assert(va * (p * 10) == va * pow10(b.len())) by (nonlinear_arith)
            requires
                p * 10 == pow10(b.len()),
        ;
        assert(digits_val(a + b) == digits_val(a + b.drop_last()) * 10 + digit_val(b.last()));
        assert(digits_val(b) == vb * 10 + digit_val(b.last()));
    }
}

/// The decimal digit string of a value: at least one digit, no sign, no leading
/// zeros except for the value zero itself.
pub open spec fn spec_dec(n: nat) -> Seq<char>
    decreases n,
{
    if n < 10 {
        seq![digit_char(n)]
    } else {
        spec_dec(n / 10).push(digit_char(n % 10))
    }
}

/// The decimal digit string of a value, left-padded with zeros to exactly `width`
/// digits; only the lowest `width` digits are kept.
pub open spec fn spec_dec_pad(n: nat, width: nat) -> Seq<char>
    decreases width,
{
    if width == 0 {
        Seq::empty()
    } else {
        spec_dec_pad(n / 10, (width - 1) as nat).push(digit_char(n % 10))
    }
}

/// The decimal digit string of a value holds only digits and reads back as that
/// value.
pub proof fn lemma_spec_dec_val(n: nat)
    ensures
        spec_dec(n).len() >= 1,
        all_dec_digits(spec_dec(n)),
        digits_val(spec_dec(n)) == n,
    decreases n,
{
    if n < 10 {
        lemma_digit_char_val(n);
        assert(spec_dec(n).drop_last() =~= Seq::<char>::empty());
        assert(digits_val(Seq::<char>::empty()) == 0);
        assert(spec_dec(n).last() == digit_char(n));
    } else {
        lemma_spec_dec_val(n / 10);
        lemma_digit_char_val(n % 10);
        let s = spec_dec(n);
        assert(s.drop_last() =~= spec_dec(n / 10));
        assert(s.last() == digit_char(n % 10));
        assert(all_dec_digits(s)) by {
            assert(forall|i: int|
                0 <= i < s.len() - 1 ==> #[trigger] s[i] == spec_dec(n / 10)[i]);
        }
        assert(digits_val(s) == (n / 10) * 10 + n % 10);
        assert((n / 10) * 10 + n % 10 == n) by {
            vstd::arithmetic::div_mod::lemma_fundamental_div_mod(n as int, 10);
        }
    }
}

/// The padded decimal digit string has exactly the asked width, holds only
/// digits, and reads back as the value whenever the value fits the width.
pub proof fn lemma_spec_dec_pad_val(n: nat, width: nat)
    ensures
        spec_dec_pad(n, width).len() == width,
        all_dec_digits(spec_dec_pad(n, width)),
        n < pow10(width) ==> digits_val(spec_dec_pad(n, width)) == n,
    decreases width,
{
    if width == 0 {
        assert(pow10(0) == 1) by {
            reveal_with_fuel(vstd::arithmetic::power::pow, 1);
        }
    } else {
        lemma_spec_dec_pad_val(n / 10, (width - 1) as nat);
        lemma_digit_char_val(n % 10);
        let s = spec_dec_pad(n, width);
        assert(s.drop_last() =~= spec_dec_pad(n / 10, (width - 1) as nat));
        assert(all_dec_digits(s)) by {
            assert(forall|i: int|
                0 <= i < s.len() - 1 ==> #[trigger] s[i] == s.drop_last()[i]);
        }
        if n < pow10(width) {
            lemma_pow10_adds((width - 1) as nat, 1);
            assert(pow10(1) == 10) by {
                reveal_with_fuel(vstd::arithmetic::power::pow, 2);
            }
            assert(n / 10 < pow10((width - 1) as nat)) by (nonlinear_arith)
                requires
                    n < pow10((width - 1) as nat) * 10,
            ;
            assert(digits_val(s) == (n / 10) * 10 + n % 10);
            vstd::arithmetic::div_mod::lemma_fundamental_div_mod(n as int, 10);
        }
    }
}

// ---------------------------------------------------------------------------
// Verified digit helpers at the executable level.
// ---------------------------------------------------------------------------
/// The digit value of a character; absent exactly on non-digits.
pub fn char_to_digit(c: char) -> (r: Option<u8>)
    ensures
        match r {
            Some(d) => is_dec_digit(c) && d < 10 && d as nat == digit_val(c),
            None => !is_dec_digit(c),
        },
{
    match c {
        '0' => Some(0),
        '1' => Some(1),
        '2' => Some(2),
        '3' => Some(3),
        '4' => Some(4),
        '5' => Some(5),
        '6' => Some(6),
        '7' => Some(7),
        '8' => Some(8),
        '9' => Some(9),
        _ => None,
    }
}

/// A one-character string for a digit value.
pub fn digit_to_str(d: u8) -> (r: &'static str)
    requires
        d < 10,
    ensures
        r@ == seq![digit_char(d as nat)],
{
    proof {
        reveal_strlit("0");
        reveal_strlit("1");
        reveal_strlit("2");
        reveal_strlit("3");
        reveal_strlit("4");
        reveal_strlit("5");
        reveal_strlit("6");
        reveal_strlit("7");
        reveal_strlit("8");
        reveal_strlit("9");
    }
    let r = match d {
        0 => "0",
        1 => "1",
        2 => "2",
        3 => "3",
        4 => "4",
        5 => "5",
        6 => "6",
        7 => "7",
        8 => "8",
        _ => "9",
    };
    proof {
        assert(r@ =~= seq![digit_char(d as nat)]);
    }
    r
}

/// The decimal digit string of a backing value, built most significant digit
/// first by repeated division by ten.
pub fn dec_string<B: Backing>(v: B) -> (r: String)
    ensures
        r@ == spec_dec(v.bval()),
    decreases v.bval(),
{
    proof {
        B::lemma_modulus();
    }
    let ten = B::b_from_u64(10);
    let d = match v.b_rem(ten).b_to_u64() {
        Some(x) => x as u8,
        None => 0,
    };
    if v.b_lt(ten) {
        let r = String::from_str(digit_to_str(d));
        proof {
            assert(r@ =~= spec_dec(v.bval()));
        }
        r
    } else {
        let mut rest = dec_string(v.b_div(ten));
        rest.append(digit_to_str(d));
        proof {
            assert(rest@ =~= spec_dec(v.bval()));
        }
        rest
    }
}

/// The decimal digit string of a backing value, left-zero-padded to exactly
/// `width` digits; only the lowest `width` digits are kept.
pub fn pad_string<B: Backing>(v: B, width: usize) -> (r: String)
    ensures
        r@ == spec_dec_pad(v.bval(), width as nat),
    decreases width,
{
    proof {
        B::lemma_modulus();
    }
    if width == 0 {
        let r = String::new();
        proof {
            assert(r@ =~= spec_dec_pad(v.bval(), 0));
        }
        r
    } else {
        let ten = B::b_from_u64(10);
        let d = match v.b_rem(ten).b_to_u64() {
            Some(x) => x as u8,
            None => 0,
        };
        let mut rest = pad_string(v.b_div(ten), width - 1);
        rest.append(digit_to_str(d));
        proof {
            assert(rest@ =~= spec_dec_pad(v.bval(), width as nat));
        }
        rest
    }
}

/// Reads a sequence of digit values back into a backing integer; absent exactly
/// when the value does not fit the backing type.
pub fn digits_to_backing<B: Backing>(ds: &Vec<u8>) -> (r: Option<B>)
    requires
        forall|k: int| 0 <= k < ds@.len() ==> #[trigger] ds@[k] < 10,
    ensures
        match r {
            Some(v) => v.bval() == digits_val(vals_to_chars(ds@)),
            None => digits_val(vals_to_chars(ds@)) >= B::modulus(),
        },
{
    proof {
        B::lemma_modulus();
    }
    let ten = B::b_from_u64(10);
    let mut acc = B::b_from_u64(0);
    let mut i: usize = 0;
    while i < ds.len()
        invariant
            0 <= i <= ds@.len(),
            ten.bval() == 10,
            acc.bval() == digits_val(vals_to_chars(ds@.take(i as int))),
            forall|k: int| 0 <= k < ds@.len() ==> #[trigger] ds@[k] < 10,
        decreases ds@.len() - i,
    {
        let d = ds[i];
        proof {
            lemma_digit_char_val(d as nat);
            assert(vals_to_chars(ds@.take(i + 1)).drop_last() =~= vals_to_chars(
                ds@.take(i as int),
            ));
            assert(vals_to_chars(ds@.take(i + 1)).last() == digit_char(d as nat));
        }
        let shifted = match acc.b_checked_mul(ten) {
            Some(x) => x,
            None => {
                proof {
                    lemma_digits_val_overflow(ds@, i as int, B::modulus());
                }
                return None;
            },
        };
        acc = match shifted.b_checked_add(B::b_from_u64(d as u64)) {
            Some(x) => x,
            None => {
                proof {
                    lemma_digits_val_overflow(ds@, i as int, B::modulus());
                }
                return None;
            },
        };
        i = i + 1;
    }
    proof {
        assert(ds@.take(ds@.len() as int) =~= ds@);
    }
    Some(acc)
}

/// If some prefix of a digit string, extended by its next digit, already reaches
/// a bound, then the whole string's value reaches that bound.
proof fn lemma_digits_val_overflow(ds: Seq<u8>, i: int, bound: nat)
    requires
        0 <= i < ds.len(),
        forall|k: int| 0 <= k < ds.len() ==> #[trigger] ds[k] < 10,
        digits_val(vals_to_chars(ds.take(i))) * 10 + ds[i] >= bound,
    ensures
        digits_val(vals_to_chars(ds)) >= bound,
{
    let head = vals_to_chars(ds.take(i + 1));
    let tail = vals_to_chars(ds).subrange(i + 1, ds.len() as int);
    assert(vals_to_chars(ds) =~= head + tail);
    lemma_digits_val_append(head, tail);
    assert(head.drop_last() =~= vals_to_chars(ds.take(i)));
    assert(head.last() == digit_char(ds[i] as nat));
    lemma_digit_char_val(ds[i] as nat);
    assert(digits_val(head) == digits_val(vals_to_chars(ds.take(i))) * 10 + ds[i]);
    lemma_pow10_pos(tail.len());
    let p = pow10(tail.len());
    assert(digits_val(head) * p >= digits_val(head)) by (nonlinear_arith)
        requires
            p >= 1,
            digits_val(head) >= 0,
    ;
}

/// The characters of a string slice, in order.
pub(crate) fn str_chars(s: &str) -> (r: Vec<char>)
    ensures
        r@ == s@,
{
    let n = s.unicode_len();
    let mut v: Vec<char> = Vec::new();
    let mut i: usize = 0;
    while i < n
        invariant
            i <= n,
            n == s@.len(),
            v@ =~= s@.take(i as int),
        decreases n - i,
    {
        v.push(s.get_char(i));
        i = i + 1;
    }
    proof {
        assert(s@.take(n as int) =~= s@);
    }
    v
}

} // verus!
