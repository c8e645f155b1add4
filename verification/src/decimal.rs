//! The mathematics of decimal digit strings: what a string of digits is worth,
//! how a number is written, and how a quotient is rounded.
//!
//! Everything here is ghost: definitions and what is proved of them. The
//! executable arithmetic that is proved against them lives in `digits`.

use vstd::arithmetic::div_mod::lemma_fundamental_div_mod_converse;
use vstd::prelude::*;

verus! {

/// Ten to the power `n`.
pub open spec fn pow10(n: nat) -> nat
    decreases n,
{
    if n == 0 {
        1
    } else {
        10 * pow10((n - 1) as nat)
    }
}

/// Every element is a decimal digit, `0..=9`.
pub open spec fn all_digits(s: Seq<u8>) -> bool {
    forall|i: int| 0 <= i < s.len() ==> #[trigger] s[i] < 10
}

/// The number that the digits `s` denote, most significant digit first.
/// The empty sequence denotes zero.
pub open spec fn value(s: Seq<u8>) -> nat
    decreases s.len(),
{
    if s.len() == 0 {
        0
    } else {
        10 * value(s.drop_last()) + s.last() as nat
    }
}

/// The character that shows the digit `d`.
pub open spec fn digit_char(d: nat) -> char {
    (d + 48) as char
}

/// `c` is one of the characters `'0'..='9'`.
pub open spec fn is_digit_char(c: char) -> bool {
    '0' <= c <= '9'
}

/// The digit that the character `c` shows.
pub open spec fn char_digit(c: char) -> u8 {
    (c as u8 - 48) as u8
}

/// The digits `s`, each shown as its character.
pub open spec fn digits_text(s: Seq<u8>) -> Seq<char> {
    Seq::new(s.len(), |i: int| digit_char(s[i] as nat))
}

/// The digits that the characters of `s` show.
pub open spec fn text_digits(s: Seq<char>) -> Seq<u8> {
    Seq::new(s.len(), |i: int| char_digit(s[i]))
}

/// `s` is a natural number in decimal: one or more digit characters and
/// nothing else. Leading zeros are allowed.
pub open spec fn is_natural(s: Seq<char>) -> bool {
    s.len() > 0 && forall|i: int| 0 <= i < s.len() ==> is_digit_char(#[trigger] s[i])
}

/// The usual way to write `n` in decimal: no leading zeros, `"0"` for zero.
pub open spec fn natural_text(n: nat) -> Seq<char>
    decreases n,
{
    if n < 10 {
        seq![digit_char(n)]
    } else {
        natural_text(n / 10).push(digit_char(n % 10))
    }
}

/// The last `width` decimal digits of `n`, with zeros in front where `n` is
/// short.
pub open spec fn padded_text(n: nat, width: nat) -> Seq<char>
    decreases width,
{
    if width == 0 {
        Seq::empty()
    } else {
        padded_text(n / 10, (width - 1) as nat).push(digit_char(n % 10))
    }
}

/// `n / d` rounded to the nearest integer; a quotient that lies exactly
/// halfway between two integers goes to the even one.
pub open spec fn round_half_even(n: nat, d: nat) -> nat {
    let q = n / d;
    let r = n % d;
    if 2 * r < d || (2 * r == d && q % 2 == 0) {
        q
    } else {
        q + 1
    }
}

/// `units` counts steps of `10^-places`; this is the number written out with
/// exactly `places` digits after the point (and no point when `places` is 0).
pub open spec fn fixed_text(units: nat, places: nat) -> Seq<char> {
    if places == 0 {
        natural_text(units)
    } else {
        natural_text(units / pow10(places)) + seq!['.'] + padded_text(units % pow10(places), places)
    }
}

/// `mantissa / 10^scale`, rounded half-to-even to `places` digits after the
/// point, counted in steps of `10^-places`.
pub open spec fn scaled_units(mantissa: nat, scale: nat, places: nat) -> nat {
    round_half_even(mantissa * pow10(places), pow10(scale))
}

/// `mantissa / 10^scale` written with exactly `places` digits after the point.
pub open spec fn scaled_text(mantissa: nat, scale: nat, places: nat) -> Seq<char> {
    fixed_text(scaled_units(mantissa, scale, places), places)
}

/// No power of ten is zero.
pub proof fn lemma_pow10_positive(n: nat)
    ensures
        pow10(n) > 0,
    decreases n,
{
    if n > 0 {
        lemma_pow10_positive((n - 1) as nat);
    }
}

/// Powers of ten multiply by adding their exponents.
pub proof fn lemma_pow10_add(a: nat, b: nat)
    ensures
        pow10(a + b) == pow10(a) * pow10(b),
    decreases a,
{
    if a > 0 {
        let a1 = (a - 1) as nat;
        lemma_pow10_add(a1, b);
        assert((a + b - 1) as nat == a1 + b);
        assert(pow10(a + b) == 10 * pow10(a1 + b));
        assert(10 * (pow10(a1) * pow10(b)) == (10 * pow10(a1)) * pow10(b)) by (nonlinear_arith);
    } else {
        assert(pow10(a) == 1);
        assert(a + b == b);
    }
}

/// A larger exponent gives no smaller power.
pub proof fn lemma_pow10_monotonic(a: nat, b: nat)
    requires
        a <= b,
    ensures
        pow10(a) <= pow10(b),
    decreases b,
{
    if a < b {
        lemma_pow10_monotonic(a, (b - 1) as nat);
    }
}

/// A quotient and a remainder that fit are the quotient and the remainder.
pub proof fn lemma_div_mod_unique(x: nat, d: nat, q: nat, r: nat)
    requires
        x == q * d + r,
        r < d,
    ensures
        x / d == q,
        x % d == r,
{
    lemma_fundamental_div_mod_converse(x as int, d as int, q as int, r as int);
}

/// Digits written behind a number shift it left by their count and add
/// their own value.
pub proof fn lemma_value_concat(a: Seq<u8>, b: Seq<u8>)
    ensures
        value(a + b) == value(a) * pow10(b.len()) + value(b),
    decreases b.len(),
{
    if b.len() == 0 {
        assert(a + b =~= a);
        assert(pow10(b.len()) == 1);
        assert(value(b) == 0);
        assert(value(a) * 1 == value(a));
    } else {
        let b1 = b.drop_last();
        assert((a + b).drop_last() =~= a + b1);
        lemma_value_concat(a, b1);
        let p = pow10(b1.len());
        assert(pow10(b.len()) == 10 * p);
        assert((a + b).last() == b.last());
        assert(value(a + b) == 10 * value(a + b1) + b.last() as nat);
        assert(value(b) == 10 * value(b1) + b.last() as nat);
        assert(10 * (value(a) * p) == value(a) * (10 * p)) by (nonlinear_arith);
        assert(value(a + b) == value(a) * (10 * p) + value(b));
    }
}

/// `n` digits are worth less than `10^n`.
pub proof fn lemma_value_bound(s: Seq<u8>)
    requires
        all_digits(s),
    ensures
        value(s) < pow10(s.len()),
    decreases s.len(),
{
    if s.len() > 0 {
        lemma_value_bound(s.drop_last());
    }
}

/// A single digit is worth itself.
pub proof fn lemma_value_single(d: u8)
    ensures
        value(seq![d]) == d,
{
    assert(seq![d].drop_last() =~= Seq::<u8>::empty());
    assert(value(Seq::<u8>::empty()) == 0);
}

/// Zeros are worth nothing, however many there are.
pub proof fn lemma_value_zeros(s: Seq<u8>)
    requires
        forall|i: int| 0 <= i < s.len() ==> #[trigger] s[i] == 0,
    ensures
        value(s) == 0,
    decreases s.len(),
{
    if s.len() > 0 {
        lemma_value_zeros(s.drop_last());
    }
}

/// Splitting a digit string `a + b` is dividing by `10^|b|`.
pub proof fn lemma_value_split(a: Seq<u8>, b: Seq<u8>)
    requires
        all_digits(b),
    ensures
        value(a + b) / pow10(b.len()) == value(a),
        value(a + b) % pow10(b.len()) == value(b),
{
    lemma_value_concat(a, b);
    lemma_value_bound(b);
    lemma_div_mod_unique(value(a + b), pow10(b.len()), value(a), value(b));
}

/// A digit string without a leading zero is the usual way to write its value.
pub proof fn lemma_natural_text_of_digits(s: Seq<u8>)
    requires
        all_digits(s),
        s.len() > 0,
        s.len() == 1 || s[0] != 0,
    ensures
        natural_text(value(s)) == digits_text(s),
    decreases s.len(),
{
    let head = s.drop_last();
    let last = s.last();
    if s.len() == 1 {
        assert(head =~= Seq::<u8>::empty());
        assert(value(head) == 0);
        assert(value(s) == last);
        assert(natural_text(value(s)) =~= digits_text(s));
    } else {
        lemma_value_leading(head);
        let v = value(head);
        assert(v >= 1);
        lemma_div_mod_unique(value(s), 10, v, last as nat);
        lemma_natural_text_of_digits(head);
        assert(natural_text(value(s)) =~= digits_text(s));
    }
}

/// A digit string that starts with a nonzero digit is worth at least one.
pub proof fn lemma_value_leading(s: Seq<u8>)
    requires
        s.len() > 0,
        s[0] != 0,
    ensures
        value(s) >= 1,
    decreases s.len(),
{
    if s.len() > 1 {
        lemma_value_leading(s.drop_last());
    }
}

/// A digit string of `w` digits is its value written `w` wide.
pub proof fn lemma_padded_text_of_digits(s: Seq<u8>)
    requires
        all_digits(s),
    ensures
        padded_text(value(s), s.len()) == digits_text(s),
    decreases s.len(),
{
    if s.len() == 0 {
        assert(padded_text(value(s), s.len()) =~= digits_text(s));
    } else {
        let head = s.drop_last();
        lemma_div_mod_unique(value(s), 10, value(head), s.last() as nat);
        lemma_padded_text_of_digits(head);
        assert(padded_text(value(s), s.len()) =~= digits_text(s));
    }
}

/// Scaling numerator and denominator alike does not change the rounded
/// quotient.
pub proof fn lemma_round_scale(n: nat, d: nat, k: nat)
    requires
        d > 0,
        k > 0,
    ensures
        round_half_even(n * k, d * k) == round_half_even(n, d),
{
    let q = n / d;
    let r = n % d;
    assert(n == q * d + r && r < d) by {
        vstd::arithmetic::div_mod::lemma_fundamental_div_mod(n as int, d as int);
        vstd::arithmetic::div_mod::lemma_mod_bound(n as int, d as int);
        assert(d * q == q * d) by (nonlinear_arith);
    }
    assert(n * k == q * (d * k) + r * k) by (nonlinear_arith)
        requires
            n == q * d + r,
    ;
    assert(r * k < d * k) by (nonlinear_arith)
        requires
            r < d,
            k > 0,
    ;
    lemma_div_mod_unique(n * k, d * k, q, r * k);
    assert((2 * (r * k) < d * k) == (2 * r < d)) by (nonlinear_arith)
        requires
            k > 0,
    ;
    assert((2 * (r * k) == d * k) == (2 * r == d)) by (nonlinear_arith)
        requires
            k > 0,
    ;
}

/// A quotient without remainder needs no rounding.
pub proof fn lemma_round_exact(q: nat, d: nat)
    requires
        d > 0,
    ensures
        round_half_even(q * d, d) == q,
{
    lemma_div_mod_unique(q * d, d, q, 0);
}

/// The rounded quotient is a nearest integer: it differs from `n / d` by no
/// more than a half.
pub proof fn lemma_round_nearest(n: nat, d: nat)
    requires
        d > 0,
    ensures
        2 * (round_half_even(n, d) * d) <= 2 * n + d,
        2 * n <= 2 * (round_half_even(n, d) * d) + d,
{
    let q = n / d;
    let r = n % d;
    assert(n == q * d + r && r < d) by {
        vstd::arithmetic::div_mod::lemma_fundamental_div_mod(n as int, d as int);
        vstd::arithmetic::div_mod::lemma_mod_bound(n as int, d as int);
        assert(d * q == q * d) by (nonlinear_arith);
    }
    assert((q + 1) * d == q * d + d) by (nonlinear_arith);
}

} // verus!
