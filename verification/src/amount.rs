//! Amounts as the explorer reports them, and how they are shown.
//!
//! A balance arrives as a decimal string of base units, of any length; an
//! exchange rate arrives as decimal text with an optional fraction. Both are
//! read digit by digit and computed with exactly: nothing is rounded but the
//! figure that is shown, and that one half-to-even.
//!
//! Text that does not read as a number counts as zero. `parse_amount` and
//! `parse_decimal` tell a caller who wants to report it which text that was.

use crate::decimal::{
    all_digits, is_natural, lemma_value_concat, pow10, scaled_text, text_digits, value,
};
use crate::digits::{digits_in, fixed_string, mul_digits, scale_digits};
use crate::text::chars_of;
use vstd::prelude::*;

verus! {

/// What the balance text `raw` is worth in base units: its value where it is
/// a natural number in decimal, zero where it is not.
pub open spec fn amount_value(raw: Seq<char>) -> nat {
    if is_natural(raw) {
        value(text_digits(raw))
    } else {
        0
    }
}

/// The index of the first `'.'` in `s`, or the length of `s` if it has none.
pub open spec fn point_index(s: Seq<char>) -> int
    decreases s.len(),
{
    if s.len() == 0 || s[0] == '.' {
        0
    } else {
        1 + point_index(s.drop_first())
    }
}

/// `s` is a decimal number: digits, or digits, a point and digits.
pub open spec fn is_decimal(s: Seq<char>) -> bool {
    let p = point_index(s);
    if p == s.len() {
        is_natural(s)
    } else {
        is_natural(s.subrange(0, p)) && is_natural(s.subrange(p + 1, s.len() as int))
    }
}

/// The number of digits behind the point of `s`.
pub open spec fn decimal_scale(s: Seq<char>) -> nat {
    let p = point_index(s);
    if p == s.len() {
        0
    } else {
        (s.len() - p - 1) as nat
    }
}

/// The digits of `s` read as one number, the point left out.
pub open spec fn decimal_mantissa(s: Seq<char>) -> nat {
    let p = point_index(s);
    if p == s.len() {
        value(text_digits(s))
    } else {
        value(text_digits(s.subrange(0, p))) * pow10(decimal_scale(s)) + value(
            text_digits(s.subrange(p + 1, s.len() as int)),
        )
    }
}

/// The mantissa of the rate text `s`: zero where `s` is no decimal number.
pub open spec fn rate_mantissa(s: Seq<char>) -> nat {
    if is_decimal(s) {
        decimal_mantissa(s)
    } else {
        0
    }
}

/// The scale of the rate text `s`: zero where `s` is no decimal number. The
/// rate is `rate_mantissa(s) / 10^rate_scale(s)`.
pub open spec fn rate_scale(s: Seq<char>) -> nat {
    if is_decimal(s) {
        decimal_scale(s)
    } else {
        0
    }
}

/// A decimal number: `digits`, read as one natural number, over `10^scale`.
#[derive(Clone, Debug)]
pub struct Decimal {
    pub digits: Vec<u8>,
    pub scale: usize,
}

/// What `point_index` is, said without recursion.
pub proof fn lemma_point_index(s: Seq<char>, i: int)
    requires
        0 <= i <= s.len(),
        forall|k: int| 0 <= k < i ==> #[trigger] s[k] != '.',
        i == s.len() || s[i] == '.',
    ensures
        point_index(s) == i,
    decreases s.len(),
{
    if i > 0 {
        let rest = s.drop_first();
        assert forall|k: int| 0 <= k < i - 1 implies #[trigger] rest[k] != '.' by {
            assert(rest[k] == s[k + 1]);
        }
        lemma_point_index(rest, i - 1);
    }
}

/// The digits of the balance text `raw`, or `None` where it is not a natural
/// number in decimal.
pub fn parse_amount(raw: &str) -> (out: Option<Vec<u8>>)
    ensures
        out is Some <==> is_natural(raw@),
        out matches Some(d) ==> all_digits(d@) && d@ == text_digits(raw@),
{
    let chars = chars_of(raw);
    assert(chars@.subrange(0, chars@.len() as int) =~= chars@);
    digits_in(&chars, 0, chars.len())
}

/// The digits of the balance text `raw`, with nothing for text that is not a
/// number.
pub fn amount_digits(raw: &str) -> (d: Vec<u8>)
    ensures
        all_digits(d@),
        value(d@) == amount_value(raw@),
{
    match parse_amount(raw) {
        Some(d) => d,
        None => Vec::new(),
    }
}

/// The decimal number that `text` shows, or `None` where it shows none.
pub fn parse_decimal(text: &str) -> (out: Option<Decimal>)
    ensures
        out is Some <==> is_decimal(text@),
        out matches Some(d) ==> all_digits(d.digits@) && value(d.digits@) == decimal_mantissa(
            text@,
        ) && d.scale == decimal_scale(text@),
{
    let chars = chars_of(text);
    let n = chars.len();
    let mut p: usize = 0;
    while p < n && chars[p] != '.'
        invariant
            p <= n == chars.len(),
            forall|k: int| 0 <= k < p ==> #[trigger] chars@[k] != '.',
        decreases n - p,
    {
        p += 1;
    }
    proof {
        lemma_point_index(chars@, p as int);
        assert(chars@.subrange(0, n as int) =~= chars@);
    }
    if p == n {
        return match digits_in(&chars, 0, n) {
            Some(digits) => Some(Decimal { digits, scale: 0 }),
            None => None,
        };
    }
    let whole = digits_in(&chars, 0, p);
    let frac = digits_in(&chars, p + 1, n);
    match (whole, frac) {
        (Some(mut digits), Some(behind)) => {
            let ghost front = digits@;
            let scale = behind.len();
            let mut i: usize = 0;
            while i < scale
                invariant
                    i <= scale == behind.len(),
                    digits@ == front + behind@.subrange(0, i as int),
                decreases scale - i,
            {
                digits.push(behind[i]);
                assert(digits@ =~= front + behind@.subrange(0, i + 1));
                i += 1;
            }
            proof {
                assert(behind@.subrange(0, scale as int) =~= behind@);
                lemma_value_concat(front, behind@);
            }
            Some(Decimal { digits, scale })
        },
        _ => None,
    }
}

/// The amount `raw / 10^scale`, shown with `places` digits after the point.
pub fn format_amount(raw: &str, scale: u8, places: usize) -> (s: String)
    ensures
        s@ == scaled_text(amount_value(raw@), scale as nat, places as nat),
{
    let digits = amount_digits(raw);
    let units = scale_digits(&digits, scale as u128, places);
    fixed_string(&units, places)
}

/// The amount `raw / 10^scale` converted at `rate`, shown with `places`
/// digits after the point. The product is exact; only the figure shown is
/// rounded.
pub fn format_converted(raw: &str, scale: u8, rate: &str, places: usize) -> (s: String)
    ensures
        s@ == scaled_text(
            amount_value(raw@) * rate_mantissa(rate@),
            scale as nat + rate_scale(rate@),
            places as nat,
        ),
{
    let digits = amount_digits(raw);
    match parse_decimal(rate) {
        Some(factor) => {
            let product = mul_digits(&digits, &factor.digits);
            let units = scale_digits(&product, scale as u128 + factor.scale as u128, places);
            fixed_string(&units, places)
        },
        None => {
            let nothing: Vec<u8> = Vec::new();
            assert(amount_value(raw@) * 0 == 0);
            let units = scale_digits(&nothing, scale as u128, places);
            fixed_string(&units, places)
        },
    }
}

} // verus!
