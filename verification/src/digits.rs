//! Arithmetic on decimal digit strings of any length.
//!
//! A number is a `Vec<u8>` of digits `0..=9`, most significant first; what it
//! is worth is `decimal::value` of its view. Nothing here is bounded by a
//! machine word: a balance of eighty digits is handled like one of three.

use crate::decimal::{
    all_digits, char_digit, digit_char, digits_text, fixed_text, is_digit_char, is_natural,
    lemma_div_mod_unique, lemma_natural_text_of_digits, lemma_padded_text_of_digits,
    lemma_pow10_add, lemma_pow10_monotonic, lemma_pow10_positive, lemma_round_exact,
    lemma_round_scale, lemma_value_bound, lemma_value_concat, lemma_value_single,
    lemma_value_split, lemma_value_zeros, natural_text, pow10, round_half_even, scaled_units,
    text_digits, value,
};
use vstd::string::StringExecFns;
use vstd::prelude::*;

verus! {

/// Nines are one short of the next power of ten.
proof fn lemma_value_nines(s: Seq<u8>)
    requires
        forall|i: int| 0 <= i < s.len() ==> #[trigger] s[i] == 9,
    ensures
        value(s) + 1 == pow10(s.len()),
    decreases s.len(),
{
    if s.len() > 0 {
        lemma_value_nines(s.drop_last());
    }
}

/// A digit string with a nonzero digit somewhere is worth more than nothing.
proof fn lemma_value_nonzero(s: Seq<u8>, i: int)
    requires
        0 <= i < s.len(),
        s[i] != 0,
    ensures
        value(s) > 0,
    decreases s.len(),
{
    if i < s.len() - 1 {
        lemma_value_nonzero(s.drop_last(), i);
    }
}

/// The last digit decides whether the value is even.
proof fn lemma_value_parity(s: Seq<u8>)
    requires
        s.len() > 0,
    ensures
        value(s) % 2 == (s.last() % 2) as nat,
{
    let h = value(s.drop_last());
    assert((10 * h + s.last() as nat) % 2 == (s.last() as nat) % 2) by (nonlinear_arith);
}

/// The digits that the characters `chars[from..to]` show, if that stretch is
/// a natural number in decimal.
pub fn digits_in(chars: &Vec<char>, from: usize, to: usize) -> (out: Option<Vec<u8>>)
    requires
        from <= to <= chars.len(),
    ensures
        out is Some <==> is_natural(chars@.subrange(from as int, to as int)),
        out matches Some(d) ==> d@ == text_digits(chars@.subrange(from as int, to as int))
            && all_digits(d@),
{
    let ghost stretch = chars@.subrange(from as int, to as int);
    if from == to {
        return None;
    }
    let mut out: Vec<u8> = Vec::new();
    let mut i: usize = from;
    while i < to
        invariant
            from <= i <= to <= chars.len(),
            stretch == chars@.subrange(from as int, to as int),
            out@.len() == i - from,
            forall|k: int|
                0 <= k < out@.len() ==> is_digit_char(#[trigger] stretch[k]) && out@[k]
                    == char_digit(stretch[k]),
        decreases to - i,
    {
        let c = chars[i];
        if c < '0' || c > '9' {
            assert(!is_digit_char(stretch[i - from]));
            return None;
        }
        out.push((c as u8) - 48);
        i += 1;
    }
    assert(out@ =~= text_digits(stretch));
    Some(out)
}

/// A copy of `d[from..to]`.
pub fn copy_range(d: &Vec<u8>, from: usize, to: usize) -> (out: Vec<u8>)
    requires
        from <= to <= d.len(),
    ensures
        out@ == d@.subrange(from as int, to as int),
{
    let mut out: Vec<u8> = Vec::new();
    let mut i: usize = from;
    while i < to
        invariant
            from <= i <= to <= d.len(),
            out@ == d@.subrange(from as int, i as int),
        decreases to - i,
    {
        out.push(d[i]);
        assert(d@.subrange(from as int, i as int).push(d@[i as int]) =~= d@.subrange(
            from as int,
            i + 1,
        ));
        i += 1;
    }
    out
}

/// The number after `d`.
pub fn increment(d: &Vec<u8>) -> (out: Vec<u8>)
    requires
        all_digits(d@),
    ensures
        all_digits(out@),
        value(out@) == value(d@) + 1,
{
    let n = d.len();
    let mut i: usize = n;
    while i > 0 && d[i - 1] == 9
        invariant
            i <= n == d.len(),
            forall|k: int| i <= k < n ==> d@[k] == 9,
        decreases i,
    {
        i -= 1;
    }
    let ghost nines = d@.subrange(i as int, n as int);
    let ghost kept = d@.subrange(0, i as int);
    let mut out: Vec<u8>;
    if i == 0 {
        out = Vec::new();
        out.push(1);
        proof {
            lemma_value_single(1);
            assert(value(kept) == 0);
        }
    } else {
        out = copy_range(d, 0, i - 1);
        out.push(d[i - 1] + 1);
        proof {
            assert(out@.drop_last() =~= kept.drop_last());
        }
    }
    let ghost front = out@;
    assert(value(front) == value(kept) + 1);
    assert(all_digits(front));
    let mut j: usize = i;
    while j < n
        invariant
            i <= j <= n,
            out@.len() == front.len() + (j - i),
            out@.subrange(0, front.len() as int) == front,
            forall|k: int| front.len() <= k < out@.len() ==> out@[k] == 0,
        decreases n - j,
    {
        out.push(0);
        assert(out@.subrange(0, front.len() as int) =~= front);
        j += 1;
    }
    proof {
        let zeros = out@.subrange(front.len() as int, out@.len() as int);
        assert(out@ =~= front + zeros);
        assert(d@ =~= kept + nines);
        lemma_value_concat(front, zeros);
        lemma_value_concat(kept, nines);
        lemma_value_zeros(zeros);
        lemma_value_nines(nines);
        let p = pow10(nines.len());
        assert(zeros.len() == nines.len());
        assert((value(kept) + 1) * p == value(kept) * p + p) by (nonlinear_arith);
    }
    out
}

/// `d / 10^drop`, rounded half-to-even: `d` with its last `drop` digits
/// rounded away.
pub fn round_digits(d: &Vec<u8>, drop: usize) -> (out: Vec<u8>)
    requires
        all_digits(d@),
    ensures
        all_digits(out@),
        value(out@) == round_half_even(value(d@), pow10(drop as nat)),
{
    let n = d.len();
    proof {
        lemma_value_bound(d@);
        lemma_pow10_positive(drop as nat);
    }
    if drop == 0 {
        proof {
            assert(value(d@) * 1 == value(d@));
            lemma_round_exact(value(d@), 1);
            assert(d@.subrange(0, n as int) =~= d@);
        }
        return copy_range(d, 0, n);
    }
    if drop > n {
        proof {
            let v = value(d@);
            lemma_pow10_monotonic(n as nat, (drop - 1) as nat);
            lemma_div_mod_unique(v, pow10(drop as nat), 0, v);
        }
        return Vec::new();
    }
    let k = n - drop;
    let first = d[k];
    let mut rest_zero = true;
    let mut i: usize = k + 1;
    while i < n
        invariant
            k < i <= n == d.len(),
            rest_zero <==> forall|j: int| k < j < i ==> d@[j] == 0,
        decreases n - i,
    {
        if d[i] != 0 {
            rest_zero = false;
        }
        i += 1;
    }
    let odd = k > 0 && d[k - 1] % 2 == 1;
    let up = first > 5 || (first == 5 && (!rest_zero || odd));
    let kept = copy_range(d, 0, k);
    proof {
        let head = d@.subrange(0, k as int);
        let tail = d@.subrange(k as int, n as int);
        let rest = d@.subrange(k + 1, n as int);
        let p = pow10((drop - 1) as nat);
        let t = value(rest);
        let f = first as nat;
        assert(d@ =~= head + tail);
        assert(tail =~= seq![first] + rest);
        lemma_value_split(head, tail);
        lemma_value_concat(seq![first], rest);
        lemma_value_single(first);
        lemma_value_bound(rest);
        lemma_pow10_positive((drop - 1) as nat);
        assert(value(tail) == f * p + t);
        assert(pow10(drop as nat) == 10 * p);
        if rest_zero {
            lemma_value_zeros(rest);
        } else {
            let j = choose|j: int| k < j < n && d@[j] != 0;
            lemma_value_nonzero(rest, j - k - 1);
        }
        if k > 0 {
            lemma_value_parity(head);
        }
        assert(odd <==> value(head) % 2 == 1);
        if f <= 4 {
            assert(f * p <= 4 * p) by (nonlinear_arith)
                requires
                    f <= 4,
                    p > 0,
            ;
        } else if f == 5 {
            assert(f * p == 5 * p);
        } else {
            assert(f * p >= 6 * p) by (nonlinear_arith)
                requires
                    f >= 6,
                    p > 0,
            ;
        }
        assert(up <==> !(2 * value(tail) < 10 * p || (2 * value(tail) == 10 * p && value(head) % 2
            == 0)));
    }
    if up {
        increment(&kept)
    } else {
        kept
    }
}

/// A number with fewer digits than are dropped rounds to nothing.
proof fn lemma_round_small(v: nat, n: nat, drop: nat)
    requires
        v < pow10(n),
        n < drop,
    ensures
        round_half_even(v, pow10(drop)) == 0,
{
    lemma_pow10_monotonic(n, (drop - 1) as nat);
    lemma_div_mod_unique(v, pow10(drop), 0, v);
}

/// `d` with `count` zeros behind it: `d` times `10^count`.
pub fn shift_left(d: &Vec<u8>, count: usize) -> (out: Vec<u8>)
    requires
        all_digits(d@),
    ensures
        all_digits(out@),
        value(out@) == value(d@) * pow10(count as nat),
{
    let mut out = copy_range(d, 0, d.len());
    assert(out@ =~= d@);
    let mut i: usize = 0;
    while i < count
        invariant
            i <= count,
            out@.len() == d@.len() + i,
            out@.subrange(0, d@.len() as int) == d@,
            forall|k: int| d@.len() <= k < out@.len() ==> out@[k] == 0,
        decreases count - i,
    {
        out.push(0);
        assert(out@.subrange(0, d@.len() as int) =~= d@);
        i += 1;
    }
    proof {
        let zeros = out@.subrange(d@.len() as int, out@.len() as int);
        assert(out@ =~= d@ + zeros);
        lemma_value_concat(d@, zeros);
        lemma_value_zeros(zeros);
    }
    out
}

/// `d / 10^scale` in steps of `10^-places`, rounded half-to-even.
pub fn scale_digits(d: &Vec<u8>, scale: u128, places: usize) -> (out: Vec<u8>)
    requires
        all_digits(d@),
    ensures
        all_digits(out@),
        value(out@) == scaled_units(value(d@), scale as nat, places as nat),
{
    let ghost v = value(d@);
    if places as u128 >= scale {
        let extra = (places as u128 - scale) as usize;
        proof {
            let e = pow10(extra as nat);
            let s = pow10(scale as nat);
            lemma_pow10_add(extra as nat, scale as nat);
            lemma_pow10_positive(scale as nat);
            assert(v * (e * s) == (v * e) * s) by (nonlinear_arith);
            lemma_round_exact(v * e, s);
        }
        shift_left(d, extra)
    } else {
        let drop = scale - places as u128;
        proof {
            let k = pow10(places as nat);
            let p = pow10(drop as nat);
            lemma_pow10_add(drop as nat, places as nat);
            lemma_pow10_positive(places as nat);
            lemma_pow10_positive(drop as nat);
            lemma_round_scale(v, p, k);
        }
        if drop > d.len() as u128 {
            proof {
                lemma_value_bound(d@);
                lemma_round_small(v, d@.len(), drop as nat);
            }
            Vec::new()
        } else {
            round_digits(d, drop as usize)
        }
    }
}

/// The one-character string that shows the digit `d`.
pub fn digit_str(d: u8) -> (s: &'static str)
    requires
        d < 10,
    ensures
        s@ == seq![digit_char(d as nat)],
{
    proof {
        reveal_strlit("0");
        reveal_strlit("1");
        reveal_strlit("2");
        reveal_strlit("3");
        reveal_strlit("4");
        reveal_strlit("5");
        reveal_strlit("6");
        reveal_strlit("7");
        reveal_strlit("8");
        reveal_strlit("9");
    }
    let s = if d == 0 {
        "0"
    } else if d == 1 {
        "1"
    } else if d == 2 {
        "2"
    } else if d == 3 {
        "3"
    } else if d == 4 {
        "4"
    } else if d == 5 {
        "5"
    } else if d == 6 {
        "6"
    } else if d == 7 {
        "7"
    } else if d == 8 {
        "8"
    } else {
        "9"
    };
    assert(s@ =~= seq![digit_char(d as nat)]);
    s
}

/// Writes the digits `d[from..to]` behind `out`, one character each.
pub fn push_digits(out: &mut String, d: &Vec<u8>, from: usize, to: usize)
    requires
        from <= to <= d.len(),
        all_digits(d@),
    ensures
        final(out)@ == old(out)@ + digits_text(d@.subrange(from as int, to as int)),
{
    let ghost before = out@;
    let mut i: usize = from;
    while i < to
        invariant
            from <= i <= to <= d.len(),
            all_digits(d@),
            out@ == before + digits_text(d@.subrange(from as int, i as int)),
        decreases to - i,
    {
        out.append(digit_str(d[i]));
        assert(out@ =~= before + digits_text(d@.subrange(from as int, i + 1)));
        i += 1;
    }
}

/// Writes `count` zeros behind `out`.
pub fn push_zeros(out: &mut String, count: usize)
    ensures
        final(out)@ == old(out)@ + Seq::new(count as nat, |i: int| '0'),
{
    let ghost before = out@;
    let mut i: usize = 0;
    while i < count
        invariant
            i <= count,
            out@ == before + Seq::new(i as nat, |i: int| '0'),
        decreases count - i,
    {
        out.append(digit_str(0));
        assert(out@ =~= before + Seq::new((i + 1) as nat, |i: int| '0'));
        i += 1;
    }
    assert(out@ =~= before + Seq::new(count as nat, |i: int| '0'));
}

/// Writes the number `d[from..to]` behind `out` in the usual way: without
/// leading zeros, and `0` where the stretch is empty or all zeros.
pub fn push_natural(out: &mut String, d: &Vec<u8>, from: usize, to: usize)
    requires
        from <= to <= d.len(),
        all_digits(d@),
    ensures
        final(out)@ == old(out)@ + natural_text(value(d@.subrange(from as int, to as int))),
{
    let ghost stretch = d@.subrange(from as int, to as int);
    let mut i: usize = from;
    while i < to && d[i] == 0
        invariant
            from <= i <= to <= d.len(),
            forall|k: int| from <= k < i ==> d@[k] == 0,
        decreases to - i,
    {
        i += 1;
    }
    proof {
        let zeros = d@.subrange(from as int, i as int);
        let rest = d@.subrange(i as int, to as int);
        assert(stretch =~= zeros + rest);
        lemma_value_concat(zeros, rest);
        lemma_value_zeros(zeros);
        assert(0 * pow10(rest.len()) == 0);
        assert(value(stretch) == value(rest));
        if i < to {
            lemma_natural_text_of_digits(rest);
        } else {
            assert(value(rest) == 0);
            assert(natural_text(0) =~= seq![digit_char(0)]);
        }
    }
    if i == to {
        out.append(digit_str(0));
    } else {
        push_digits(out, d, i, to);
    }
}

/// `units` steps of `10^-places`, written with exactly `places` digits after
/// the point.
pub fn fixed_string(units: &Vec<u8>, places: usize) -> (s: String)
    requires
        all_digits(units@),
    ensures
        s@ == fixed_text(value(units@), places as nat),
{
    let n = units.len();
    let mut s = String::new();
    if places == 0 {
        assert(units@.subrange(0, n as int) =~= units@);
        push_natural(&mut s, units, 0, n);
        return s;
    }
    proof {
        reveal_strlit(".");
    }
    if n >= places {
        let k = n - places;
        proof {
            let whole = units@.subrange(0, k as int);
            let frac = units@.subrange(k as int, n as int);
            assert(units@ =~= whole + frac);
            lemma_value_split(whole, frac);
            lemma_padded_text_of_digits(frac);
        }
        push_natural(&mut s, units, 0, k);
        s.append(".");
        push_digits(&mut s, units, k, n);
        assert(s@ =~= fixed_text(value(units@), places as nat));
    } else {
        let ghost zeros = Seq::new((places - n) as nat, |i: int| 0u8);
        proof {
            let v = value(units@);
            lemma_value_bound(units@);
            lemma_pow10_monotonic(n as nat, places as nat);
            lemma_div_mod_unique(v, pow10(places as nat), 0, v);
            lemma_value_concat(zeros, units@);
            lemma_value_zeros(zeros);
            lemma_padded_text_of_digits(zeros + units@);
            assert(units@.subrange(0, 0) =~= Seq::<u8>::empty());
            assert(value(Seq::<u8>::empty()) == 0);
            assert(units@.subrange(0, n as int) =~= units@);
            assert(digits_text(zeros + units@) =~= Seq::new((places - n) as nat, |i: int| '0')
                + digits_text(units@));
        }
        push_natural(&mut s, units, 0, 0);
        s.append(".");
        push_zeros(&mut s, places - n);
        push_digits(&mut s, units, 0, n);
        assert(s@ =~= fixed_text(value(units@), places as nat));
    }
    s
}

/// The value of a stretch is its first digit, weighted, plus the value of
/// what follows.
proof fn lemma_value_front(s: Seq<u8>, i: int)
    requires
        0 <= i < s.len(),
    ensures
        value(s.subrange(i, s.len() as int)) == s[i] * pow10((s.len() - i - 1) as nat) + value(
            s.subrange(i + 1, s.len() as int),
        ),
{
    let rest = s.subrange(i + 1, s.len() as int);
    assert(s.subrange(i, s.len() as int) =~= seq![s[i]] + rest);
    lemma_value_concat(seq![s[i]], rest);
    lemma_value_single(s[i]);
}

/// `v` with zeros in front, so that it is one digit longer than the longer of
/// `v` and a number of `other` digits.
fn widen(v: &Vec<u8>, other: usize) -> (out: Vec<u8>)
    requires
        all_digits(v@),
    ensures
        all_digits(out@),
        value(out@) == value(v@),
        out@.len() == 1 + if v@.len() >= other {
            v@.len()
        } else {
            other as nat
        },
{
    let n = v.len();
    let mut out: Vec<u8> = Vec::new();
    out.push(0);
    let mut i: usize = n;
    while i < other
        invariant
            n <= i,
            i <= other || i == n,
            out@.len() == 1 + (i - n),
            forall|k: int| 0 <= k < out@.len() ==> out@[k] == 0,
        decreases other - i,
    {
        out.push(0);
        i += 1;
    }
    let ghost zeros = out@;
    let mut j: usize = 0;
    while j < n
        invariant
            j <= n == v.len(),
            out@ == zeros + v@.subrange(0, j as int),
        decreases n - j,
    {
        out.push(v[j]);
        assert(out@ =~= zeros + v@.subrange(0, j + 1));
        j += 1;
    }
    proof {
        assert(v@.subrange(0, n as int) =~= v@);
        lemma_value_concat(zeros, v@);
        lemma_value_zeros(zeros);
        assert(0 * pow10(v@.len()) == 0);
    }
    out
}

/// `x + a * m` for a single digit `m`.
pub fn add_scaled(x: &Vec<u8>, a: &Vec<u8>, m: u8) -> (out: Vec<u8>)
    requires
        all_digits(x@),
        all_digits(a@),
        m < 10,
    ensures
        all_digits(out@),
        value(out@) == value(x@) + value(a@) * m,
{
    let xs = widen(x, a.len());
    let ys = widen(a, x.len());
    let len = xs.len();
    let mut out = copy_range(&xs, 0, len);
    let mut carry: u8 = 0;
    let mut i: usize = len;
    proof {
        assert(out@.subrange(len as int, len as int) =~= Seq::<u8>::empty());
        assert(xs@.subrange(len as int, len as int) =~= Seq::<u8>::empty());
        assert(ys@.subrange(len as int, len as int) =~= Seq::<u8>::empty());
        assert(value(Seq::<u8>::empty()) == 0);
        assert(0 * m == 0);
    }
    while i > 0
        invariant
            i <= len,
            len == xs@.len() == ys@.len() == out@.len(),
            all_digits(xs@),
            all_digits(ys@),
            all_digits(out@),
            m < 10,
            carry < 10,
            value(out@.subrange(i as int, len as int)) + carry * pow10((len - i) as nat) == value(
                xs@.subrange(i as int, len as int),
            ) + value(ys@.subrange(i as int, len as int)) * m,
        decreases i,
    {
        let ghost prev = out@;
        let ghost c = carry as nat;
        i -= 1;
        let xd = xs[i];
        let yd = ys[i];
        assert(yd * m <= 81) by (nonlinear_arith)
            requires
                yd < 10,
                m < 10,
        ;
        let t: u8 = xd + yd * m + carry;
        out.set(i, t % 10);
        carry = t / 10;
        proof {
            let p = pow10((len - i - 1) as nat);
            let xi = xs@[i as int] as nat;
            let yi = ys@[i as int] as nat;
            let mm = m as nat;
            let vo = value(prev.subrange(i + 1, len as int));
            let vx = value(xs@.subrange(i + 1, len as int));
            let vy = value(ys@.subrange(i + 1, len as int));
            assert(out@.subrange(i + 1, len as int) =~= prev.subrange(i + 1, len as int));
            lemma_value_front(out@, i as int);
            lemma_value_front(xs@, i as int);
            lemma_value_front(ys@, i as int);
            assert(pow10((len - i) as nat) == 10 * p);
            let tn = t as nat;
            assert(tn == xi + yi * mm + c);
            assert(tn == 10 * (tn / 10) + tn % 10);
            assert((tn % 10) * p + vo + (tn / 10) * (10 * p) == xi * p + vx + (yi * p + vy) * mm)
                by (nonlinear_arith)
                requires
                    tn == xi + yi * mm + c,
                    tn == 10 * (tn / 10) + tn % 10,
                    vo + c * p == vx + vy * mm,
            ;
        }
    }
    proof {
        let p = pow10((len - 1) as nat);
        let c = carry as nat;
        let mm = m as nat;
        assert(out@.subrange(0, len as int) =~= out@);
        assert(xs@.subrange(0, len as int) =~= xs@);
        assert(ys@.subrange(0, len as int) =~= ys@);
        lemma_value_bound(x@);
        lemma_value_bound(a@);
        lemma_pow10_monotonic(x@.len(), (len - 1) as nat);
        lemma_pow10_monotonic(a@.len(), (len - 1) as nat);
        assert(pow10(len as nat) == 10 * p);
        let vx = value(x@);
        let va = value(a@);
        assert(c == 0) by (nonlinear_arith)
            requires
                value(out@) + c * (10 * p) == vx + va * mm,
                vx < p,
                va < p,
                mm < 10,
        ;
        assert(0 * pow10(len as nat) == 0);
    }
    out
}

/// The product `a * b`.
pub fn mul_digits(a: &Vec<u8>, b: &Vec<u8>) -> (out: Vec<u8>)
    requires
        all_digits(a@),
        all_digits(b@),
    ensures
        all_digits(out@),
        value(out@) == value(a@) * value(b@),
{
    let mut acc: Vec<u8> = Vec::new();
    let mut j: usize = 0;
    proof {
        assert(b@.subrange(0, 0) =~= Seq::<u8>::empty());
        assert(value(a@) * 0 == 0);
    }
    while j < b.len()
        invariant
            j <= b.len(),
            all_digits(a@),
            all_digits(b@),
            all_digits(acc@),
            value(acc@) == value(a@) * value(b@.subrange(0, j as int)),
        decreases b.len() - j,
    {
        let ghost before = acc@;
        acc.push(0);
        proof {
            assert(acc@.drop_last() =~= before);
            assert(value(acc@) == 10 * value(before));
        }
        acc = add_scaled(&acc, a, b[j]);
        proof {
            let done = b@.subrange(0, j as int);
            let next = b@.subrange(0, j + 1);
            assert(next.drop_last() =~= done);
            assert(value(next) == 10 * value(done) + b@[j as int]);
            let va = value(a@);
            let vd = value(done);
            let bj = b@[j as int] as nat;
            assert(10 * (va * vd) + va * bj == va * (10 * vd + bj)) by (nonlinear_arith);
        }
        j += 1;
    }
    assert(b@.subrange(0, b@.len() as int) =~= b@);
    acc
}

/// The digits of `n`.
pub fn digits_of_u64(n: u64) -> (out: Vec<u8>)
    ensures
        all_digits(out@),
        value(out@) == n,
{
    let mut out: Vec<u8> = Vec::new();
    let mut rest: u64 = n;
    assert(n * 1 + 0 == n);
    while rest > 0
        invariant
            all_digits(out@),
            rest * pow10(out@.len()) + value(out@) == n,
        decreases rest,
    {
        let ghost before = out@;
        let ghost whole = rest as nat;
        let d = (rest % 10) as u8;
        out.insert(0, d);
        rest = rest / 10;
        proof {
            let p = pow10(before.len());
            let r = rest as nat;
            let dn = d as nat;
            assert(out@ =~= seq![d] + before);
            lemma_value_concat(seq![d], before);
            lemma_value_single(d);
            assert(pow10(out@.len()) == 10 * p);
            assert(whole == 10 * r + dn);
            assert(r * (10 * p) + (dn * p + value(before)) == (10 * r + dn) * p + value(before))
                by (nonlinear_arith);
        }
    }
    assert(0 * pow10(out@.len()) == 0);
    out
}

} // verus!
