//! Fixed-point quantities. Percentages and credit amounts are held as whole
//! millionths (a value of `1_000_000` is one percent, or one credit), so that
//! every comparison and sum in the library is exact.
use vstd::prelude::*;
use crate::text::{decimal, digit_char, decimal_chars};

verus! {

/// Millionths in one whole unit (one percent, or one credit).
pub const ONE: i64 = 1_000_000;

/// One hundred percent.
pub const HUNDRED_PERCENT: i64 = 100_000_000;

/// The larger of two timestamps.
pub open spec fn later(a: u64, b: u64) -> u64 {
    if a >= b { a } else { b }
}

/// The larger of two timestamps.
pub fn later_of(a: u64, b: u64) -> (r: u64)
    ensures
        r == later(a, b),
{
    if a >= b { a } else { b }
}

/// `a + b` for a non-negative `b`, held at `i64::MAX` where the sum does not fit.
pub open spec fn add_capped(a: i64, b: i64) -> i64 {
    if a + b > i64::MAX { i64::MAX } else { (a + b) as i64 }
}

/// `a + b` for a non-negative `b`, held at `i64::MAX` where the sum does not fit.
pub fn add_capped_of(a: i64, b: i64) -> (r: i64)
    requires
        b >= 0,
    ensures
        r == add_capped(a, b),
{
    match a.checked_add(b) {
        Some(s) => s,
        None => i64::MAX,
    }
}


/// The lowest `width` decimal digits of `n`, with leading zeros.
pub open spec fn padded_digits(n: nat, width: nat) -> Seq<char>
    decreases width,
{
    if width == 0 {
        Seq::empty()
    } else {
        padded_digits(n / 10, (width - 1) as nat).push(digit_char(n % 10))
    }
}

/// `s` without its trailing `'0'` characters.
pub open spec fn without_trailing_zeros(s: Seq<char>) -> Seq<char>
    decreases s.len(),
{
    if s.len() > 0 && s.last() == '0' {
        without_trailing_zeros(s.drop_last())
    } else {
        s
    }
}

/// The magnitude of a fixed-point value.
pub open spec fn magnitude(v: i64) -> nat {
    if v < 0 { (-v) as nat } else { v as nat }
}

/// The shortest decimal text of a fixed-point value: an optional minus sign,
/// the whole part, and, when there is one, the fractional part without
/// trailing zeros ("3.2" for 3_200_000, "95" for 95_000_000).
pub open spec fn fixed_text(v: i64) -> Seq<char> {
    let m = magnitude(v);
    let sign = if v < 0 { seq!['-'] } else { Seq::empty() };
    let whole = decimal(m / (ONE as nat));
    let frac = m % (ONE as nat);
    if frac == 0 {
        sign + whole
    } else {
        sign + whole + seq!['.'] + without_trailing_zeros(padded_digits(frac, 6))
    }
}

fn padded_digit_chars(n: u64, width: u64) -> (v: Vec<char>)
    ensures
        v@ == padded_digits(n as nat, width as nat),
    decreases width,
{
    if width == 0 {
        Vec::new()
    } else {
        let mut v = padded_digit_chars(n / 10, width - 1);
        let d = decimal_chars((n % 10) as u128);
        assert(decimal((n % 10) as nat) == seq![digit_char((n % 10) as nat)]);
        v.push(d[0]);
        v
    }
}

fn drop_trailing_zeros(v: &mut Vec<char>)
    ensures
        final(v)@ == without_trailing_zeros(old(v)@),
{
    while v.len() > 0 && v[v.len() - 1] == '0'
        invariant
            without_trailing_zeros(v@) == without_trailing_zeros(old(v)@),
        decreases v@.len(),
    {
        let ghost before = v@;
        v.pop();
        assert(v@ == before.drop_last());
    }
}

/// The decimal text of a fixed-point value (see `fixed_text`).
pub fn fixed_chars(v: i64) -> (out: Vec<char>)
    ensures
        out@ == fixed_text(v),
{
    let m: u64 = if v < 0 { (0i128 - v as i128) as u64 } else { v as u64 };
    assert(m as nat == magnitude(v));
    let mut out: Vec<char> = Vec::new();
    if v < 0 {
        out.push('-');
    }
    let mut whole = decimal_chars((m / (ONE as u64)) as u128);
    out.append(&mut whole);
    let frac = m % (ONE as u64);
    if frac != 0 {
        out.push('.');
        let mut digits = padded_digit_chars(frac, 6);
        drop_trailing_zeros(&mut digits);
        out.append(&mut digits);
    }
    proof {
        let sign = if v < 0 { seq!['-'] } else { Seq::<char>::empty() };
        if frac == 0 {
            assert(out@ =~= sign + decimal(magnitude(v) / (ONE as nat)));
        } else {
            assert(out@ =~= sign + decimal(magnitude(v) / (ONE as nat)) + seq!['.']
                + without_trailing_zeros(padded_digits(frac as nat, 6)));
        }
    }
    out
}

} // verus!
