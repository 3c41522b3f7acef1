//! Fixed-point decimals.
//!
//! Prices, sizes and amounts are held as signed integers counting millionths
//! of a unit: `0.52` is `520_000`. Sums and products are exact, and a product
//! of two amounts carries `SCALE * SCALE` units.
use vstd::prelude::*;
use vstd::string::*;

verus! {

/// Units in one whole: decimals carry six places.
pub const SCALE: i64 = 1_000_000;

/// Units in one basis point of a whole (1 / 10 000).
pub const BPS_DENOM: i64 = 10_000;

pub open spec fn abs(v: int) -> nat {
    if v < 0 { (-v) as nat } else { v as nat }
}

pub open spec fn digit_char(d: int) -> char {
    if d == 0 { '0' }
    else if d == 1 { '1' }
    else if d == 2 { '2' }
    else if d == 3 { '3' }
    else if d == 4 { '4' }
    else if d == 5 { '5' }
    else if d == 6 { '6' }
    else if d == 7 { '7' }
    else if d == 8 { '8' }
    else { '9' }
}

/// The decimal digits of `n`, most significant first, without leading zeros.
pub open spec fn decimal_text(n: nat) -> Seq<char>
    decreases n,
{
    if n < 10 {
        seq![digit_char(n as int)]
    } else {
        decimal_text(n / 10) + seq![digit_char((n % 10) as int)]
    }
}

/// A magnitude in units, rounded half up to hundredths of a whole.
pub open spec fn hundredths(m: nat) -> nat {
    (m + 5_000) / 10_000
}

/// The text of `v` units with two decimal places, rounded half away from zero.
pub open spec fn two_places_text(v: int) -> Seq<char> {
    let h = hundredths(abs(v));
    let sign = if v < 0 && h > 0 { seq!['-'] } else { Seq::<char>::empty() };
    sign + decimal_text(h / 100) + seq!['.', digit_char(((h / 10) % 10) as int), digit_char((h % 10) as int)]
}

fn digit_str(d: u128) -> (r: &'static str)
    requires
        d < 10,
    ensures
        r@ == seq![digit_char(d as int)],
{
    proof {
        reveal_strlit("0");
        reveal_strlit("1");
        reveal_strlit("2");
        reveal_strlit("3");
        reveal_strlit("4");
        reveal_strlit("5");
        reveal_strlit("6");
        reveal_strlit("7");
        reveal_strlit("8");
        reveal_strlit("9");
    }
    if d == 0 {
        "0"
    } else if d == 1 {
        "1"
    } else if d == 2 {
        "2"
    } else if d == 3 {
        "3"
    } else if d == 4 {
        "4"
    } else if d == 5 {
        "5"
    } else if d == 6 {
        "6"
    } else if d == 7 {
        "7"
    } else if d == 8 {
        "8"
    } else {
        "9"
    }
}

/// Appends the decimal digits of `n` to `s`.
pub fn push_decimal(s: &mut String, n: u128)
    ensures
        final(s)@ == old(s)@ + decimal_text(n as nat),
    decreases n,
{
    if n >= 10 {
        push_decimal(s, n / 10);
    }
    s.append(digit_str(n % 10));
}

/// Appends `v` units written with two decimal places (`1100.00`).
pub fn push_two_places(s: &mut String, v: i128)
    ensures
        final(s)@ == old(s)@ + two_places_text(v as int),
{
    let m: u128 = if v < 0 {
        ((0 - (v + 1)) as u128) + 1
    } else {
        v as u128
    };
    assert(m as nat == abs(v as int));
    let h: u128 = m / 10_000 + if m % 10_000 >= 5_000 { 1u128 } else { 0u128 };
    assert(h as nat == hundredths(m as nat));
    let ghost start = s@;
    if v < 0 && h > 0 {
        s.append("-");
        proof { reveal_strlit("-"); }
    }
    push_decimal(s, h / 100);
    s.append(".");
    proof { reveal_strlit("."); }
    s.append(digit_str((h / 10) % 10));
    s.append(digit_str(h % 10));
    assert(s@ =~= start + two_places_text(v as int));
}

} // verus!
