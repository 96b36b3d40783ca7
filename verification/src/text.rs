//! What the compact text of an integer is: the choice of tier, the precision
//! rule and the rounding, stated over exact integer arithmetic.

use vstd::prelude::*;
use crate::decimal::{decimal, decimal_digits, digit_char, magnitude, push_decimal, push_digit};
use crate::tier::{scale, suffix_char, tier_of, LIMIT};

verus! {

/// Whether `n` can be formatted: its magnitude is below one quadrillion.
pub open spec fn in_range(n: int) -> bool {
    magnitude(n) < LIMIT
}

/// The quotient `num / den` rounded to the nearest integer, a half rounded
/// up. On magnitudes this is rounding half away from zero.
pub open spec fn round_half_up(num: int, den: int) -> int
    recommends
        0 <= num,
        0 < den,
{
    (2 * num + den) / (2 * den)
}

/// The precision rule. A magnitude scaled by `unit` is written with one
/// decimal digit when it is below a hundred units and its fractional part
/// is at least a tenth of a unit; otherwise it is written without decimals.
pub open spec fn shows_tenth(magnitude: int, unit: int) -> bool
    recommends
        0 <= magnitude,
        0 < unit,
{
    magnitude < 100 * unit && 10 * (magnitude % unit) >= unit
}

/// The mantissa of `magnitude` in units of `unit`, rounded to the precision
/// that the precision rule gives.
pub open spec fn mantissa_text(magnitude: int, unit: int) -> Seq<char>
    recommends
        0 <= magnitude,
        0 < unit,
{
    if shows_tenth(magnitude, unit) {
        let tenths = round_half_up(10 * magnitude, unit);
        decimal_digits((tenths / 10) as nat) + seq!['.', digit_char(tenths % 10)]
    } else {
        decimal_digits(round_half_up(magnitude, unit) as nat)
    }
}

/// The minus sign of a negative number, nothing otherwise.
pub open spec fn sign_text(n: int) -> Seq<char> {
    if n < 0 {
        seq!['-']
    } else {
        Seq::empty()
    }
}

/// The compact text of `n`. A magnitude below a thousand is written in
/// full. A larger one is scaled to its tier, written as a mantissa after
/// the sign, and followed by the tier's letter.
pub open spec fn compact_text(n: int) -> Seq<char>
    recommends
        in_range(n),
{
    let tier = tier_of(magnitude(n));
    if tier == 0 {
        decimal(n)
    } else {
        sign_text(n) + mantissa_text(magnitude(n), scale(tier)) + seq![suffix_char(tier)]
    }
}

/// Rounding moves a quotient by at most a half: the rounded quotient times
/// the divisor is less than half a divisor below the dividend and at most
/// half a divisor above it.
pub proof fn lemma_round_half_up(num: int, den: int)
    requires
        0 <= num,
        0 < den,
    ensures
        -den < 2 * (round_half_up(num, den) * den - num) <= den,
{
    let rounded = round_half_up(num, den);
    let rest = (2 * num + den) % (2 * den);
    vstd::arithmetic::div_mod::lemma_fundamental_div_mod(2 * num + den, 2 * den);
    vstd::arithmetic::div_mod::lemma_mod_bound(2 * num + den, 2 * den);
    assert((2 * den) * rounded == 2 * (rounded * den)) by (nonlinear_arith);
}

/// Rounding keeps a quotient within whole bounds: where `num / den` lies
/// from `low` to `high`, so does the rounded quotient.
pub proof fn lemma_round_half_up_bounds(num: int, den: int, low: int, high: int)
    requires
        0 <= num,
        0 < den,
        low * den <= num < high * den,
    ensures
        low <= round_half_up(num, den) <= high,
{
    let rounded = round_half_up(num, den);
    lemma_round_half_up(num, den);
    assert(low <= rounded) by (nonlinear_arith)
        requires
            0 < den,
            low * den <= num,
            -den < 2 * (rounded * den - num),
    ;
    assert(rounded <= high) by (nonlinear_arith)
        requires
            0 < den,
            num < high * den,
            2 * (rounded * den - num) <= den,
    ;
}

/// Appends to `text` the mantissa of `magnitude` in units of `unit`. The
/// bounds keep the arithmetic within a `u64`.
pub fn push_mantissa(text: &mut String, magnitude: u64, unit: u64)
    requires
        0 < unit <= LIMIT,
        magnitude < LIMIT,
    ensures
        final(text)@ == old(text)@ + mantissa_text(magnitude as int, unit as int),
{
    let fraction = magnitude % unit;
    if magnitude < 100 * unit && 10 * fraction >= unit {
        let tenths = (20 * magnitude + unit) / (2 * unit);
        push_decimal(text, tenths / 10);
        text.append(".");
        push_digit(text, tenths % 10);
        proof {
            reveal_strlit(".");
        }
    } else {
        let whole = (2 * magnitude + unit) / (2 * unit);
        push_decimal(text, whole);
    }
    assert(text@ =~= old(text)@ + mantissa_text(magnitude as int, unit as int));
}

} // verus!
