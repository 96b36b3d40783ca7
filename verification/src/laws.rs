//! Laws of the compact text: the form of a text with a letter, how close it
//! is to the number, and how the texts of a number and of its negative
//! relate. They are stated by reading the text back, character by character.

use vstd::prelude::*;
use crate::decimal::{
    all_digits, decimal, decimal_digits, digit_char, digit_value, is_digit,
    lemma_decimal_digits, lemma_digit_count, magnitude, numeral_value,
};
use crate::text::{
    compact_text, in_range, lemma_round_half_up, lemma_round_half_up_bounds, mantissa_text,
    round_half_up, shows_tenth, sign_text,
};
use crate::tier::{
    lemma_scale_values, lemma_suffix_values, lemma_tier_bounds, scale, suffix_char, tier_of,
    LIMIT,
};

verus! {

/// Whether `c` is the letter of a tier.
pub open spec fn is_suffix(c: char) -> bool {
    c == 'k' || c == 'M' || c == 'B' || c == 'T'
}

/// The tier that a letter names.
pub open spec fn suffix_tier(c: char) -> nat
    recommends
        is_suffix(c),
{
    if c == 'k' {
        1
    } else if c == 'M' {
        2
    } else if c == 'B' {
        3
    } else {
        4
    }
}

/// A text without its minus sign, if it has one.
pub open spec fn unsigned(text: Seq<char>) -> Seq<char> {
    if text.len() > 0 && text[0] == '-' {
        text.skip(1)
    } else {
        text
    }
}

/// Whether a mantissa ends in a point and one more character.
pub open spec fn has_tenth(mantissa: Seq<char>) -> bool {
    mantissa.len() >= 2 && mantissa[mantissa.len() - 2] == '.'
}

/// The part of a mantissa in front of the point.
pub open spec fn whole_part(mantissa: Seq<char>) -> Seq<char> {
    if has_tenth(mantissa) {
        mantissa.take(mantissa.len() - 2)
    } else {
        mantissa
    }
}

/// The form of a mantissa: one to three digits, then possibly a point and
/// one digit.
pub open spec fn is_mantissa(mantissa: Seq<char>) -> bool {
    &&& 1 <= whole_part(mantissa).len() <= 3
    &&& all_digits(whole_part(mantissa))
    &&& has_tenth(mantissa) ==> is_digit(mantissa.last())
}

/// The form of a text with a letter: possibly a minus sign, a mantissa, and
/// the letter of a tier.
pub open spec fn is_compact_form(text: Seq<char>) -> bool {
    &&& text.len() >= 2
    &&& is_suffix(text.last())
    &&& is_mantissa(unsigned(text.drop_last()))
}

/// The number that a mantissa writes, counted in tenths.
pub open spec fn mantissa_tenths(mantissa: Seq<char>) -> int {
    10 * numeral_value(whole_part(mantissa)) + if has_tenth(mantissa) {
        digit_value(mantissa.last())
    } else {
        0
    }
}

/// Whether a text with a letter is as close to `magnitude` as its precision
/// allows: within a twentieth of a unit of its tier where it shows a tenth,
/// within half a unit where it does not.
pub open spec fn within_tolerance(text: Seq<char>, magnitude: int) -> bool {
    let mantissa = unsigned(text.drop_last());
    let unit = scale(suffix_tier(text.last()));
    let error = mantissa_tenths(mantissa) * unit - 10 * magnitude;
    if has_tenth(mantissa) {
        -unit <= 2 * error <= unit
    } else {
        -5 * unit <= error <= 5 * unit
    }
}

/// Whether rounding carries the mantissa of `magnitude` to a full thousand
/// of its tier's units: the magnitude is within half a unit of the next
/// tier.
pub open spec fn reaches_thousand(magnitude: int) -> bool {
    let unit = scale(tier_of(magnitude));
    2 * magnitude + unit >= 2000 * unit
}

/// A number whose magnitude is below a thousand is written in full: its
/// compact text is its numeral.
pub proof fn lemma_small_is_decimal(n: int)
    requires
        magnitude(n) < 1000,
    ensures
        compact_text(n) == decimal(n),
{
    reveal_with_fuel(tier_of, 2);
}

/// What reading a mantissa back gives: whether it shows a tenth, its value
/// in tenths, and, unless rounding carried it to a full thousand, its form.
proof fn lemma_mantissa_text(magnitude: int, unit: int)
    requires
        0 < unit <= magnitude < 1000 * unit,
    ensures
        mantissa_text(magnitude, unit).len() >= 1,
        is_digit(mantissa_text(magnitude, unit)[0]),
        has_tenth(mantissa_text(magnitude, unit)) <==> shows_tenth(magnitude, unit),
        mantissa_tenths(mantissa_text(magnitude, unit)) == if shows_tenth(magnitude, unit) {
            round_half_up(10 * magnitude, unit)
        } else {
            10 * round_half_up(magnitude, unit)
        },
        2 * magnitude + unit < 2000 * unit ==> is_mantissa(mantissa_text(magnitude, unit)),
{
    let text = mantissa_text(magnitude, unit);
    if shows_tenth(magnitude, unit) {
        let tenths = round_half_up(10 * magnitude, unit);
        lemma_round_half_up_bounds(10 * magnitude, unit, 10, 1000);
        let whole = (tenths / 10) as nat;
        lemma_decimal_digits(whole);
        lemma_digit_count(whole);
        let digits = decimal_digits(whole);
        assert(text == digits + seq!['.', digit_char(tenths % 10)]);
        assert(text.len() == digits.len() + 2);
        assert(text[0] == digits[0]);
        assert(text[text.len() - 2] == '.');
        assert(text.take(text.len() - 2) =~= digits);
    } else {
        let whole = round_half_up(magnitude, unit) as nat;
        lemma_round_half_up_bounds(magnitude, unit, 1, 1000);
        lemma_decimal_digits(whole);
        lemma_digit_count(whole);
        if text.len() >= 2 {
            assert(is_digit(text[text.len() - 2]));
        }
        if 2 * magnitude + unit < 2000 * unit {
            assert(whole < 1000) by (nonlinear_arith)
                requires
                    whole == (2 * magnitude + unit) / (2 * unit),
                    2 * magnitude + unit < 2000 * unit,
                    0 < unit,
            ;
        }
    }
}

/// Taking the letter and the sign off a compact text leaves the mantissa.
proof fn lemma_compact_text_parts(n: int)
    requires
        1000 <= magnitude(n) < LIMIT,
    ensures
        compact_text(n).len() >= 2,
        compact_text(n).last() == suffix_char(tier_of(magnitude(n))),
        unsigned(compact_text(n).drop_last()) == mantissa_text(
            magnitude(n),
            scale(tier_of(magnitude(n))),
        ),
        compact_text(n)[0] == '-' <==> n < 0,
        1 <= tier_of(magnitude(n)) <= 4,
        suffix_tier(compact_text(n).last()) == tier_of(magnitude(n)),
        is_suffix(compact_text(n).last()),
{
    let tier = tier_of(magnitude(n));
    let unit = scale(tier);
    let mantissa = mantissa_text(magnitude(n), unit);
    lemma_tier_bounds(magnitude(n));
    lemma_scale_values();
    lemma_suffix_values();
    reveal_with_fuel(scale, 2);
    assert(1 <= tier <= 4) by {
        reveal_with_fuel(tier_of, 6);
    }
    lemma_mantissa_text(magnitude(n), unit);
    let text = compact_text(n);
    assert(text == sign_text(n) + mantissa + seq![suffix_char(tier)]);
    assert(text.drop_last() =~= sign_text(n) + mantissa);
    if n < 0 {
        assert((sign_text(n) + mantissa).skip(1) =~= mantissa);
    } else {
        assert(sign_text(n) + mantissa =~= mantissa);
    }
}

/// The letter of a compact text. For a number whose magnitude is a thousand
/// or more, the text ends in the letter of the one tier whose scale is at
/// most the magnitude and more than a thousandth of it.
pub proof fn lemma_compact_letter(n: int)
    requires
        1000 <= magnitude(n) < LIMIT,
    ensures
        is_suffix(compact_text(n).last()),
        suffix_tier(compact_text(n).last()) == tier_of(magnitude(n)),
        scale(suffix_tier(compact_text(n).last())) <= magnitude(n) < 1000 * scale(
            suffix_tier(compact_text(n).last()),
        ),
{
    lemma_compact_text_parts(n);
    lemma_tier_bounds(magnitude(n));
    reveal_with_fuel(scale, 2);
}

/// The form of a compact text. For a number whose magnitude is a thousand or
/// more, and whose mantissa rounding does not carry to a full thousand, the
/// text is a minus sign exactly when the number is negative, then one to
/// three digits, then possibly a point and one digit, then one of the
/// letters `k`, `M`, `B`, `T`.
pub proof fn lemma_compact_form(n: int)
    requires
        1000 <= magnitude(n) < LIMIT,
        !reaches_thousand(magnitude(n)),
    ensures
        is_compact_form(compact_text(n)),
        compact_text(n)[0] == '-' <==> n < 0,
{
    lemma_compact_text_parts(n);
    lemma_tier_bounds(magnitude(n));
    reveal_with_fuel(scale, 2);
    lemma_mantissa_text(magnitude(n), scale(tier_of(magnitude(n))));
}

/// Where rounding carries the mantissa to a full thousand, the text keeps
/// the letter of the magnitude's own tier and writes the thousand out.
pub proof fn lemma_compact_text_of_carry(n: int)
    requires
        1000 <= magnitude(n) < LIMIT,
        reaches_thousand(magnitude(n)),
    ensures
        compact_text(n) == sign_text(n) + decimal_digits(1000) + seq![
            suffix_char(tier_of(magnitude(n))),
        ],
{
    let unit = scale(tier_of(magnitude(n)));
    lemma_tier_bounds(magnitude(n));
    reveal_with_fuel(scale, 2);
    lemma_round_half_up_bounds(magnitude(n), unit, 1, 1000);
    assert(round_half_up(magnitude(n), unit) >= 1000) by (nonlinear_arith)
        requires
            round_half_up(magnitude(n), unit) == (2 * magnitude(n) + unit) / (2 * unit),
            2 * magnitude(n) + unit >= 2000 * unit,
            0 < unit,
    ;
    assert(!shows_tenth(magnitude(n), unit)) by (nonlinear_arith)
        requires
            2 * magnitude(n) + unit >= 2000 * unit,
            0 < unit,
            shows_tenth(magnitude(n), unit) ==> magnitude(n) < 100 * unit,
    ;
}

/// How close a compact text is to the number. For a number whose magnitude
/// is a thousand or more, the mantissa times the scale of the letter's tier
/// differs from the magnitude by at most a twentieth of that scale where
/// the text shows a tenth, and by at most half of it where it does not.
pub proof fn lemma_compact_tolerance(n: int)
    requires
        1000 <= magnitude(n) < LIMIT,
    ensures
        within_tolerance(compact_text(n), magnitude(n)),
{
    let unit = scale(tier_of(magnitude(n)));
    lemma_compact_text_parts(n);
    lemma_tier_bounds(magnitude(n));
    reveal_with_fuel(scale, 2);
    lemma_mantissa_text(magnitude(n), unit);
    lemma_round_half_up(magnitude(n), unit);
    lemma_round_half_up(10 * magnitude(n), unit);
    let whole = round_half_up(magnitude(n), unit);
    assert(10 * whole * unit == 10 * (whole * unit)) by (nonlinear_arith);
}

/// Sign symmetry: the text of a negative number is a minus sign in front of
/// the text of its magnitude.
pub proof fn lemma_sign_symmetry(n: int)
    requires
        0 < n,
        in_range(n),
    ensures
        compact_text(-n) == seq!['-'] + compact_text(n),
{
    let tier = tier_of(n);
    if tier == 0 {
        assert(n < 1000) by {
            reveal_with_fuel(tier_of, 2);
        }
    } else {
        let body = mantissa_text(n, scale(tier)) + seq![suffix_char(tier)];
        assert(compact_text(n) =~= body);
        assert(compact_text(-n) =~= seq!['-'] + body);
    }
}

} // verus!
