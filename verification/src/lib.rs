//! Compact, human-readable rendering of signed integers, in the manner of
//! follower counts: `15000` reads `15k`, `23520123` reads `23.5M`.
//!
//! A magnitude below a thousand is written in full. A larger one is scaled to
//! the thousands, millions, billions or trillions, whichever leaves a
//! mantissa below a thousand, and written with at most one decimal digit in
//! front of the letter `k`, `M`, `B` or `T`. Magnitudes of a quadrillion and
//! more have no letter and are refused.
//!
//! All arithmetic is exact integer arithmetic, with no rounding before the
//! last step. The mantissa is the true quotient of the magnitude by the
//! scale of its tier. It shows a tenth when it is below a hundred and its
//! fractional part is a tenth or more, so `5100` reads `5.1k` and `5099`
//! reads `5k`; and it is rounded half away from zero, so `100500` reads
//! `101k`. Rounding does not change the tier: `999500` reads `1000k`.
//!
//! Every function carries a contract over [`text::compact_text`], the
//! mathematical definition of the result, and [`laws`] holds what is proved
//! of that definition.

pub mod decimal;
pub mod laws;
pub mod text;
pub mod tier;

use vstd::prelude::*;
use crate::decimal::{decimal, decimal_string, magnitude, magnitude_of};
use crate::laws::lemma_small_is_decimal;
use crate::text::{compact_text, in_range, push_mantissa};
use crate::tier::{lemma_scale_values, select_tier, suffix_text};

verus! {

/// The one way formatting fails: the magnitude of the number is a
/// quadrillion or more, beyond the last tier.
#[derive(Clone, Copy, Debug, PartialEq, Eq)]
pub struct MagnitudeOverflow {
    /// The number that was refused.
    pub value: i64,
}

impl MagnitudeOverflow {
    /// A sentence that names the refused number.
    pub fn message(&self) -> (text: String)
        ensures
            text@ == "Number "@ + decimal(self.value as int)
                + " is larger than 1 quadrillion!"@,
    {
        let mut text = String::from_str("Number ");
        text.append(decimal_string(self.value).as_str());
        text.append(" is larger than 1 quadrillion!");
        text
    }
}

/// A number that can be written compactly.
pub trait PrettyNumber: Sized {
    /// The integer that `self` stands for.
    spec fn number(self) -> int;

    /// Writes the number compactly: in full below a thousand, else as a
    /// mantissa with no more than one decimal digit and the letter of its
    /// tier. The magnitude must be below one quadrillion; [`format_compact`]
    /// is the function that tests that.
    fn pretty_format(self) -> (text: String)
        requires
            in_range(self.number()),
        ensures
            text@ == compact_text(self.number()),
            magnitude(self.number()) < 1000 ==> text@ == decimal(self.number()),
    ;
}

impl PrettyNumber for i64 {
    open spec fn number(self) -> int {
        self as int
    }

    fn pretty_format(self) -> (text: String) {
        format_compact(self).unwrap()
    }
}

/// Writes `value` compactly, or refuses it when its magnitude is a
/// quadrillion or more.
pub fn format_compact(value: i64) -> (result: Result<String, MagnitudeOverflow>)
    ensures
        match result {
            Ok(text) => in_range(value as int) && text@ == compact_text(value as int),
            Err(refused) => !in_range(value as int) && refused.value == value,
        },
        magnitude(value as int) < 1000 ==> (result matches Ok(text) && text@ == decimal(
            value as int,
        )),
{
    if -1000 < value && value < 1000 {
        proof {
            lemma_small_is_decimal(value as int);
        }
        return Ok(decimal_string(value));
    }
    let magnitude = magnitude_of(value);
    match select_tier(magnitude) {
        Some((tier, unit)) => {
            let mut text = String::new();
            if value < 0 {
                text.append("-");
            }
            proof {
                lemma_scale_values();
            }
            push_mantissa(&mut text, magnitude, unit);
            text.append(suffix_text(tier));
            proof {
                reveal_strlit("-");
                assert(text@ =~= compact_text(value as int));
            }
            Ok(text)
        },
        None => Err(MagnitudeOverflow { value }),
    }
}

} // verus!
