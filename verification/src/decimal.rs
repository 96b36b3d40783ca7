//! Decimal numerals: the text of an integer in base ten.

use vstd::prelude::*;

verus! {

/// The character that writes the digit `d`, for `0 <= d <= 9`.
pub open spec fn digit_char(d: int) -> char {
    ('0' as int + d) as char
}

/// The numeral of a natural number: its base-ten digits, most significant
/// first, without leading zeros (`0` itself is written `"0"`).
pub open spec fn decimal_digits(n: nat) -> Seq<char>
    decreases n,
{
    if n < 10 {
        seq![digit_char(n as int)]
    } else {
        decimal_digits(n / 10).push(digit_char((n % 10) as int))
    }
}

/// The absolute value of `n`.
pub open spec fn magnitude(n: int) -> int {
    if n < 0 {
        -n
    } else {
        n
    }
}

/// The numeral of an integer: the numeral of its magnitude, after a minus
/// sign when it is negative.
pub open spec fn decimal(n: int) -> Seq<char> {
    if n < 0 {
        seq!['-'] + decimal_digits(magnitude(n) as nat)
    } else {
        decimal_digits(magnitude(n) as nat)
    }
}

/// Whether `c` is one of the ten digits.
pub open spec fn is_digit(c: char) -> bool {
    '0' <= c <= '9'
}

/// Whether `s` holds digits only.
pub open spec fn all_digits(s: Seq<char>) -> bool {
    forall|i: int| 0 <= i < s.len() ==> is_digit(#[trigger] s[i])
}

/// The digit that `c` writes.
pub open spec fn digit_value(c: char) -> int {
    c as int - '0' as int
}

/// The natural number that a sequence of digits writes, read in base ten.
pub open spec fn numeral_value(s: Seq<char>) -> int
    decreases s.len(),
{
    if s.len() == 0 {
        0
    } else {
        10 * numeral_value(s.drop_last()) + digit_value(s.last())
    }
}

/// The integer that a numeral with an optional minus sign writes.
pub open spec fn decimal_value(s: Seq<char>) -> int {
    if s.len() > 0 && s[0] == '-' {
        -numeral_value(s.skip(1))
    } else {
        numeral_value(s)
    }
}

/// The number of digits in the numeral of `n`.
pub open spec fn digit_count(n: nat) -> nat
    decreases n,
{
    if n < 10 {
        1
    } else {
        1 + digit_count(n / 10)
    }
}

/// The numeral of a natural number is made of digits, as many as the number
/// has; it starts with a zero only for zero itself; and read back in base
/// ten it gives the number.
pub proof fn lemma_decimal_digits(n: nat)
    ensures
        decimal_digits(n).len() == digit_count(n),
        all_digits(decimal_digits(n)),
        decimal_digits(n)[0] == '0' <==> n == 0,
        numeral_value(decimal_digits(n)) == n,
    decreases n,
{
    let s = decimal_digits(n);
    if n < 10 {
        assert(s.drop_last() =~= Seq::<char>::empty());
        assert(numeral_value(s) == 10 * numeral_value(s.drop_last()) + digit_value(s.last()));
    } else {
        lemma_decimal_digits(n / 10);
        assert(s.drop_last() =~= decimal_digits(n / 10));
    }
}

/// The numeral of an integer, read back with its sign, gives the integer.
pub proof fn lemma_decimal_value(n: int)
    ensures
        decimal_value(decimal(n)) == n,
{
    lemma_decimal_digits(magnitude(n) as nat);
    if n < 0 {
        assert(decimal(n).skip(1) =~= decimal_digits(magnitude(n) as nat));
    }
}

/// Numerals of one, two and three digits are those of the numbers below
/// ten, a hundred and a thousand.
pub proof fn lemma_digit_count(n: nat)
    ensures
        n < 10 <==> digit_count(n) == 1,
        10 <= n < 100 <==> digit_count(n) == 2,
        100 <= n < 1000 <==> digit_count(n) == 3,
{
    reveal_with_fuel(digit_count, 4);
}

/// The one-character text of a single digit.
fn digit_text(d: u64) -> (text: &'static str)
    requires
        d < 10,
    ensures
        text@ == seq![digit_char(d as int)],
{
    let digits = "0123456789";
    proof {
        reveal_strlit("0123456789");
    }
    let at = d as usize;
    let text = digits.substring_ascii(at, at + 1);
    assert(text@ =~= seq![digit_char(d as int)]);
    text
}

/// Appends the digit `d` to `text`.
pub fn push_digit(text: &mut String, d: u64)
    requires
        d < 10,
    ensures
        final(text)@ == old(text)@.push(digit_char(d as int)),
{
    text.append(digit_text(d));
    assert(text@ =~= old(text)@.push(digit_char(d as int)));
}

/// Appends the numeral of the natural number `n` to `text`.
pub fn push_decimal(text: &mut String, n: u64)
    ensures
        final(text)@ == old(text)@ + decimal_digits(n as nat),
    decreases n,
{
    if n >= 10 {
        push_decimal(text, n / 10);
    }
    push_digit(text, n % 10);
    assert(text@ =~= old(text)@ + decimal_digits(n as nat));
}

/// The magnitude of `n`, which fits a `u64` for every `n`.
pub fn magnitude_of(n: i64) -> (m: u64)
    ensures
        m == magnitude(n as int),
{
    if n < 0 {
        // The magnitude of the least `i64` does not fit an `i64`.
        (-(n + 1)) as u64 + 1
    } else {
        n as u64
    }
}

/// The numeral of `n` as a string, for every `n` that an `i64` holds.
pub fn decimal_string(n: i64) -> (text: String)
    ensures
        text@ == decimal(n as int),
{
    let mut text = String::new();
    if n < 0 {
        text.append("-");
    }
    push_decimal(&mut text, magnitude_of(n));
    proof {
        reveal_strlit("-");
        assert(text@ =~= decimal(n as int));
    }
    text
}

} // verus!
