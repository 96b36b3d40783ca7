use pretty_num::tier::LIMIT;
use pretty_num::{format_compact, PrettyNumber};

/// Magnitudes spread over every tier: the tier's ends, the points where the
/// precision changes, and a pseudo-random walk in between.
fn samples() -> Vec<i64> {
    let mut out: Vec<i64> = Vec::new();
    let mut unit: i64 = 1;
    while unit < LIMIT {
        for k in [1i64, 2, 5, 9, 10, 11, 50, 99, 100, 101, 500, 999] {
            for d in [-1i64, 0, 1] {
                let n = k * unit + d;
                if n >= 0 && n < LIMIT {
                    out.push(n);
                }
                let m = k * unit + unit / 10 + d;
                if m >= 0 && m < LIMIT {
                    out.push(m);
                }
                let h = k * unit + unit / 2 + d;
                if h >= 0 && h < LIMIT {
                    out.push(h);
                }
                let t = k * unit + unit / 20 + d;
                if t >= 0 && t < LIMIT {
                    out.push(t);
                }
            }
        }
        unit *= 10;
    }
    let mut state: u64 = 0x2545_F491_4F6C_DD1D;
    for i in 0..20_000u32 {
        state ^= state << 13;
        state ^= state >> 7;
        state ^= state << 17;
        let digits = 1 + (i % 15);
        let bound = 10u64.pow(digits);
        out.push((state % bound) as i64);
    }
    out.push(LIMIT - 1);
    out
}

fn unit_of(letter: char) -> i128 {
    match letter {
        'k' => 1_000,
        'M' => 1_000_000,
        'B' => 1_000_000_000,
        'T' => 1_000_000_000_000,
        other => panic!("not a suffix: {}", other),
    }
}

/// Splits a text with a letter into sign, digits before the point, the digit
/// after it if there is one, and the letter.
fn parts(text: &str) -> (bool, String, Option<char>, char) {
    let mut chars: Vec<char> = text.chars().collect();
    let letter = chars.pop().unwrap();
    let negative = chars.first() == Some(&'-');
    if negative {
        chars.remove(0);
    }
    let tenth = if chars.len() >= 2 && chars[chars.len() - 2] == '.' {
        let digit = chars.pop();
        chars.pop();
        digit
    } else {
        None
    };
    (negative, chars.into_iter().collect(), tenth, letter)
}

#[test]
fn below_a_thousand_equals_the_decimal_string() {
    for n in -999..1_000i64 {
        assert_eq!(format_compact(n), Ok(n.to_string()));
        assert_eq!(n.pretty_format(), n.to_string());
    }
}

#[test]
fn text_with_a_letter_has_the_compact_form() {
    for n in samples() {
        if n < 1_000 {
            continue;
        }
        for value in [n, -n] {
            let text = format_compact(value).unwrap();
            let (negative, whole, tenth, letter) = parts(&text);
            assert_eq!(negative, value < 0, "{}", text);
            assert!("kMBT".contains(letter), "{}", text);
            assert!(!whole.is_empty() && whole.chars().all(|c| c.is_ascii_digit()), "{}", text);
            if let Some(digit) = tenth {
                assert!(digit.is_ascii_digit(), "{}", text);
            }
            let unit = unit_of(letter) as i64;
            let carried = 2 * n + unit >= 2_000 * unit;
            if carried {
                assert_eq!(whole, "1000", "{}", text);
                assert_eq!(tenth, None, "{}", text);
            } else {
                assert!(whole.len() <= 3, "{}", text);
            }
        }
    }
}

#[test]
fn text_with_a_letter_is_within_tolerance() {
    for n in samples() {
        if n < 1_000 {
            continue;
        }
        let text = format_compact(n).unwrap();
        let (_, whole, tenth, letter) = parts(&text);
        let unit = unit_of(letter);
        let whole: i128 = whole.parse().unwrap();
        match tenth {
            Some(digit) => {
                let tenths = 10 * whole + (digit as i128 - '0' as i128);
                let error = tenths * unit - 10 * n as i128;
                assert!(-unit <= 2 * error && 2 * error <= unit, "{} for {}", text, n);
            }
            None => {
                let error = whole * unit - n as i128;
                assert!(-unit <= 2 * error && 2 * error <= unit, "{} for {}", text, n);
            }
        }
    }
}

#[test]
fn letter_is_that_of_the_magnitude() {
    for n in samples() {
        if n < 1_000 {
            continue;
        }
        let text = format_compact(n).unwrap();
        let letter = text.chars().last().unwrap();
        let unit = unit_of(letter);
        assert!(unit <= n as i128 && (n as i128) < 1_000 * unit, "{} for {}", text, n);
    }
}

#[test]
fn negative_is_minus_in_front_of_positive() {
    for n in samples() {
        if n == 0 {
            continue;
        }
        let positive = format_compact(n).unwrap();
        let negative = format_compact(-n).unwrap();
        assert_eq!(negative, format!("-{}", positive));
        assert_eq!((-n).pretty_format(), format!("-{}", n.pretty_format()));
    }
}

#[test]
fn in_range_exactly_below_a_quadrillion() {
    for n in samples() {
        assert!(format_compact(n).is_ok());
        assert!(format_compact(-n).is_ok());
        if let Some(beyond) = n.checked_add(LIMIT) {
            assert!(format_compact(beyond).is_err());
            assert!(format_compact(-beyond).is_err());
        }
    }
}

#[test]
fn trait_and_function_agree() {
    for n in samples() {
        assert_eq!(Ok(n.pretty_format()), format_compact(n));
        assert_eq!(Ok((-n).pretty_format()), format_compact(-n));
    }
}
