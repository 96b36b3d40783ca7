use pretty_num::{format_compact, MagnitudeOverflow, PrettyNumber};

#[test]
fn small_number_is_written_in_full() {
    assert_eq!(format_compact(534), Ok(String::from("534")));
    assert_eq!(534i64.pretty_format(), "534");
}

#[test]
fn whole_thousands_have_no_decimal() {
    assert_eq!(format_compact(15_000), Ok(String::from("15k")));
    assert_eq!(15_000i64.pretty_format(), "15k");
}

#[test]
fn millions_with_one_decimal() {
    assert_eq!(format_compact(4_230_542), Ok(String::from("4.2M")));
    assert_eq!(4_230_542i64.pretty_format(), "4.2M");
}

#[test]
fn small_fraction_is_dropped() {
    assert_eq!(format_compact(5_031), Ok(String::from("5k")));
    assert_eq!(5_031i64.pretty_format(), "5k");
}

#[test]
fn negative_millions() {
    assert_eq!(format_compact(-25_621_783), Ok(String::from("-25.6M")));
    assert_eq!((-25_621_783i64).pretty_format(), "-25.6M");
}

#[test]
fn trillions() {
    assert_eq!(format_compact(36_777_121_590_100), Ok(String::from("36.8T")));
    assert_eq!(36_777_121_590_100i64.pretty_format(), "36.8T");
}

#[test]
fn quadrillion_is_refused() {
    assert_eq!(
        format_compact(1_000_000_000_000_000),
        Err(MagnitudeOverflow { value: 1_000_000_000_000_000 })
    );
}

#[test]
fn negative_quadrillion_is_refused() {
    assert_eq!(
        format_compact(-1_000_000_000_000_000),
        Err(MagnitudeOverflow { value: -1_000_000_000_000_000 })
    );
}

#[test]
fn plain_literals_are_formatted() {
    assert_eq!(23_520_123.pretty_format(), String::from("23.5M"));
    assert_eq!(534.pretty_format(), String::from("534"));
    assert_eq!(15_000.pretty_format(), String::from("15k"));
    assert_eq!(4_230_542.pretty_format(), String::from("4.2M"));
    assert_eq!(5_031.pretty_format(), String::from("5k"));
    assert_eq!((-25_621_783).pretty_format(), String::from("-25.6M"));
    assert_eq!(36_777_121_590_100i64.pretty_format(), String::from("36.8T"));
}

#[test]
fn narrower_integers_are_widened_by_the_caller() {
    let small: i32 = -25_621_783;
    assert_eq!(i64::from(small).pretty_format(), "-25.6M");
    let byte: u8 = 200;
    assert_eq!(format_compact(i64::from(byte)), Ok(String::from("200")));
    let wide: u32 = 4_000_000_000;
    assert_eq!(format_compact(i64::from(wide)), Ok(String::from("4B")));
}
