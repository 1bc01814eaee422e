use soul_lantern::give::json::{fmt_number, normalize_int, percent_to_probability, split_csv, split_csv_str, value_as_text, JsonValue};
use soul_lantern::give::number::{parse_number, Decimal, NumberText};

fn d(m: i64, e: i16) -> Decimal {
    Decimal { mantissa: m, exponent: e }
}

fn finite(t: &str) -> Decimal {
    match parse_number(t) {
        Some(NumberText::Finite(x)) => x,
        other => panic!("{t} did not parse as a finite number: {other:?}"),
    }
}

#[test]
fn fixed_text_rounds_to_ten_decimals_and_trims() {
    assert_eq!(d(6, 0).fixed_text(), "6");
    assert_eq!(d(25, -1).fixed_text(), "2.5");
    assert_eq!(d(2500, -3).fixed_text(), "2.5");
    assert_eq!(d(1, -11).fixed_text(), "0");
    assert_eq!(d(-1, -11).fixed_text(), "-0");
    assert_eq!(d(123456789012345, -14).fixed_text(), "1.2345678901");
    assert_eq!(d(48828125, -11).fixed_text(), "0.0004882812");
    assert_eq!(d(7, 20).fixed_text(), "700000000000000000000");
    assert_eq!(d(-3, 0).fixed_text(), "-3");
}

#[test]
fn plain_text_is_the_full_decimal() {
    assert_eq!(d(15, -1).plain_text(), "1.5");
    assert_eq!(d(-5, -1).plain_text(), "-0.5");
    assert_eq!(d(1, 3).plain_text(), "1000");
    assert_eq!(d(0, -4).plain_text(), "0");
    assert_eq!(d(1, -25).plain_text(), "0.0000000000000000000000001");
}

#[test]
fn parse_number_reads_float_literals() {
    let x = finite("2.50");
    assert_eq!((x.mantissa, x.exponent), (250, -2));
    let x = finite("-1e3");
    assert_eq!((x.mantissa, x.exponent), (-1, 3));
    let x = finite(".5");
    assert_eq!((x.mantissa, x.exponent), (5, -1));
    let x = finite("7.");
    assert_eq!((x.mantissa, x.exponent), (7, 0));
    let x = finite("+0012");
    assert_eq!((x.mantissa, x.exponent), (12, 0));
    let x = finite("1234567890123456789012");
    assert_eq!((x.mantissa, x.exponent), (123456789012345678, 4));
    assert!(matches!(parse_number("inf"), Some(NumberText::Infinite(false))));
    assert!(matches!(parse_number("-Infinity"), Some(NumberText::Infinite(true))));
    assert!(matches!(parse_number("NaN"), Some(NumberText::NotANumber)));
    assert!(matches!(parse_number("1e400"), Some(NumberText::Infinite(false))));
    let x = finite("1e-400");
    assert_eq!(x.mantissa, 0);
    assert!(parse_number("").is_none());
    assert!(parse_number(".").is_none());
    assert!(parse_number("1e").is_none());
    assert!(parse_number("1_000").is_none());
    assert!(parse_number("abc").is_none());
}

#[test]
fn floor_and_percent() {
    assert_eq!(d(29, -1).floor_i64(), 2);
    assert_eq!(d(-29, -1).floor_i64(), -3);
    assert_eq!(d(5, 30).floor_i64(), i64::MAX);
    assert_eq!(d(-5, 30).floor_i64(), i64::MIN);
    assert_eq!(d(50, 0).percent_text(), "0.5");
    assert_eq!(d(-3, 0).percent_text(), "0");
    assert_eq!(d(250, 0).percent_text(), "1");
    assert_eq!(d(333, -1).percent_text(), "0.333");
}

#[test]
fn channel_byte_rounds_half_away_and_keeps_the_low_byte() {
    assert_eq!(d(1, 0).channel_byte(), 255);
    assert_eq!(d(5, -1).channel_byte(), 128);
    assert_eq!(d(0, 0).channel_byte(), 0);
    assert_eq!(d(2, 0).channel_byte(), 254);
    assert_eq!(d(-1, 0).channel_byte(), 1);
}

#[test]
fn json_number_helpers_follow_js_conversions() {
    let s = |t: &str| JsonValue::String(t.to_string());
    assert_eq!(normalize_int(&s(" 7.9 "), 1, 1), 7);
    assert_eq!(normalize_int(&s("nope"), 4, 1), 4);
    assert_eq!(normalize_int(&s(""), 4, 1), 1);
    assert_eq!(normalize_int(&JsonValue::Bool(true), 0, 0), 1);
    assert_eq!(normalize_int(&JsonValue::Array(vec![]), 9, 0), 9);
    assert_eq!(fmt_number(&s("2.50")), "2.5");
    assert_eq!(fmt_number(&s(" oops ")), "oops");
    assert_eq!(percent_to_probability(&s("25")), "0.25");
    assert_eq!(percent_to_probability(&JsonValue::Null), "0");
    assert_eq!(value_as_text(Some(&JsonValue::Number(d(15, -1)))), "1.5");
    assert_eq!(value_as_text(None), "");
}

#[test]
fn csv_splitting_trims_and_drops_empties() {
    assert_eq!(split_csv_str(" a, b ,,c "), vec!["a".to_string(), "b".to_string(), "c".to_string()]);
    assert!(split_csv_str("").is_empty());
    let v = JsonValue::Array(vec![JsonValue::String(" x ".to_string()), JsonValue::Bool(true), JsonValue::String("".to_string())]);
    assert_eq!(split_csv(&v), vec!["x".to_string()]);
    assert_eq!(split_csv(&JsonValue::Number(d(3, 0))), vec!["3".to_string()]);
}

#[test]
fn round_half_away_from_zero_and_saturate() {
    assert_eq!(Decimal { mantissa: 25, exponent: -1 }.round_i64(), 3);
    assert_eq!(Decimal { mantissa: -25, exponent: -1 }.round_i64(), -3);
    assert_eq!(Decimal { mantissa: 24, exponent: -1 }.round_i64(), 2);
    assert_eq!(Decimal { mantissa: 149, exponent: -2 }.round_i64(), 1);
    assert_eq!(Decimal { mantissa: 7, exponent: 2 }.round_i64(), 700);
    assert_eq!(Decimal { mantissa: 1, exponent: 30 }.round_i64(), i64::MAX);
    assert_eq!(Decimal { mantissa: -1, exponent: 30 }.round_i64(), i64::MIN);
    assert_eq!(Decimal { mantissa: 5, exponent: -50 }.round_i64(), 0);
}
