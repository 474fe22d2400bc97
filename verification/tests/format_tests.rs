use num_format::{Locale, WriteFormatted};
use stock_report::numfmt::{format_price, format_volume};

#[test]
fn price_pads_to_two_decimals() {
    assert_eq!(format_price("12.3").unwrap(), "12.30");
}

#[test]
fn price_rounds_half_away_from_zero() {
    assert_eq!(format_price("12.345").unwrap(), "12.35");
    assert_eq!(format_price("12.344").unwrap(), "12.34");
    assert_eq!(format_price("12.3449").unwrap(), "12.34");
    assert_eq!(format_price("-12.345").unwrap(), "-12.35");
}

#[test]
fn price_carries_into_integer_digits() {
    assert_eq!(format_price("9.995").unwrap(), "10.00");
    assert_eq!(format_price("0.999").unwrap(), "1.00");
}

#[test]
fn price_integer_input() {
    assert_eq!(format_price("10").unwrap(), "10.00");
    assert_eq!(format_price("0").unwrap(), "0.00");
    assert_eq!(format_price("-3").unwrap(), "-3.00");
}

#[test]
fn price_reads_exponent_forms() {
    assert_eq!(format_price("1e3").unwrap(), "1000.00");
    assert_eq!(format_price("1.5e3").unwrap(), "1500.00");
    assert_eq!(format_price("2.5E2").unwrap(), "250.00");
    assert_eq!(format_price("1e20").unwrap(), "100000000000000000000.00");
    assert_eq!(format_price("1.5e-7").unwrap(), "0.00");
    assert_eq!(format_price("5e-3").unwrap(), "0.01");
    assert_eq!(format_price("-5e-3").unwrap(), "-0.01");
    assert_eq!(format_price("4.9e-3").unwrap(), "0.00");
    assert_eq!(format_price("123e-1").unwrap(), "12.30");
    assert_eq!(format_price("1e-300").unwrap(), "0.00");
}

#[test]
fn price_rejects_malformed_numerals() {
    assert_eq!(format_price(""), None);
    assert_eq!(format_price("abc"), None);
    assert_eq!(format_price("12."), None);
    assert_eq!(format_price(".5"), None);
    assert_eq!(format_price("12.3.4"), None);
    assert_eq!(format_price("1e"), None);
    assert_eq!(format_price("1e+"), None);
    assert_eq!(format_price("1e2.5"), None);
    assert_eq!(format_price("1e1000"), None);
}

#[test]
fn volume_groups_in_threes() {
    assert_eq!(format_volume("1234567", ',').unwrap(), "1,234,567");
    assert_eq!(format_volume("1000", ',').unwrap(), "1,000");
    assert_eq!(format_volume("999", ',').unwrap(), "999");
    assert_eq!(format_volume("0", ',').unwrap(), "0");
}

#[test]
fn volume_grouping_matches_the_comma_locale() {
    let ours = format_volume("1234567", ',').unwrap();
    let mut theirs = String::new();
    theirs.write_formatted(&1234567i64, &Locale::zh).unwrap();
    assert_eq!(ours, theirs);
}

#[test]
fn volume_handles_negatives() {
    assert_eq!(format_volume("-1234", ',').unwrap(), "-1,234");
}

#[test]
fn volume_separator_is_a_parameter() {
    assert_eq!(format_volume("1234567", '.').unwrap(), "1.234.567");
}

#[test]
fn volume_rejects_non_integers() {
    assert_eq!(format_volume("12.5", ','), None);
    assert_eq!(format_volume("", ','), None);
    assert_eq!(format_volume("99999999999999999999", ','), None);
}
