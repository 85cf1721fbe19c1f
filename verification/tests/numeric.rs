use phoxi_interface::fixed::{Fix, SCALE};
use phoxi_interface::numfmt::{fix_to_string, i64_to_string, u64_to_string};
use phoxi_interface::numparse::parse_float;

#[test]
fn parse_simple_decimal() {
    assert_eq!(parse_float(b"1.0"), Some(Fix { units: SCALE }));
}

#[test]
fn parse_negative_decimal() {
    assert_eq!(parse_float(b"-3.25"), Some(Fix { units: -3_250_000_000_000 }));
}

#[test]
fn parse_plus_sign() {
    assert_eq!(parse_float(b"+2.5"), Some(Fix { units: 2_500_000_000_000 }));
}

#[test]
fn parse_leading_dot() {
    assert_eq!(parse_float(b".5"), Some(Fix { units: 500_000_000_000 }));
}

#[test]
fn parse_trailing_dot() {
    assert_eq!(parse_float(b"5."), Some(Fix { units: 5 * SCALE }));
}

#[test]
fn parse_rejects_integer_token() {
    assert_eq!(parse_float(b"10"), None);
}

#[test]
fn parse_rejects_word() {
    assert_eq!(parse_float(b"RESULT"), None);
    assert_eq!(parse_float(b"nan"), None);
    assert_eq!(parse_float(b""), None);
    assert_eq!(parse_float(b"."), None);
    assert_eq!(parse_float(b"-"), None);
}

#[test]
fn parse_rejects_two_dots() {
    assert_eq!(parse_float(b"1.0.0"), None);
}

#[test]
fn parse_rejects_out_of_range() {
    assert_eq!(parse_float(b"99999999999999.0"), None);
}

#[test]
fn parse_truncates_excess_fraction() {
    // the thirteenth fractional digit and beyond are truncated toward zero
    assert_eq!(parse_float(b"1.0000000000009"), Some(Fix { units: SCALE }));
}

#[test]
fn format_whole_numbers() {
    assert_eq!(u64_to_string(0), "0");
    assert_eq!(u64_to_string(1234567), "1234567");
    assert_eq!(i64_to_string(-42), "-42");
    assert_eq!(i64_to_string(7000), "7000");
}

#[test]
fn format_fixed_values() {
    assert_eq!(fix_to_string(Fix { units: 15 * SCALE }), "15");
    assert_eq!(fix_to_string(Fix { units: 10_240_000_000_000 }), "10.24");
    assert_eq!(fix_to_string(Fix { units: 32_000_000_000 }), "0.032");
    assert_eq!(fix_to_string(Fix { units: -2_500_000_000_000 }), "-2.5");
    assert_eq!(fix_to_string(Fix { units: 0 }), "0");
}

#[test]
fn format_round_trips_parse() {
    for units in [0i64, SCALE, -SCALE, 10_240_000_000_000, 32_000_000_000, 123] {
        let text = fix_to_string(Fix { units });
        let token = if text.contains('.') { text.clone() } else { format!("{}.0", text) };
        assert_eq!(parse_float(token.as_bytes()), Some(Fix { units }));
    }
}
