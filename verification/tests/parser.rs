use serial_monitor::numeric::parse_field;
use serial_monitor::serial_parser::{ParseError, SerialParser};

#[test]
fn parses_plain_integers() {
    assert_eq!(parse_field(b"1"), Some(1000));
    assert_eq!(parse_field(b"42"), Some(42000));
    assert_eq!(parse_field(b"0"), Some(0));
}

#[test]
fn parses_signed_numbers() {
    assert_eq!(parse_field(b"+1"), Some(1000));
    assert_eq!(parse_field(b"-3.125"), Some(-3125));
    assert_eq!(parse_field(b"-0"), Some(0));
}

#[test]
fn parses_fractions_scaled_by_thousand() {
    assert_eq!(parse_field(b"2.5"), Some(2500));
    assert_eq!(parse_field(b"0.001"), Some(1));
    assert_eq!(parse_field(b".5"), Some(500));
    assert_eq!(parse_field(b"1."), Some(1000));
}

#[test]
fn truncates_beyond_third_fraction_digit() {
    assert_eq!(parse_field(b"1.2345"), Some(1234));
    assert_eq!(parse_field(b"0.9999"), Some(999));
}

#[test]
fn rejects_non_numeric_fields() {
    assert_eq!(parse_field(b""), None);
    assert_eq!(parse_field(b"."), None);
    assert_eq!(parse_field(b"+"), None);
    assert_eq!(parse_field(b"bad"), None);
    assert_eq!(parse_field(b"1.2.3"), None);
    assert_eq!(parse_field(b"1e3"), None);
    assert_eq!(parse_field(b"12 3"), None);
    assert_eq!(parse_field(b"temp: 21.5"), None);
}

#[test]
fn clamps_huge_magnitudes() {
    let mut digits = Vec::new();
    for _ in 0..40 {
        digits.push(b'9');
    }
    assert_eq!(parse_field(&digits), Some(i64::MAX));
    let mut neg = vec![b'-'];
    neg.extend_from_slice(&digits);
    assert_eq!(parse_field(&neg), Some(i64::MIN));
}

#[test]
fn schema_inferred_from_first_line() {
    let mut p = SerialParser::new();
    assert_eq!(p.columns(), 0);
    let vals = p.parse_values(b"1.0, 2.0").unwrap();
    assert_eq!(vals, vec![1000, 2000]);
    assert_eq!(p.columns(), 2);
}

#[test]
fn mismatch_keeps_schema_and_reports_counts() {
    let mut p = SerialParser::new();
    p.parse_values(b"1.0, 2.0").unwrap();
    let err = p.parse_values(b"2.0, bad").unwrap_err();
    assert_eq!(err, ParseError::ColumnMismatch(2, 1));
    assert_eq!(p.columns(), 2);
    // a following conforming line still parses
    let vals = p.parse_values(b"3.0, 4.0").unwrap();
    assert_eq!(vals, vec![3000, 4000]);
    assert_eq!(p.columns(), 2);
}

#[test]
fn non_numeric_fields_are_skipped() {
    let mut p = SerialParser::new();
    let vals = p.parse_values(b"temp: 21.5, 3, V").unwrap();
    assert_eq!(vals, vec![3000]);
    assert_eq!(p.columns(), 1);
}

#[test]
fn empty_line_adopts_zero_schema() {
    let mut p = SerialParser::new();
    let vals = p.parse_values(b"").unwrap();
    assert!(vals.is_empty());
    assert_eq!(p.columns(), 0);
    // zero counts as unestablished: the next line re-infers
    let vals = p.parse_values(b"1,2,3").unwrap();
    assert_eq!(vals, vec![1000, 2000, 3000]);
    assert_eq!(p.columns(), 3);
}

#[test]
fn reset_forgets_the_schema() {
    let mut p = SerialParser::new();
    p.parse_values(b"1,2").unwrap();
    assert_eq!(p.columns(), 2);
    p.reset();
    assert_eq!(p.columns(), 0);
    let vals = p.parse_values(b"7").unwrap();
    assert_eq!(vals, vec![7000]);
    assert_eq!(p.columns(), 1);
}

#[test]
fn fields_are_trimmed_before_parsing() {
    let mut p = SerialParser::new();
    let vals = p.parse_values(b"  1.5 ,\t2 ").unwrap();
    assert_eq!(vals, vec![1500, 2000]);
}

#[test]
fn one_unit_is_the_fixed_point_scale() {
    assert_eq!(
        parse_field(b"1"),
        Some(serial_monitor::VALUE_SCALE as i64)
    );
}
