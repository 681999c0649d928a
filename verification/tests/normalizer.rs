use listing_watch::number::{normalize_currency, normalize_distance, parse_decimal, Decimal,
    FieldParseError};

fn value(d: &Decimal) -> f64 {
    let magnitude = d.whole_part().unwrap() as f64
        + d.fraction_part().unwrap() as f64 / 10f64.powi(d.scale() as i32);
    if d.is_negative() {
        -magnitude
    } else {
        magnitude
    }
}

fn chars(s: &str) -> Vec<char> {
    s.chars().collect()
}

#[test]
fn currency_with_symbol_and_separators() {
    let d = normalize_currency("$12,500").unwrap();
    assert!(!d.is_negative());
    assert_eq!(d.whole_part(), Some(12500));
    assert_eq!(d.scale(), 0);
    assert_eq!(value(&d), 12500.0);
}

#[test]
fn currency_call_for_price_fails() {
    assert_eq!(normalize_currency("Call for Price").err(), Some(FieldParseError::NotNumeric));
}

#[test]
fn currency_of_nothing_is_empty() {
    assert_eq!(normalize_currency("").err(), Some(FieldParseError::Empty));
    assert_eq!(normalize_currency("$").err(), Some(FieldParseError::Empty));
    assert_eq!(normalize_currency("$,,").err(), Some(FieldParseError::Empty));
}

#[test]
fn currency_with_cents() {
    let d = normalize_currency("$1,234.50").unwrap();
    assert_eq!(d.whole_part(), Some(1234));
    assert_eq!(d.fraction_part(), Some(50));
    assert_eq!(d.scale(), 2);
    assert_eq!(value(&d), 1234.5);
}

#[test]
fn currency_marks_anywhere_do_not_count() {
    let plain = normalize_currency("15000").unwrap();
    let marked = normalize_currency("1$5,0,00$").unwrap();
    assert_eq!(plain.whole_part(), marked.whole_part());
    assert_eq!(plain.scale(), marked.scale());
}

#[test]
fn currency_is_not_trimmed() {
    assert_eq!(normalize_currency(" $15,000").err(), Some(FieldParseError::NotNumeric));
    assert_eq!(normalize_currency("$15,000 ").err(), Some(FieldParseError::NotNumeric));
}

#[test]
fn distance_with_separator_and_unit() {
    let d = normalize_distance("85,000 km").unwrap();
    assert_eq!(d.whole_part(), Some(85000));
    assert_eq!(d.scale(), 0);
    assert_eq!(value(&d), 85000.0);
}

#[test]
fn distance_shapes() {
    assert_eq!(normalize_distance("120000").unwrap().whole_part(), Some(120000));
    assert_eq!(normalize_distance("  170,000km  ").unwrap().whole_part(), Some(170000));
    assert_eq!(normalize_distance("42 Miles").unwrap().whole_part(), Some(42));
    let d = normalize_distance("12.5 km").unwrap();
    assert_eq!(value(&d), 12.5);
}

#[test]
fn distance_failures() {
    assert_eq!(normalize_distance("km").err(), Some(FieldParseError::Empty));
    assert_eq!(normalize_distance("").err(), Some(FieldParseError::Empty));
    assert_eq!(normalize_distance("   ").err(), Some(FieldParseError::Empty));
    assert_eq!(normalize_distance("about 5 km").err(), Some(FieldParseError::NotNumeric));
    assert_eq!(normalize_distance("85 000 km").err(), Some(FieldParseError::NotNumeric));
    assert_eq!(normalize_distance("85,000 km.").err(), Some(FieldParseError::NotNumeric));
}

#[test]
fn decimal_grammar() {
    assert!(parse_decimal(&chars("0")).is_ok());
    assert!(parse_decimal(&chars("5.")).is_ok());
    assert!(parse_decimal(&chars(".5")).is_ok());
    assert!(parse_decimal(&chars("+5")).is_ok());
    assert!(parse_decimal(&chars("-5.25")).is_ok());
    assert_eq!(parse_decimal(&chars(".")).err(), Some(FieldParseError::NotNumeric));
    assert_eq!(parse_decimal(&chars("-")).err(), Some(FieldParseError::NotNumeric));
    assert_eq!(parse_decimal(&chars("+")).err(), Some(FieldParseError::NotNumeric));
    assert_eq!(parse_decimal(&chars("1.2.3")).err(), Some(FieldParseError::NotNumeric));
    assert_eq!(parse_decimal(&chars("1e3")).err(), Some(FieldParseError::NotNumeric));
    assert_eq!(parse_decimal(&chars("--1")).err(), Some(FieldParseError::NotNumeric));
    assert_eq!(parse_decimal(&chars("1-")).err(), Some(FieldParseError::NotNumeric));
    assert_eq!(parse_decimal(&chars("inf")).err(), Some(FieldParseError::NotNumeric));
    assert_eq!(parse_decimal(&chars("")).err(), Some(FieldParseError::Empty));
}

#[test]
fn decimal_parts() {
    let d = parse_decimal(&chars("-5.25")).unwrap();
    assert!(d.is_negative());
    assert_eq!(d.whole_part(), Some(5));
    assert_eq!(d.fraction_part(), Some(25));
    assert_eq!(d.scale(), 2);
    assert_eq!(value(&d), -5.25);
    assert!(!parse_decimal(&chars("-0.00")).unwrap().is_negative());
    assert!(parse_decimal(&chars("-0.01")).unwrap().is_negative());
    assert!(!parse_decimal(&chars("+3")).unwrap().is_negative());
    let z = parse_decimal(&chars("007.0")).unwrap();
    assert_eq!(z.whole_part(), Some(7));
    assert_eq!(z.fraction_part(), Some(0));
    assert_eq!(z.scale(), 1);
}

#[test]
fn decimal_is_below() {
    let d = parse_decimal(&chars("19999.99")).unwrap();
    assert!(d.is_below(20000));
    assert!(!d.is_below(19999));
    let e = parse_decimal(&chars("20000")).unwrap();
    assert!(!e.is_below(20000));
    assert!(e.is_below(20001));
    let f = parse_decimal(&chars("20000.000")).unwrap();
    assert!(!f.is_below(20000));
    let n = parse_decimal(&chars("-1")).unwrap();
    assert!(n.is_below(0));
    let nz = parse_decimal(&chars("-0.0")).unwrap();
    assert!(!nz.is_below(0));
    assert!(nz.is_below(1));
    let z = parse_decimal(&chars("0")).unwrap();
    assert!(!z.is_below(0));
}

#[test]
fn decimal_beyond_machine_integers() {
    let big = parse_decimal(&chars("123456789012345678901234567890")).unwrap();
    assert_eq!(big.whole_part(), None);
    assert!(!big.is_below(u64::MAX));
    let edge = parse_decimal(&chars("18446744073709551615")).unwrap();
    assert_eq!(edge.whole_part(), Some(u64::MAX));
    assert!(!edge.is_below(u64::MAX));
    let over = parse_decimal(&chars("18446744073709551616")).unwrap();
    assert_eq!(over.whole_part(), None);
    let negative = parse_decimal(&chars("-123456789012345678901234567890")).unwrap();
    assert!(negative.is_below(0));
    let fine = parse_decimal(&chars("1.000000000000000000000000000001")).unwrap();
    assert_eq!(fine.whole_part(), Some(1));
    assert_eq!(fine.fraction_part(), Some(1));
    assert_eq!(fine.scale(), 30);
    assert!(fine.is_below(2));
    assert!(!fine.is_below(1));
}
