use decnum::{Decimal, DecimalErrorKind, ParseDecimalError};

fn units(u: i128) -> Decimal {
    Decimal::from_units(u).unwrap()
}

fn err_empty() -> ParseDecimalError {
    ParseDecimalError { kind: DecimalErrorKind::Empty }
}

fn err_invalid() -> ParseDecimalError {
    ParseDecimalError { kind: DecimalErrorKind::Invalid }
}

#[test]
fn empty_and_whitespace_inputs() {
    assert_eq!(Decimal::from_str_radix("", 10), Err(err_empty()));
    assert_eq!(Decimal::from_str_radix("   \t\r\n", 10), Err(err_empty()));
    assert_eq!(Decimal::from_str_radix("", 2), Err(err_empty()));
}

#[test]
fn invalid_inputs() {
    assert_eq!(Decimal::from_str_radix("12x", 10), Err(err_invalid()));
    assert_eq!(Decimal::from_str_radix(" 42", 10), Err(err_invalid()));
    assert_eq!(Decimal::from_str_radix("+", 10), Err(err_invalid()));
    assert_eq!(Decimal::from_str_radix(".", 10), Err(err_invalid()));
    assert_eq!(Decimal::from_str_radix("e5", 10), Err(err_invalid()));
    assert_eq!(Decimal::from_str_radix("1e", 10), Err(err_invalid()));
    assert_eq!(Decimal::from_str_radix("1e+", 10), Err(err_invalid()));
    assert_eq!(Decimal::from_str_radix("1.2.3", 10), Err(err_invalid()));
    assert_eq!(Decimal::from_str_radix("--1", 10), Err(err_invalid()));
}

#[test]
fn only_radix_ten_is_supported() {
    assert_eq!(Decimal::from_str_radix("42", 16), Err(err_invalid()));
    assert_eq!(Decimal::from_str_radix("101", 2), Err(err_invalid()));
}

#[test]
fn whole_numbers() {
    assert_eq!(Decimal::from_str_radix("42", 10), Ok(Decimal::from_i64(42).unwrap()));
    assert_eq!(Decimal::from_str_radix("+7", 10), Ok(Decimal::from_i64(7).unwrap()));
    assert_eq!(Decimal::from_str_radix("-0", 10), Ok(Decimal::zero()));
    assert_eq!(Decimal::from_str_radix("0007", 10), Ok(Decimal::from_i64(7).unwrap()));
}

#[test]
fn fractions() {
    assert_eq!(Decimal::from_str_radix("-7.5", 10), Ok(units(-7_500_000)));
    assert_eq!(Decimal::from_str_radix("+3.14", 10), Ok(units(3_140_000)));
    assert_eq!(Decimal::from_str_radix(".5", 10), Ok(units(500_000)));
    assert_eq!(Decimal::from_str_radix("5.", 10), Ok(units(5_000_000)));
    assert_eq!(Decimal::from_str_radix("0.000001", 10), Ok(Decimal::default_epsilon()));
}

#[test]
fn truncation_is_toward_zero() {
    assert_eq!(Decimal::from_str_radix("1.2345678", 10), Ok(units(1_234_567)));
    assert_eq!(Decimal::from_str_radix("-1.2345678", 10), Ok(units(-1_234_567)));
    assert_eq!(Decimal::from_str_radix("1e-7", 10), Ok(Decimal::zero()));
    assert_eq!(Decimal::from_str_radix("-0.0000001", 10), Ok(Decimal::zero()));
}

#[test]
fn exponents() {
    assert_eq!(Decimal::from_str_radix("2.5e3", 10), Ok(units(2_500_000_000)));
    assert_eq!(Decimal::from_str_radix("25E-1", 10), Ok(units(2_500_000)));
    assert_eq!(Decimal::from_str_radix("5.e1", 10), Ok(units(50_000_000)));
    assert_eq!(Decimal::from_str_radix("0e9999", 10), Ok(Decimal::zero()));
}

#[test]
fn out_of_range_values_saturate() {
    assert_eq!(Decimal::from_str_radix("1e9999", 10), Ok(Decimal::pos_infinity()));
    assert_eq!(Decimal::from_str_radix("-1e9999", 10), Ok(Decimal::neg_infinity()));
    assert_eq!(
        Decimal::from_str_radix("9999999999999999999999999999999999", 10),
        Ok(Decimal::pos_infinity()),
    );
    assert_eq!(
        Decimal::from_str_radix("100000000000000000000.000001", 10),
        Ok(Decimal::pos_infinity()),
    );
}

#[test]
fn the_largest_finite_value_parses_exactly() {
    assert_eq!(
        Decimal::from_str_radix("100000000000000000000", 10),
        Ok(Decimal::max_value()),
    );
    assert_eq!(
        Decimal::from_str_radix("-100000000000000000000", 10),
        Ok(Decimal::min_value()),
    );
}

#[test]
fn digit_count_limits() {
    // 34 mantissa digits are accepted, a 35th leaves the grammar.
    assert_eq!(
        Decimal::from_str_radix("9999999999999999999999999999999999", 10),
        Ok(Decimal::pos_infinity()),
    );
    assert_eq!(
        Decimal::from_str_radix("99999999999999999999999999999999999", 10),
        Err(err_invalid()),
    );
    // Four exponent digits are accepted, a fifth leaves the grammar.
    assert_eq!(Decimal::from_str_radix("1e9999", 10), Ok(Decimal::pos_infinity()));
    assert_eq!(Decimal::from_str_radix("1e10000", 10), Err(err_invalid()));
}
