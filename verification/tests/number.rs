use bulletin_scan::number::{
    check_decimal, check_rate, normalize_number, NormalizedNumber, ParseError,
};

fn value(n: &NormalizedNumber) -> f32 {
    let m: f32 = n.mantissa.parse().unwrap();
    if n.scaled {
        m * 10000f32
    } else {
        m
    }
}

#[test]
fn plain_literal_keeps_its_value() {
    let n = normalize_number("12345").unwrap();
    assert_eq!(n.mantissa, "12345");
    assert!(!n.scaled);
    assert_eq!(value(&n), 12345.0);
}

#[test]
fn suffixed_literal_is_scaled() {
    let n = normalize_number("3.5万").unwrap();
    assert_eq!(n.mantissa, "3.5");
    assert!(n.scaled);
    assert_eq!(value(&n), 35000.0);
}

#[test]
fn suffix_without_digits_is_rejected() {
    assert_eq!(normalize_number("万").err(), Some(ParseError {}));
}

#[test]
fn count_with_suffix_is_in_ten_thousands() {
    let n = normalize_number("150万").unwrap();
    assert_eq!(value(&n), 1500000.0);
}

#[test]
fn empty_literal_is_rejected() {
    assert!(normalize_number("").is_err());
}

#[test]
fn only_the_last_suffix_is_taken_off() {
    assert!(normalize_number("3万万").is_err());
    assert!(normalize_number("万3").is_err());
}

#[test]
fn decimal_grammar() {
    assert!(check_decimal("0"));
    assert!(check_decimal("12.50"));
    assert!(check_decimal("5."));
    assert!(check_decimal(".5"));
    assert!(check_decimal("+7"));
    assert!(check_decimal("-7.25"));
    assert!(!check_decimal(""));
    assert!(!check_decimal("."));
    assert!(!check_decimal("+"));
    assert!(!check_decimal("1.2.3"));
    assert!(!check_decimal("12a"));
    assert!(!check_decimal("1 2"));
    assert!(!check_decimal("--1"));
    assert!(!check_decimal("１２"));
}

#[test]
fn accepted_mantissa_parses_as_a_float() {
    for lit in ["0", "12.50", "5.", ".5", "+7", "-7.25", "3.5万"] {
        let n = normalize_number(lit).unwrap();
        assert!(n.mantissa.parse::<f32>().is_ok());
    }
}

#[test]
fn rate_grammar() {
    assert!(check_rate("5.2"));
    assert!(check_rate("5.2%"));
    assert!(check_rate("05.20%"));
    assert!(check_rate("100.0"));
    assert!(!check_rate("5"));
    assert!(!check_rate("5%"));
    assert!(!check_rate("5."));
    assert!(!check_rate("5.%"));
    assert!(!check_rate(".5"));
    assert!(!check_rate(".5%"));
    assert!(!check_rate("."));
    assert!(!check_rate(".%"));
    assert!(!check_rate("%"));
    assert!(!check_rate(""));
    assert!(!check_rate("1.2.3"));
    assert!(!check_rate("1..2"));
}

#[test]
fn rate_may_be_written_in_any_digits() {
    assert!(check_rate("５.２"));
    assert!(check_rate("５.２%"));
    assert!(check_rate("٥.٢"));
    assert!(!check_rate("５"));
    assert!(!check_rate("５%"));
    assert!(!check_rate("５."));
}

#[test]
fn count_in_other_digits_is_rejected() {
    assert!(normalize_number("１５０").is_err());
    assert!(normalize_number("１５０万").is_err());
}
