use rhorizons::numbers::{is_float_text, parse_i32, IntParseError};

#[test]
fn parsing_integers() {
    assert_eq!(Ok(0), parse_i32("0"));
    assert_eq!(Ok(699), parse_i32("699"));
    assert_eq!(Ok(-78000), parse_i32("-78000"));
    assert_eq!(Ok(42), parse_i32("+42"));
    assert_eq!(Ok(i32::MAX), parse_i32("2147483647"));
    assert_eq!(Ok(i32::MIN), parse_i32("-2147483648"));
}

#[test]
fn integer_error_kinds() {
    assert_eq!(Err(IntParseError::Empty), parse_i32(""));
    assert_eq!(Err(IntParseError::InvalidDigit), parse_i32("****"));
    assert_eq!(Err(IntParseError::InvalidDigit), parse_i32("+"));
    assert_eq!(Err(IntParseError::InvalidDigit), parse_i32("12 3"));
    assert_eq!(Err(IntParseError::PosOverflow), parse_i32("2147483648"));
    assert_eq!(Err(IntParseError::PosOverflow), parse_i32("99999999999999999999"));
    assert_eq!(Err(IntParseError::NegOverflow), parse_i32("-2147483649"));
}

#[test]
fn float_text_grammar() {
    // everything the ephemeris fields actually hold
    assert!(is_float_text("1.870010427985840E+02"));
    assert!(is_float_text("-5.030275220358716E-03"));
    assert!(is_float_text("2459584.392523936927"));
    // the rest of the grammar of str::parse for floats
    assert!(is_float_text("1"));
    assert!(is_float_text("-7"));
    assert!(is_float_text(".5"));
    assert!(is_float_text("3."));
    assert!(is_float_text("3.e2"));
    assert!(is_float_text("1e5"));
    assert!(is_float_text("1E-5"));
    assert!(is_float_text("inf"));
    assert!(is_float_text("-Infinity"));
    assert!(is_float_text("NaN"));
    // and what it refuses
    assert!(!is_float_text(""));
    assert!(!is_float_text("-"));
    assert!(!is_float_text("."));
    assert!(!is_float_text("bogus"));
    assert!(!is_float_text("1.2.3"));
    assert!(!is_float_text("1e"));
    assert!(!is_float_text("1e+"));
    assert!(!is_float_text(" 1"));
    assert!(!is_float_text("1 "));
    assert!(!is_float_text("0x10"));
}

#[test]
fn float_text_agrees_with_str_parse() {
    for s in [
        "1.870010427985840E+02",
        "-5.030275220358716E-03",
        "2459584.392523936927",
        "5.97219",
        "24",
        "inf",
        "nan",
        "",
        "-",
        ".",
        "1.2.3",
        "1e",
        " 1",
        "bogus",
    ] {
        assert_eq!(
            s.parse::<f32>().is_ok(),
            is_float_text(s),
            "disagreement on {s:?}"
        );
    }
}
