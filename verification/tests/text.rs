use si_value::{SiParseError, SiUnit, SiValue};

fn read_float(text: &str) -> Result<f64, SiParseError> {
    <f64 as prse::Parse>::from_str(text).map_err(|_| SiParseError::InvalidValueLayout)
}

fn show_float(value: &f64) -> Option<String> {
    if *value != 0.0 {
        Some(format!("{}", value))
    } else {
        None
    }
}

#[test]
fn display_si_unit_test() {
    assert_eq!(
        SiUnit::new(2, 3, 4, 5, 6, 7, 8).to_string(),
        "(m^2)(kg^3)(s^4)(k^5)(A^6)(mol^7)(cd^8)"
    );
}

#[test]
fn display_si_value_test() {
    assert_eq!(
        SiValue::new(1, 2, 3, 4, 5, 6, 7, 8).to_string(),
        "1 (m^2)(kg^3)(s^4)(k^5)(A^6)(mol^7)(cd^8)"
    );
}

#[test]
fn cast_string_to_unit() {
    let str = "(s^4)(m^2)(cd^8)";
    let y: SiUnit<f64> = SiUnit::parse_with(str, read_float).unwrap();
    assert_eq!(SiUnit::new(2.0, 0.0, 4.0, 0.0, 0.0, 0.0, 8.0), y)
}

#[test]
fn cast_string_to_value() {
    let str = "3 (s^4)(m^2)(cd^8)".to_owned();
    let y: SiValue<f64, f64> =
        SiValue::<f64, f64>::parse_with(&str, read_float, read_float).unwrap();
    assert_eq!(SiValue::new(3.0, 2.0, 0.0, 4.0, 0.0, 0.0, 0.0, 8.0), y)
}

#[test]
fn integer_unit_from_text() {
    let y: SiUnit<i32> = SiUnit::try_from("(s^4)(m^2)(cd^8)").unwrap();
    assert_eq!(SiUnit::new(2, 0, 4, 0, 0, 0, 8), y);
    let z: SiUnit<i32> = SiUnit::try_from("(s^4)(m^2)(cd^8)".to_owned()).unwrap();
    assert_eq!(y, z);
}

#[test]
fn integer_value_from_text() {
    let y = SiValue::<i64, i32>::try_from("3 (s^4)(m^2)(cd^8)".to_owned()).unwrap();
    assert_eq!(SiValue::new(3, 2, 0, 4, 0, 0, 0, 8), y)
}

#[test]
fn float_unit_with_fractions() {
    let y: SiUnit<f64> = SiUnit::parse_with("(m^0.5)(s^-1.5)", read_float).unwrap();
    assert_eq!(SiUnit::new(0.5, 0.0, -1.5, 0.0, 0.0, 0.0, 0.0), y);
    assert_eq!(y.format_with(show_float), "(m^0.5)(s^-1.5)");
}

#[test]
fn float_value_text() {
    let x = SiValue::new(0.25, 1.0, 0.0, -2.0, 0.0, 0.0, 0.0, 0.0);
    assert_eq!(x.format_with(show_float, show_float), "0.25 (m^1)(s^-2)");
    let y = SiValue::parse_with("0.25 (m^1)(s^-2)", read_float, read_float).unwrap();
    assert_eq!(x, y);
}

#[test]
fn zero_exponents_have_no_entry() {
    assert_eq!(SiUnit::new(0, 0, 0, 0, 0, 0, 0).to_string(), "");
    assert_eq!(SiUnit::new(0, 1, 0, 0, 0, 0, 0).to_string(), "(kg^1)");
    assert_eq!(SiUnit::new(1, 0, -2, 0, 0, 0, 0).to_string(), "(m^1)(s^-2)");
    assert_eq!(SiUnit::new(0i8, 0, 0, 0, -128, 0, 127).to_string(), "(A^-128)(cd^127)");
}

#[test]
fn extreme_integers_in_text() {
    let x = SiValue::new(i128::MIN, i128::MAX, 0, 0, 0, 0, 0, 0);
    let text = x.to_string();
    assert_eq!(
        text,
        "-170141183460469231731687303715884105728 (m^170141183460469231731687303715884105727)"
    );
    assert_eq!(SiValue::<i128, i128>::try_from(text).unwrap(), x);
    let y = SiValue::new(u64::MAX, 1u8, 0, 0, 0, 0, 0, 255);
    assert_eq!(y.to_string(), "18446744073709551615 (m^1)(cd^255)");
}

#[test]
fn void_value_text() {
    let void: SiValue<i32, i32> = SiValue::default();
    assert_eq!(void.to_string(), "Value is None");
    let void: SiValue<f64, f64> = SiValue::default();
    assert_eq!(void.format_with(show_float, show_float), "Value is None");
}

#[test]
fn zero_magnitude_is_dropped() {
    assert_eq!(SiValue::new(0, 2, 0, 0, 0, 0, 0, 0).to_string(), " (m^2)");
    assert_eq!(SiValue::new(0, 0, 0, 0, 0, 0, 0, 0).to_string(), " ");
    assert_eq!(SiValue::new(-7, 0, 0, 0, 0, 0, 0, 0).to_string(), "-7 ");
}

#[test]
fn text_round_trip() {
    let values = [
        SiValue::new(1, 2, 3, 4, 5, 6, 7, 8),
        SiValue::new(-12, 0, 0, -1, 0, 0, 0, 0),
        SiValue::new(2147483647, -2147483648, 0, 0, 0, 0, 0, 2147483647),
        SiValue::new(5, 0, 0, 0, 0, 1, 0, 0),
    ];
    for value in values {
        assert_eq!(SiValue::<i32, i32>::try_from(value.to_string()), Ok(value));
    }
    let units = [SiUnit::new(2i64, 3, 4, 5, 6, 7, 8), SiUnit::new(0, 0, 0, 0, 0, 0, -1)];
    for unit in units {
        assert_eq!(SiUnit::<i64>::try_from(unit.to_string()), Ok(unit));
    }
}

#[test]
fn text_that_does_not_come_back() {
    let zero = SiValue::new(0, 2, 0, 0, 0, 0, 0, 0);
    assert_eq!(
        SiValue::<i32, i32>::try_from(zero.to_string()),
        Err(SiParseError::InvalidValueLayout)
    );
    let void: SiValue<i32, i32> = SiValue::default();
    assert_eq!(
        SiValue::<i32, i32>::try_from(void.to_string()),
        Err(SiParseError::InvalidValueLayout)
    );
    let plain = SiValue::new(5, 0, 0, 0, 0, 0, 0, 0);
    assert_eq!(
        SiValue::<i32, i32>::try_from(plain.to_string()),
        Err(SiParseError::InvalidValueLayout)
    );
    let dimensionless = SiUnit::new(0, 0, 0, 0, 0, 0, 0);
    assert_eq!(
        SiUnit::<i32>::try_from(dimensionless.to_string()),
        Err(SiParseError::InvalidValueLayout)
    );
}

#[test]
fn symbols_in_any_case() {
    let y: SiUnit<i32> = SiUnit::try_from("(M^1)(KG^2)(S^3)(K^4)(a^5)(MoL^6)(cD^7)").unwrap();
    assert_eq!(SiUnit::new(1, 2, 3, 4, 5, 6, 7), y);
    let z: SiUnit<i32> = SiUnit::try_from("(m^1)(kg^2)(s^3)(k^4)(A^5)(mol^6)(cd^7)").unwrap();
    assert_eq!(y, z);
}

#[test]
fn kelvin_sign_names_temperature() {
    let y: SiUnit<i32> = SiUnit::try_from("(\u{212a}^3)").unwrap();
    assert_eq!(SiUnit::new(0, 0, 0, 3, 0, 0, 0), y);
    let z: SiUnit<i32> = SiUnit::try_from("(\u{212a}g^3)(\u{3bc}^2)").unwrap();
    assert_eq!(SiUnit::new(0, 3, 0, 0, 0, 0, 0), z);
}

#[test]
fn unknown_symbols_are_ignored() {
    let y: SiUnit<i32> = SiUnit::try_from("(x^9)(m^2)(mm^4)(^5)").unwrap();
    assert_eq!(SiUnit::new(2, 0, 0, 0, 0, 0, 0), y);
    let z: SiUnit<i8> = SiUnit::try_from("(x^2.5)(y^1000)(s^1)").unwrap();
    assert_eq!(SiUnit::new(0, 0, 1, 0, 0, 0, 0), z);
    assert_eq!(
        SiUnit::<i32>::try_from("(x^nine)(m^2)"),
        Err(SiParseError::InvalidValueLayout)
    );
}

#[test]
fn later_entry_replaces_earlier() {
    let y: SiUnit<i32> = SiUnit::try_from("(m^2)(s^1)(M^7)").unwrap();
    assert_eq!(SiUnit::new(7, 0, 1, 0, 0, 0, 0), y);
}

#[test]
fn text_around_the_entries() {
    let y: SiUnit<i32> = SiUnit::try_from("unit: (m^2)(s^-1)  \n").unwrap();
    assert_eq!(SiUnit::new(2, 0, -1, 0, 0, 0, 0), y);
    let z: SiUnit<i32> = SiUnit::try_from("(m^ 2 )(s^\t+3)").unwrap();
    assert_eq!(SiUnit::new(2, 0, 3, 0, 0, 0, 0), z);
    let v = SiValue::<i32, i32>::try_from(" 42  (m^2)\u{a0}".to_owned()).unwrap();
    assert_eq!(SiValue::new(42, 2, 0, 0, 0, 0, 0, 0), v);
}

#[test]
fn empty_entries() {
    let zero = SiUnit::new(0, 0, 0, 0, 0, 0, 0);
    assert_eq!(SiUnit::<i32>::try_from("()"), Ok(zero));
    assert_eq!(SiUnit::<i32>::try_from("("), Ok(zero));
    assert_eq!(SiUnit::<i32>::try_from("(   )"), Ok(zero));
    assert_eq!(SiUnit::<i32>::try_from("(m^2)()"), Ok(SiUnit::new(2, 0, 0, 0, 0, 0, 0)));
    assert_eq!(SiValue::<i32, i32>::try_from("7 ()".to_owned()), Ok(SiValue::new(7, 0, 0, 0, 0, 0, 0, 0)));
}

#[test]
fn last_character_is_dropped_unseen() {
    let y: SiUnit<i32> = SiUnit::try_from("(m^2)(s^3]").unwrap();
    assert_eq!(SiUnit::new(2, 0, 3, 0, 0, 0, 0), y);
    let z: SiUnit<i32> = SiUnit::try_from("(m^25").unwrap();
    assert_eq!(SiUnit::new(2, 0, 0, 0, 0, 0, 0), z);
}

#[test]
fn broken_layout() {
    let broken = Err(SiParseError::InvalidValueLayout);
    assert_eq!(SiUnit::<i32>::try_from(""), broken);
    assert_eq!(SiUnit::<i32>::try_from("m^2"), broken);
    assert_eq!(SiUnit::<i32>::try_from("(m2)"), broken);
    assert_eq!(SiUnit::<i32>::try_from("(m^2)(s)"), broken);
    assert_eq!(SiUnit::<i32>::try_from("(m^2)(s^)"), broken);
    assert_eq!(SiUnit::<i32>::try_from("(m^two)"), broken);
    assert_eq!(SiUnit::<i32>::try_from("(m^-)"), broken);
    assert_eq!(SiUnit::<i32>::try_from("(m^.)"), broken);
    assert_eq!(SiUnit::<i32>::try_from("(m^1e3)"), broken);
    assert_eq!(SiUnit::<i32>::try_from("(m^2)(m^2)(kg^1)()(s^1)"), broken);
    assert_eq!(SiUnit::<i32>::try_from("(m^2)  (s^1)"), broken);
    assert_eq!(SiUnit::<i32>::try_from("(m^2"), broken);
}

#[test]
fn broken_value_layout() {
    let broken = Err(SiParseError::InvalidValueLayout);
    assert_eq!(SiValue::<i32, i32>::try_from("".to_owned()), broken);
    assert_eq!(SiValue::<i32, i32>::try_from("3".to_owned()), broken);
    assert_eq!(SiValue::<i32, i32>::try_from("3(m^2)".to_owned()), broken);
    assert_eq!(SiValue::<i32, i32>::try_from("(m^2)".to_owned()), broken);
    assert_eq!(SiValue::<i32, i32>::try_from(" (m^2)".to_owned()), broken);
    assert_eq!(SiValue::<i32, i32>::try_from("three (m^2)".to_owned()), broken);
    assert_eq!(SiValue::<i32, i32>::try_from("3.5 (m^2)".to_owned()), broken);
    assert_eq!(SiValue::<i32, i32>::try_from("99999999999 (m^2)".to_owned()), broken);
    assert_eq!(SiValue::<i32, i32>::try_from("3 (m2)".to_owned()), broken);
    assert_eq!(
        SiValue::<u8, i32>::try_from("-3 (m^2)".to_owned()),
        Err(SiParseError::InvalidValueLayout)
    );
}

#[test]
fn exponent_that_does_not_fit() {
    let unfit = Err(SiParseError::InvalidCast);
    assert_eq!(SiUnit::<i32>::try_from("(m^2.5)"), unfit);
    assert_eq!(SiUnit::<i32>::try_from("(m^2.0)"), unfit);
    assert_eq!(SiUnit::<i32>::try_from("(m^2.)"), unfit);
    assert_eq!(SiUnit::<i32>::try_from("(m^.5)"), unfit);
    assert_eq!(SiUnit::<i32>::try_from("(m^2147483648)"), unfit);
    assert_eq!(SiUnit::<i32>::try_from("(m^-2147483649)"), unfit);
    assert_eq!(SiUnit::<i8>::try_from("(s^128)"), Err(SiParseError::InvalidCast));
    assert_eq!(SiUnit::<u8>::try_from("(s^-1)"), Err(SiParseError::InvalidCast));
    assert_eq!(
        SiUnit::<i128>::try_from("(s^170141183460469231731687303715884105728)"),
        Err(SiParseError::InvalidCast)
    );
    assert_eq!(
        SiValue::<i32, i32>::try_from("3 (m^2.5)".to_owned()),
        Err(SiParseError::InvalidCast)
    );
    assert_eq!(
        SiUnit::<i32>::try_from("(m^2147483647)"),
        Ok(SiUnit::new(2147483647, 0, 0, 0, 0, 0, 0))
    );
}

#[test]
fn first_failure_wins() {
    assert_eq!(SiUnit::<i32>::try_from("(m^2.5)(s)"), Err(SiParseError::InvalidCast));
    assert_eq!(SiUnit::<i32>::try_from("(s)(m^2.5)"), Err(SiParseError::InvalidValueLayout));
    assert_eq!(
        SiValue::<i32, i32>::try_from("x (m^2.5)".to_owned()),
        Err(SiParseError::InvalidValueLayout)
    );
}

#[test]
fn error_kinds_are_distinct() {
    assert_ne!(SiParseError::InvalidUnit, SiParseError::InvalidValueLayout);
    assert_ne!(SiParseError::InvalidUnit, SiParseError::InvalidCast);
    assert_ne!(SiParseError::InvalidCast, SiParseError::InvalidValueLayout);
    assert_eq!(format!("{:?}", SiParseError::InvalidUnit), "InvalidUnit");
}

#[test]
fn reader_errors_pass_through() {
    let refuse = |_: &str| -> Result<i32, SiParseError> { Err(SiParseError::InvalidUnit) };
    assert_eq!(SiUnit::parse_with("(m^2)", refuse), Err(SiParseError::InvalidUnit));
    assert_eq!(SiUnit::parse_with("(x^2)", refuse), Err(SiParseError::InvalidUnit));
    assert_eq!(SiUnit::parse_with("()", refuse), Ok(SiUnit::new(0, 0, 0, 0, 0, 0, 0)));
    let unfit = |_: &str| -> Result<i32, SiParseError> { Err(SiParseError::InvalidCast) };
    assert_eq!(SiUnit::parse_with("(x^2)", unfit), Ok(SiUnit::new(0, 0, 0, 0, 0, 0, 0)));
    assert_eq!(SiUnit::parse_with("(m^2)", unfit), Err(SiParseError::InvalidCast));
    let one = |_: &str| -> Result<i32, SiParseError> { Ok(1) };
    assert_eq!(
        SiValue::parse_with("a (m^b)", refuse, one),
        Err::<SiValue<i32, i32>, SiParseError>(SiParseError::InvalidValueLayout)
    );
    assert_eq!(SiValue::parse_with("a (m^b)", one, one), Ok(SiValue::new(1, 1, 0, 0, 0, 0, 0, 0)));
}
