use si_value::chars::{find_in, to_chars, trim, white_space};
use si_value::decimal::{number_in, push_decimal, read_integer};
use si_value::format::show_integer;
use si_value::grammar::read_entries;
use si_value::symbol::base_of_name;
use si_value::{SiBase, SiInteger, SiParseError, SiUnit, SiValue};

#[test]
fn void_is_the_default() {
    let void: SiValue<i32, i32> = SiValue::default();
    assert!(void.is_void());
    assert_eq!(void.value(), None);
    assert_eq!(void.unit(), None);
    assert_eq!(void, SiValue::default());
    assert_ne!(void, SiValue::new(0, 0, 0, 0, 0, 0, 0, 0));
    let copy = void.clone();
    assert!(copy.is_void());
}

#[test]
fn value_holds_its_parts() {
    let x = SiValue::with_unit(9u8, SiUnit::new(1i8, 2, 3, 4, 5, 6, 7));
    assert!(!x.is_void());
    assert_eq!(x.value(), Some(&9));
    assert_eq!(x.unit(), Some(&SiUnit::new(1, 2, 3, 4, 5, 6, 7)));
    assert_eq!(x, SiValue::new(9, 1, 2, 3, 4, 5, 6, 7));
    assert_eq!(x.clone(), x);
    assert_ne!(x, SiValue::new(8, 1, 2, 3, 4, 5, 6, 7));
    assert_ne!(x, SiValue::new(9, 1, 2, 3, 4, 5, 6, 0));
}

#[test]
fn unit_holds_its_exponents() {
    let unit = SiUnit::new(1, 2, 3, 4, 5, 6, 7);
    assert_eq!(unit.length, 1);
    assert_eq!(unit.mass, 2);
    assert_eq!(unit.time, 3);
    assert_eq!(unit.temperature, 4);
    assert_eq!(unit.current, 5);
    assert_eq!(unit.amount, 6);
    assert_eq!(unit.luminous_intensity, 7);
    assert_eq!(SiUnit::<i32>::default(), SiUnit::new(0, 0, 0, 0, 0, 0, 0));
    assert_ne!(unit, SiUnit::new(1, 2, 3, 4, 5, 6, 8));
}

#[test]
fn exponent_of_one_dimension() {
    let zero = SiUnit::<i32>::default();
    assert_eq!(zero.set(SiBase::Length, 5), SiUnit::new(5, 0, 0, 0, 0, 0, 0));
    assert_eq!(zero.set(SiBase::Mass, 5), SiUnit::new(0, 5, 0, 0, 0, 0, 0));
    assert_eq!(zero.set(SiBase::Time, 5), SiUnit::new(0, 0, 5, 0, 0, 0, 0));
    assert_eq!(zero.set(SiBase::Temperature, 5), SiUnit::new(0, 0, 0, 5, 0, 0, 0));
    assert_eq!(zero.set(SiBase::Current, 5), SiUnit::new(0, 0, 0, 0, 5, 0, 0));
    assert_eq!(zero.set(SiBase::Amount, 5), SiUnit::new(0, 0, 0, 0, 0, 5, 0));
    assert_eq!(zero.set(SiBase::LuminousIntensity, 5), SiUnit::new(0, 0, 0, 0, 0, 0, 5));
}

#[test]
fn symbols_name_dimensions() {
    assert_eq!(base_of_name("m"), Some(SiBase::Length));
    assert_eq!(base_of_name("KG"), Some(SiBase::Mass));
    assert_eq!(base_of_name("S"), Some(SiBase::Time));
    assert_eq!(base_of_name("k"), Some(SiBase::Temperature));
    assert_eq!(base_of_name("\u{212a}"), Some(SiBase::Temperature));
    assert_eq!(base_of_name("A"), Some(SiBase::Current));
    assert_eq!(base_of_name("Mol"), Some(SiBase::Amount));
    assert_eq!(base_of_name("cd"), Some(SiBase::LuminousIntensity));
    assert_eq!(base_of_name(""), None);
    assert_eq!(base_of_name(" m"), None);
    assert_eq!(base_of_name("mm"), None);
    assert_eq!(base_of_name("\u{b5}"), None);
}

#[test]
fn integers_of_every_width() {
    assert_eq!(i8::narrow(-128), Some(-128));
    assert_eq!(i8::narrow(128), None);
    assert_eq!(i16::narrow(32767), Some(32767));
    assert_eq!(i16::narrow(-32769), None);
    assert_eq!(i32::narrow(-2147483648), Some(-2147483648));
    assert_eq!(i32::narrow(2147483648), None);
    assert_eq!(i64::narrow(9223372036854775807), Some(9223372036854775807));
    assert_eq!(i64::narrow(9223372036854775808), None);
    assert_eq!(i128::narrow(i128::MIN), Some(i128::MIN));
    assert_eq!(u8::narrow(255), Some(255));
    assert_eq!(u8::narrow(-1), None);
    assert_eq!(u16::narrow(65535), Some(65535));
    assert_eq!(u16::narrow(65536), None);
    assert_eq!(u32::narrow(4294967295), Some(4294967295));
    assert_eq!(u32::narrow(4294967296), None);
    assert_eq!(u64::narrow(18446744073709551615), Some(18446744073709551615));
    assert_eq!(u64::narrow(18446744073709551616), None);
    assert_eq!((-5i8).widen(), -5);
    assert_eq!(40000u16.widen(), 40000);
    assert_eq!(u64::MAX.widen(), 18446744073709551615);
    assert_eq!(i128::MAX.widen(), i128::MAX);
}

#[test]
fn integers_are_read() {
    assert_eq!(read_integer::<i32>("42"), Ok(42));
    assert_eq!(read_integer::<i32>("+42"), Ok(42));
    assert_eq!(read_integer::<i32>("-42"), Ok(-42));
    assert_eq!(read_integer::<i32>("  0042\n"), Ok(42));
    assert_eq!(read_integer::<i32>("-0"), Ok(0));
    assert_eq!(read_integer::<u8>("256"), Err(SiParseError::InvalidCast));
    assert_eq!(read_integer::<i32>("4.2"), Err(SiParseError::InvalidCast));
    assert_eq!(read_integer::<i32>("-.5"), Err(SiParseError::InvalidCast));
    assert_eq!(
        read_integer::<i128>("999999999999999999999999999999999999999999"),
        Err(SiParseError::InvalidCast)
    );
    assert_eq!(read_integer::<i32>(""), Err(SiParseError::InvalidValueLayout));
    assert_eq!(read_integer::<i32>("+"), Err(SiParseError::InvalidValueLayout));
    assert_eq!(read_integer::<i32>("+-4"), Err(SiParseError::InvalidValueLayout));
    assert_eq!(read_integer::<i32>("4 2"), Err(SiParseError::InvalidValueLayout));
    assert_eq!(read_integer::<i32>("4.2.1"), Err(SiParseError::InvalidValueLayout));
    assert_eq!(read_integer::<i32>("4_2"), Err(SiParseError::InvalidValueLayout));
    assert_eq!(read_integer::<i32>("\u{663}"), Err(SiParseError::InvalidValueLayout));
    assert_eq!(read_integer::<i32>("0x10"), Err(SiParseError::InvalidValueLayout));
}

#[test]
fn integers_are_written() {
    let mut out = String::from("n=");
    push_decimal(0, &mut out);
    push_decimal(-1, &mut out);
    push_decimal(1234567890, &mut out);
    push_decimal(i128::MIN, &mut out);
    assert_eq!(out, "n=0-11234567890-170141183460469231731687303715884105728");
    assert_eq!(show_integer(&0u8), None);
    assert_eq!(show_integer(&-10i32), Some("-10".to_owned()));
    assert_eq!(show_integer(&u64::MAX), Some("18446744073709551615".to_owned()));
}

#[test]
fn numbers_are_recognised() {
    let numbers = ["0", "-1", "+1", "1.5", "1.", ".5", "-.5", "007"];
    for text in numbers {
        let chars = to_chars(text);
        assert!(number_in(&chars, 0, chars.len()), "{}", text);
    }
    let others = ["", "+", "-", ".", "1.2.3", "1e5", "a", "1 ", "--1", "\u{661}"];
    for text in others {
        let chars = to_chars(text);
        assert!(!number_in(&chars, 0, chars.len()), "{}", text);
    }
    let chars = to_chars("x12.5y");
    assert!(number_in(&chars, 1, 5));
    assert!(!number_in(&chars, 0, 5));
}

#[test]
fn characters_are_found_and_trimmed() {
    let chars = to_chars(" \u{3000}a)(b\t)(\n");
    assert_eq!(chars.len(), 10);
    assert_eq!(trim(&chars, 0, chars.len()), (2, 9));
    assert_eq!(trim(&chars, 0, 2), (2, 2));
    assert_eq!(trim(&chars, 3, 5), (3, 5));
    let seam = to_chars(")(");
    assert_eq!(find_in(&chars, &seam, 0, chars.len()), Some(3));
    assert_eq!(find_in(&chars, &seam, 4, chars.len()), Some(7));
    assert_eq!(find_in(&chars, &seam, 4, 8), None);
    assert_eq!(find_in(&chars, &seam, 8, chars.len()), None);
    assert_eq!(find_in(&chars, &to_chars(""), 4, 8), Some(4));
    for c in [' ', '\t', '\n', '\r', '\u{b}', '\u{c}', '\u{85}', '\u{a0}', '\u{1680}', '\u{2000}',
        '\u{200a}', '\u{2028}', '\u{2029}', '\u{202f}', '\u{205f}', '\u{3000}']
    {
        assert!(white_space(c));
        assert!(c.is_whitespace());
    }
    for c in ['a', '0', '\u{8}', '\u{e}', '\u{200b}', '\u{180e}', '\u{feff}', '(', '^'] {
        assert!(!white_space(c));
        assert!(!c.is_whitespace());
    }
}

#[test]
fn white_space_is_what_trimming_removes() {
    let mut c = '\0';
    loop {
        assert_eq!(white_space(c), c.is_whitespace());
        match char::from_u32(c as u32 + 1) {
            Some(next) => c = next,
            None => {
                if c as u32 >= 0x10ffff {
                    break;
                }
                c = '\u{e000}';
            }
        }
    }
}

#[test]
fn entries_are_read_from_a_position() {
    let text = "12 (m^3)(s^-1)";
    let chars = to_chars(text);
    let unit = read_entries(text, &chars, 4, read_integer::<i32>);
    assert_eq!(unit, Ok(SiUnit::new(3, 0, -1, 0, 0, 0, 0)));
    let unit = read_entries(text, &chars, chars.len(), read_integer::<i32>);
    assert_eq!(unit, Ok(SiUnit::new(0, 0, 0, 0, 0, 0, 0)));
}
