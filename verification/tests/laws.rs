use si_value::{SiUnit, SiValue};

#[test]
fn sum_in_either_order() {
    let a = SiValue::new(-40i64, 1, -2, 0, 0, 3, 0, 0);
    let b = SiValue::new(1000, 1, -2, 0, 0, 3, 0, 0);
    assert_eq!(a + b, b + a);
    assert_eq!(a + b, SiValue::new(960, 1, -2, 0, 0, 3, 0, 0));
    assert_eq!((a + b) - b, a);
    assert_eq!((a + b) - a, b);
}

#[test]
fn different_units_give_void() {
    let a = SiValue::new(1, 1, 0, 0, 0, 0, 0, 0);
    for b in [
        SiValue::new(1, 2, 0, 0, 0, 0, 0, 0),
        SiValue::new(1, 1, 1, 0, 0, 0, 0, 0),
        SiValue::new(1, 1, 0, 1, 0, 0, 0, 0),
        SiValue::new(1, 1, 0, 0, 1, 0, 0, 0),
        SiValue::new(1, 1, 0, 0, 0, 1, 0, 0),
        SiValue::new(1, 1, 0, 0, 0, 0, 1, 0),
        SiValue::new(1, 1, 0, 0, 0, 0, 0, 1),
    ] {
        assert!((a + b).is_void());
        assert!((a - b).is_void());
        assert!((b + a).is_void());
        assert!((b - a).is_void());
    }
}

#[test]
fn void_operands_give_void() {
    let a = SiValue::new(6, 1, 0, 0, 0, 0, 0, 0);
    let void: SiValue<i32, i32> = SiValue::default();
    assert!((a + void).is_void());
    assert!((void + a).is_void());
    assert!((a - void).is_void());
    assert!((void - a).is_void());
    assert!((a * void).is_void());
    assert!((void * a).is_void());
    assert!((a / void).is_void());
    assert!((void / a).is_void());
    assert!((void + void).is_void());
    assert!((void * void).is_void());
}

#[test]
fn exponents_add_and_subtract() {
    let a = SiValue::new(6, 1, 2, 3, 4, 5, 6, 7);
    let b = SiValue::new(-3, 10, -20, 30, -40, 50, -60, 70);
    assert_eq!(a * b, SiValue::new(-18, 11, -18, 33, -36, 55, -54, 77));
    assert_eq!(a / b, SiValue::new(-2, -9, 22, -27, 44, -45, 66, -63));
    assert_eq!(b / a, SiValue::new(0, 9, -22, 27, -44, 45, -66, 63));
    assert_eq!(
        SiUnit::new(1, 2, 3, 4, 5, 6, 7) * SiUnit::new(10, 20, 30, 40, 50, 60, 70),
        SiUnit::new(11, 22, 33, 44, 55, 66, 77)
    );
    assert_eq!(
        SiUnit::new(1, 2, 3, 4, 5, 6, 7) / SiUnit::new(10, 20, 30, 40, 50, 60, 70),
        SiUnit::new(-9, -18, -27, -36, -45, -54, -63)
    );
}

#[test]
fn quotient_rounds_towards_zero() {
    let unit = SiValue::new(2, 0, 0, 0, 0, 0, 0, 0);
    assert_eq!(SiValue::new(7, 1, 0, 0, 0, 0, 0, 0) / unit, SiValue::new(3, 1, 0, 0, 0, 0, 0, 0));
    assert_eq!(SiValue::new(-7, 1, 0, 0, 0, 0, 0, 0) / unit, SiValue::new(-3, 1, 0, 0, 0, 0, 0, 0));
    let minus = SiValue::new(-2, 0, 0, 0, 0, 0, 0, 0);
    assert_eq!(SiValue::new(7, 1, 0, 0, 0, 0, 0, 0) / minus, SiValue::new(-3, 1, 0, 0, 0, 0, 0, 0));
    assert_eq!(SiValue::new(-7, 1, 0, 0, 0, 0, 0, 0) / minus, SiValue::new(3, 1, 0, 0, 0, 0, 0, 0));
}

#[test]
fn division_undoes_multiplication() {
    let a = SiValue::new(-7i64, 1, 2, 3, 4, 5, 6, 7);
    for b in [
        SiValue::new(3, 0, 0, 0, 0, 0, 0, 0),
        SiValue::new(-5, 7, 6, 5, 4, 3, 2, 1),
        SiValue::new(1, -1, -2, -3, -4, -5, -6, -7),
        SiValue::new(-1, 0, 0, 9, 0, 0, 0, 0),
    ] {
        assert_eq!((a * b) / b, a);
        assert_eq!((b * a) / a, b);
    }
}

#[test]
fn conversion_keeps_the_quantity() {
    let x = SiValue::new(-5i8, 1i16, -2, 3, -4, 5, -6, 7);
    let wide: SiValue<i64, i32> = x.si_into();
    assert_eq!(wide, SiValue::new(-5i64, 1i32, -2, 3, -4, 5, -6, 7));
    let void: SiValue<i8, i16> = SiValue::default();
    assert!(void.si_into::<i64, i32>().is_void());
    let unit: SiUnit<i64> = SiUnit::new(1u8, 2, 3, 4, 5, 6, 255).si_into();
    assert_eq!(unit, SiUnit::new(1i64, 2, 3, 4, 5, 6, 255));
    let float: SiValue<f64, f64> = SiValue::new(3i32, 1i32, 0, 0, 0, 0, 0, -1).si_into();
    assert_eq!(float, SiValue::new(3.0, 1.0, 0.0, 0.0, 0.0, 0.0, 0.0, -1.0));
}

#[test]
fn float_quantities() {
    let a = SiValue::new(1.5, 1, 0, -1, 0, 0, 0, 0);
    let b = SiValue::new(0.25, 1, 0, -1, 0, 0, 0, 0);
    assert_eq!(a + b, SiValue::new(1.75, 1, 0, -1, 0, 0, 0, 0));
    assert_eq!(a - b, SiValue::new(1.25, 1, 0, -1, 0, 0, 0, 0));
    assert_eq!(a * b, SiValue::new(0.375, 2, 0, -2, 0, 0, 0, 0));
    assert_eq!(a / b, SiValue::new(6.0, 0, 0, 0, 0, 0, 0, 0));
    let zero = SiValue::new(0.0, 0, 0, 0, 0, 0, 0, 0);
    assert_eq!((a / zero).value(), Some(&f64::INFINITY));
}
