use si_value::{SiUnit, SiValue};

#[test]
fn declare_si_value() {
    let x = SiValue::new(1, 2, 3, 4, 5, 6, 7, 8);
    assert_eq!(
        (x.value(), x.unit()),
        (
            Some(&1),
            Some(&SiUnit {
                length: 2,
                mass: 3,
                time: 4,
                temperature: 5,
                current: 6,
                amount: 7,
                luminous_intensity: 8
            })
        )
    )
}

#[test]
fn add_i32_si_values() {
    let x = SiValue::new(1, 2, 3, 4, 5, 6, 7, 8);
    let y = SiValue::new(10, 2, 3, 4, 5, 6, 7, 8);
    let z = SiValue::new(11, 2, 3, 4, 5, 6, 7, 8);
    assert_eq!(x + y, z);
    assert_eq!(y + x, z);
    let y = SiValue::new(10, 20, 30, 40, 50, 60, 70, 80);
    let z = SiValue::new(11, 22, 33, 44, 55, 66, 77, 88);
    assert_eq!(x + y, SiValue::default());
    assert_eq!(x + z, SiValue::default());
}

#[test]
fn sub_i32_si_values() {
    let x = SiValue::new(1, 2, 3, 4, 5, 6, 7, 8);
    let y = SiValue::new(10, 2, 3, 4, 5, 6, 7, 8);
    let z = SiValue::new(9, 2, 3, 4, 5, 6, 7, 8);
    assert_eq!(y - x, z);
    assert_eq!(y - z, x);
}

#[test]
fn mul_i32_si_values() {
    let x = SiValue::new(5, 2, 3, 4, 5, 6, 7, 8);
    let y = SiValue::new(10, 20, 30, 40, 50, 60, 70, 80);
    let z = SiValue::new(50, 22, 33, 44, 55, 66, 77, 88);
    assert_eq!(y * x, z);
    assert_eq!(x * y, z);
}

#[test]
fn div_i32_si_values() {
    let x = SiValue::new(5, 2, 3, 4, 5, 6, 7, 8);
    let y = SiValue::new(10, 20, 30, 40, 50, 60, 70, 80);
    let z = SiValue::new(50, 22, 33, 44, 55, 66, 77, 88);
    assert_eq!(z / y, x);
    assert_eq!(z / x, y);
}

#[test]
fn div_f64_si_values() {
    let x = SiValue::new(1, 2, 3, 4, 5, 6, 7, 8);
    let y = SiValue::new(10, 20, 30, 40, 50, 60, 70, 80);
    let z = SiValue::new(0.1, -18, -27, -36, -45, -54, -63, -72);
    assert_eq!(x.si_into::<f64, i32>() / y.si_into::<f64, i32>(), z);
    assert_eq!(x.si_into() / z, y.si_into());
}
