//! What holds of the arithmetic of quantities over integers.

use crate::integer::{lemma_truncated_quotient_bounds, truncated_quotient, SiInteger};
use crate::unit::SiUnit;
use crate::value::{difference, product, quotient, sum, SiValue};
use vstd::prelude::*;
use vstd::std_specs::cmp::PartialEqSpec;
use vstd::std_specs::ops::{AddSpec, DivSpec, MulSpec, SubSpec};

verus! {

/// Units of integers compare equal exactly when they are the same vector.
pub proof fn lemma_unit_equality<U: SiInteger>(a: SiUnit<U>, b: SiUnit<U>)
    ensures
        SiUnit::<U>::obeys_eq_spec(),
        a.eq_spec(&b) <==> a == b,
{
    U::lemma_exact(a.length, b.length);
    U::lemma_exact(a.mass, b.mass);
    U::lemma_exact(a.time, b.time);
    U::lemma_exact(a.temperature, b.temperature);
    U::lemma_exact(a.current, b.current);
    U::lemma_exact(a.amount, b.amount);
    U::lemma_exact(a.luminous_intensity, b.luminous_intensity);
}

/// The unit of a product holds the sums of the exponents, and the unit of a
/// quotient their differences, wherever those are in range.
pub proof fn lemma_unit_arithmetic<U: SiInteger>(a: SiUnit<U>, b: SiUnit<U>)
    ensures
        SiUnit::<U>::obeys_mul_spec(),
        SiUnit::<U>::obeys_div_spec(),
        a.mul_req(b) ==> a.mul_spec(b).to_ints() == (SiUnit::<int> {
            length: a.length.to_int() + b.length.to_int(),
            mass: a.mass.to_int() + b.mass.to_int(),
            time: a.time.to_int() + b.time.to_int(),
            temperature: a.temperature.to_int() + b.temperature.to_int(),
            current: a.current.to_int() + b.current.to_int(),
            amount: a.amount.to_int() + b.amount.to_int(),
            luminous_intensity: a.luminous_intensity.to_int() + b.luminous_intensity.to_int(),
        }),
        a.div_req(b) ==> a.div_spec(b).to_ints() == (SiUnit::<int> {
            length: a.length.to_int() - b.length.to_int(),
            mass: a.mass.to_int() - b.mass.to_int(),
            time: a.time.to_int() - b.time.to_int(),
            temperature: a.temperature.to_int() - b.temperature.to_int(),
            current: a.current.to_int() - b.current.to_int(),
            amount: a.amount.to_int() - b.amount.to_int(),
            luminous_intensity: a.luminous_intensity.to_int() - b.luminous_intensity.to_int(),
        }),
{
    U::lemma_exact(b.length, a.length);
    U::lemma_exact(b.mass, a.mass);
    U::lemma_exact(b.time, a.time);
    U::lemma_exact(b.temperature, a.temperature);
    U::lemma_exact(b.current, a.current);
    U::lemma_exact(b.amount, a.amount);
    U::lemma_exact(b.luminous_intensity, a.luminous_intensity);
    U::lemma_exact(a.length, b.length);
    U::lemma_exact(a.mass, b.mass);
    U::lemma_exact(a.time, b.time);
    U::lemma_exact(a.temperature, b.temperature);
    U::lemma_exact(a.current, b.current);
    U::lemma_exact(a.amount, b.amount);
    U::lemma_exact(a.luminous_intensity, b.luminous_intensity);
}

/// The unit of a product is the same in either order.
pub proof fn lemma_unit_product_commutes<U: SiInteger>(a: SiUnit<U>, b: SiUnit<U>)
    requires
        a.mul_req(b),
    ensures
        b.mul_req(a),
        a.mul_spec(b) == b.mul_spec(a),
{
    lemma_exponents_commute(a.length, b.length);
    lemma_exponents_commute(a.mass, b.mass);
    lemma_exponents_commute(a.time, b.time);
    lemma_exponents_commute(a.temperature, b.temperature);
    lemma_exponents_commute(a.current, b.current);
    lemma_exponents_commute(a.amount, b.amount);
    lemma_exponents_commute(a.luminous_intensity, b.luminous_intensity);
}

/// Two exponents add to the same sum in either order.
proof fn lemma_exponents_commute<U: SiInteger>(a: U, b: U)
    requires
        b.add_req(a),
    ensures
        a.add_req(b),
        a.add_spec(b) == b.add_spec(a),
{
    U::lemma_exact(a, b);
    U::lemma_exact(b, a);
    U::lemma_faithful(a.add_spec(b), 0);
    U::lemma_faithful(b.add_spec(a), 0);
}

/// Two quantities of the same unit add to the same total in either order,
/// and subtracting one of them from the total gives the other back, wherever
/// the total is in the range of the magnitude.
pub proof fn lemma_add_commutes_and_cancels<T: SiInteger, U: SiInteger>(
    a: SiValue<T, U>,
    b: SiValue<T, U>,
)
    requires
        a@ is Some,
        b@ is Some,
        a.dimension() == b.dimension(),
        T::holds(a.magnitude().to_int() + b.magnitude().to_int()),
    ensures
        a.add_req(b),
        b.add_req(a),
        sum(a@, b@) == sum(b@, a@),
        sum(a@, b@) is Some,
        SiValue::<T, U>::of(sum(a@, b@)).magnitude().to_int() == a.magnitude().to_int()
            + b.magnitude().to_int(),
        SiValue::<T, U>::of(sum(a@, b@)).dimension() == a.dimension(),
        SiValue::<T, U>::of(sum(a@, b@)).sub_req(b),
        difference(sum(a@, b@), b@) == a@,
{
    let x = a.magnitude();
    let y = b.magnitude();
    lemma_unit_equality(a.dimension(), a.dimension());
    T::lemma_exact(x, y);
    T::lemma_exact(y, x);
    let total = x.add_spec(y);
    T::lemma_faithful(total, 0);
    T::lemma_faithful(y.add_spec(x), 0);
    T::lemma_exact(total, y);
    T::lemma_faithful(x, 0);
    T::lemma_faithful(total.sub_spec(y), 0);
    SiValue::<T, U>::lemma_view_of(sum(a@, b@));
}

/// Quantities of different units have neither a sum nor a difference.
pub proof fn lemma_mismatch_is_void<T: SiInteger, U: SiInteger>(a: SiValue<T, U>, b: SiValue<T, U>)
    requires
        a@ is Some,
        b@ is Some,
        a.dimension() != b.dimension(),
    ensures
        a.add_req(b),
        a.sub_req(b),
        sum(a@, b@) is None,
        difference(a@, b@) is None,
{
    lemma_unit_equality(a.dimension(), b.dimension());
}

/// The product of two quantities has the sums of their exponents, and their
/// quotient the differences, whatever their units are.
pub proof fn lemma_units_compose<T: SiInteger, U: SiInteger>(a: SiValue<T, U>, b: SiValue<T, U>)
    requires
        a@ is Some,
        b@ is Some,
    ensures
        a.dimension().mul_req(b.dimension()) ==> product(a@, b@) is Some && SiValue::<T, U>::of(
            product(a@, b@),
        ).dimension().to_ints() == (
        SiUnit::<int> {
            length: a.dimension().length.to_int() + b.dimension().length.to_int(),
            mass: a.dimension().mass.to_int() + b.dimension().mass.to_int(),
            time: a.dimension().time.to_int() + b.dimension().time.to_int(),
            temperature: a.dimension().temperature.to_int() + b.dimension().temperature.to_int(),
            current: a.dimension().current.to_int() + b.dimension().current.to_int(),
            amount: a.dimension().amount.to_int() + b.dimension().amount.to_int(),
            luminous_intensity: a.dimension().luminous_intensity.to_int()
                + b.dimension().luminous_intensity.to_int(),
        }),
        a.dimension().div_req(b.dimension()) ==> quotient(a@, b@) is Some && SiValue::<T, U>::of(
            quotient(a@, b@),
        ).dimension().to_ints() == (
        SiUnit::<int> {
            length: a.dimension().length.to_int() - b.dimension().length.to_int(),
            mass: a.dimension().mass.to_int() - b.dimension().mass.to_int(),
            time: a.dimension().time.to_int() - b.dimension().time.to_int(),
            temperature: a.dimension().temperature.to_int() - b.dimension().temperature.to_int(),
            current: a.dimension().current.to_int() - b.dimension().current.to_int(),
            amount: a.dimension().amount.to_int() - b.dimension().amount.to_int(),
            luminous_intensity: a.dimension().luminous_intensity.to_int()
                - b.dimension().luminous_intensity.to_int(),
        }),
{
    lemma_unit_arithmetic(a.dimension(), b.dimension());
    SiValue::<T, U>::lemma_view_of(product(a@, b@));
    SiValue::<T, U>::lemma_view_of(quotient(a@, b@));
}

/// Dividing a product by one of its factors gives the other factor back,
/// wherever that factor is not zero and the product is in range.
pub proof fn lemma_divide_undoes_multiply<T: SiInteger, U: SiInteger>(
    a: SiValue<T, U>,
    b: SiValue<T, U>,
)
    requires
        a@ is Some,
        b@ is Some,
        b.magnitude().to_int() != 0,
        a.mul_req(b),
    ensures
        SiValue::<T, U>::of(product(a@, b@)).div_req(b),
        quotient(product(a@, b@), b@) == a@,
{
    let x = a.magnitude();
    let y = b.magnitude();
    let unit_x = a.dimension();
    let unit_y = b.dimension();
    SiValue::<T, U>::lemma_view_of(product(a@, b@));
    // the magnitudes
    T::lemma_exact(x, y);
    let total = x.mul_spec(y);
    T::lemma_exact(total, y);
    T::lemma_faithful(x, 0);
    T::lemma_faithful(total, 0);
    let p = x.to_int() * y.to_int();
    assert(truncated_quotient(p, y.to_int()) == x.to_int()) by {
        let d = y.to_int();
        let v = x.to_int();
        assert((v * d) / d == v) by (nonlinear_arith)
            requires
                d != 0,
        ;
        assert(((-v) * d) / d == -v) by (nonlinear_arith)
            requires
                d != 0,
        ;
        assert(-(v * d) == (-v) * d) by (nonlinear_arith);
    }
    T::lemma_faithful(total.div_spec(y), 0);
    // the exponents
    lemma_exponent_undone(unit_x.length, unit_y.length);
    lemma_exponent_undone(unit_x.mass, unit_y.mass);
    lemma_exponent_undone(unit_x.time, unit_y.time);
    lemma_exponent_undone(unit_x.temperature, unit_y.temperature);
    lemma_exponent_undone(unit_x.current, unit_y.current);
    lemma_exponent_undone(unit_x.amount, unit_y.amount);
    lemma_exponent_undone(unit_x.luminous_intensity, unit_y.luminous_intensity);
}

/// Subtracting an exponent from a sum that holds it gives the other one.
proof fn lemma_exponent_undone<U: SiInteger>(a: U, b: U)
    requires
        b.add_req(a),
    ensures
        b.add_spec(a).sub_req(b),
        b.add_spec(a).sub_spec(b) == a,
{
    U::lemma_exact(b, a);
    let total = b.add_spec(a);
    U::lemma_exact(total, b);
    U::lemma_faithful(a, 0);
    U::lemma_faithful(total.sub_spec(b), 0);
}

} // verus!
