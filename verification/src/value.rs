//! Values: a magnitude with its unit, or void.

use crate::unit::SiUnit;
use core::ops::{Add, Div, Mul, Sub};
use vstd::prelude::*;
use vstd::std_specs::cmp::PartialEqSpec;
use vstd::std_specs::convert::IntoSpec;
use vstd::std_specs::ops::{AddSpec, DivSpec, MulSpec, SubSpec};

verus! {

/// What a value stands for: nothing (the void value), or a magnitude with its
/// unit.
pub type Quantity<T, U> = Option<(T, SiUnit<U>)>;

/// A magnitude with its unit, or the void value that stands for "no
/// quantity": the default, and the result of adding or subtracting
/// quantities of different units.
#[derive(Debug)]
pub struct SiValue<T, U> {
    value: Option<T>,
    unit: Option<SiUnit<U>>,
}

impl<T, U> View for SiValue<T, U> {
    type V = Quantity<T, U>;

    /// The quantity that the value stands for.
    closed spec fn view(&self) -> Quantity<T, U> {
        match (self.value, self.unit) {
            (Some(magnitude), Some(unit)) => Some((magnitude, unit)),
            _ => None,
        }
    }
}

impl<T, U> SiValue<T, U> {
    /// Magnitude and unit are present together or absent together.
    #[verifier::type_invariant]
    spec fn paired(self) -> bool {
        self.value is Some <==> self.unit is Some
    }

    /// The magnitude of a value that is not void.
    pub open spec fn magnitude(self) -> T
        recommends
            self@ is Some,
    {
        self@.unwrap().0
    }

    /// The unit of a value that is not void.
    pub open spec fn dimension(self) -> SiUnit<U>
        recommends
            self@ is Some,
    {
        self@.unwrap().1
    }

    /// The value that stands for `quantity`.
    pub closed spec fn of(quantity: Quantity<T, U>) -> Self {
        match quantity {
            Some((magnitude, unit)) => SiValue { value: Some(magnitude), unit: Some(unit) },
            None => SiValue { value: None, unit: None },
        }
    }

    /// `of` is the inverse of the view.
    pub broadcast proof fn lemma_view_of(quantity: Quantity<T, U>)
        ensures
            (#[trigger] Self::of(quantity))@ == quantity,
    {
    }

    /// The quantity of magnitude `value` in `unit`.
    pub fn with_unit(value: T, unit: SiUnit<U>) -> (quantity: SiValue<T, U>)
        ensures
            quantity@ == Some((value, unit)),
            quantity == Self::of(Some((value, unit))),
    {
        SiValue { value: Some(value), unit: Some(unit) }
    }

    /// The quantity of magnitude `value` in the unit of the seven exponents.
    pub fn new(
        value: T,
        length: U,
        mass: U,
        time: U,
        temperature: U,
        current: U,
        amount: U,
        luminous_intensity: U,
    ) -> (quantity: SiValue<T, U>)
        ensures
            quantity@ == Some(
                (
                    value,
                    SiUnit { length, mass, time, temperature, current, amount, luminous_intensity },
                ),
            ),
    {
        SiValue {
            value: Some(value),
            unit: Some(
                SiUnit { length, mass, time, temperature, current, amount, luminous_intensity },
            ),
        }
    }

    /// Whether this is the void value.
    pub fn is_void(&self) -> (void: bool)
        ensures
            void <==> self@ is None,
    {
        proof {
            use_type_invariant(self);
        }
        self.value.is_none()
    }

    /// The magnitude, unless the value is void.
    pub fn value(&self) -> (magnitude: Option<&T>)
        ensures
            match self@ {
                Some(quantity) => magnitude == Some(&quantity.0),
                None => magnitude is None,
            },
    {
        proof {
            use_type_invariant(self);
        }
        self.value.as_ref()
    }

    /// The unit, unless the value is void.
    pub fn unit(&self) -> (unit: Option<&SiUnit<U>>)
        ensures
            match self@ {
                Some(quantity) => unit == Some(&quantity.1),
                None => unit is None,
            },
    {
        proof {
            use_type_invariant(self);
        }
        self.unit.as_ref()
    }

    /// The quantity in other numeric types, magnitude and exponents converted
    /// by `Into`; void stays void.
    pub open spec fn converted<V, W>(quantity: Quantity<T, U>) -> Quantity<V, W> where
        T: Into<V>,
        U: Into<W>,
     {
        match quantity {
            Some((magnitude, unit)) => Some((magnitude.into_spec(), unit.converted::<W>())),
            None => None,
        }
    }

    /// Converts the magnitude into `V` and every exponent into `W`.
    pub fn si_into<V, W>(self) -> (converted: SiValue<V, W>) where T: Into<V>, U: Into<W>
        ensures
            match (self@, converted@) {
                (Some((magnitude, unit)), Some((magnitude_into, unit_into))) => call_ensures(
                    T::into,
                    (magnitude,),
                    magnitude_into,
                ) && unit.converts_to(unit_into),
                (None, None) => true,
                _ => false,
            },
            T::obeys_into_spec() && U::obeys_into_spec() ==> converted@ == Self::converted::<
                V,
                W,
            >(self@),
    {
        proof {
            use_type_invariant(&self);
        }
        match (self.value, self.unit) {
            (Some(magnitude), Some(unit)) => SiValue {
                value: Some(magnitude.into()),
                unit: Some(unit.si_into()),
            },
            _ => SiValue { value: None, unit: None },
        }
    }
}

impl<T: Clone, U: Clone> Clone for SiValue<T, U> {
    /// A value of a clone of the magnitude and a clone of the unit; void for
    /// void.
    fn clone(&self) -> (copy: Self)
        ensures
            match (self@, copy@) {
                (Some((magnitude, unit)), Some((magnitude_copy, unit_copy))) => cloned(
                    magnitude,
                    magnitude_copy,
                ) && cloned(unit, unit_copy),
                (None, None) => true,
                _ => false,
            },
    {
        proof {
            use_type_invariant(self);
        }
        match (&self.value, &self.unit) {
            (Some(magnitude), Some(unit)) => SiValue {
                value: Some(magnitude.clone()),
                unit: Some(unit.clone()),
            },
            _ => SiValue { value: None, unit: None },
        }
    }
}

impl<T: Copy, U: Copy> Copy for SiValue<T, U> {

}

impl<T, U> Default for SiValue<T, U> {
    /// The void value.
    fn default() -> (void: Self)
        ensures
            void@ is None,
            void == Self::of(None),
    {
        SiValue { value: None, unit: None }
    }
}

impl<T: PartialEq, U: PartialEq> PartialEq for SiValue<T, U> {
    /// Whether both values are void, or both are quantities of equal
    /// magnitudes and equal units.
    fn eq(&self, other: &Self) -> (same: bool)
        ensures
            match (self@, other@) {
                (Some((a, unit_a)), Some((b, unit_b))) => if same {
                    call_ensures(T::eq, (&a, &b), true) && unit_a.compares_to(unit_b, true)
                } else {
                    call_ensures(T::eq, (&a, &b), false) || unit_a.compares_to(unit_b, false)
                },
                (None, None) => same,
                _ => !same,
            },
    {
        proof {
            use_type_invariant(self);
            use_type_invariant(other);
        }
        match (&self.value, &self.unit, &other.value, &other.unit) {
            (Some(a), Some(unit_a), Some(b), Some(unit_b)) => *a == *b && *unit_a == *unit_b,
            (None, _, None, _) => true,
            _ => false,
        }
    }
}

impl<T: PartialEq, U: PartialEq> vstd::std_specs::cmp::PartialEqSpecImpl for SiValue<T, U> {
    open spec fn obeys_eq_spec() -> bool {
        T::obeys_eq_spec() && U::obeys_eq_spec()
    }

    /// Void equals void only; two quantities are equal when their magnitudes
    /// and their units are.
    open spec fn eq_spec(&self, other: &Self) -> bool {
        match (self@, other@) {
            (Some((a, unit_a)), Some((b, unit_b))) => a.eq_spec(&b) && PartialEqSpec::eq_spec(
                &unit_a,
                &unit_b,
            ),
            (None, None) => true,
            _ => false,
        }
    }
}

/// The sum of two quantities: void unless both are present with equal units.
pub open spec fn sum<T: Add<Output = T>, U: PartialEq>(
    a: Quantity<T, U>,
    b: Quantity<T, U>,
) -> Quantity<T, U> {
    match (a, b) {
        (Some((x, unit_x)), Some((y, unit_y))) => if unit_x.eq_spec(&unit_y) {
            Some((x.add_spec(y), unit_x))
        } else {
            None
        },
        _ => None,
    }
}

/// The difference of two quantities: void unless both are present with equal
/// units.
pub open spec fn difference<T: Sub<Output = T>, U: PartialEq>(
    a: Quantity<T, U>,
    b: Quantity<T, U>,
) -> Quantity<T, U> {
    match (a, b) {
        (Some((x, unit_x)), Some((y, unit_y))) => if unit_x.eq_spec(&unit_y) {
            Some((x.sub_spec(y), unit_x))
        } else {
            None
        },
        _ => None,
    }
}

/// The product of two quantities: magnitudes multiply and exponents add.
pub open spec fn product<T: Mul<Output = T>, U: Add<Output = U>>(
    a: Quantity<T, U>,
    b: Quantity<T, U>,
) -> Quantity<T, U> {
    match (a, b) {
        (Some((x, unit_x)), Some((y, unit_y))) => Some((x.mul_spec(y), unit_x.mul_spec(unit_y))),
        _ => None,
    }
}

/// The quotient of two quantities: magnitudes divide and exponents subtract.
pub open spec fn quotient<T: Div<Output = T>, U: Sub<Output = U>>(
    a: Quantity<T, U>,
    b: Quantity<T, U>,
) -> Quantity<T, U> {
    match (a, b) {
        (Some((x, unit_x)), Some((y, unit_y))) => Some((x.div_spec(y), unit_x.div_spec(unit_y))),
        _ => None,
    }
}

impl<T: Add<Output = T>, U: PartialEq> Add for SiValue<T, U> {
    type Output = SiValue<T, U>;

    /// The sum of two quantities of equal units. Void if an operand is void
    /// or the units differ.
    fn add(self, rhs: Self) -> (total: SiValue<T, U>)
        ensures
            match (self@, rhs@) {
                (Some((a, unit_a)), Some((b, unit_b))) => match total@ {
                    Some((magnitude, unit)) => call_ensures(T::add, (a, b), magnitude) && unit
                        == unit_a && unit_a.compares_to(unit_b, true),
                    None => unit_a.compares_to(unit_b, false),
                },
                _ => total@ is None,
            },
            T::obeys_add_spec() && U::obeys_eq_spec() ==> total@ == sum(self@, rhs@),
    {
        proof {
            use_type_invariant(&self);
            use_type_invariant(&rhs);
        }
        match (self.value, self.unit, rhs.value, rhs.unit) {
            (Some(a), Some(unit_a), Some(b), Some(unit_b)) => {
                if unit_a == unit_b {
                    SiValue { value: Some(a + b), unit: Some(unit_a) }
                } else {
                    SiValue::default()
                }
            },
            _ => SiValue::default(),
        }
    }
}

impl<T: Add<Output = T>, U: PartialEq> vstd::std_specs::ops::AddSpecImpl for SiValue<T, U> {
    open spec fn obeys_add_spec() -> bool {
        T::obeys_add_spec() && U::obeys_eq_spec()
    }

    /// The magnitudes can be added wherever the units may compare equal.
    open spec fn add_req(self, rhs: Self) -> bool {
        match (self@, rhs@) {
            (Some((a, unit_a)), Some((b, unit_b))) => (U::obeys_eq_spec() ==> unit_a.eq_spec(
                &unit_b,
            )) ==> a.add_req(b),
            _ => true,
        }
    }

    open spec fn add_spec(self, rhs: Self) -> SiValue<T, U> {
        Self::of(sum(self@, rhs@))
    }
}

impl<T: Sub<Output = T>, U: PartialEq> Sub for SiValue<T, U> {
    type Output = SiValue<T, U>;

    /// The difference of two quantities of equal units. Void if an operand is
    /// void or the units differ.
    fn sub(self, rhs: Self) -> (rest: SiValue<T, U>)
        ensures
            match (self@, rhs@) {
                (Some((a, unit_a)), Some((b, unit_b))) => match rest@ {
                    Some((magnitude, unit)) => call_ensures(T::sub, (a, b), magnitude) && unit
                        == unit_a && unit_a.compares_to(unit_b, true),
                    None => unit_a.compares_to(unit_b, false),
                },
                _ => rest@ is None,
            },
            T::obeys_sub_spec() && U::obeys_eq_spec() ==> rest@ == difference(self@, rhs@),
    {
        proof {
            use_type_invariant(&self);
            use_type_invariant(&rhs);
        }
        match (self.value, self.unit, rhs.value, rhs.unit) {
            (Some(a), Some(unit_a), Some(b), Some(unit_b)) => {
                if unit_a == unit_b {
                    SiValue { value: Some(a - b), unit: Some(unit_a) }
                } else {
                    SiValue::default()
                }
            },
            _ => SiValue::default(),
        }
    }
}

impl<T: Sub<Output = T>, U: PartialEq> vstd::std_specs::ops::SubSpecImpl for SiValue<T, U> {
    open spec fn obeys_sub_spec() -> bool {
        T::obeys_sub_spec() && U::obeys_eq_spec()
    }

    /// The magnitudes can be subtracted wherever the units may compare equal.
    open spec fn sub_req(self, rhs: Self) -> bool {
        match (self@, rhs@) {
            (Some((a, unit_a)), Some((b, unit_b))) => (U::obeys_eq_spec() ==> unit_a.eq_spec(
                &unit_b,
            )) ==> a.sub_req(b),
            _ => true,
        }
    }

    open spec fn sub_spec(self, rhs: Self) -> SiValue<T, U> {
        Self::of(difference(self@, rhs@))
    }
}

impl<T: Mul<Output = T>, U: Add<Output = U>> Mul for SiValue<T, U> {
    type Output = SiValue<T, U>;

    /// The product of two quantities, whatever their units. Void if an
    /// operand is void.
    fn mul(self, rhs: Self) -> (total: SiValue<T, U>)
        ensures
            match (self@, rhs@) {
                (Some((a, unit_a)), Some((b, unit_b))) => total@ matches Some((magnitude, unit))
                    && call_ensures(T::mul, (a, b), magnitude) && unit_a.multiplies_to(
                    unit_b,
                    unit,
                ),
                _ => total@ is None,
            },
            T::obeys_mul_spec() && U::obeys_add_spec() ==> total@ == product(self@, rhs@),
    {
        proof {
            use_type_invariant(&self);
            use_type_invariant(&rhs);
        }
        match (self.value, self.unit, rhs.value, rhs.unit) {
            (Some(a), Some(unit_a), Some(b), Some(unit_b)) => SiValue {
                value: Some(a * b),
                unit: Some(unit_a * unit_b),
            },
            _ => SiValue::default(),
        }
    }
}

impl<T: Mul<Output = T>, U: Add<Output = U>> vstd::std_specs::ops::MulSpecImpl for SiValue<T, U> {
    open spec fn obeys_mul_spec() -> bool {
        T::obeys_mul_spec() && U::obeys_add_spec()
    }

    /// The magnitudes can be multiplied and the exponents added.
    open spec fn mul_req(self, rhs: Self) -> bool {
        match (self@, rhs@) {
            (Some((a, unit_a)), Some((b, unit_b))) => a.mul_req(b) && MulSpec::mul_req(
                unit_a,
                unit_b,
            ),
            _ => true,
        }
    }

    open spec fn mul_spec(self, rhs: Self) -> SiValue<T, U> {
        Self::of(product(self@, rhs@))
    }
}

impl<T: Div<Output = T>, U: Sub<Output = U>> Div for SiValue<T, U> {
    type Output = SiValue<T, U>;

    /// The quotient of two quantities, whatever their units. Void if an
    /// operand is void.
    fn div(self, rhs: Self) -> (ratio: SiValue<T, U>)
        ensures
            match (self@, rhs@) {
                (Some((a, unit_a)), Some((b, unit_b))) => ratio@ matches Some((magnitude, unit))
                    && call_ensures(T::div, (a, b), magnitude) && unit_a.divides_to(
                    unit_b,
                    unit,
                ),
                _ => ratio@ is None,
            },
            T::obeys_div_spec() && U::obeys_sub_spec() ==> ratio@ == quotient(self@, rhs@),
    {
        proof {
            use_type_invariant(&self);
            use_type_invariant(&rhs);
        }
        match (self.value, self.unit, rhs.value, rhs.unit) {
            (Some(a), Some(unit_a), Some(b), Some(unit_b)) => SiValue {
                value: Some(a / b),
                unit: Some(unit_a / unit_b),
            },
            _ => SiValue::default(),
        }
    }
}

impl<T: Div<Output = T>, U: Sub<Output = U>> vstd::std_specs::ops::DivSpecImpl for SiValue<T, U> {
    open spec fn obeys_div_spec() -> bool {
        T::obeys_div_spec() && U::obeys_sub_spec()
    }

    /// The magnitudes can be divided and the exponents subtracted.
    open spec fn div_req(self, rhs: Self) -> bool {
        match (self@, rhs@) {
            (Some((a, unit_a)), Some((b, unit_b))) => a.div_req(b) && DivSpec::div_req(
                unit_a,
                unit_b,
            ),
            _ => true,
        }
    }

    open spec fn div_spec(self, rhs: Self) -> SiValue<T, U> {
        Self::of(quotient(self@, rhs@))
    }
}

} // verus!
