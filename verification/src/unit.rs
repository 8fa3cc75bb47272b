//! Units: the exponents of the seven base dimensions.

use crate::symbol::SiBase;
use core::ops::{Add, Div, Mul, Sub};
use vstd::prelude::*;
use vstd::std_specs::cmp::PartialEqSpec;
use vstd::std_specs::convert::IntoSpec;
use vstd::std_specs::ops::{AddSpec, SubSpec};

verus! {

/// The exponents of the seven SI base dimensions, in the order in which the
/// text form lists them.
#[derive(Clone, Copy, Debug)]
pub struct SiUnit<T> {
    pub length: T,
    pub mass: T,
    pub time: T,
    pub temperature: T,
    pub current: T,
    pub amount: T,
    pub luminous_intensity: T,
}

impl<T> SiUnit<T> {
    /// The unit of the seven exponents.
    pub fn new(
        length: T,
        mass: T,
        time: T,
        temperature: T,
        current: T,
        amount: T,
        luminous_intensity: T,
    ) -> (unit: SiUnit<T>)
        ensures
            unit == (SiUnit { length, mass, time, temperature, current, amount, luminous_intensity }),
    {
        SiUnit { length, mass, time, temperature, current, amount, luminous_intensity }
    }

    /// `self` with `exponent` for `base`.
    pub open spec fn with(self, base: SiBase, exponent: T) -> SiUnit<T> {
        match base {
            SiBase::Length => SiUnit { length: exponent, ..self },
            SiBase::Mass => SiUnit { mass: exponent, ..self },
            SiBase::Time => SiUnit { time: exponent, ..self },
            SiBase::Temperature => SiUnit { temperature: exponent, ..self },
            SiBase::Current => SiUnit { current: exponent, ..self },
            SiBase::Amount => SiUnit { amount: exponent, ..self },
            SiBase::LuminousIntensity => SiUnit { luminous_intensity: exponent, ..self },
        }
    }

    /// Replaces the exponent of `base`.
    pub fn set(self, base: SiBase, exponent: T) -> (unit: SiUnit<T>)
        ensures
            unit == self.with(base, exponent),
    {
        let mut unit = self;
        match base {
            SiBase::Length => { unit.length = exponent; },
            SiBase::Mass => { unit.mass = exponent; },
            SiBase::Time => { unit.time = exponent; },
            SiBase::Temperature => { unit.temperature = exponent; },
            SiBase::Current => { unit.current = exponent; },
            SiBase::Amount => { unit.amount = exponent; },
            SiBase::LuminousIntensity => { unit.luminous_intensity = exponent; },
        }
        unit
    }

    /// The same vector in another exponent type, each exponent converted by
    /// `Into`.
    pub open spec fn converted<W>(self) -> SiUnit<W> where T: Into<W> {
        SiUnit {
            length: self.length.into_spec(),
            mass: self.mass.into_spec(),
            time: self.time.into_spec(),
            temperature: self.temperature.into_spec(),
            current: self.current.into_spec(),
            amount: self.amount.into_spec(),
            luminous_intensity: self.luminous_intensity.into_spec(),
        }
    }

    /// Every exponent of `unit` is what `Into` may make of that of `self`.
    pub open spec fn converts_to<W>(self, unit: SiUnit<W>) -> bool where T: Into<W> {
        &&& call_ensures(T::into, (self.length,), unit.length)
        &&& call_ensures(T::into, (self.mass,), unit.mass)
        &&& call_ensures(T::into, (self.time,), unit.time)
        &&& call_ensures(T::into, (self.temperature,), unit.temperature)
        &&& call_ensures(T::into, (self.current,), unit.current)
        &&& call_ensures(T::into, (self.amount,), unit.amount)
        &&& call_ensures(T::into, (self.luminous_intensity,), unit.luminous_intensity)
    }

    /// Converts every exponent into `W`.
    pub fn si_into<W>(self) -> (unit: SiUnit<W>) where T: Into<W>
        ensures
            self.converts_to(unit),
            T::obeys_into_spec() ==> unit == self.converted::<W>(),
    {
        SiUnit {
            length: self.length.into(),
            mass: self.mass.into(),
            time: self.time.into(),
            temperature: self.temperature.into(),
            current: self.current.into(),
            amount: self.amount.into(),
            luminous_intensity: self.luminous_intensity.into(),
        }
    }
}

impl<T: Default> SiUnit<T> {
    /// Every exponent of `self` is a value that `T::default` may return.
    pub open spec fn is_default(self) -> bool {
        &&& call_ensures(T::default, (), self.length)
        &&& call_ensures(T::default, (), self.mass)
        &&& call_ensures(T::default, (), self.time)
        &&& call_ensures(T::default, (), self.temperature)
        &&& call_ensures(T::default, (), self.current)
        &&& call_ensures(T::default, (), self.amount)
        &&& call_ensures(T::default, (), self.luminous_intensity)
    }
}

impl<T: Default> Default for SiUnit<T> {
    /// The dimensionless vector: every exponent is the default of `T`.
    fn default() -> (unit: Self)
        ensures
            unit.is_default(),
    {
        SiUnit {
            length: T::default(),
            mass: T::default(),
            time: T::default(),
            temperature: T::default(),
            current: T::default(),
            amount: T::default(),
            luminous_intensity: T::default(),
        }
    }
}

impl<T: PartialEq> SiUnit<T> {
    /// `same` is what comparing the exponents pair by pair may come to: all
    /// seven pairs compare equal, or one of them compares unequal.
    pub open spec fn compares_to(self, other: Self, same: bool) -> bool {
        if same {
            &&& call_ensures(T::eq, (&self.length, &other.length), true)
            &&& call_ensures(T::eq, (&self.mass, &other.mass), true)
            &&& call_ensures(T::eq, (&self.time, &other.time), true)
            &&& call_ensures(T::eq, (&self.temperature, &other.temperature), true)
            &&& call_ensures(T::eq, (&self.current, &other.current), true)
            &&& call_ensures(T::eq, (&self.amount, &other.amount), true)
            &&& call_ensures(T::eq, (&self.luminous_intensity, &other.luminous_intensity), true)
        } else {
            ||| call_ensures(T::eq, (&self.length, &other.length), false)
            ||| call_ensures(T::eq, (&self.mass, &other.mass), false)
            ||| call_ensures(T::eq, (&self.time, &other.time), false)
            ||| call_ensures(T::eq, (&self.temperature, &other.temperature), false)
            ||| call_ensures(T::eq, (&self.current, &other.current), false)
            ||| call_ensures(T::eq, (&self.amount, &other.amount), false)
            ||| call_ensures(T::eq, (&self.luminous_intensity, &other.luminous_intensity), false)
        }
    }
}

impl<T: PartialEq> PartialEq for SiUnit<T> {
    /// Whether all seven exponents are equal.
    fn eq(&self, other: &Self) -> (same: bool)
        ensures
            self.compares_to(*other, same),
    {
        self.length == other.length && self.mass == other.mass && self.time == other.time
            && self.temperature == other.temperature && self.current == other.current
            && self.amount == other.amount && self.luminous_intensity
            == other.luminous_intensity
    }
}

impl<T: PartialEq> vstd::std_specs::cmp::PartialEqSpecImpl for SiUnit<T> {
    open spec fn obeys_eq_spec() -> bool {
        T::obeys_eq_spec()
    }

    /// Two vectors are equal when all seven exponents are.
    open spec fn eq_spec(&self, other: &Self) -> bool {
        &&& self.length.eq_spec(&other.length)
        &&& self.mass.eq_spec(&other.mass)
        &&& self.time.eq_spec(&other.time)
        &&& self.temperature.eq_spec(&other.temperature)
        &&& self.current.eq_spec(&other.current)
        &&& self.amount.eq_spec(&other.amount)
        &&& self.luminous_intensity.eq_spec(&other.luminous_intensity)
    }
}

impl<T: Add<Output = T>> SiUnit<T> {
    /// Every exponent of `unit` is what adding those of `self` and `rhs` may
    /// give.
    pub open spec fn multiplies_to(self, rhs: Self, unit: Self) -> bool {
        &&& call_ensures(T::add, (rhs.length, self.length), unit.length)
        &&& call_ensures(T::add, (rhs.mass, self.mass), unit.mass)
        &&& call_ensures(T::add, (rhs.time, self.time), unit.time)
        &&& call_ensures(T::add, (rhs.temperature, self.temperature), unit.temperature)
        &&& call_ensures(T::add, (rhs.current, self.current), unit.current)
        &&& call_ensures(T::add, (rhs.amount, self.amount), unit.amount)
        &&& call_ensures(T::add, (rhs.luminous_intensity, self.luminous_intensity), unit.luminous_intensity)
    }
}

impl<T: Add<Output = T>> Mul for SiUnit<T> {
    type Output = SiUnit<T>;

    /// The unit of a product: exponents add.
    fn mul(self, rhs: Self) -> (unit: SiUnit<T>)
        ensures
            self.multiplies_to(rhs, unit),
    {
        SiUnit {
            length: rhs.length + self.length,
            mass: rhs.mass + self.mass,
            time: rhs.time + self.time,
            temperature: rhs.temperature + self.temperature,
            current: rhs.current + self.current,
            amount: rhs.amount + self.amount,
            luminous_intensity: rhs.luminous_intensity + self.luminous_intensity,
        }
    }
}

impl<T: Add<Output = T>> vstd::std_specs::ops::MulSpecImpl for SiUnit<T> {
    open spec fn obeys_mul_spec() -> bool {
        T::obeys_add_spec()
    }

    /// Each pair of exponents can be added.
    open spec fn mul_req(self, rhs: Self) -> bool {
        &&& rhs.length.add_req(self.length)
        &&& rhs.mass.add_req(self.mass)
        &&& rhs.time.add_req(self.time)
        &&& rhs.temperature.add_req(self.temperature)
        &&& rhs.current.add_req(self.current)
        &&& rhs.amount.add_req(self.amount)
        &&& rhs.luminous_intensity.add_req(self.luminous_intensity)
    }

    open spec fn mul_spec(self, rhs: Self) -> SiUnit<T> {
        SiUnit {
            length: rhs.length.add_spec(self.length),
            mass: rhs.mass.add_spec(self.mass),
            time: rhs.time.add_spec(self.time),
            temperature: rhs.temperature.add_spec(self.temperature),
            current: rhs.current.add_spec(self.current),
            amount: rhs.amount.add_spec(self.amount),
            luminous_intensity: rhs.luminous_intensity.add_spec(self.luminous_intensity),
        }
    }
}

impl<T: Sub<Output = T>> SiUnit<T> {
    /// Every exponent of `unit` is what subtracting that of `rhs` from that
    /// of `self` may give.
    pub open spec fn divides_to(self, rhs: Self, unit: Self) -> bool {
        &&& call_ensures(T::sub, (self.length, rhs.length), unit.length)
        &&& call_ensures(T::sub, (self.mass, rhs.mass), unit.mass)
        &&& call_ensures(T::sub, (self.time, rhs.time), unit.time)
        &&& call_ensures(T::sub, (self.temperature, rhs.temperature), unit.temperature)
        &&& call_ensures(T::sub, (self.current, rhs.current), unit.current)
        &&& call_ensures(T::sub, (self.amount, rhs.amount), unit.amount)
        &&& call_ensures(T::sub, (self.luminous_intensity, rhs.luminous_intensity), unit.luminous_intensity)
    }
}

impl<T: Sub<Output = T>> Div for SiUnit<T> {
    type Output = SiUnit<T>;

    /// The unit of a quotient: exponents subtract.
    fn div(self, rhs: Self) -> (unit: SiUnit<T>)
        ensures
            self.divides_to(rhs, unit),
    {
        SiUnit {
            length: self.length - rhs.length,
            mass: self.mass - rhs.mass,
            time: self.time - rhs.time,
            temperature: self.temperature - rhs.temperature,
            current: self.current - rhs.current,
            amount: self.amount - rhs.amount,
            luminous_intensity: self.luminous_intensity - rhs.luminous_intensity,
        }
    }
}

impl<T: Sub<Output = T>> vstd::std_specs::ops::DivSpecImpl for SiUnit<T> {
    open spec fn obeys_div_spec() -> bool {
        T::obeys_sub_spec()
    }

    /// Each pair of exponents can be subtracted.
    open spec fn div_req(self, rhs: Self) -> bool {
        &&& self.length.sub_req(rhs.length)
        &&& self.mass.sub_req(rhs.mass)
        &&& self.time.sub_req(rhs.time)
        &&& self.temperature.sub_req(rhs.temperature)
        &&& self.current.sub_req(rhs.current)
        &&& self.amount.sub_req(rhs.amount)
        &&& self.luminous_intensity.sub_req(rhs.luminous_intensity)
    }

    open spec fn div_spec(self, rhs: Self) -> SiUnit<T> {
        SiUnit {
            length: self.length.sub_spec(rhs.length),
            mass: self.mass.sub_spec(rhs.mass),
            time: self.time.sub_spec(rhs.time),
            temperature: self.temperature.sub_spec(rhs.temperature),
            current: self.current.sub_spec(rhs.current),
            amount: self.amount.sub_spec(rhs.amount),
            luminous_intensity: self.luminous_intensity.sub_spec(rhs.luminous_intensity),
        }
    }
}

} // verus!
