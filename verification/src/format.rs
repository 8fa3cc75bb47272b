//! Writing units and values as text.

use crate::decimal::{decimal, push_decimal};
use crate::integer::SiInteger;
use crate::symbol::SiBase;
use crate::unit::SiUnit;
use crate::value::SiValue;
use vstd::prelude::*;
use vstd::string::StringExecFns;

verus! {

/// How an exponent or a magnitude is shown: not at all, or by a text.
pub type Shown = Option<Seq<char>>;

/// The entry that the text form has for a dimension: none where the exponent
/// is not shown, else the symbol and the text of the exponent in parentheses,
/// a caret between them.
pub open spec fn entry_of(base: SiBase, exponent: Shown) -> Seq<char> {
    match exponent {
        Some(text) => seq!['('] + base.symbol() + seq!['^'] + text + seq![')'],
        None => Seq::empty(),
    }
}

/// The text form of a unit: the entries of its dimensions, in their fixed
/// order, with nothing between them.
pub open spec fn unit_text_of(unit: SiUnit<Shown>) -> Seq<char> {
    entry_of(SiBase::Length, unit.length) + entry_of(SiBase::Mass, unit.mass) + entry_of(
        SiBase::Time,
        unit.time,
    ) + entry_of(SiBase::Temperature, unit.temperature) + entry_of(SiBase::Current, unit.current)
        + entry_of(SiBase::Amount, unit.amount) + entry_of(
        SiBase::LuminousIntensity,
        unit.luminous_intensity,
    )
}

/// The text that stands for the void value.
pub open spec fn void_text() -> Seq<char> {
    seq!['V', 'a', 'l', 'u', 'e', ' ', 'i', 's', ' ', 'N', 'o', 'n', 'e']
}

/// The text form of a quantity: the magnitude where it is shown, a space, the
/// unit.
pub open spec fn quantity_text_of(quantity: Option<(Shown, SiUnit<Shown>)>) -> Seq<char> {
    match quantity {
        Some((magnitude, unit)) => (match magnitude {
            Some(text) => text,
            None => Seq::empty(),
        }) + seq![' '] + unit_text_of(unit),
        None => void_text(),
    }
}

/// How an integer is shown: zero not at all, any other in decimal notation.
pub open spec fn integer_shown(n: int) -> Shown {
    if n == 0 {
        None
    } else {
        Some(decimal(n))
    }
}

/// The entry of a dimension with an integer exponent.
pub open spec fn entry_text(base: SiBase, exponent: int) -> Seq<char> {
    entry_of(base, integer_shown(exponent))
}

/// The text form of a unit with integer exponents. Dimensions of exponent
/// zero have no entry, so that of a dimensionless unit is empty.
pub open spec fn unit_text(unit: SiUnit<int>) -> Seq<char> {
    entry_text(SiBase::Length, unit.length) + entry_text(SiBase::Mass, unit.mass) + entry_text(
        SiBase::Time,
        unit.time,
    ) + entry_text(SiBase::Temperature, unit.temperature) + entry_text(
        SiBase::Current,
        unit.current,
    ) + entry_text(SiBase::Amount, unit.amount) + entry_text(
        SiBase::LuminousIntensity,
        unit.luminous_intensity,
    )
}

/// The text form of a magnitude: its decimal notation, but nothing at all
/// for zero.
pub open spec fn magnitude_text(magnitude: int) -> Seq<char> {
    match integer_shown(magnitude) {
        Some(text) => text,
        None => Seq::empty(),
    }
}

/// The text form of a quantity of integers: the magnitude, a space, the unit.
pub open spec fn quantity_text(quantity: Option<(int, SiUnit<int>)>) -> Seq<char> {
    match quantity {
        Some((magnitude, unit)) => magnitude_text(magnitude) + seq![' '] + unit_text(unit),
        None => void_text(),
    }
}

/// The unit of a plain number: every exponent is zero.
pub open spec fn dimensionless() -> SiUnit<int> {
    SiUnit {
        length: 0,
        mass: 0,
        time: 0,
        temperature: 0,
        current: 0,
        amount: 0,
        luminous_intensity: 0,
    }
}

/// What `shown` holds, as a text.
pub open spec fn shown_text(shown: Option<String>) -> Shown {
    match shown {
        Some(text) => Some(text@),
        None => None,
    }
}

/// `show` may show `value` as `shown`.
pub open spec fn shows<U, F: Fn(&U) -> Option<String>>(show: F, value: U, shown: Shown) -> bool {
    exists|text: Option<String>| call_ensures(show, (&value,), text) && shown_text(text) == shown
}

/// `shown` is how `show` may show the exponents of `unit`, one by one.
pub open spec fn shows_unit<U, F: Fn(&U) -> Option<String>>(
    show: F,
    unit: SiUnit<U>,
    shown: SiUnit<Shown>,
) -> bool {
    &&& shows(show, unit.length, shown.length)
    &&& shows(show, unit.mass, shown.mass)
    &&& shows(show, unit.time, shown.time)
    &&& shows(show, unit.temperature, shown.temperature)
    &&& shows(show, unit.current, shown.current)
    &&& shows(show, unit.amount, shown.amount)
    &&& shows(show, unit.luminous_intensity, shown.luminous_intensity)
}

/// The symbol of a dimension.
fn symbol_text(base: SiBase) -> (symbol: &'static str)
    ensures
        symbol@ == base.symbol(),
{
    proof {
        reveal_strlit("m");
        reveal_strlit("kg");
        reveal_strlit("s");
        reveal_strlit("k");
        reveal_strlit("A");
        reveal_strlit("mol");
        reveal_strlit("cd");
    }
    let symbol = match base {
        SiBase::Length => "m",
        SiBase::Mass => "kg",
        SiBase::Time => "s",
        SiBase::Temperature => "k",
        SiBase::Current => "A",
        SiBase::Amount => "mol",
        SiBase::LuminousIntensity => "cd",
    };
    assert(symbol@ =~= base.symbol());
    symbol
}

/// Appends the entry of a dimension.
fn push_entry(out: &mut String, base: SiBase, exponent: Option<String>)
    ensures
        final(out)@ == old(out)@ + entry_of(base, shown_text(exponent)),
{
    match exponent {
        Some(text) => {
            proof {
                reveal_strlit("(");
                reveal_strlit("^");
                reveal_strlit(")");
            }
            out.append("(");
            out.append(symbol_text(base));
            out.append("^");
            out.append(text.as_str());
            out.append(")");
            assert("("@ =~= seq!['(']);
            assert("^"@ =~= seq!['^']);
            assert(")"@ =~= seq![')']);
            assert(final(out)@ =~= old(out)@ + entry_of(base, Some(text@)));
        },
        None => {
            assert(old(out)@ =~= old(out)@ + entry_of(base, None));
        },
    }
}

/// Appending is associative.
proof fn lemma_appended(a: Seq<char>, b: Seq<char>, c: Seq<char>)
    ensures
        (a + b) + c == a + (b + c),
{
    assert((a + b) + c =~= a + (b + c));
}

/// Shows an integer: zero not at all, any other in decimal notation.
pub fn show_integer<U: SiInteger>(value: &U) -> (shown: Option<String>)
    ensures
        shown_text(shown) == integer_shown(value.to_int()),
{
    let n = value.widen();
    if n == 0 {
        None
    } else {
        let mut text = String::new();
        push_decimal(n, &mut text);
        assert(text@ =~= decimal(n as int));
        Some(text)
    }
}

impl<U> SiUnit<U> {
    /// Appends the text form of the unit to `out`, with `show` to show the
    /// exponents.
    pub fn write_with<F: Fn(&U) -> Option<String>>(&self, out: &mut String, show: F)
        requires
            forall|value: &U| call_requires(show, (value,)),
        ensures
            exists|shown: SiUnit<Shown>|
                shows_unit(show, *self, shown) && final(out)@ == old(out)@ + unit_text_of(shown),
    {
        let ghost before = out@;
        let length = show(&self.length);
        let mass = show(&self.mass);
        let time = show(&self.time);
        let temperature = show(&self.temperature);
        let current = show(&self.current);
        let amount = show(&self.amount);
        let luminous_intensity = show(&self.luminous_intensity);
        let ghost shown = SiUnit::<Shown> {
            length: shown_text(length),
            mass: shown_text(mass),
            time: shown_text(time),
            temperature: shown_text(temperature),
            current: shown_text(current),
            amount: shown_text(amount),
            luminous_intensity: shown_text(luminous_intensity),
        };
        assert(shows_unit(show, *self, shown));
        let ghost e1 = entry_of(SiBase::Length, shown.length);
        let ghost e2 = entry_of(SiBase::Mass, shown.mass);
        let ghost e3 = entry_of(SiBase::Time, shown.time);
        let ghost e4 = entry_of(SiBase::Temperature, shown.temperature);
        let ghost e5 = entry_of(SiBase::Current, shown.current);
        let ghost e6 = entry_of(SiBase::Amount, shown.amount);
        let ghost e7 = entry_of(SiBase::LuminousIntensity, shown.luminous_intensity);
        push_entry(out, SiBase::Length, length);
        push_entry(out, SiBase::Mass, mass);
        proof {
            lemma_appended(before, e1, e2);
        }
        push_entry(out, SiBase::Time, time);
        proof {
            lemma_appended(before, e1 + e2, e3);
        }
        push_entry(out, SiBase::Temperature, temperature);
        proof {
            lemma_appended(before, e1 + e2 + e3, e4);
        }
        push_entry(out, SiBase::Current, current);
        proof {
            lemma_appended(before, e1 + e2 + e3 + e4, e5);
        }
        push_entry(out, SiBase::Amount, amount);
        proof {
            lemma_appended(before, e1 + e2 + e3 + e4 + e5, e6);
        }
        push_entry(out, SiBase::LuminousIntensity, luminous_intensity);
        proof {
            lemma_appended(before, e1 + e2 + e3 + e4 + e5 + e6, e7);
            assert(out@ == before + unit_text_of(shown));
        }
    }

    /// The text form of the unit, with `show` to show the exponents.
    pub fn format_with<F: Fn(&U) -> Option<String>>(&self, show: F) -> (text: String)
        requires
            forall|value: &U| call_requires(show, (value,)),
        ensures
            exists|shown: SiUnit<Shown>|
                shows_unit(show, *self, shown) && text@ == unit_text_of(shown),
    {
        let mut text = String::new();
        self.write_with(&mut text, show);
        proof {
            let shown = choose|shown: SiUnit<Shown>|
                shows_unit(show, *self, shown) && text@ == Seq::<char>::empty() + unit_text_of(
                    shown,
                );
            assert(Seq::<char>::empty() + unit_text_of(shown) =~= unit_text_of(shown));
        }
        text
    }
}

impl<U: SiInteger> SiUnit<U> {
    /// The integers that the exponents hold.
    pub open spec fn to_ints(self) -> SiUnit<int> {
        SiUnit {
            length: self.length.to_int(),
            mass: self.mass.to_int(),
            time: self.time.to_int(),
            temperature: self.temperature.to_int(),
            current: self.current.to_int(),
            amount: self.amount.to_int(),
            luminous_intensity: self.luminous_intensity.to_int(),
        }
    }

    /// The text form of the unit.
    pub fn to_string(&self) -> (text: String)
        ensures
            text@ == unit_text(self.to_ints()),
    {
        let show = |value: &U| -> (shown: Option<String>)
            ensures
                shown_text(shown) == integer_shown(value.to_int()),
            { show_integer(value) };
        self.format_with(show)
    }
}

impl<T, U> SiValue<T, U> {
    /// The text form of the value, with `show_magnitude` to show the
    /// magnitude and `show_exponent` to show the exponents.
    pub fn format_with<M: Fn(&T) -> Option<String>, F: Fn(&U) -> Option<String>>(
        &self,
        show_magnitude: M,
        show_exponent: F,
    ) -> (text: String)
        requires
            forall|value: &T| call_requires(show_magnitude, (value,)),
            forall|value: &U| call_requires(show_exponent, (value,)),
        ensures
            match self@ {
                Some((magnitude, unit)) => exists|amount: Shown, shown: SiUnit<Shown>|
                    {
                        &&& shows(show_magnitude, magnitude, amount)
                        &&& shows_unit(show_exponent, unit, shown)
                        &&& text@ == quantity_text_of(Some((amount, shown)))
                    },
                None => text@ == void_text(),
            },
    {
        match (self.value(), self.unit()) {
            (Some(magnitude), Some(unit)) => {
                let mut text = String::new();
                let amount = show_magnitude(magnitude);
                let ghost amount_shown = shown_text(amount);
                assert(shows(show_magnitude, *magnitude, amount_shown));
                match amount {
                    Some(amount) => {
                        text.append(amount.as_str());
                    },
                    None => {},
                }
                proof {
                    reveal_strlit(" ");
                }
                text.append(" ");
                assert(" "@ =~= seq![' ']);
                let ghost before = text@;
                unit.write_with(&mut text, show_exponent);
                proof {
                    let shown = choose|shown: SiUnit<Shown>|
                        shows_unit(show_exponent, *unit, shown) && text@ == before + unit_text_of(
                            shown,
                        );
                    assert(text@ =~= quantity_text_of(Some((amount_shown, shown))));
                }
                text
            },
            _ => {
                proof {
                    reveal_strlit("Value is None");
                }
                let text = String::from_str("Value is None");
                assert(text@ =~= void_text());
                text
            },
        }
    }
}

impl<T: SiInteger, U: SiInteger> SiValue<T, U> {
    /// The integers that the magnitude and the exponents hold.
    pub open spec fn to_ints(self) -> Option<(int, SiUnit<int>)> {
        match self@ {
            Some((magnitude, unit)) => Some((magnitude.to_int(), unit.to_ints())),
            None => None,
        }
    }

    /// The text form of the value.
    pub fn to_string(&self) -> (text: String)
        ensures
            text@ == quantity_text(self.to_ints()),
    {
        let show_magnitude = |value: &T| -> (shown: Option<String>)
            ensures
                shown_text(shown) == integer_shown(value.to_int()),
            { show_integer(value) };
        let show_exponent = |value: &U| -> (shown: Option<String>)
            ensures
                shown_text(shown) == integer_shown(value.to_int()),
            { show_integer(value) };
        self.format_with(show_magnitude, show_exponent)
    }
}

} // verus!
