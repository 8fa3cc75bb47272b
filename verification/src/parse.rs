//! Reading units and values from text.

use crate::chars::{find, find_in, lemma_find_from, to_chars};
use crate::decimal::{integer_reading, read_integer};
use crate::error::SiParseError;
use crate::grammar::{
    assemble, body_of, entries_give, entry, gap, note_of, notes_of, opening, pieces, read_entries,
    reads, Note,
};
use crate::integer::SiInteger;
use crate::symbol::{base_of, SiBase};
use crate::unit::SiUnit;
use crate::value::{Quantity, SiValue};
use vstd::prelude::*;
use vstd::std_specs::convert::TryFromSpecImpl;
use vstd::string::StrSliceExecFns;

verus! {

/// What one piece says when its exponent is read as an integer of type `U`.
pub open spec fn integer_note<U: SiInteger>(piece: Seq<char>) -> Note<U> {
    match entry(piece) {
        Some((name, exponent)) => (base_of(name), integer_reading::<U>(exponent)),
        None => (None, Err(SiParseError::InvalidValueLayout)),
    }
}

/// The vector whose exponents are all zero.
pub open spec fn zero_unit<U: SiInteger>() -> SiUnit<U> {
    SiUnit {
        length: U::of_int(0),
        mass: U::of_int(0),
        time: U::of_int(0),
        temperature: U::of_int(0),
        current: U::of_int(0),
        amount: U::of_int(0),
        luminous_intensity: U::of_int(0),
    }
}

/// The unit that the entries after the opening parenthesis denote, with
/// integer exponents: the dimensions that no entry names have exponent zero,
/// and of two entries that name the same dimension the later one counts.
pub open spec fn unit_of_entries<U: SiInteger>(rest: Seq<char>) -> Result<SiUnit<U>, SiParseError> {
    assemble(pieces(body_of(rest)).map_values(|piece: Seq<char>| integer_note::<U>(piece)), zero_unit())
}

/// The unit that `text` denotes, with integer exponents. The entries start
/// after the first opening parenthesis; a text without one breaks the layout.
pub open spec fn unit_of_text<U: SiInteger>(text: Seq<char>) -> Result<SiUnit<U>, SiParseError> {
    match find(text, opening()) {
        Some(i) => unit_of_entries(text.skip(i + 1)),
        None => Err(SiParseError::InvalidValueLayout),
    }
}

/// The quantity that a magnitude and a unit make, as they were read: a
/// magnitude that could not be read breaks the layout, whatever the reason.
pub open spec fn quantity_read<T, U>(
    magnitude: Result<T, SiParseError>,
    unit: Result<SiUnit<U>, SiParseError>,
) -> Result<Quantity<T, U>, SiParseError> {
    match magnitude {
        Ok(value) => match unit {
            Ok(unit) => Ok(Some((value, unit))),
            Err(error) => Err(error),
        },
        Err(_) => Err(SiParseError::InvalidValueLayout),
    }
}

/// The quantity that `text` denotes, with an integer magnitude and integer
/// exponents. The magnitude stands before the first space that an opening
/// parenthesis follows, the entries of the unit after that parenthesis.
pub open spec fn quantity_of_text<T: SiInteger, U: SiInteger>(text: Seq<char>) -> Result<
    Quantity<T, U>,
    SiParseError,
> {
    match find(text, gap()) {
        Some(i) => match integer_reading::<T>(text.take(i)) {
            Ok(value) => quantity_read(Ok(value), unit_of_entries::<U>(text.skip(i + 2))),
            Err(_) => Err(SiParseError::InvalidValueLayout),
        },
        None => Err(SiParseError::InvalidValueLayout),
    }
}

/// What a parser returned, as a quantity.
pub open spec fn quantity_parsed<T, U>(parsed: Result<SiValue<T, U>, SiParseError>) -> Result<
    Quantity<T, U>,
    SiParseError,
> {
    match parsed {
        Ok(value) => Ok(value@),
        Err(error) => Err(error),
    }
}

/// With a reader that reads integers, the entries give the unit that they
/// denote.
pub proof fn lemma_integer_entries<U: SiInteger, F: Fn(&str) -> Result<U, SiParseError>>(
    read: F,
    rest: Seq<char>,
    unit: Result<SiUnit<U>, SiParseError>,
)
    requires
        forall|s: &str, reading: Result<U, SiParseError>|
            call_ensures(read, (s,), reading) ==> reading == integer_reading::<U>(s@),
        entries_give(read, rest, unit),
    ensures
        unit == unit_of_entries::<U>(rest),
{
    let (notes, blank): (Seq<Note<U>>, SiUnit<U>) = choose|
        notes: Seq<Note<U>>,
        blank: SiUnit<U>,
    |
        {
            &&& blank.is_default()
            &&& notes_of(read, pieces(body_of(rest)), notes)
            &&& unit == assemble(notes, blank)
        };
    let parts = pieces(body_of(rest));
    let exact = parts.map_values(|piece: Seq<char>| integer_note::<U>(piece));
    assert forall|i: int| 0 <= i < parts.len() implies notes[i] == exact[i] by {
        assert(note_of(read, parts[i], notes[i]));
    }
    assert(notes =~= exact);
    U::lemma_exact(blank.length, blank.length);
    U::lemma_exact(blank.mass, blank.mass);
    U::lemma_exact(blank.time, blank.time);
    U::lemma_exact(blank.temperature, blank.temperature);
    U::lemma_exact(blank.current, blank.current);
    U::lemma_exact(blank.amount, blank.amount);
    U::lemma_exact(blank.luminous_intensity, blank.luminous_intensity);
    U::lemma_faithful(blank.length, 0);
    U::lemma_faithful(blank.mass, 0);
    U::lemma_faithful(blank.time, 0);
    U::lemma_faithful(blank.temperature, 0);
    U::lemma_faithful(blank.current, 0);
    U::lemma_faithful(blank.amount, 0);
    U::lemma_faithful(blank.luminous_intensity, 0);
    assert(blank == zero_unit::<U>());
}

impl<U: Default> SiUnit<U> {
    /// Reads a unit from `text`, with `read` to read the exponents. The
    /// entries start after the first opening parenthesis; a text without one
    /// breaks the layout.
    pub fn parse_with<F: Fn(&str) -> Result<U, SiParseError>>(text: &str, read: F) -> (unit: Result<
        SiUnit<U>,
        SiParseError,
    >)
        requires
            forall|s: &str| call_requires(read, (s,)),
        ensures
            match find(text@, opening()) {
                Some(i) => entries_give(read, text@.skip(i + 1), unit),
                None => unit == Err::<SiUnit<U>, SiParseError>(SiParseError::InvalidValueLayout),
            },
    {
        let chars = to_chars(text);
        let pattern: Vec<char> = vec!['('];
        assert(pattern@ == opening());
        assert(chars@.subrange(0, chars@.len() as int) == text@);
        match find_in(&chars, &pattern, 0, chars.len()) {
            Some(i) => {
                proof {
                    lemma_find_from(text@, opening(), 0);
                }
                read_entries(text, &chars, i + 1, read)
            },
            None => Err(SiParseError::InvalidValueLayout),
        }
    }
}

impl<'a, U: SiInteger> TryFrom<&'a str> for SiUnit<U> {
    type Error = SiParseError;

    /// Reads a unit with integer exponents.
    fn try_from(text: &'a str) -> (unit: Result<SiUnit<U>, SiParseError>) {
        let read = |s: &str| -> (reading: Result<U, SiParseError>)
            ensures
                reading == integer_reading::<U>(s@),
            { read_integer::<U>(s) };
        let unit = SiUnit::parse_with(text, read);
        proof {
            if let Some(i) = find(text@, opening()) {
                lemma_integer_entries(read, text@.skip(i + 1), unit);
            }
        }
        unit
    }
}

impl<'a, U: SiInteger> TryFromSpecImpl<&'a str> for SiUnit<U> {
    open spec fn obeys_try_from_spec() -> bool {
        true
    }

    /// The unit that the text denotes.
    open spec fn try_from_spec(text: &'a str) -> Result<SiUnit<U>, SiParseError> {
        unit_of_text(text@)
    }
}

impl<U: SiInteger> TryFrom<String> for SiUnit<U> {
    type Error = SiParseError;

    /// Reads a unit with integer exponents.
    fn try_from(text: String) -> (unit: Result<SiUnit<U>, SiParseError>) {
        SiUnit::try_from(text.as_str())
    }
}

impl<U: SiInteger> TryFromSpecImpl<String> for SiUnit<U> {
    open spec fn obeys_try_from_spec() -> bool {
        true
    }

    /// The unit that the text denotes.
    open spec fn try_from_spec(text: String) -> Result<SiUnit<U>, SiParseError> {
        unit_of_text(text@)
    }
}

impl<T, U: Default> SiValue<T, U> {
    /// Reads a value from `text`, with `read_magnitude` to read what stands
    /// before the first space that an opening parenthesis follows, and
    /// `read_exponent` to read the exponents of the entries after it. A text
    /// without that space and parenthesis breaks the layout, and so does a
    /// magnitude that cannot be read.
    pub fn parse_with<M: Fn(&str) -> Result<T, SiParseError>, F: Fn(&str) -> Result<
        U,
        SiParseError,
    >>(text: &str, read_magnitude: M, read_exponent: F) -> (value: Result<
        SiValue<T, U>,
        SiParseError,
    >)
        requires
            forall|s: &str| call_requires(read_magnitude, (s,)),
            forall|s: &str| call_requires(read_exponent, (s,)),
        ensures
            match find(text@, gap()) {
                Some(i) => exists|magnitude: Result<T, SiParseError>|
                    {
                        &&& reads(read_magnitude, text@.take(i), magnitude)
                        &&& match magnitude {
                            Ok(_) => exists|unit: Result<SiUnit<U>, SiParseError>|
                                {
                                    &&& entries_give(read_exponent, text@.skip(i + 2), unit)
                                    &&& quantity_parsed(value) == quantity_read(magnitude, unit)
                                },
                            Err(_) => quantity_parsed(value) == Err::<
                                Quantity<T, U>,
                                SiParseError,
                            >(SiParseError::InvalidValueLayout),
                        }
                    },
                None => quantity_parsed(value) == Err::<Quantity<T, U>, SiParseError>(
                    SiParseError::InvalidValueLayout,
                ),
            },
            value matches Ok(quantity) ==> quantity == SiValue::of(quantity@),
    {
        let chars = to_chars(text);
        let pattern: Vec<char> = vec![' ', '('];
        assert(pattern@ == gap());
        assert(chars@.subrange(0, chars@.len() as int) == text@);
        match find_in(&chars, &pattern, 0, chars.len()) {
            Some(i) => {
                proof {
                    lemma_find_from(text@, gap(), 0);
                    assert(text@.take(i as int) == text@.subrange(0, i as int));
                }
                let magnitude = read_magnitude(text.substring_char(0, i));
                let ghost magnitude_read = magnitude;
                assert(reads(read_magnitude, text@.take(i as int), magnitude_read));
                match magnitude {
                    Ok(amount) => {
                        let unit = read_entries(text, &chars, i + 2, read_exponent);
                        let ghost unit_read = unit;
                        let value = match unit {
                            Ok(unit) => Ok(SiValue::with_unit(amount, unit)),
                            Err(error) => Err(error),
                        };
                        assert(entries_give(read_exponent, text@.skip(i + 2), unit_read)
                            && quantity_parsed(value) == quantity_read(magnitude_read, unit_read));
                        value
                    },
                    Err(_) => Err(SiParseError::InvalidValueLayout),
                }
            },
            None => Err(SiParseError::InvalidValueLayout),
        }
    }
}

impl<T: SiInteger, U: SiInteger> TryFrom<String> for SiValue<T, U> {
    type Error = SiParseError;

    /// Reads a value with an integer magnitude and integer exponents.
    fn try_from(text: String) -> (value: Result<SiValue<T, U>, SiParseError>)
        ensures
            quantity_parsed(value) == quantity_of_text::<T, U>(text@),
    {
        let read_magnitude = |s: &str| -> (reading: Result<T, SiParseError>)
            ensures
                reading == integer_reading::<T>(s@),
            { read_integer::<T>(s) };
        let read_exponent = |s: &str| -> (reading: Result<U, SiParseError>)
            ensures
                reading == integer_reading::<U>(s@),
            { read_integer::<U>(s) };
        let value = SiValue::parse_with(text.as_str(), read_magnitude, read_exponent);
        proof {
            if let Some(i) = find(text@, gap()) {
                let magnitude = choose|magnitude: Result<T, SiParseError>|
                    {
                        &&& reads(read_magnitude, text@.take(i), magnitude)
                        &&& match magnitude {
                            Ok(_) => exists|unit: Result<SiUnit<U>, SiParseError>|
                                {
                                    &&& entries_give(read_exponent, text@.skip(i + 2), unit)
                                    &&& quantity_parsed(value) == quantity_read(magnitude, unit)
                                },
                            Err(_) => quantity_parsed(value) == Err::<
                                Quantity<T, U>,
                                SiParseError,
                            >(SiParseError::InvalidValueLayout),
                        }
                    };
                assert(magnitude == integer_reading::<T>(text@.take(i)));
                if magnitude is Ok {
                    let unit = choose|unit: Result<SiUnit<U>, SiParseError>|
                        {
                            &&& entries_give(read_exponent, text@.skip(i + 2), unit)
                            &&& quantity_parsed(value) == quantity_read(magnitude, unit)
                        };
                    lemma_integer_entries(read_exponent, text@.skip(i + 2), unit);
                }
            }
        }
        value
    }
}

impl<T: SiInteger, U: SiInteger> TryFromSpecImpl<String> for SiValue<T, U> {
    open spec fn obeys_try_from_spec() -> bool {
        true
    }

    /// The value of the quantity that the text denotes.
    open spec fn try_from_spec(text: String) -> Result<SiValue<T, U>, SiParseError> {
        match quantity_of_text::<T, U>(text@) {
            Ok(quantity) => Ok(SiValue::of(quantity)),
            Err(error) => Err(error),
        }
    }
}

} // verus!
