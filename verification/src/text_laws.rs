//! What holds of the text forms: which of them denote again what they were
//! written for, and which errors reading can end in.

use crate::chars::{
    find, is_white_space, lemma_find_from, lemma_find_is, lemma_trimmed_is_same, occurs_at,
    trimmed,
};
use crate::decimal::{decimal, integer_reading, is_digit, lemma_decimal};
use crate::error::SiParseError;
use crate::format::{
    dimensionless, entry_text, magnitude_text, quantity_text, unit_text, void_text,
};
use crate::grammar::{
    assemble, body_of, caret, entry, gap, noted, opening, pieces, seam, Note,
};
use crate::integer::SiInteger;
use crate::parse::{integer_note, quantity_of_text, unit_of_entries, unit_of_text, zero_unit};
use crate::symbol::{base_of, folded, lowered, SiBase};
use crate::unit::SiUnit;
use crate::value::{Quantity, SiValue};
use vstd::prelude::*;
use vstd::utf8::is_ascii_chars;

verus! {

/// A letter of the symbols.
spec fn is_letter(c: char) -> bool {
    'a' <= c <= 'z' || 'A' <= c <= 'Z'
}

/// Every symbol is made of letters, and names its own dimension.
proof fn lemma_symbol(base: SiBase)
    ensures
        base.symbol().len() >= 1,
        forall|i: int| 0 <= i < base.symbol().len() ==> is_letter(#[trigger] base.symbol()[i]),
        base_of(base.symbol()) == Some(base),
{
    let symbol = base.symbol();
    assert(is_ascii_chars(symbol));
    let lower = symbol.map_values(|c: char| lowered(c));
    assert(folded(symbol) == lower);
    match base {
        SiBase::Length => {
            assert(lower =~= seq!['m']);
        },
        SiBase::Mass => {
            assert(lower =~= seq!['k', 'g']);
            assert(lower.len() == 2);
        },
        SiBase::Time => {
            assert(lower =~= seq!['s']);
            assert(lower[0] == 's');
        },
        SiBase::Temperature => {
            assert(lower =~= seq!['k']);
            assert(lower[0] == 'k');
        },
        SiBase::Current => {
            assert(lower =~= seq!['a']);
            assert(lower[0] == 'a');
        },
        SiBase::Amount => {
            assert(lower =~= seq!['m', 'o', 'l']);
            assert(lower.len() == 3);
        },
        SiBase::LuminousIntensity => {
            assert(lower =~= seq!['c', 'd']);
            assert(lower.len() == 2);
            assert(lower[0] == 'c');
        },
    }
    assert(seq!['m'].len() == 1);
    assert(seq!['s'].len() == 1);
    assert(seq!['k'].len() == 1);
    assert(seq!['a'].len() == 1);
    assert(seq!['k', 'g'].len() == 2);
    assert(seq!['c', 'd'].len() == 2);
    assert(seq!['m', 'o', 'l'].len() == 3);
    assert(seq!['m'][0] == 'm');
    assert(seq!['s'][0] == 's');
    assert(seq!['k'][0] == 'k');
    assert(seq!['k', 'g'][0] == 'k');
}

/// What an entry holds between its parentheses: symbol, caret, exponent.
spec fn inner(base: SiBase, exponent: int) -> Seq<char> {
    base.symbol() + caret() + decimal(exponent)
}

/// A part that holds no parenthesis and does not start with white space.
spec fn is_clean(part: Seq<char>) -> bool {
    &&& part.len() > 0
    &&& !is_white_space(part[0])
    &&& forall|i: int| 0 <= i < part.len() ==> part[i] != '(' && part[i] != ')'
}

/// The inside of an entry is clean, and its name and exponent are the symbol
/// and the decimal notation that it was made of.
proof fn lemma_inner(base: SiBase, exponent: int)
    ensures
        is_clean(inner(base, exponent)),
        entry(inner(base, exponent)) == Some((base.symbol(), decimal(exponent))),
{
    let symbol = base.symbol();
    let number = decimal(exponent);
    let whole = inner(base, exponent);
    let at = symbol.len() as int;
    lemma_symbol(base);
    lemma_decimal(exponent);
    assert forall|i: int| 0 <= i < whole.len() implies whole[i] != '(' && whole[i] != ')' by {
        if i < at {
            assert(is_letter(symbol[i]));
        } else if i > at {
            assert(whole[i] == number[i - at - 1]);
            assert(is_digit(number[i - at - 1]) || number[i - at - 1] == '-');
        }
    }
    assert(is_letter(symbol[0]));
    assert(whole[0] == symbol[0]);
    assert(whole.subrange(at, at + 1) =~= caret());
    assert forall|j: int| 0 <= j < at implies !occurs_at(whole, caret(), j) by {
        assert(is_letter(symbol[j]));
        assert(whole.subrange(j, j + 1)[0] == symbol[j]);
    }
    lemma_find_is(whole, caret(), at);
    assert(whole.take(at) =~= symbol);
    assert(whole.skip(at + 1) =~= number);
}

/// The inside of an entry reads as the dimension and the exponent that it was
/// made of.
proof fn lemma_note<U: SiInteger>(base: SiBase, exponent: int)
    requires
        U::holds(exponent),
    ensures
        integer_note::<U>(inner(base, exponent)) == (Some(base), Ok::<U, SiParseError>(U::of_int(exponent))),
{
    lemma_inner(base, exponent);
    lemma_symbol(base);
    lemma_decimal(exponent);
}

/// The parts, each in parentheses, one after the other.
spec fn wrapped(parts: Seq<Seq<char>>) -> Seq<char>
    decreases parts.len(),
{
    if parts.len() == 0 {
        Seq::empty()
    } else {
        seq!['('] + parts[0] + seq![')'] + wrapped(parts.skip(1))
    }
}

/// The parts with a seam between each two of them.
spec fn joined(parts: Seq<Seq<char>>) -> Seq<char>
    decreases parts.len(),
{
    if parts.len() == 0 {
        Seq::empty()
    } else if parts.len() == 1 {
        parts[0]
    } else {
        parts[0] + seam() + joined(parts.skip(1))
    }
}

/// Parts in parentheses are the joined parts in one pair of parentheses.
proof fn lemma_wrapped_is_joined(parts: Seq<Seq<char>>)
    requires
        parts.len() >= 1,
    ensures
        wrapped(parts) == seq!['('] + joined(parts) + seq![')'],
    decreases parts.len(),
{
    let rest = parts.skip(1);
    if parts.len() == 1 {
        assert(wrapped(rest) == Seq::<char>::empty());
        assert(wrapped(parts) =~= seq!['('] + joined(parts) + seq![')']);
    } else {
        lemma_wrapped_is_joined(rest);
        assert(wrapped(parts) =~= seq!['('] + joined(parts) + seq![')']);
    }
}

/// The joined parts start as the first part does.
proof fn lemma_joined_starts(parts: Seq<Seq<char>>)
    requires
        parts.len() >= 1,
        parts[0].len() >= 1,
    ensures
        joined(parts).len() >= 1,
        joined(parts)[0] == parts[0][0],
{
}

/// Clean parts that were joined are the pieces of what they make.
proof fn lemma_pieces_of_joined(parts: Seq<Seq<char>>)
    requires
        forall|i: int| 0 <= i < parts.len() ==> is_clean(#[trigger] parts[i]),
    ensures
        pieces(joined(parts)) == parts,
    decreases parts.len(),
{
    let whole = joined(parts);
    if parts.len() == 0 {
        assert(pieces(whole) =~= parts);
    } else if parts.len() == 1 {
        assert(is_clean(parts[0]));
        lemma_find_from(whole, seam(), 0);
        if let Some(i) = find(whole, seam()) {
            assert(whole.subrange(i, i + 2)[0] == ')');
        }
        assert(pieces(whole) =~= parts);
    } else {
        let first = parts[0];
        let rest = parts.skip(1);
        let at = first.len() as int;
        assert(is_clean(first));
        assert forall|i: int| 0 <= i < rest.len() implies is_clean(#[trigger] rest[i]) by {
            assert(rest[i] == parts[i + 1]);
        }
        lemma_pieces_of_joined(rest);
        assert(whole.subrange(at, at + 2) =~= seam());
        assert forall|j: int| 0 <= j < at implies !occurs_at(whole, seam(), j) by {
            assert(whole.subrange(j, j + 2)[0] == first[j]);
        }
        lemma_find_is(whole, seam(), at);
        assert(whole.take(at) =~= first);
        assert(whole.skip(at + 2) =~= joined(rest));
        assert(pieces(whole) == seq![first] + pieces(joined(rest)));
        assert(seq![first] + rest =~= parts);
    }
}

/// The first note can be taken before the others.
proof fn lemma_assemble_first<U>(first: Note<U>, rest: Seq<Note<U>>, blank: SiUnit<U>, next: SiUnit<U>)
    requires
        noted(Ok(blank), first) == Ok::<SiUnit<U>, SiParseError>(next),
    ensures
        assemble(seq![first] + rest, blank) == assemble(rest, next),
    decreases rest.len(),
{
    let all = seq![first] + rest;
    if rest.len() == 0 {
        assert(all.drop_last() =~= Seq::<Note<U>>::empty());
        assert(assemble(all.drop_last(), blank) == Ok::<SiUnit<U>, SiParseError>(blank));
    } else {
        lemma_assemble_first(first, rest.drop_last(), blank, next);
        assert(all.drop_last() =~= seq![first] + rest.drop_last());
        assert(all.last() == rest.last());
    }
}

/// The dimensions of a unit with their exponents, in the order of the text
/// form.
spec fn listed(unit: SiUnit<int>) -> Seq<(SiBase, int)> {
    seq![
        (SiBase::Length, unit.length),
        (SiBase::Mass, unit.mass),
        (SiBase::Time, unit.time),
        (SiBase::Temperature, unit.temperature),
        (SiBase::Current, unit.current),
        (SiBase::Amount, unit.amount),
        (SiBase::LuminousIntensity, unit.luminous_intensity),
    ]
}

/// The entries of the listed dimensions, one after the other.
spec fn flat(list: Seq<(SiBase, int)>) -> Seq<char>
    decreases list.len(),
{
    if list.len() == 0 {
        Seq::empty()
    } else {
        entry_text(list[0].0, list[0].1) + flat(list.skip(1))
    }
}

/// The insides of the entries that the listed dimensions have.
spec fn inners(list: Seq<(SiBase, int)>) -> Seq<Seq<char>>
    decreases list.len(),
{
    if list.len() == 0 {
        Seq::empty()
    } else if list[0].1 == 0 {
        inners(list.skip(1))
    } else {
        seq![inner(list[0].0, list[0].1)] + inners(list.skip(1))
    }
}

/// What the entries of the listed dimensions say.
spec fn notes_for<U: SiInteger>(list: Seq<(SiBase, int)>) -> Seq<Note<U>>
    decreases list.len(),
{
    if list.len() == 0 {
        Seq::empty()
    } else if list[0].1 == 0 {
        notes_for::<U>(list.skip(1))
    } else {
        seq![(Some(list[0].0), Ok::<U, SiParseError>(U::of_int(list[0].1)))] + notes_for::<U>(
            list.skip(1),
        )
    }
}

/// `blank` with the exponents of the listed dimensions that are not zero.
spec fn applied<U: SiInteger>(list: Seq<(SiBase, int)>, blank: SiUnit<U>) -> SiUnit<U>
    decreases list.len(),
{
    if list.len() == 0 {
        blank
    } else if list[0].1 == 0 {
        applied(list.skip(1), blank)
    } else {
        applied(list.skip(1), blank.with(list[0].0, U::of_int(list[0].1)))
    }
}

/// The entries of the listed dimensions are the insides of those that are
/// not zero, each in parentheses.
proof fn lemma_flat(list: Seq<(SiBase, int)>)
    ensures
        flat(list) == wrapped(inners(list)),
    decreases list.len(),
{
    if list.len() > 0 {
        let rest = list.skip(1);
        lemma_flat(rest);
        if list[0].1 != 0 {
            let parts = inners(list);
            assert(parts.skip(1) =~= inners(rest));
            assert(flat(list) =~= wrapped(parts));
        }
    }
}

/// The insides are clean, and there is one if an exponent is not zero.
proof fn lemma_inners(list: Seq<(SiBase, int)>)
    ensures
        forall|i: int| 0 <= i < inners(list).len() ==> is_clean(#[trigger] inners(list)[i]),
        (exists|i: int| 0 <= i < list.len() && list[i].1 != 0) ==> inners(list).len() >= 1,
    decreases list.len(),
{
    if list.len() > 0 {
        let rest = list.skip(1);
        lemma_inners(rest);
        if list[0].1 != 0 {
            lemma_inner(list[0].0, list[0].1);
        } else {
            if exists|i: int| 0 <= i < list.len() && list[i].1 != 0 {
                let i = choose|i: int| 0 <= i < list.len() && list[i].1 != 0;
                assert(rest[i - 1].1 != 0);
            }
        }
    }
}

/// The insides read as the notes of the listed dimensions.
proof fn lemma_notes<U: SiInteger>(list: Seq<(SiBase, int)>)
    requires
        forall|i: int| 0 <= i < list.len() ==> U::holds(#[trigger] list[i].1),
    ensures
        inners(list).map_values(|part: Seq<char>| integer_note::<U>(part)) == notes_for::<U>(list),
    decreases list.len(),
{
    let read = |part: Seq<char>| integer_note::<U>(part);
    if list.len() > 0 {
        let rest = list.skip(1);
        assert forall|i: int| 0 <= i < rest.len() implies U::holds(#[trigger] rest[i].1) by {
            assert(rest[i] == list[i + 1]);
        }
        lemma_notes::<U>(rest);
        if list[0].1 != 0 {
            lemma_note::<U>(list[0].0, list[0].1);
            assert(inners(list).map_values(read) =~= seq![read(inner(list[0].0, list[0].1))]
                + inners(rest).map_values(read));
        }
    } else {
        assert(inners(list).map_values(read) =~= notes_for::<U>(list));
    }
}

/// The notes of the listed dimensions set their exponents.
proof fn lemma_applied<U: SiInteger>(list: Seq<(SiBase, int)>, blank: SiUnit<U>)
    ensures
        assemble(notes_for::<U>(list), blank) == Ok::<SiUnit<U>, SiParseError>(
            applied(list, blank),
        ),
    decreases list.len(),
{
    if list.len() > 0 {
        let rest = list.skip(1);
        if list[0].1 != 0 {
            let next = blank.with(list[0].0, U::of_int(list[0].1));
            lemma_applied::<U>(rest, next);
            lemma_assemble_first(
                (Some(list[0].0), Ok::<U, SiParseError>(U::of_int(list[0].1))),
                notes_for::<U>(rest),
                blank,
                next,
            );
        } else {
            lemma_applied::<U>(rest, blank);
        }
    }
}

/// Seven texts one after the other, grouped from the left or from the right.
proof fn lemma_seven_texts(
    a: Seq<char>,
    b: Seq<char>,
    c: Seq<char>,
    d: Seq<char>,
    e: Seq<char>,
    f: Seq<char>,
    g: Seq<char>,
)
    ensures
        a + b + c + d + e + f + g == a + (b + (c + (d + (e + (f + (g + Seq::<char>::empty())))))),
{
    assert(a + b + c + d + e + f + g =~= a + (b + (c + (d + (e + (f + (g + Seq::<char>::empty())))))));
}

/// One step of `flat`.
proof fn lemma_flat_step(list: Seq<(SiBase, int)>, base: SiBase, exponent: int)
    requires
        list.len() > 0,
        list[0] == (base, exponent),
    ensures
        flat(list) == entry_text(base, exponent) + flat(list.skip(1)),
{
}

/// The text form of a unit is made of the entries of its seven dimensions.
proof fn lemma_listed_text(ints: SiUnit<int>)
    ensures
        unit_text(ints) == flat(listed(ints)),
{
    let list = listed(ints);
    let l1 = list.skip(1);
    let l2 = l1.skip(1);
    let l3 = l2.skip(1);
    let l4 = l3.skip(1);
    let l5 = l4.skip(1);
    let l6 = l5.skip(1);
    let l7 = l6.skip(1);
    lemma_flat_step(list, SiBase::Length, ints.length);
    lemma_flat_step(l1, SiBase::Mass, ints.mass);
    lemma_flat_step(l2, SiBase::Time, ints.time);
    lemma_flat_step(l3, SiBase::Temperature, ints.temperature);
    lemma_flat_step(l4, SiBase::Current, ints.current);
    lemma_flat_step(l5, SiBase::Amount, ints.amount);
    lemma_flat_step(l6, SiBase::LuminousIntensity, ints.luminous_intensity);
    assert(l7.len() == 0);
    assert(flat(l7) == Seq::<char>::empty());
    lemma_seven_texts(
        entry_text(SiBase::Length, ints.length),
        entry_text(SiBase::Mass, ints.mass),
        entry_text(SiBase::Time, ints.time),
        entry_text(SiBase::Temperature, ints.temperature),
        entry_text(SiBase::Current, ints.current),
        entry_text(SiBase::Amount, ints.amount),
        entry_text(SiBase::LuminousIntensity, ints.luminous_intensity),
    );
}

/// One step of `applied`.
proof fn lemma_applied_step<U: SiInteger>(
    list: Seq<(SiBase, int)>,
    blank: SiUnit<U>,
    base: SiBase,
    exponent: U,
)
    requires
        list.len() > 0,
        list[0] == (base, exponent.to_int()),
    ensures
        applied(list, blank) == applied(
            list.skip(1),
            if exponent.to_int() == 0 {
                blank
            } else {
                blank.with(base, exponent)
            },
        ),
{
    U::lemma_faithful(exponent, 0);
}

/// Setting the exponents of a unit that are not zero, in a unit of zeros,
/// gives the unit.
proof fn lemma_listed_applied<U: SiInteger>(unit: SiUnit<U>)
    ensures
        applied(listed(unit.to_ints()), zero_unit::<U>()) == unit,
{
    let ints = unit.to_ints();
    let list = listed(ints);
    U::lemma_faithful(unit.length, 0);
    U::lemma_faithful(unit.mass, 0);
    U::lemma_faithful(unit.time, 0);
    U::lemma_faithful(unit.temperature, 0);
    U::lemma_faithful(unit.current, 0);
    U::lemma_faithful(unit.amount, 0);
    U::lemma_faithful(unit.luminous_intensity, 0);
    let l1 = list.skip(1);
    let l2 = l1.skip(1);
    let l3 = l2.skip(1);
    let l4 = l3.skip(1);
    let l5 = l4.skip(1);
    let l6 = l5.skip(1);
    let l7 = l6.skip(1);
    let zero = zero_unit::<U>();
    let u1 = if ints.length == 0 {
        zero
    } else {
        zero.with(SiBase::Length, unit.length)
    };
    let u2 = if ints.mass == 0 {
        u1
    } else {
        u1.with(SiBase::Mass, unit.mass)
    };
    let u3 = if ints.time == 0 {
        u2
    } else {
        u2.with(SiBase::Time, unit.time)
    };
    let u4 = if ints.temperature == 0 {
        u3
    } else {
        u3.with(SiBase::Temperature, unit.temperature)
    };
    let u5 = if ints.current == 0 {
        u4
    } else {
        u4.with(SiBase::Current, unit.current)
    };
    let u6 = if ints.amount == 0 {
        u5
    } else {
        u5.with(SiBase::Amount, unit.amount)
    };
    let u7 = if ints.luminous_intensity == 0 {
        u6
    } else {
        u6.with(SiBase::LuminousIntensity, unit.luminous_intensity)
    };
    lemma_applied_step(list, zero, SiBase::Length, unit.length);
    lemma_applied_step(l1, u1, SiBase::Mass, unit.mass);
    lemma_applied_step(l2, u2, SiBase::Time, unit.time);
    lemma_applied_step(l3, u3, SiBase::Temperature, unit.temperature);
    lemma_applied_step(l4, u4, SiBase::Current, unit.current);
    lemma_applied_step(l5, u5, SiBase::Amount, unit.amount);
    lemma_applied_step(l6, u6, SiBase::LuminousIntensity, unit.luminous_intensity);
    assert(l7.len() == 0);
    assert(applied(l7, u7) == u7);
    assert(u7 == unit);
}

/// The type holds every exponent of the unit, and a unit that is not
/// dimensionless has an exponent other than zero.
proof fn lemma_listed_exponents<U: SiInteger>(unit: SiUnit<U>)
    ensures
        forall|i: int|
            0 <= i < listed(unit.to_ints()).len() ==> U::holds(
                #[trigger] listed(unit.to_ints())[i].1,
            ),
        unit.to_ints() != dimensionless() ==> exists|i: int|
            0 <= i < listed(unit.to_ints()).len() && listed(unit.to_ints())[i].1 != 0,
{
    let ints = unit.to_ints();
    let list = listed(ints);
    U::lemma_faithful(unit.length, 0);
    U::lemma_faithful(unit.mass, 0);
    U::lemma_faithful(unit.time, 0);
    U::lemma_faithful(unit.temperature, 0);
    U::lemma_faithful(unit.current, 0);
    U::lemma_faithful(unit.amount, 0);
    U::lemma_faithful(unit.luminous_intensity, 0);
    if ints != dimensionless() {
        if ints.length != 0 {
            assert(list[0].1 != 0);
        } else if ints.mass != 0 {
            assert(list[1].1 != 0);
        } else if ints.time != 0 {
            assert(list[2].1 != 0);
        } else if ints.temperature != 0 {
            assert(list[3].1 != 0);
        } else if ints.current != 0 {
            assert(list[4].1 != 0);
        } else if ints.amount != 0 {
            assert(list[5].1 != 0);
        } else {
            assert(list[6].1 != 0);
        }
    }
}

/// The text form of a unit that is not dimensionless is a pair of parentheses
/// around a text whose entries denote the unit.
proof fn lemma_entries_round_trip<U: SiInteger>(unit: SiUnit<U>) -> (body: Seq<char>)
    requires
        unit.to_ints() != dimensionless(),
    ensures
        unit_text(unit.to_ints()) == seq!['('] + body + seq![')'],
        unit_of_entries::<U>(body + seq![')']) == Ok::<SiUnit<U>, SiParseError>(unit),
{
    let list = listed(unit.to_ints());
    let parts = inners(list);
    let body = joined(parts);
    let rest = body + seq![')'];
    lemma_listed_text(unit.to_ints());
    lemma_listed_applied(unit);
    lemma_listed_exponents(unit);
    lemma_flat(list);
    lemma_inners(list);
    lemma_wrapped_is_joined(parts);
    lemma_pieces_of_joined(parts);
    lemma_notes::<U>(list);
    lemma_applied::<U>(list, zero_unit::<U>());
    assert(is_clean(parts[0]));
    lemma_joined_starts(parts);
    assert(rest[0] == body[0]);
    assert(rest.last() == ')');
    lemma_trimmed_is_same(rest);
    assert(rest.drop_last() =~= body);
    assert(body_of(rest) == body);
    body
}

/// A unit that is not dimensionless is the unit that its text form denotes.
pub proof fn lemma_unit_round_trip<U: SiInteger>(unit: SiUnit<U>)
    requires
        unit.to_ints() != dimensionless(),
    ensures
        unit_of_text::<U>(unit_text(unit.to_ints())) == Ok::<SiUnit<U>, SiParseError>(unit),
{
    let body = lemma_entries_round_trip(unit);
    let text = unit_text(unit.to_ints());
    assert(text.subrange(0, 1) =~= opening());
    lemma_find_is(text, opening(), 0);
    assert(text.skip(1) =~= body + seq![')']);
}

/// A value with a magnitude other than zero and a unit that is not
/// dimensionless is the value that its text form denotes.
pub proof fn lemma_value_round_trip<T: SiInteger, U: SiInteger>(value: SiValue<T, U>)
    requires
        value@ is Some,
        value.magnitude().to_int() != 0,
        value.dimension().to_ints() != dimensionless(),
    ensures
        quantity_of_text::<T, U>(quantity_text(value.to_ints())) == Ok::<
            Quantity<T, U>,
            SiParseError,
        >(value@),
{
    let magnitude = value.magnitude();
    let unit = value.dimension();
    let number = decimal(magnitude.to_int());
    let body = lemma_entries_round_trip(unit);
    let text = quantity_text(value.to_ints());
    let at = number.len() as int;
    lemma_decimal(magnitude.to_int());
    T::lemma_faithful(magnitude, 0);
    assert(text =~= number + gap() + (body + seq![')']));
    assert(text.subrange(at, at + 2) =~= gap());
    assert forall|j: int| 0 <= j < at implies !occurs_at(text, gap(), j) by {
        assert(text.subrange(j, j + 2)[0] == number[j]);
        assert(is_digit(number[j]) || number[j] == '-');
    }
    lemma_find_is(text, gap(), at);
    assert(text.take(at) =~= number);
    assert(text.skip(at + 2) =~= body + seq![')']);
}

/// The text form of a dimensionless unit is empty, and denotes no unit.
pub proof fn lemma_dimensionless_text<U: SiInteger>()
    ensures
        unit_text(dimensionless()) == Seq::<char>::empty(),
        unit_of_text::<U>(unit_text(dimensionless())) == Err::<SiUnit<U>, SiParseError>(
            SiParseError::InvalidValueLayout,
        ),
{
    assert(unit_text(dimensionless()) =~= Seq::<char>::empty());
}

/// No pair of characters of which the second is missing from `text` stands
/// in it.
proof fn lemma_not_found(text: Seq<char>, pattern: Seq<char>)
    requires
        pattern.len() == 2,
        forall|i: int| 0 <= i < text.len() ==> text[i] != pattern[1],
    ensures
        find(text, pattern) is None,
{
    lemma_find_from(text, pattern, 0);
    if let Some(i) = find(text, pattern) {
        assert(text.subrange(i, i + 2)[1] == pattern[1]);
    }
}

/// The text form of the void value, of a value of magnitude zero and of a
/// value without dimension denotes no value: reading it ends in a layout
/// error.
pub proof fn lemma_text_without_value<T: SiInteger, U: SiInteger>(value: SiValue<T, U>)
    requires
        value@ is None || value.magnitude().to_int() == 0 || value.dimension().to_ints()
            == dimensionless(),
    ensures
        quantity_of_text::<T, U>(quantity_text(value.to_ints())) == Err::<
            Quantity<T, U>,
            SiParseError,
        >(SiParseError::InvalidValueLayout),
{
    let text = quantity_text(value.to_ints());
    if value@ is None {
        lemma_not_found(text, gap());
    } else if value.dimension().to_ints() == dimensionless() {
        let amount = value.magnitude().to_int();
        lemma_dimensionless_text::<U>();
        lemma_decimal(amount);
        let number = magnitude_text(amount);
        assert(text =~= number + seq![' ']);
        assert forall|i: int| 0 <= i < text.len() implies text[i] != '(' by {
            if i < number.len() {
                assert(is_digit(decimal(amount)[i]) || decimal(amount)[i] == '-');
            }
        }
        lemma_not_found(text, gap());
    } else {
        let body = lemma_entries_round_trip(value.dimension());
        assert(text =~= gap() + (body + seq![')']));
        assert(text.subrange(0, 2) =~= gap());
        lemma_find_is(text, gap(), 0);
        let nothing = text.take(0);
        assert(nothing.len() == 0);
        assert(trimmed(nothing) == nothing);
        lemma_find_from(nothing, seq!['.'], 0);
    }
}

/// The text form of a value that is not void differs from that of the void
/// value.
pub proof fn lemma_void_text_is_apart<T: SiInteger, U: SiInteger>(value: SiValue<T, U>)
    requires
        value@ is Some,
    ensures
        quantity_text(value.to_ints()) != void_text(),
{
    let amount = value.magnitude().to_int();
    let text = quantity_text(value.to_ints());
    lemma_decimal(amount);
    if amount == 0 {
        assert(text[0] == ' ');
    } else {
        assert(text[0] == decimal(amount)[0]);
        assert(is_digit(decimal(amount)[0]) || decimal(amount)[0] == '-');
    }
    assert(void_text()[0] == 'V');
}

/// Notes without a unit error make no unit error.
proof fn lemma_assemble_errors<U>(notes: Seq<Note<U>>, blank: SiUnit<U>)
    requires
        forall|i: int|
            0 <= i < notes.len() ==> (#[trigger] notes[i]).1 != Err::<U, SiParseError>(
                SiParseError::InvalidUnit,
            ),
    ensures
        assemble(notes, blank) != Err::<SiUnit<U>, SiParseError>(SiParseError::InvalidUnit),
    decreases notes.len(),
{
    if notes.len() > 0 {
        let front = notes.drop_last();
        assert forall|i: int| 0 <= i < front.len() implies (#[trigger] front[i]).1 != Err::<
            U,
            SiParseError,
        >(SiParseError::InvalidUnit) by {
            assert(front[i] == notes[i]);
        }
        lemma_assemble_errors(front, blank);
        assert(notes.last() == notes[notes.len() - 1]);
    }
}

/// Reading a unit or a value of integers ends in a layout error or a cast
/// error, if in any: never in a unit error.
pub proof fn lemma_no_unit_error<T: SiInteger, U: SiInteger>(text: Seq<char>)
    ensures
        unit_of_text::<U>(text) != Err::<SiUnit<U>, SiParseError>(SiParseError::InvalidUnit),
        quantity_of_text::<T, U>(text) != Err::<Quantity<T, U>, SiParseError>(
            SiParseError::InvalidUnit,
        ),
{
    if let Some(i) = find(text, opening()) {
        let notes = pieces(body_of(text.skip(i + 1))).map_values(
            |piece: Seq<char>| integer_note::<U>(piece),
        );
        lemma_assemble_errors(notes, zero_unit::<U>());
    }
    if let Some(i) = find(text, gap()) {
        let notes = pieces(body_of(text.skip(i + 2))).map_values(
            |piece: Seq<char>| integer_note::<U>(piece),
        );
        lemma_assemble_errors(notes, zero_unit::<U>());
    }
}

} // verus!
