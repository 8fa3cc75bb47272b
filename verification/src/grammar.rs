//! The text form of a unit: entries of the shape `(symbol^exponent)`, one
//! after the other.

use crate::chars::{find, find_in, lemma_find_from, trim, trimmed};
use crate::error::SiParseError;
use crate::symbol::{base_of, base_of_name, SiBase};
use crate::unit::SiUnit;
use vstd::prelude::*;
use vstd::string::StrSliceExecFns;

verus! {

/// The parenthesis that opens the entries of a unit.
pub open spec fn opening() -> Seq<char> {
    seq!['(']
}

/// What stands between a magnitude and the entries of its unit.
pub open spec fn gap() -> Seq<char> {
    seq![' ', '(']
}

/// What stands between two entries.
pub open spec fn seam() -> Seq<char> {
    seq![')', '(']
}

/// What stands between the symbol and the exponent of an entry.
pub open spec fn caret() -> Seq<char> {
    seq!['^']
}

/// The entries in the text that follows the opening parenthesis: that text
/// trimmed, without its last character.
pub open spec fn body_of(rest: Seq<char>) -> Seq<char> {
    let kept = trimmed(rest);
    if kept.len() > 0 {
        kept.drop_last()
    } else {
        kept
    }
}

/// The parts of `body` between its seams, in order. A seam at the very end is
/// followed by no part.
pub open spec fn pieces(body: Seq<char>) -> Seq<Seq<char>>
    decreases body.len(),
{
    if body.len() == 0 {
        Seq::empty()
    } else {
        match find(body, seam()) {
            Some(i) => if 0 <= i && i + 2 <= body.len() {
                seq![body.take(i)] + pieces(body.skip(i + 2))
            } else {
                seq![body]
            },
            None => seq![body],
        }
    }
}

/// The name and the exponent of a piece: what stands before its first caret,
/// and what stands after it.
pub open spec fn entry(piece: Seq<char>) -> Option<(Seq<char>, Seq<char>)> {
    match find(piece, caret()) {
        Some(i) => Some((piece.take(i), piece.skip(i + 1))),
        None => None,
    }
}

/// What one piece says: the dimension it names, if it names one, and what its
/// exponent was read as.
pub type Note<U> = (Option<SiBase>, Result<U, SiParseError>);

/// The vector after one more note. An exponent that was read goes to the
/// dimension named; a piece that names none changes nothing, but must hold a
/// number; the first error stays.
pub open spec fn noted<U>(so_far: Result<SiUnit<U>, SiParseError>, note: Note<U>) -> Result<
    SiUnit<U>,
    SiParseError,
> {
    match so_far {
        Err(error) => Err(error),
        Ok(unit) => match note {
            (Some(base), Ok(exponent)) => Ok(unit.with(base, exponent)),
            (Some(_), Err(error)) => Err(error),
            (None, Ok(_)) => Ok(unit),
            (None, Err(error)) => if error == SiParseError::InvalidCast {
                Ok(unit)
            } else {
                Err(error)
            },
        },
    }
}

/// The vector that the notes make of `blank`, taken in order.
pub open spec fn assemble<U>(notes: Seq<Note<U>>, blank: SiUnit<U>) -> Result<
    SiUnit<U>,
    SiParseError,
>
    decreases notes.len(),
{
    if notes.len() == 0 {
        Ok(blank)
    } else {
        noted(assemble(notes.drop_last(), blank), notes.last())
    }
}

/// `read` may return `reading` for `text`.
pub open spec fn reads<U, F: Fn(&str) -> Result<U, SiParseError>>(
    read: F,
    text: Seq<char>,
    reading: Result<U, SiParseError>,
) -> bool {
    exists|s: &str| s@ == text && call_ensures(read, (s,), reading)
}

/// `note` is what `piece` says when `read` reads its exponent. A piece
/// without a caret breaks the layout.
pub open spec fn note_of<U, F: Fn(&str) -> Result<U, SiParseError>>(
    read: F,
    piece: Seq<char>,
    note: Note<U>,
) -> bool {
    match entry(piece) {
        Some((name, exponent)) => note.0 == base_of(name) && reads(read, exponent, note.1),
        None => note == (None::<SiBase>, Err::<U, SiParseError>(SiParseError::InvalidValueLayout)),
    }
}

/// `notes` is what the pieces say, one by one, when `read` reads their
/// exponents.
pub open spec fn notes_of<U, F: Fn(&str) -> Result<U, SiParseError>>(
    read: F,
    pieces: Seq<Seq<char>>,
    notes: Seq<Note<U>>,
) -> bool {
    &&& notes.len() == pieces.len()
    &&& forall|i: int| 0 <= i < pieces.len() ==> note_of(read, #[trigger] pieces[i], notes[i])
}

/// `unit` is what the entries after the opening parenthesis give when `read`
/// reads their exponents: the notes of the pieces, made into a vector from a
/// default one.
pub open spec fn entries_give<U: Default, F: Fn(&str) -> Result<U, SiParseError>>(
    read: F,
    rest: Seq<char>,
    unit: Result<SiUnit<U>, SiParseError>,
) -> bool {
    exists|notes: Seq<Note<U>>, blank: SiUnit<U>|
        {
            &&& blank.is_default()
            &&& notes_of(read, pieces(body_of(rest)), notes)
            &&& unit == assemble(notes, blank)
        }
}

/// Takes one more note.
fn note<U>(so_far: Result<SiUnit<U>, SiParseError>, base: Option<SiBase>, reading: Result<
    U,
    SiParseError,
>) -> (unit: Result<SiUnit<U>, SiParseError>)
    ensures
        unit == noted(so_far, (base, reading)),
{
    match so_far {
        Err(error) => Err(error),
        Ok(unit) => match (base, reading) {
            (Some(base), Ok(exponent)) => Ok(unit.set(base, exponent)),
            (Some(_), Err(error)) => Err(error),
            (None, Ok(_)) => Ok(unit),
            (None, Err(error)) => match error {
                SiParseError::InvalidCast => Ok(unit),
                _ => Err(error),
            },
        },
    }
}

/// Reads the entries in `text` from the character `from` on, which follows
/// the opening parenthesis.
pub fn read_entries<U: Default, F: Fn(&str) -> Result<U, SiParseError>>(
    text: &str,
    chars: &Vec<char>,
    from: usize,
    read: F,
) -> (unit: Result<SiUnit<U>, SiParseError>)
    requires
        chars@ == text@,
        from <= chars.len(),
        forall|s: &str| call_requires(read, (s,)),
    ensures
        entries_give(read, text@.skip(from as int), unit),
{
    let (start, kept_end) = trim(chars, from, chars.len());
    let end = if kept_end > start {
        kept_end - 1
    } else {
        kept_end
    };
    let ghost body = chars@.subrange(start as int, end as int);
    proof {
        assert(chars@.subrange(from as int, chars@.len() as int) == text@.skip(from as int));
        assert(chars@.subrange(start as int, kept_end as int).len() == kept_end - start);
        if kept_end > start {
            assert(chars@.subrange(start as int, kept_end as int).drop_last() == body);
        }
        assert(body == body_of(text@.skip(from as int)));
    }
    let seam_pattern: Vec<char> = vec![')', '('];
    let caret_pattern: Vec<char> = vec!['^'];
    assert(seam_pattern@ == seam());
    assert(caret_pattern@ == caret());
    let blank = SiUnit::<U>::default();
    let ghost blank_unit = blank;
    let mut unit: Result<SiUnit<U>, SiParseError> = Ok(blank);
    let ghost mut done: Seq<Seq<char>> = Seq::empty();
    let ghost mut notes: Seq<Note<U>> = Seq::empty();
    let mut at = start;
    proof {
        assert(body.skip(0) == body);
        assert(done + pieces(body) == pieces(body));
    }
    while at < end
        invariant
            start <= at <= end <= chars.len(),
            chars@ == text@,
            body == chars@.subrange(start as int, end as int),
            seam_pattern@ == seam(),
            caret_pattern@ == caret(),
            forall|s: &str| call_requires(read, (s,)),
            pieces(body) == done + pieces(body.skip(at - start)),
            notes_of(read, done, notes),
            unit == assemble(notes, blank_unit),
        decreases end - at,
    {
        let ghost rest = body.skip(at - start);
        assert(rest == chars@.subrange(at as int, end as int));
        let (stop, next) = match find_in(chars, &seam_pattern, at, end) {
            Some(i) => {
                proof {
                    lemma_find_from(rest, seam(), 0);
                }
                (i, i + 2)
            },
            None => (end, end),
        };
        let ghost piece = chars@.subrange(at as int, stop as int);
        proof {
            if next == stop + 2 {
                assert(rest.take(stop - at) == piece);
                assert(rest.skip(stop - at + 2) == body.skip(next - start));
            } else {
                assert(piece == rest);
                assert(body.skip(next - start).len() == 0);
                assert(pieces(body.skip(next - start)) == Seq::<Seq<char>>::empty());
            }
            assert(pieces(rest) == seq![piece] + pieces(body.skip(next - start)));
        }
        let (base, reading) = match find_in(chars, &caret_pattern, at, stop) {
            Some(i) => {
                proof {
                    lemma_find_from(piece, caret(), 0);
                    assert(piece.take(i - at) == text@.subrange(at as int, i as int));
                    assert(piece.skip(i - at + 1) == text@.subrange(i + 1, stop as int));
                }
                let base = base_of_name(text.substring_char(at, i));
                let reading = read(text.substring_char(i + 1, stop));
                (base, reading)
            },
            None => (None, Err(SiParseError::InvalidValueLayout)),
        };
        assert(note_of(read, piece, (base, reading)));
        proof {
            let ghost longer = notes.push((base, reading));
            assert(longer.drop_last() == notes);
            assert(done + pieces(rest) == done.push(piece) + pieces(body.skip(next - start)));
            done = done.push(piece);
            notes = longer;
        }
        unit = note(unit, base, reading);
        at = next;
    }
    proof {
        assert(body.skip(at - start).len() == 0);
        assert(pieces(body) == done);
    }
    unit
}

} // verus!
