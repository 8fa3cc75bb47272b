//! The seven base dimensions and the symbols that name them in text.

use crate::chars::to_chars;
use vstd::prelude::*;
use vstd::utf8::is_ascii_chars;

verus! {

/// A base dimension of the SI.
#[derive(Clone, Copy, Debug, PartialEq, Eq, Structural)]
pub enum SiBase {
    Length,
    Mass,
    Time,
    Temperature,
    Current,
    Amount,
    LuminousIntensity,
}

impl SiBase {
    /// The symbol that the text form writes for the dimension.
    pub open spec fn symbol(self) -> Seq<char> {
        match self {
            SiBase::Length => seq!['m'],
            SiBase::Mass => seq!['k', 'g'],
            SiBase::Time => seq!['s'],
            SiBase::Temperature => seq!['k'],
            SiBase::Current => seq!['A'],
            SiBase::Amount => seq!['m', 'o', 'l'],
            SiBase::LuminousIntensity => seq!['c', 'd'],
        }
    }
}

/// The lower-case form of an ASCII letter; any other character unchanged.
pub open spec fn lowered(c: char) -> char {
    if 'A' <= c <= 'Z' {
        ((c as u8) + 32) as char
    } else {
        c
    }
}

/// What Unicode's lower-case mapping makes of a text.
pub uninterp spec fn lowercase(name: Seq<char>) -> Seq<char>;

/// A name in lower case: letter by letter where it is ASCII, by Unicode's
/// mapping of the whole name where it is not.
pub open spec fn folded(name: Seq<char>) -> Seq<char> {
    if is_ascii_chars(name) {
        name.map_values(|c: char| lowered(c))
    } else {
        lowercase(name)
    }
}

/// The dimension that a lower-case name is the symbol of.
pub open spec fn base_named(lower: Seq<char>) -> Option<SiBase> {
    if lower == seq!['m'] {
        Some(SiBase::Length)
    } else if lower == seq!['k', 'g'] {
        Some(SiBase::Mass)
    } else if lower == seq!['s'] {
        Some(SiBase::Time)
    } else if lower == seq!['k'] {
        Some(SiBase::Temperature)
    } else if lower == seq!['a'] {
        Some(SiBase::Current)
    } else if lower == seq!['m', 'o', 'l'] {
        Some(SiBase::Amount)
    } else if lower == seq!['c', 'd'] {
        Some(SiBase::LuminousIntensity)
    } else {
        None
    }
}

/// The dimension that `name` is the symbol of, in whatever case it is written.
pub open spec fn base_of(name: Seq<char>) -> Option<SiBase> {
    base_named(folded(name))
}

/// Calls `str::to_lowercase`, and names what it returns.
#[verifier::external_body]
fn unicode_lowercase(name: &str) -> (lower: String)
    ensures
        lower@ == lowercase(name@),
{
    name.to_lowercase()
}

/// The lower-case form of an ASCII letter.
fn lower(c: char) -> (l: char)
    ensures
        l == lowered(c),
{
    if 'A' <= c && c <= 'Z' {
        ((c as u8) + 32) as char
    } else {
        c
    }
}

/// The dimension that a lower-case name is the symbol of.
fn named(lower: &Vec<char>) -> (base: Option<SiBase>)
    ensures
        base == base_named(lower@),
{
    let n = lower.len();
    let base = if n == 1 && lower[0] == 'm' {
        Some(SiBase::Length)
    } else if n == 2 && lower[0] == 'k' && lower[1] == 'g' {
        Some(SiBase::Mass)
    } else if n == 1 && lower[0] == 's' {
        Some(SiBase::Time)
    } else if n == 1 && lower[0] == 'k' {
        Some(SiBase::Temperature)
    } else if n == 1 && lower[0] == 'a' {
        Some(SiBase::Current)
    } else if n == 3 && lower[0] == 'm' && lower[1] == 'o' && lower[2] == 'l' {
        Some(SiBase::Amount)
    } else if n == 2 && lower[0] == 'c' && lower[1] == 'd' {
        Some(SiBase::LuminousIntensity)
    } else {
        None
    };
    proof {
        let s = lower@;
        if s == seq!['m'] || s == seq!['s'] || s == seq!['k'] || s == seq!['a'] {
            assert(s.len() == 1);
        }
        if s == seq!['k', 'g'] || s == seq!['c', 'd'] {
            assert(s.len() == 2);
        }
        if s == seq!['m', 'o', 'l'] {
            assert(s.len() == 3);
        }
        if n == 1 {
            assert(s =~= seq![s[0]]);
        }
        if n == 2 {
            assert(s =~= seq![s[0], s[1]]);
        }
        if n == 3 {
            assert(s =~= seq![s[0], s[1], s[2]]);
        }
    }
    base
}

/// The dimension that `name` is the symbol of.
pub fn base_of_name(name: &str) -> (base: Option<SiBase>)
    ensures
        base == base_of(name@),
{
    if name.is_ascii() {
        let chars = to_chars(name);
        let mut lower_case: Vec<char> = Vec::new();
        let mut i: usize = 0;
        while i < chars.len()
            invariant
                i <= chars.len(),
                lower_case@ == chars@.take(i as int).map_values(|c: char| lowered(c)),
            decreases chars.len() - i,
        {
            lower_case.push(lower(chars[i]));
            assert(chars@.take(i + 1) == chars@.take(i as int).push(chars[i as int]));
            assert(chars@.take(i + 1).map_values(|c: char| lowered(c)) == chars@.take(
                i as int,
            ).map_values(|c: char| lowered(c)).push(lowered(chars[i as int])));
            i += 1;
        }
        assert(chars@.take(i as int) == chars@);
        named(&lower_case)
    } else {
        let lower_case = to_chars(unicode_lowercase(name).as_str());
        named(&lower_case)
    }
}

} // verus!
