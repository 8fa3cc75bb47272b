//! Integers in decimal notation: how they are written, and what a text reads
//! as.

use crate::chars::{
    find, find_in, lemma_find_from, lemma_trimmed_is_same, to_chars, trim, trimmed,
};
use crate::error::SiParseError;
use crate::integer::SiInteger;
use vstd::prelude::*;
use vstd::string::StringExecFns;

verus! {

/// The ten digits.
pub open spec fn is_digit(c: char) -> bool {
    '0' <= c <= '9'
}

/// The digit that stands for `d`, for `d` from 0 to 9.
pub open spec fn digit_char(d: int) -> char {
    if d == 0 {
        '0'
    } else if d == 1 {
        '1'
    } else if d == 2 {
        '2'
    } else if d == 3 {
        '3'
    } else if d == 4 {
        '4'
    } else if d == 5 {
        '5'
    } else if d == 6 {
        '6'
    } else if d == 7 {
        '7'
    } else if d == 8 {
        '8'
    } else {
        '9'
    }
}

/// What the digit `c` stands for.
pub open spec fn digit_value(c: char) -> int {
    c as u32 - '0' as u32
}

/// The digits of `n`, most significant first, without leading zeros.
pub open spec fn digits(n: nat) -> Seq<char>
    decreases n,
{
    if n < 10 {
        seq![digit_char(n as int)]
    } else {
        digits(n / 10).push(digit_char((n % 10) as int))
    }
}

/// `n` in decimal notation: a minus sign if it is negative, then its digits.
pub open spec fn decimal(n: int) -> Seq<char> {
    if n < 0 {
        seq!['-'] + digits((-n) as nat)
    } else {
        digits(n as nat)
    }
}

/// Whether `s` holds digits only.
pub open spec fn all_digits(s: Seq<char>) -> bool {
    forall|i: int| 0 <= i < s.len() ==> is_digit(#[trigger] s[i])
}

/// The number that a sequence of digits stands for.
pub open spec fn digits_value(s: Seq<char>) -> int
    decreases s.len(),
{
    if s.len() == 0 {
        0
    } else {
        digits_value(s.drop_last()) * 10 + digit_value(s.last())
    }
}

/// `s` without its sign, if it starts with one.
pub open spec fn unsigned_part(s: Seq<char>) -> Seq<char> {
    if s.len() > 0 && (s[0] == '+' || s[0] == '-') {
        s.skip(1)
    } else {
        s
    }
}

/// The integer that `s` denotes: an optional sign, then one digit or more and
/// nothing else.
pub open spec fn integer_literal(s: Seq<char>) -> Option<int> {
    let body = unsigned_part(s);
    if body.len() > 0 && all_digits(body) {
        if s[0] == '-' {
            Some(-digits_value(body))
        } else {
            Some(digits_value(body))
        }
    } else {
        None
    }
}

/// Whether `s` is a number in decimal notation: an optional sign, then digits
/// with at most one point among them, and one digit at least.
pub open spec fn is_number(s: Seq<char>) -> bool {
    let body = unsigned_part(s);
    match find(body, seq!['.']) {
        Some(point) => body.len() > 1 && all_digits(body.take(point)) && all_digits(
            body.skip(point + 1),
        ),
        None => body.len() > 0 && all_digits(body),
    }
}

/// What `text` reads as in the integer type `U`: its value if, trimmed, it is
/// an integer that `U` holds; a cast error if it is another number; a layout
/// error if it is no number.
pub open spec fn integer_reading<U: SiInteger>(text: Seq<char>) -> Result<U, SiParseError> {
    let literal = trimmed(text);
    match integer_literal(literal) {
        Some(n) => if U::holds(n) {
            Ok(U::of_int(n))
        } else {
            Err(SiParseError::InvalidCast)
        },
        None => if is_number(literal) {
            Err(SiParseError::InvalidCast)
        } else {
            Err(SiParseError::InvalidValueLayout)
        },
    }
}

/// An integer literal is a number.
pub proof fn lemma_integer_is_number(s: Seq<char>)
    requires
        integer_literal(s) is Some,
    ensures
        is_number(s),
{
    let body = unsigned_part(s);
    lemma_find_from(body, seq!['.'], 0);
    if let Some(point) = find(body, seq!['.']) {
        assert(body.subrange(point, point + 1)[0] == '.');
        assert(is_digit(body[point]));
    }
}

/// The digits of a number are digits, and stand for that number.
pub proof fn lemma_digits(n: nat)
    ensures
        digits(n).len() >= 1,
        all_digits(digits(n)),
        digits_value(digits(n)) == n,
    decreases n,
{
    if n >= 10 {
        lemma_digits(n / 10);
        let front = digits(n / 10);
        let all = digits(n);
        assert(all.drop_last() == front);
        assert(all.last() == digit_char((n % 10) as int));
        assert(digit_value(digit_char((n % 10) as int)) == n % 10);
        assert(digits_value(all) == digits_value(front) * 10 + digit_value(all.last()));
        assert forall|i: int| 0 <= i < all.len() implies is_digit(#[trigger] all[i]) by {
            if i < front.len() {
                assert(all[i] == front[i]);
            }
        }
    } else {
        let all = digits(n);
        assert(all.drop_last().len() == 0);
        assert(digits_value(all.drop_last()) == 0);
        assert(all.last() == digit_char(n as int));
        assert(digit_value(digit_char(n as int)) == n);
        assert(digits_value(all) == digits_value(all.drop_last()) * 10 + digit_value(all.last()));
    }
}

/// The decimal notation of an integer is a literal of that integer, made of
/// digits behind at most one minus sign, and trimming leaves it as it is.
pub proof fn lemma_decimal(n: int)
    ensures
        decimal(n).len() >= 1,
        forall|i: int| 0 <= i < decimal(n).len() ==> is_digit(#[trigger] decimal(n)[i]) || decimal(n)[i] == '-',
        integer_literal(decimal(n)) == Some(n),
        trimmed(decimal(n)) == decimal(n),
{
    let text = decimal(n);
    if n < 0 {
        lemma_digits((-n) as nat);
        let body = digits((-n) as nat);
        assert(text.skip(1) == body);
        assert forall|i: int| 0 <= i < text.len() implies is_digit(#[trigger] text[i]) || text[i]
            == '-' by {
            if i > 0 {
                assert(text[i] == body[i - 1]);
            }
        }
    } else {
        lemma_digits(n as nat);
        assert(is_digit(text[0]));
    }
    assert(is_digit(text.last()) || text.last() == '-');
    lemma_trimmed_is_same(text);
}

/// The digit that stands for `d`, as a text.
fn digit_text(d: u8) -> (text: &'static str)
    requires
        d < 10,
    ensures
        text@ == seq![digit_char(d as int)],
{
    proof {
        reveal_strlit("0");
        reveal_strlit("1");
        reveal_strlit("2");
        reveal_strlit("3");
        reveal_strlit("4");
        reveal_strlit("5");
        reveal_strlit("6");
        reveal_strlit("7");
        reveal_strlit("8");
        reveal_strlit("9");
    }
    let text = match d {
        0 => "0",
        1 => "1",
        2 => "2",
        3 => "3",
        4 => "4",
        5 => "5",
        6 => "6",
        7 => "7",
        8 => "8",
        _ => "9",
    };
    assert(text@ =~= seq![digit_char(d as int)]);
    text
}

/// Appends the digits of `n` to `out`.
fn push_digits(n: u128, out: &mut String)
    ensures
        final(out)@ == old(out)@ + digits(n as nat),
    decreases n,
{
    if n >= 10 {
        push_digits(n / 10, out);
    }
    out.append(digit_text((n % 10) as u8));
}

/// Appends `n` in decimal notation to `out`.
pub fn push_decimal(n: i128, out: &mut String)
    ensures
        final(out)@ == old(out)@ + decimal(n as int),
{
    if n < 0 {
        proof {
            reveal_strlit("-");
        }
        out.append("-");
        assert("-"@ =~= seq!['-']);
        let magnitude: u128 = (-(n + 1)) as u128 + 1;
        push_digits(magnitude, out);
    } else {
        push_digits(n as u128, out);
    }
}

/// The error of prse's parsers. Nothing is read from it: any error of a
/// parser means that the text was not accepted.
#[verifier::external_type_specification]
#[verifier::external_body]
pub struct ExParseError(prse::ParseError);

/// Calls prse's `Parse::from_str` for `i128`, which trims the text and hands
/// the rest to the integer parser of the standard library. The contract
/// claims that the call succeeds exactly on the texts that, trimmed, are an
/// optional sign followed by one digit or more, with a value in the range of
/// `i128`, and that it then returns that value.
#[verifier::external_body]
fn read_i128(text: &str) -> (read: Result<i128, prse::ParseError>)
    ensures
        match read {
            Ok(n) => integer_literal(trimmed(text@)) == Some(n as int),
            Err(_) => match integer_literal(trimmed(text@)) {
                Some(n) => n < i128::MIN || n > i128::MAX,
                None => true,
            },
        },
{
    <i128 as prse::Parse>::from_str(text)
}

/// Reads `text` as an integer of type `U`.
pub fn read_integer<U: SiInteger>(text: &str) -> (read: Result<U, SiParseError>)
    ensures
        read == integer_reading::<U>(text@),
{
    let ghost literal = trimmed(text@);
    match read_i128(text) {
        Ok(n) => match U::narrow(n) {
            Some(value) => Ok(value),
            None => Err(SiParseError::InvalidCast),
        },
        Err(_) => {
            proof {
                if let Some(n) = integer_literal(literal) {
                    lemma_integer_is_number(literal);
                    U::lemma_faithful(U::of_int(0), n);
                }
            }
            let chars = to_chars(text);
            let (from, to) = trim(&chars, 0, chars.len());
            assert(chars@.subrange(0, chars@.len() as int) == text@);
            if number_in(&chars, from, to) {
                Err(SiParseError::InvalidCast)
            } else {
                Err(SiParseError::InvalidValueLayout)
            }
        },
    }
}

/// Whether `chars[from..to]` holds digits only.
fn digits_only(chars: &Vec<char>, from: usize, to: usize) -> (only: bool)
    requires
        from <= to <= chars.len(),
    ensures
        only == all_digits(chars@.subrange(from as int, to as int)),
{
    let mut i = from;
    while i < to
        invariant
            from <= i <= to <= chars.len(),
            forall|j: int| from <= j < i ==> is_digit(#[trigger] chars[j]),
        decreases to - i,
    {
        if !('0' <= chars[i] && chars[i] <= '9') {
            assert(!is_digit(chars@.subrange(from as int, to as int)[i - from]));
            return false;
        }
        i += 1;
    }
    assert forall|j: int| 0 <= j < to - from implies is_digit(
        #[trigger] chars@.subrange(from as int, to as int)[j],
    ) by {
        assert(is_digit(chars[from + j]));
    }
    true
}

/// Whether `chars[from..to]` is a number in decimal notation.
pub fn number_in(chars: &Vec<char>, from: usize, to: usize) -> (number: bool)
    requires
        from <= to <= chars.len(),
    ensures
        number == is_number(chars@.subrange(from as int, to as int)),
{
    let ghost s = chars@.subrange(from as int, to as int);
    let start = if from < to && (chars[from] == '+' || chars[from] == '-') {
        from + 1
    } else {
        from
    };
    assert(unsigned_part(s) == chars@.subrange(start as int, to as int));
    let ghost body = unsigned_part(s);
    let point: Vec<char> = vec!['.'];
    assert(point@ == seq!['.']);
    match find_in(chars, &point, start, to) {
        Some(at) => {
            proof {
                lemma_find_from(body, seq!['.'], 0);
                assert(body.take(at - start) == chars@.subrange(start as int, at as int));
                assert(body.skip(at - start + 1) == chars@.subrange(at + 1, to as int));
            }
            to - start > 1 && digits_only(chars, start, at) && digits_only(chars, at + 1, to)
        },
        None => to - start > 0 && digits_only(chars, start, to),
    }
}

} // verus!
