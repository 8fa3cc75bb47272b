use vstd::prelude::*;

verus! {

/// Why a text was rejected as a unit or a value.
#[derive(Clone, Copy, Debug, PartialEq, Eq, Structural)]
pub enum SiParseError {
    /// The text does not have the bracket and caret structure of the grammar,
    /// or a number in it is not a number.
    InvalidValueLayout,
    /// Kept for unit-level violations; no parser of this crate reports it.
    InvalidUnit,
    /// An exponent is a number that its target type cannot hold.
    InvalidCast,
}

} // verus!
