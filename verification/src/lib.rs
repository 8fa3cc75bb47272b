//! Physical quantities over the seven SI base dimensions.
//!
//! A [`SiUnit`] is a vector of seven exponents, one per base dimension; a
//! [`SiValue`] is either void or a magnitude paired with such a vector.
//! Values of equal units add and subtract, any two values multiply and
//! divide, and a calculation that has no meaning gives the void value rather
//! than an error. Both types have a text form, `(m^1)(s^-2)` for a unit and
//! `3 (m^1)(s^-2)` for a value, that can be written and read.
//!
//! The arithmetic is generic over the operators of the standard library. The
//! text forms are exact for the integer types, which implement
//! [`SiInteger`]; for other number types the caller supplies what reads and
//! shows a number.

pub mod chars;
pub mod decimal;
pub mod error;
pub mod format;
pub mod grammar;
pub mod integer;
pub mod laws;
pub mod parse;
pub mod symbol;
pub mod text_laws;
pub mod unit;
pub mod value;

pub use error::SiParseError;
pub use integer::SiInteger;
pub use symbol::SiBase;
pub use unit::SiUnit;
pub use value::{Quantity, SiValue};
