use core::ops::{Add, Div, Mul, Sub};
use vstd::prelude::*;
use vstd::std_specs::cmp::PartialEqSpec;
use vstd::std_specs::ops::{AddSpec, DivSpec, MulSpec, SubSpec};

verus! {

/// The quotient of `a` by `b` rounded towards zero, as machine integers divide.
pub open spec fn truncated_quotient(a: int, b: int) -> int {
    if a >= 0 {
        a / b
    } else {
        -((-a) / b)
    }
}

/// How far a truncated quotient can lie from zero.
pub proof fn lemma_truncated_quotient_bounds(a: int, b: int)
    requires
        b != 0,
    ensures
        a >= 0 ==> -a <= truncated_quotient(a, b) <= a,
        a <= 0 ==> a <= truncated_quotient(a, b) <= -a,
        b == 1 ==> truncated_quotient(a, b) == a,
        b == -1 ==> truncated_quotient(a, b) == -a,
        a < 0 && b != -1 ==> truncated_quotient(a, b) < -a,
{
    let x = if a >= 0 { a } else { -a };
    if b >= 1 {
        assert(0 <= x / b <= x) by (nonlinear_arith)
            requires
                x >= 0,
                b >= 1,
        ;
        assert(x / 1 == x);
    } else {
        assert(-x <= x / b <= 0) by (nonlinear_arith)
            requires
                x >= 0,
                b <= -1,
        ;
        assert(x / (-1) == -x) by (nonlinear_arith);
        if b <= -2 && x > 0 {
            assert(x / b > -x) by (nonlinear_arith)
                requires
                    x > 0,
                    b <= -2,
            ;
        }
    }
}

/// A numeric type whose values are integers of some range and whose
/// arithmetic is exact inside that range.
pub trait SiInteger: Copy + PartialEq + Default + Add<Output = Self> + Sub<Output = Self> + Mul<
    Output = Self,
> + Div<Output = Self> {
    /// The integer that `self` holds.
    spec fn to_int(self) -> int;

    /// Whether the type has a value for `n`.
    spec fn holds(n: int) -> bool;

    /// The value for `n`, where the type has one.
    spec fn of_int(n: int) -> Self;

    /// The integer that `self` holds, as the widest machine integer.
    fn widen(self) -> (n: i128)
        ensures
            n == self.to_int(),
    ;

    /// The value for `n`, if the type has one.
    fn narrow(n: i128) -> (value: Option<Self>)
        ensures
            value == if Self::holds(n as int) { Some(Self::of_int(n as int)) } else { None },
    ;

    /// Values and the integers they hold correspond one to one.
    proof fn lemma_faithful(value: Self, n: int)
        ensures
            Self::holds(value.to_int()),
            Self::of_int(value.to_int()) == value,
            Self::holds(n) ==> Self::of_int(n).to_int() == n,
            Self::holds(n) ==> i128::MIN <= n <= i128::MAX,
    ;

    /// The operators compute on the integers held, wherever the result is in
    /// range; `==` compares them; the default is zero.
    proof fn lemma_exact(a: Self, b: Self)
        ensures
            Self::obeys_eq_spec(),
            a.eq_spec(&b) <==> a == b,
            Self::obeys_add_spec(),
            a.add_req(b) <==> Self::holds(a.to_int() + b.to_int()),
            a.add_req(b) ==> a.add_spec(b).to_int() == a.to_int() + b.to_int(),
            Self::obeys_sub_spec(),
            a.sub_req(b) <==> Self::holds(a.to_int() - b.to_int()),
            a.sub_req(b) ==> a.sub_spec(b).to_int() == a.to_int() - b.to_int(),
            Self::obeys_mul_spec(),
            a.mul_req(b) <==> Self::holds(a.to_int() * b.to_int()),
            a.mul_req(b) ==> a.mul_spec(b).to_int() == a.to_int() * b.to_int(),
            Self::obeys_div_spec(),
            a.div_req(b) <==> b.to_int() != 0 && Self::holds(
                truncated_quotient(a.to_int(), b.to_int()),
            ),
            a.div_req(b) ==> a.div_spec(b).to_int() == truncated_quotient(a.to_int(), b.to_int()),
            call_ensures(Self::default, (), a) ==> a.to_int() == 0,
    ;
}

impl SiInteger for i8 {
    open spec fn to_int(self) -> int {
        self as int
    }

    open spec fn holds(n: int) -> bool {
        i8::MIN <= n <= i8::MAX
    }

    open spec fn of_int(n: int) -> i8 {
        n as i8
    }

    fn widen(self) -> (n: i128) {
        self as i128
    }

    fn narrow(n: i128) -> (value: Option<i8>) {
        if -128 <= n && n <= 127 {
            Some(n as i8)
        } else {
            None
        }
    }

    proof fn lemma_faithful(value: i8, n: int) {
    }

    proof fn lemma_exact(a: i8, b: i8) {
        if b != 0 {
            lemma_truncated_quotient_bounds(a as int, b as int);
        }
    }
}

impl SiInteger for i16 {
    open spec fn to_int(self) -> int {
        self as int
    }

    open spec fn holds(n: int) -> bool {
        i16::MIN <= n <= i16::MAX
    }

    open spec fn of_int(n: int) -> i16 {
        n as i16
    }

    fn widen(self) -> (n: i128) {
        self as i128
    }

    fn narrow(n: i128) -> (value: Option<i16>) {
        if -32768 <= n && n <= 32767 {
            Some(n as i16)
        } else {
            None
        }
    }

    proof fn lemma_faithful(value: i16, n: int) {
    }

    proof fn lemma_exact(a: i16, b: i16) {
        if b != 0 {
            lemma_truncated_quotient_bounds(a as int, b as int);
        }
    }
}

impl SiInteger for i32 {
    open spec fn to_int(self) -> int {
        self as int
    }

    open spec fn holds(n: int) -> bool {
        i32::MIN <= n <= i32::MAX
    }

    open spec fn of_int(n: int) -> i32 {
        n as i32
    }

    fn widen(self) -> (n: i128) {
        self as i128
    }

    fn narrow(n: i128) -> (value: Option<i32>) {
        if -2147483648 <= n && n <= 2147483647 {
            Some(n as i32)
        } else {
            None
        }
    }

    proof fn lemma_faithful(value: i32, n: int) {
    }

    proof fn lemma_exact(a: i32, b: i32) {
        if b != 0 {
            lemma_truncated_quotient_bounds(a as int, b as int);
        }
    }
}

impl SiInteger for i64 {
    open spec fn to_int(self) -> int {
        self as int
    }

    open spec fn holds(n: int) -> bool {
        i64::MIN <= n <= i64::MAX
    }

    open spec fn of_int(n: int) -> i64 {
        n as i64
    }

    fn widen(self) -> (n: i128) {
        self as i128
    }

    fn narrow(n: i128) -> (value: Option<i64>) {
        if -9223372036854775808 <= n && n <= 9223372036854775807 {
            Some(n as i64)
        } else {
            None
        }
    }

    proof fn lemma_faithful(value: i64, n: int) {
    }

    proof fn lemma_exact(a: i64, b: i64) {
        if b != 0 {
            lemma_truncated_quotient_bounds(a as int, b as int);
        }
    }
}

impl SiInteger for u8 {
    open spec fn to_int(self) -> int {
        self as int
    }

    open spec fn holds(n: int) -> bool {
        u8::MIN <= n <= u8::MAX
    }

    open spec fn of_int(n: int) -> u8 {
        n as u8
    }

    fn widen(self) -> (n: i128) {
        self as i128
    }

    fn narrow(n: i128) -> (value: Option<u8>) {
        if 0 <= n && n <= 255 {
            Some(n as u8)
        } else {
            None
        }
    }

    proof fn lemma_faithful(value: u8, n: int) {
    }

    proof fn lemma_exact(a: u8, b: u8) {
        if b != 0 {
            lemma_truncated_quotient_bounds(a as int, b as int);
        }
    }
}

impl SiInteger for u16 {
    open spec fn to_int(self) -> int {
        self as int
    }

    open spec fn holds(n: int) -> bool {
        u16::MIN <= n <= u16::MAX
    }

    open spec fn of_int(n: int) -> u16 {
        n as u16
    }

    fn widen(self) -> (n: i128) {
        self as i128
    }

    fn narrow(n: i128) -> (value: Option<u16>) {
        if 0 <= n && n <= 65535 {
            Some(n as u16)
        } else {
            None
        }
    }

    proof fn lemma_faithful(value: u16, n: int) {
    }

    proof fn lemma_exact(a: u16, b: u16) {
        if b != 0 {
            lemma_truncated_quotient_bounds(a as int, b as int);
        }
    }
}

impl SiInteger for u32 {
    open spec fn to_int(self) -> int {
        self as int
    }

    open spec fn holds(n: int) -> bool {
        u32::MIN <= n <= u32::MAX
    }

    open spec fn of_int(n: int) -> u32 {
        n as u32
    }

    fn widen(self) -> (n: i128) {
        self as i128
    }

    fn narrow(n: i128) -> (value: Option<u32>) {
        if 0 <= n && n <= 4294967295 {
            Some(n as u32)
        } else {
            None
        }
    }

    proof fn lemma_faithful(value: u32, n: int) {
    }

    proof fn lemma_exact(a: u32, b: u32) {
        if b != 0 {
            lemma_truncated_quotient_bounds(a as int, b as int);
        }
    }
}

impl SiInteger for u64 {
    open spec fn to_int(self) -> int {
        self as int
    }

    open spec fn holds(n: int) -> bool {
        u64::MIN <= n <= u64::MAX
    }

    open spec fn of_int(n: int) -> u64 {
        n as u64
    }

    fn widen(self) -> (n: i128) {
        self as i128
    }

    fn narrow(n: i128) -> (value: Option<u64>) {
        if 0 <= n && n <= 18446744073709551615 {
            Some(n as u64)
        } else {
            None
        }
    }

    proof fn lemma_faithful(value: u64, n: int) {
    }

    proof fn lemma_exact(a: u64, b: u64) {
        if b != 0 {
            lemma_truncated_quotient_bounds(a as int, b as int);
        }
    }
}

impl SiInteger for i128 {
    open spec fn to_int(self) -> int {
        self as int
    }

    open spec fn holds(n: int) -> bool {
        i128::MIN <= n <= i128::MAX
    }

    open spec fn of_int(n: int) -> i128 {
        n as i128
    }

    fn widen(self) -> (n: i128) {
        self
    }

    fn narrow(n: i128) -> (value: Option<i128>) {
        Some(n)
    }

    proof fn lemma_faithful(value: i128, n: int) {
    }

    proof fn lemma_exact(a: i128, b: i128) {
        if b != 0 {
            lemma_truncated_quotient_bounds(a as int, b as int);
        }
    }
}

} // verus!
