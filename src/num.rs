//! The capabilities an element type supplies: a zero, a one, and
//! addition, subtraction and multiplication.
use vstd::prelude::*;

verus! {

/// An additive identity.
pub trait Zero: Sized {
    /// The value that `zero` returns.
    spec fn spec_zero() -> Self;

    fn zero() -> (r: Self)
        ensures
            r == Self::spec_zero(),
    ;
}

/// A multiplicative identity.
pub trait One: Sized {
    /// The value that `one` returns.
    spec fn spec_one() -> Self;

    fn one() -> (r: Self)
        ensures
            r == Self::spec_one(),
    ;
}

/// Binary arithmetic on elements. Integer elements wrap on overflow, as
/// their operators do in a release build, so every operation is total.
pub trait Arith: Sized + Copy {
    spec fn spec_plus(self, o: Self) -> Self;

    spec fn spec_minus(self, o: Self) -> Self;

    spec fn spec_times(self, o: Self) -> Self;

    fn plus(self, o: Self) -> (r: Self)
        ensures
            r == self.spec_plus(o),
    ;

    fn minus(self, o: Self) -> (r: Self)
        ensures
            r == self.spec_minus(o),
    ;

    fn times(self, o: Self) -> (r: Self)
        ensures
            r == self.spec_times(o),
    ;
}

impl Zero for i8 {
    open spec fn spec_zero() -> i8 {
        0
    }

    fn zero() -> (r: i8) {
        0
    }
}

impl One for i8 {
    open spec fn spec_one() -> i8 {
        1
    }

    fn one() -> (r: i8) {
        1
    }
}

impl Arith for i8 {
    open spec fn spec_plus(self, o: i8) -> i8 {
        self.wrapping_add(o)
    }

    open spec fn spec_minus(self, o: i8) -> i8 {
        self.wrapping_sub(o)
    }

    open spec fn spec_times(self, o: i8) -> i8 {
        self.wrapping_mul(o)
    }

    fn plus(self, o: i8) -> (r: i8) {
        self.wrapping_add(o)
    }

    fn minus(self, o: i8) -> (r: i8) {
        self.wrapping_sub(o)
    }

    fn times(self, o: i8) -> (r: i8) {
        self.wrapping_mul(o)
    }
}

impl Zero for i16 {
    open spec fn spec_zero() -> i16 {
        0
    }

    fn zero() -> (r: i16) {
        0
    }
}

impl One for i16 {
    open spec fn spec_one() -> i16 {
        1
    }

    fn one() -> (r: i16) {
        1
    }
}

impl Arith for i16 {
    open spec fn spec_plus(self, o: i16) -> i16 {
        self.wrapping_add(o)
    }

    open spec fn spec_minus(self, o: i16) -> i16 {
        self.wrapping_sub(o)
    }

    open spec fn spec_times(self, o: i16) -> i16 {
        self.wrapping_mul(o)
    }

    fn plus(self, o: i16) -> (r: i16) {
        self.wrapping_add(o)
    }

    fn minus(self, o: i16) -> (r: i16) {
        self.wrapping_sub(o)
    }

    fn times(self, o: i16) -> (r: i16) {
        self.wrapping_mul(o)
    }
}

impl Zero for i32 {
    open spec fn spec_zero() -> i32 {
        0
    }

    fn zero() -> (r: i32) {
        0
    }
}

impl One for i32 {
    open spec fn spec_one() -> i32 {
        1
    }

    fn one() -> (r: i32) {
        1
    }
}

impl Arith for i32 {
    open spec fn spec_plus(self, o: i32) -> i32 {
        self.wrapping_add(o)
    }

    open spec fn spec_minus(self, o: i32) -> i32 {
        self.wrapping_sub(o)
    }

    open spec fn spec_times(self, o: i32) -> i32 {
        self.wrapping_mul(o)
    }

    fn plus(self, o: i32) -> (r: i32) {
        self.wrapping_add(o)
    }

    fn minus(self, o: i32) -> (r: i32) {
        self.wrapping_sub(o)
    }

    fn times(self, o: i32) -> (r: i32) {
        self.wrapping_mul(o)
    }
}

impl Zero for i64 {
    open spec fn spec_zero() -> i64 {
        0
    }

    fn zero() -> (r: i64) {
        0
    }
}

impl One for i64 {
    open spec fn spec_one() -> i64 {
        1
    }

    fn one() -> (r: i64) {
        1
    }
}

impl Arith for i64 {
    open spec fn spec_plus(self, o: i64) -> i64 {
        self.wrapping_add(o)
    }

    open spec fn spec_minus(self, o: i64) -> i64 {
        self.wrapping_sub(o)
    }

    open spec fn spec_times(self, o: i64) -> i64 {
        self.wrapping_mul(o)
    }

    fn plus(self, o: i64) -> (r: i64) {
        self.wrapping_add(o)
    }

    fn minus(self, o: i64) -> (r: i64) {
        self.wrapping_sub(o)
    }

    fn times(self, o: i64) -> (r: i64) {
        self.wrapping_mul(o)
    }
}

impl Zero for u8 {
    open spec fn spec_zero() -> u8 {
        0
    }

    fn zero() -> (r: u8) {
        0
    }
}

impl One for u8 {
    open spec fn spec_one() -> u8 {
        1
    }

    fn one() -> (r: u8) {
        1
    }
}

impl Arith for u8 {
    open spec fn spec_plus(self, o: u8) -> u8 {
        self.wrapping_add(o)
    }

    open spec fn spec_minus(self, o: u8) -> u8 {
        self.wrapping_sub(o)
    }

    open spec fn spec_times(self, o: u8) -> u8 {
        self.wrapping_mul(o)
    }

    fn plus(self, o: u8) -> (r: u8) {
        self.wrapping_add(o)
    }

    fn minus(self, o: u8) -> (r: u8) {
        self.wrapping_sub(o)
    }

    fn times(self, o: u8) -> (r: u8) {
        self.wrapping_mul(o)
    }
}

impl Zero for u16 {
    open spec fn spec_zero() -> u16 {
        0
    }

    fn zero() -> (r: u16) {
        0
    }
}

impl One for u16 {
    open spec fn spec_one() -> u16 {
        1
    }

    fn one() -> (r: u16) {
        1
    }
}

impl Arith for u16 {
    open spec fn spec_plus(self, o: u16) -> u16 {
        self.wrapping_add(o)
    }

    open spec fn spec_minus(self, o: u16) -> u16 {
        self.wrapping_sub(o)
    }

    open spec fn spec_times(self, o: u16) -> u16 {
        self.wrapping_mul(o)
    }

    fn plus(self, o: u16) -> (r: u16) {
        self.wrapping_add(o)
    }

    fn minus(self, o: u16) -> (r: u16) {
        self.wrapping_sub(o)
    }

    fn times(self, o: u16) -> (r: u16) {
        self.wrapping_mul(o)
    }
}

impl Zero for u32 {
    open spec fn spec_zero() -> u32 {
        0
    }

    fn zero() -> (r: u32) {
        0
    }
}

impl One for u32 {
    open spec fn spec_one() -> u32 {
        1
    }

    fn one() -> (r: u32) {
        1
    }
}

impl Arith for u32 {
    open spec fn spec_plus(self, o: u32) -> u32 {
        self.wrapping_add(o)
    }

    open spec fn spec_minus(self, o: u32) -> u32 {
        self.wrapping_sub(o)
    }

    open spec fn spec_times(self, o: u32) -> u32 {
        self.wrapping_mul(o)
    }

    fn plus(self, o: u32) -> (r: u32) {
        self.wrapping_add(o)
    }

    fn minus(self, o: u32) -> (r: u32) {
        self.wrapping_sub(o)
    }

    fn times(self, o: u32) -> (r: u32) {
        self.wrapping_mul(o)
    }
}

impl Zero for u64 {
    open spec fn spec_zero() -> u64 {
        0
    }

    fn zero() -> (r: u64) {
        0
    }
}

impl One for u64 {
    open spec fn spec_one() -> u64 {
        1
    }

    fn one() -> (r: u64) {
        1
    }
}

impl Arith for u64 {
    open spec fn spec_plus(self, o: u64) -> u64 {
        self.wrapping_add(o)
    }

    open spec fn spec_minus(self, o: u64) -> u64 {
        self.wrapping_sub(o)
    }

    open spec fn spec_times(self, o: u64) -> u64 {
        self.wrapping_mul(o)
    }

    fn plus(self, o: u64) -> (r: u64) {
        self.wrapping_add(o)
    }

    fn minus(self, o: u64) -> (r: u64) {
        self.wrapping_sub(o)
    }

    fn times(self, o: u64) -> (r: u64) {
        self.wrapping_mul(o)
    }
}

} // verus!
