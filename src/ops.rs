//! The dot protocol shared by vector and matrix products, the failures
//! that the library reports, and the sums of products they compute.
use vstd::prelude::*;
use crate::num::{Arith, Zero};

verus! {

/// Why an operation refused its operands.
#[derive(Debug, Clone, Copy, PartialEq, Eq, Structural)]
pub enum LinalgError {
    /// Two lengths or inner dimensions that must agree do not.
    IncompatibleDimensions,
    /// A replacement buffer whose length is not the matrix's size.
    LengthMismatch,
    /// A square matrix was required and the matrix is not square.
    NotSquare,
    /// An identity matrix of order zero was requested.
    InvalidOrder,
}

/// Sum of `a[i] * b[i]` over `i < n`, accumulated from zero left to right.
pub open spec fn dot_upto<T: Arith + Zero>(a: Seq<T>, b: Seq<T>, n: int) -> T
    decreases n,
{
    if n <= 0 {
        T::spec_zero()
    } else {
        dot_upto(a, b, n - 1).spec_plus(a[n - 1].spec_times(b[n - 1]))
    }
}

/// The dot product of two sequences of equal length.
pub open spec fn seq_dot<T: Arith + Zero>(a: Seq<T>, b: Seq<T>) -> T {
    dot_upto(a, b, a.len() as int)
}

/// A multiply-and-accumulate product of two operands. Each implementation
/// checks that the operands' dimensions agree and says what it returns.
pub trait Dot<Rhs>: Sized {
    type Output;

    /// What the operands must satisfy for the call.
    spec fn dot_requires(self, rhs: Rhs) -> bool;

    /// What the call returns on the given operands.
    spec fn dot_ensures(self, rhs: Rhs, r: Self::Output) -> bool;

    fn dot(self, rhs: Rhs) -> (r: Self::Output)
        requires
            self.dot_requires(rhs),
        ensures
            self.dot_ensures(rhs, r),
    ;
}

} // verus!
