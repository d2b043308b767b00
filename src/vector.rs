//! A dense vector of fixed length.
use vstd::prelude::*;
use vstd::std_specs::iter::IteratorSpec;
use crate::num::{Arith, Zero};
use crate::ops::{Dot, LinalgError, dot_upto, seq_dot};

verus! {

broadcast use vstd::std_specs::slice::axiom_spec_slice_iter;

/// A fixed-length sequence of elements.
#[derive(Debug, Clone)]
pub struct Vector<T> {
    data: Vec<T>,
}

impl<T> View for Vector<T> {
    type V = Seq<T>;

    closed spec fn view(&self) -> Seq<T> {
        self.data@
    }
}

impl<T: Copy> Vector<T> {
    /// Copies the elements of `data` into a new vector.
    pub fn from(data: &[T]) -> (r: Self)
        ensures
            r@ == data@,
    {
        let mut v: Vec<T> = Vec::with_capacity(data.len());
        let mut i: usize = 0;
        while i < data.len()
            invariant
                i <= data@.len(),
                v@ == data@.subrange(0, i as int),
            decreases data@.len() - i,
        {
            v.push(data[i]);
            i += 1;
            assert(v@ =~= data@.subrange(0, i as int));
        }
        assert(v@ =~= data@);
        Vector { data: v }
    }

    /// A copy of the elements.
    pub fn data(&self) -> (r: Vec<T>)
        ensures
            r@ == self@,
    {
        let mut v: Vec<T> = Vec::with_capacity(self.data.len());
        let mut i: usize = 0;
        while i < self.data.len()
            invariant
                i <= self@.len(),
                v@ == self@.subrange(0, i as int),
            decreases self@.len() - i,
        {
            v.push(self.data[i]);
            i += 1;
            assert(v@ =~= self@.subrange(0, i as int));
        }
        assert(v@ =~= self@);
        v
    }

    /// Combines the two vectors position by position with `op`.
    pub fn elemwise<F: Fn(T, T) -> T>(&self, other: &Self, op: F) -> (r: Result<Self, LinalgError>)
        requires
            self@.len() == other@.len() ==> forall|i: int|
                0 <= i < self@.len() ==> op.requires((#[trigger] self@[i], other@[i])),
        ensures
            self@.len() == other@.len() <==> r is Ok,
            r is Err ==> r == Err::<Self, LinalgError>(LinalgError::IncompatibleDimensions),
            r is Ok ==> r->Ok_0@.len() == self@.len() && forall|i: int|
                0 <= i < self@.len() ==> op.ensures(
                    (self@[i], other@[i]),
                    #[trigger] r->Ok_0@[i],
                ),
    {
        if self.data.len() != other.data.len() {
            return Err(LinalgError::IncompatibleDimensions);
        }
        let mut v: Vec<T> = Vec::with_capacity(self.data.len());
        let mut i: usize = 0;
        while i < self.data.len()
            invariant
                i <= self@.len(),
                self@.len() == other@.len(),
                v@.len() == i,
                forall|k: int| 0 <= k < self@.len() ==> op.requires((#[trigger] self@[k], other@[k])),
                forall|k: int| 0 <= k < i ==> op.ensures((self@[k], other@[k]), #[trigger] v@[k]),
            decreases self@.len() - i,
        {
            let e = op(self.data[i], other.data[i]);
            v.push(e);
            i += 1;
        }
        Ok(Vector { data: v })
    }

    /// Collects `data` into a vector, keeping its order and length.
    pub fn from_vec(data: Vec<T>) -> (r: Self)
        ensures
            r@ == data@,
    {
        Vector { data }
    }
}

impl<T: Arith> Vector<T> {
    /// Position-wise sum.
    pub fn plus(&self, other: &Self) -> (r: Result<Self, LinalgError>)
        ensures
            self@.len() == other@.len() <==> r is Ok,
            r is Err ==> r == Err::<Self, LinalgError>(LinalgError::IncompatibleDimensions),
            r is Ok ==> r->Ok_0@ == Seq::new(
                self@.len(),
                |i: int| self@[i].spec_plus(other@[i]),
            ),
    {
        let op = |a: T, b: T| -> (c: T)
            ensures
                c == a.spec_plus(b),
            { a.plus(b) };
        let r = self.elemwise(other, op);
        if let Ok(v) = &r {
            assert(v@ =~= Seq::new(self@.len(), |i: int| self@[i].spec_plus(other@[i])));
        }
        r
    }

    /// Position-wise difference.
    pub fn minus(&self, other: &Self) -> (r: Result<Self, LinalgError>)
        ensures
            self@.len() == other@.len() <==> r is Ok,
            r is Err ==> r == Err::<Self, LinalgError>(LinalgError::IncompatibleDimensions),
            r is Ok ==> r->Ok_0@ == Seq::new(
                self@.len(),
                |i: int| self@[i].spec_minus(other@[i]),
            ),
    {
        let op = |a: T, b: T| -> (c: T)
            ensures
                c == a.spec_minus(b),
            { a.minus(b) };
        let r = self.elemwise(other, op);
        if let Ok(v) = &r {
            assert(v@ =~= Seq::new(self@.len(), |i: int| self@[i].spec_minus(other@[i])));
        }
        r
    }
}

impl<T: Zero + Copy> Vector<T> {
    /// A vector of `size` zeros.
    pub fn zeros(size: usize) -> (r: Self)
        ensures
            r@ == Seq::new(size as nat, |i: int| T::spec_zero()),
    {
        let mut v: Vec<T> = Vec::with_capacity(size);
        let mut i: usize = 0;
        while i < size
            invariant
                i <= size,
                v@ == Seq::new(i as nat, |k: int| T::spec_zero()),
            decreases size - i,
        {
            v.push(T::zero());
            i += 1;
            assert(v@ =~= Seq::new(i as nat, |k: int| T::spec_zero()));
        }
        Vector { data: v }
    }
}

impl<T> Vector<T> {
    pub fn len(&self) -> (r: usize)
        ensures
            r == self@.len(),
    {
        self.data.len()
    }

    /// The element at `i`.
    pub fn at(&self, i: usize) -> (r: &T)
        requires
            i < self@.len(),
        ensures
            *r == self@[i as int],
    {
        &self.data[i]
    }

    /// Replaces the element at `i` with `new`.
    pub fn set_at(&mut self, i: usize, new: T)
        requires
            i < old(self)@.len(),
        ensures
            final(self)@ == old(self)@.update(i as int, new),
    {
        self.data.set(i, new);
    }

    /// A mutable borrow of the element at `i`.
    pub fn mut_at(&mut self, i: usize) -> (r: &mut T)
        requires
            i < old(self)@.len(),
        ensures
            *r == old(self)@[i as int],
            final(self)@ == old(self)@.update(i as int, *final(r)),
    {
        &mut self.data[i]
    }

    /// An iterator over the elements, in order.
    pub fn iter(&self) -> (r: std::slice::Iter<'_, T>)
        ensures
            vstd::std_specs::slice::into_iter_elts(r) == self@,
    {
        let r = self.data.as_slice().iter();
        proof {
            assert(r.remaining().unref() =~= self@);
        }
        r
    }

    /// Checks that `other` has the length of this vector.
    pub fn assert_size(&self, other: &Self) -> (r: Result<(), LinalgError>)
        ensures
            r is Ok <==> self@.len() == other@.len(),
            r is Err ==> r == Err::<(), LinalgError>(LinalgError::IncompatibleDimensions),
    {
        if self.data.len() != other.data.len() {
            Err(LinalgError::IncompatibleDimensions)
        } else {
            Ok(())
        }
    }
}

impl<'a, T: Arith + Zero> Dot<&'a Vector<T>> for &'a Vector<T> {
    type Output = Result<T, LinalgError>;

    open spec fn dot_requires(self, rhs: &'a Vector<T>) -> bool {
        true
    }

    open spec fn dot_ensures(self, rhs: &'a Vector<T>, r: Result<T, LinalgError>) -> bool {
        if self@.len() == rhs@.len() {
            r == Ok::<T, LinalgError>(seq_dot(self@, rhs@))
        } else {
            r == Err::<T, LinalgError>(LinalgError::IncompatibleDimensions)
        }
    }

    /// The sum of the position-wise products.
    fn dot(self, rhs: &'a Vector<T>) -> (r: Result<T, LinalgError>) {
        if self.len() != rhs.len() {
            return Err(LinalgError::IncompatibleDimensions);
        }
        let mut acc = T::zero();
        let mut i: usize = 0;
        while i < self.len()
            invariant
                i <= self@.len(),
                self@.len() == rhs@.len(),
                acc == dot_upto(self@, rhs@, i as int),
            decreases self@.len() - i,
        {
            acc = acc.plus(self.at(i).times(*rhs.at(i)));
            i += 1;
        }
        Ok(acc)
    }
}

} // verus!
