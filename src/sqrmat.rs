//! Matrices with as many rows as columns.
use vstd::prelude::*;
use crate::matrix::{Matrix, lemma_index_injective};
use crate::num::{One, Zero};
use crate::ops::LinalgError;

verus! {

/// A matrix known to be square; its order is its number of rows.
#[derive(Debug, Clone)]
pub struct SquareMatrix<T> {
    mat: Matrix<T>,
}

/// Short name for a square matrix.
pub type SqrMat<T> = SquareMatrix<T>;

impl<T> SquareMatrix<T> {
    /// The wrapped matrix.
    pub closed spec fn inner(&self) -> Matrix<T> {
        self.mat
    }

    /// The wrapped matrix is well formed and square.
    pub open spec fn wf(&self) -> bool {
        &&& self.inner().wf()
        &&& self.inner().spec_row_len() == self.inner().spec_col_len()
    }

    pub open spec fn spec_order(&self) -> nat {
        self.inner().spec_row_len()
    }

    /// The element in row `i` and column `j`.
    pub open spec fn entry(&self, i: int, j: int) -> T {
        self.inner().entry(i, j)
    }

    /// Wraps `mat`, which must be square.
    pub fn from(mat: Matrix<T>) -> (r: Result<Self, LinalgError>)
        requires
            mat.wf(),
        ensures
            (mat.spec_row_len() == mat.spec_col_len()) <==> r is Ok,
            r is Err ==> r == Err::<Self, LinalgError>(LinalgError::NotSquare),
            r is Ok ==> r->Ok_0.wf() && r->Ok_0.inner() == mat,
    {
        if mat.is_square() {
            Ok(SquareMatrix { mat })
        } else {
            Err(LinalgError::NotSquare)
        }
    }

    /// The element in row `i` and column `j`.
    pub fn at(&self, i: usize, j: usize) -> (r: &T)
        requires
            self.wf(),
            i < self.spec_order(),
            j < self.spec_order(),
        ensures
            *r == self.entry(i as int, j as int),
    {
        self.mat.at(i, j)
    }

    /// A mutable borrow of the element in row `i` and column `j`.
    pub fn mut_at(&mut self, i: usize, j: usize) -> (r: &mut T)
        requires
            old(self).wf(),
            i < old(self).spec_order(),
            j < old(self).spec_order(),
        ensures
            *r == old(self).entry(i as int, j as int),
            final(self).spec_order() == old(self).spec_order(),
            final(self).inner()@ == old(self).inner()@.update(
                i * old(self).spec_order() + j,
                *final(r),
            ),
    {
        self.mat.mut_at(i, j)
    }

    /// Number of rows, which is also the number of columns.
    pub fn order(&self) -> (r: usize)
        ensures
            r == self.spec_order(),
    {
        self.mat.row_len()
    }

    /// Number of elements.
    pub fn size(&self) -> (r: usize)
        ensures
            r == self.inner()@.len(),
    {
        self.mat.size()
    }

    /// The wrapped matrix.
    pub fn as_mat(self) -> (r: Matrix<T>)
        ensures
            r == self.inner(),
    {
        self.mat
    }
}

impl<T> Matrix<T> {
    /// This matrix as a square matrix; fails unless it is square.
    pub fn to_sqrmat(self) -> (r: Result<SquareMatrix<T>, LinalgError>)
        requires
            self.wf(),
        ensures
            (self.spec_row_len() == self.spec_col_len()) <==> r is Ok,
            r is Err ==> r == Err::<SquareMatrix<T>, LinalgError>(LinalgError::NotSquare),
            r is Ok ==> r->Ok_0.wf() && r->Ok_0.inner() == self,
    {
        SquareMatrix::from(self)
    }
}

impl<T: Zero + Copy> SquareMatrix<T> {
    /// The square matrix of order `order`, all zero.
    pub fn zeros(order: usize) -> (r: Self)
        requires
            order > 0,
            order * order <= usize::MAX,
        ensures
            r.wf(),
            r.spec_order() == order,
            r.inner()@ == Seq::new((order * order) as nat, |k: int| T::spec_zero()),
    {
        let mat = Matrix::zeros(order, order);
        SquareMatrix { mat }
    }
}

impl<T: Zero + One + Copy> SquareMatrix<T> {
    /// The identity matrix of order `order`: one on the diagonal, zero
    /// elsewhere. Fails when `order` is zero.
    pub fn id(order: usize) -> (r: Result<Self, LinalgError>)
        requires
            order * order <= usize::MAX,
        ensures
            order == 0 <==> r is Err,
            r is Err ==> r == Err::<Self, LinalgError>(LinalgError::InvalidOrder),
            r is Ok ==> {
                &&& r->Ok_0.wf()
                &&& r->Ok_0.spec_order() == order
                &&& r->Ok_0.inner()@.len() == order * order
                &&& forall|i: int, j: int|
                    0 <= i < order && 0 <= j < order ==> #[trigger] r->Ok_0.entry(i, j) == if i
                        == j {
                        T::spec_one()
                    } else {
                        T::spec_zero()
                    }
            },
    {
        if order == 0 {
            return Err(LinalgError::InvalidOrder);
        }
        let mut m = Self::zeros(order);
        let ghost n = order as int;
        proof {
            assert forall|i: int, j: int| 0 <= i < n && 0 <= j < n implies #[trigger] m.entry(i, j)
                == T::spec_zero() by {
                m.inner().lemma_entry_index(i, j);
            }
        }
        let mut k: usize = 0;
        while k < order
            invariant
                m.wf(),
                m.spec_order() == order,
                n == order,
                m.inner()@.len() == n * n,
                k <= order,
                forall|i: int, j: int|
                    0 <= i < n && 0 <= j < n ==> #[trigger] m.entry(i, j) == if i == j && i < k {
                        T::spec_one()
                    } else {
                        T::spec_zero()
                    },
            decreases order - k,
        {
            let ghost before = m;
            let one = T::one();
            let cell = m.mut_at(k, k);
            *cell = one;
            proof {
                before.inner().lemma_entry_index(k as int, k as int);
                assert(m.inner().wf());
                assert forall|i: int, j: int| 0 <= i < n && 0 <= j < n implies #[trigger] m.entry(
                    i,
                    j,
                ) == if i == j && i < k + 1 {
                    T::spec_one()
                } else {
                    T::spec_zero()
                } by {
                    before.inner().lemma_entry_index(i, j);
                    if i != k || j != k {
                        lemma_index_injective(i, j, k as int, k as int, n);
                        assert(m.entry(i, j) == before.entry(i, j));
                    }
                }
            }
            k += 1;
        }
        Ok(m)
    }
}

} // verus!
