//! A dense matrix stored as one row-major buffer and a row stride.
use vstd::prelude::*;
use crate::num::{Arith, Zero};
use crate::ops::{Dot, LinalgError, dot_upto, seq_dot};
use crate::vector::Vector;

verus! {

/// `i * n + j` lies inside a buffer of `m * n` elements.
pub proof fn lemma_index_in_bounds(i: int, j: int, m: int, n: int)
    requires
        0 <= i < m,
        0 <= j < n,
    ensures
        0 <= i * n + j < m * n,
{
    assert(0 <= i * n) by (nonlinear_arith)
        requires
            0 <= i,
            0 <= n,
    ;
    assert((i + 1) * n <= m * n) by (nonlinear_arith)
        requires
            i + 1 <= m,
            0 <= n,
    ;
    assert((i + 1) * n == i * n + n) by (nonlinear_arith);
}

/// Distinct positions of a row-major grid with `n` columns have distinct
/// flat indices.
pub proof fn lemma_index_injective(i1: int, j1: int, i2: int, j2: int, n: int)
    requires
        0 <= i1,
        0 <= i2,
        0 <= j1 < n,
        0 <= j2 < n,
        i1 != i2 || j1 != j2,
    ensures
        i1 * n + j1 != i2 * n + j2,
{
    if i1 < i2 {
        assert((i1 + 1) * n <= i2 * n) by (nonlinear_arith)
            requires
                i1 + 1 <= i2,
                0 <= n,
        ;
        assert((i1 + 1) * n == i1 * n + n) by (nonlinear_arith);
    } else if i2 < i1 {
        assert((i2 + 1) * n <= i1 * n) by (nonlinear_arith)
            requires
                i2 + 1 <= i1,
                0 <= n,
        ;
        assert((i2 + 1) * n == i2 * n + n) by (nonlinear_arith);
    }
}

/// A grid of elements, stored row after row in one buffer. The stride is
/// the number of elements in a row.
#[derive(Debug, Clone)]
pub struct Matrix<T> {
    data: Vec<T>,
    stride: usize,
}

impl<T> View for Matrix<T> {
    type V = Seq<T>;

    /// The buffer, row after row.
    closed spec fn view(&self) -> Seq<T> {
        self.data@
    }
}

impl<T> Matrix<T> {
    /// Number of elements in a row (the stride).
    pub closed spec fn spec_row_len(&self) -> nat {
        self.stride as nat
    }

    /// Number of rows.
    pub open spec fn spec_col_len(&self) -> nat {
        self@.len() / self.spec_row_len()
    }

    /// The stride is positive and divides the buffer's length.
    pub open spec fn wf(&self) -> bool {
        &&& self.spec_row_len() > 0
        &&& self@.len() % self.spec_row_len() == 0
    }

    /// The element in row `i` and column `j`.
    pub open spec fn entry(&self, i: int, j: int) -> T {
        self@[i * self.spec_row_len() + j]
    }

    /// Row `x`, as a sequence.
    pub open spec fn row(&self, x: int) -> Seq<T> {
        Seq::new(self.spec_row_len(), |j: int| self.entry(x, j))
    }

    /// Column `y`, as a sequence.
    pub open spec fn col(&self, y: int) -> Seq<T> {
        Seq::new(self.spec_col_len(), |i: int| self.entry(i, y))
    }

    /// The buffer holds exactly `col_len * row_len` elements.
    pub proof fn lemma_len(&self)
        requires
            self.wf(),
        ensures
            self@.len() == self.spec_col_len() * self.spec_row_len(),
    {
        vstd::arithmetic::div_mod::lemma_fundamental_div_mod(
            self@.len() as int,
            self.spec_row_len() as int,
        );
        assert(self.spec_row_len() * self.spec_col_len() == self.spec_col_len()
            * self.spec_row_len()) by (nonlinear_arith);
    }

    /// Each position of the grid has its own place in the buffer.
    pub proof fn lemma_entry_index(&self, i: int, j: int)
        requires
            self.wf(),
            0 <= i < self.spec_col_len(),
            0 <= j < self.spec_row_len(),
        ensures
            0 <= i * self.spec_row_len() + j < self@.len(),
    {
        self.lemma_len();
        lemma_index_in_bounds(
            i,
            j,
            self.spec_col_len() as int,
            self.spec_row_len() as int,
        );
    }

    /// Replaces the buffer with `dptr`, which must be as long as the current one.
    pub fn set_data(self, dptr: Vec<T>) -> (r: Result<Self, LinalgError>)
        requires
            self.wf(),
        ensures
            dptr@.len() == self@.len() <==> r is Ok,
            r is Err ==> r == Err::<Self, LinalgError>(LinalgError::LengthMismatch),
            r is Ok ==> {
                &&& r->Ok_0.wf()
                &&& r->Ok_0@ == dptr@
                &&& r->Ok_0.spec_row_len() == self.spec_row_len()
                &&& r->Ok_0.spec_col_len() == self.spec_col_len()
            },
    {
        if dptr.len() == self.data.len() {
            Ok(Matrix { data: dptr, stride: self.stride })
        } else {
            Err(LinalgError::LengthMismatch)
        }
    }

    /// The element in row `i` and column `j`.
    pub fn at(&self, i: usize, j: usize) -> (r: &T)
        requires
            self.wf(),
            i < self.spec_col_len(),
            j < self.spec_row_len(),
        ensures
            *r == self.entry(i as int, j as int),
    {
        proof {
            self.lemma_entry_index(i as int, j as int);
        }
        let len = self.data.len();
        let stride = self.stride;
        assert(i * stride + j < len);
        &self.data[i * stride + j]
    }

    /// A mutable borrow of the element in row `i` and column `j`.
    pub fn mut_at(&mut self, i: usize, j: usize) -> (r: &mut T)
        requires
            old(self).wf(),
            i < old(self).spec_col_len(),
            j < old(self).spec_row_len(),
        ensures
            *r == old(self).entry(i as int, j as int),
            final(self).spec_row_len() == old(self).spec_row_len(),
            final(self)@ == old(self)@.update(
                i * old(self).spec_row_len() + j,
                *final(r),
            ),
    {
        proof {
            self.lemma_entry_index(i as int, j as int);
        }
        let len = self.data.len();
        let stride = self.stride;
        assert(i * stride + j < len);
        &mut self.data[i * stride + j]
    }

    /// Number of elements.
    pub fn size(&self) -> (r: usize)
        ensures
            r == self@.len(),
    {
        self.data.len()
    }

    /// Number of elements in a row.
    pub fn row_len(&self) -> (r: usize)
        ensures
            r == self.spec_row_len(),
    {
        self.stride
    }

    /// Number of rows.
    pub fn col_len(&self) -> (r: usize)
        requires
            self.wf(),
        ensures
            r == self.spec_col_len(),
    {
        self.data.len() / self.stride
    }

    /// Checks that `row` is as long as a row of this matrix.
    pub fn assert_row_size(&self, row: &Vector<T>) -> (r: Result<(), LinalgError>)
        ensures
            r is Ok <==> row@.len() == self.spec_row_len(),
            r is Err ==> r == Err::<(), LinalgError>(LinalgError::IncompatibleDimensions),
    {
        if self.stride != row.len() {
            Err(LinalgError::IncompatibleDimensions)
        } else {
            Ok(())
        }
    }

    /// Checks that `col` is as long as a column of this matrix.
    pub fn assert_col_size(&self, col: &Vector<T>) -> (r: Result<(), LinalgError>)
        requires
            self.wf(),
        ensures
            r is Ok <==> col@.len() == self.spec_col_len(),
            r is Err ==> r == Err::<(), LinalgError>(LinalgError::IncompatibleDimensions),
    {
        if self.col_len() != col.len() {
            Err(LinalgError::IncompatibleDimensions)
        } else {
            Ok(())
        }
    }

    /// Whether the matrix has as many rows as columns.
    pub fn is_square(&self) -> (r: bool)
        requires
            self.wf(),
        ensures
            r == (self.spec_row_len() == self.spec_col_len()),
    {
        self.row_len() == self.col_len()
    }

    /// The buffer, row after row.
    pub fn data(&self) -> (r: &Vec<T>)
        ensures
            r@ == self@,
    {
        &self.data
    }
}

impl<T: Copy> Matrix<T> {
    /// A matrix with one row, `row`.
    pub fn from_row(row: &Vector<T>) -> (r: Self)
        requires
            row@.len() > 0,
        ensures
            r.wf(),
            r@ == row@,
            r.spec_row_len() == row@.len(),
            r.spec_col_len() == 1,
    {
        let data = row.data();
        let stride = row.len();
        let r = Matrix { data, stride };
        assert(r.spec_col_len() == 1) by (nonlinear_arith)
            requires
                r@.len() == r.spec_row_len(),
                r.spec_row_len() > 0,
        ;
        r
    }

    /// The matrix with `row` appended below its last row.
    pub fn push_row(self, row: &Vector<T>) -> (r: Result<Self, LinalgError>)
        requires
            self.wf(),
            self@.len() + row@.len() <= usize::MAX,
        ensures
            row@.len() == self.spec_row_len() <==> r is Ok,
            r is Err ==> r == Err::<Self, LinalgError>(LinalgError::IncompatibleDimensions),
            r is Ok ==> {
                &&& r->Ok_0.wf()
                &&& r->Ok_0@ == self@ + row@
                &&& r->Ok_0.spec_row_len() == self.spec_row_len()
                &&& r->Ok_0.spec_col_len() == self.spec_col_len() + 1
            },
    {
        if self.assert_row_size(row).is_err() {
            return Err(LinalgError::IncompatibleDimensions);
        }
        let mut data = self.data;
        let ghost start = data@;
        let mut i: usize = 0;
        while i < row.len()
            invariant
                i <= row@.len(),
                start.len() + row@.len() <= usize::MAX,
                data@ == start + row@.subrange(0, i as int),
            decreases row@.len() - i,
        {
            data.push(*row.at(i));
            i += 1;
            assert(data@ =~= start + row@.subrange(0, i as int));
        }
        assert(data@ =~= start + row@);
        let r = Matrix { data, stride: self.stride };
        proof {
            let n = self.spec_row_len() as int;
            let c = self.spec_col_len() as int;
            self.lemma_len();
            assert(r@.len() == c * n + n);
            assert(c * n + n == (c + 1) * n) by (nonlinear_arith);
            vstd::arithmetic::div_mod::lemma_div_multiples_vanish(c + 1, n);
            vstd::arithmetic::div_mod::lemma_mod_multiples_basic(c + 1, n);
            assert((c + 1) * n == n * (c + 1)) by (nonlinear_arith);
        }
        Ok(r)
    }

    /// The matrix with `col` inserted after its last column. Every row
    /// moves, so this costs time in the matrix's size.
    pub fn push_col(self, col: &Vector<T>) -> (r: Result<Self, LinalgError>)
        requires
            self.wf(),
            self@.len() + col@.len() <= usize::MAX,
            self.spec_row_len() < usize::MAX,
        ensures
            col@.len() == self.spec_col_len() <==> r is Ok,
            r is Err ==> r == Err::<Self, LinalgError>(LinalgError::IncompatibleDimensions),
            r is Ok ==> {
                &&& r->Ok_0.wf()
                &&& r->Ok_0@.len() == self@.len() + col@.len()
                &&& r->Ok_0.spec_row_len() == self.spec_row_len() + 1
                &&& r->Ok_0.spec_col_len() == self.spec_col_len()
                &&& forall|i: int, j: int|
                    0 <= i < self.spec_col_len() && 0 <= j <= self.spec_row_len()
                        ==> #[trigger] r->Ok_0.entry(i, j) == if j < self.spec_row_len() {
                        self.entry(i, j)
                    } else {
                        col@[i]
                    }
            },
    {
        if self.assert_col_size(col).is_err() {
            return Err(LinalgError::IncompatibleDimensions);
        }
        let rows = self.col_len();
        let stride = self.stride;
        proof {
            self.lemma_len();
        }
        let ghost n = stride as int;
        let ghost m = rows as int;
        let mut data: Vec<T> = Vec::with_capacity(self.data.len() + rows);
        let mut i: usize = 0;
        while i < rows
            invariant
                self.wf(),
                rows == self.spec_col_len(),
                stride == self.spec_row_len(),
                col@.len() == rows,
                self@.len() == m * n,
                self@.len() + col@.len() <= usize::MAX,
                n == stride as int,
                m == rows as int,
                i <= rows,
                data@.len() == i * (n + 1),
                forall|a: int, b: int|
                    0 <= a < i && 0 <= b <= n ==> #[trigger] data@[a * (n + 1) + b] == if b < n {
                        self.entry(a, b)
                    } else {
                        col@[a]
                    },
            decreases rows - i,
        {
            let ghost base = data@.len() as int;
            assert(base + n + 1 <= m * n + m) by (nonlinear_arith)
                requires
                    base == i * (n + 1),
                    i < m,
                    0 <= n,
            ;
            let mut j: usize = 0;
            while j < stride
                invariant
                    self.wf(),
                    rows == self.spec_col_len(),
                    stride == self.spec_row_len(),
                    col@.len() == rows,
                    self@.len() == m * n,
                    n == stride as int,
                    m == rows as int,
                    i < rows,
                    j <= stride,
                    base == i * (n + 1),
                    base + n + 1 <= m * n + m,
                    m * n + m <= usize::MAX,
                    data@.len() == base + j,
                    forall|a: int, b: int|
                        0 <= a < i && 0 <= b <= n ==> #[trigger] data@[a * (n + 1) + b] == if b < n {
                            self.entry(a, b)
                        } else {
                            col@[a]
                        },
                    forall|b: int| 0 <= b < j ==> #[trigger] data@[base + b] == self.entry(i as int, b),
                decreases stride - j,
            {
                data.push(*self.at(i, j));
                proof {
                    assert forall|a: int, b: int|
                        0 <= a < i && 0 <= b <= n implies #[trigger] data@[a * (n + 1) + b] == if b < n {
                            self.entry(a, b)
                        } else {
                            col@[a]
                        } by {
                        lemma_index_in_bounds(a, b, i as int, n + 1);
                    }
                }
                j += 1;
            }
            data.push(*col.at(i));
            proof {
                assert forall|a: int, b: int|
                    0 <= a < i + 1 && 0 <= b <= n implies #[trigger] data@[a * (n + 1) + b] == if b < n {
                        self.entry(a, b)
                    } else {
                        col@[a]
                    } by {
                    if a < i {
                        lemma_index_in_bounds(a, b, i as int, n + 1);
                    } else {
                        assert(a * (n + 1) + b == base + b);
                    }
                }
                assert(data@.len() == (i + 1) * (n + 1)) by (nonlinear_arith)
                    requires
                        data@.len() == base + n + 1,
                        base == i * (n + 1),
                ;
            }
            i += 1;
        }
        let r = Matrix { data, stride: stride + 1 };
        proof {
            assert(m * (n + 1) == m * n + m) by (nonlinear_arith);
            vstd::arithmetic::div_mod::lemma_div_multiples_vanish(m, n + 1);
            vstd::arithmetic::div_mod::lemma_mod_multiples_basic(m, n + 1);
            assert(m * (n + 1) == (n + 1) * m) by (nonlinear_arith);
            assert forall|a: int, b: int|
                0 <= a < m && 0 <= b <= n implies #[trigger] r.entry(a, b) == if b < n {
                    self.entry(a, b)
                } else {
                    col@[a]
                } by {
                assert(r.entry(a, b) == data@[a * (n + 1) + b]);
            }
        }
        Ok(r)
    }
}

impl<T: Zero + Copy> Matrix<T> {
    /// A matrix of `cl` rows and `rl` columns, all zero.
    pub fn zeros(cl: usize, rl: usize) -> (r: Self)
        requires
            rl > 0,
            cl * rl <= usize::MAX,
        ensures
            r.wf(),
            r.spec_col_len() == cl,
            r.spec_row_len() == rl,
            r@ == Seq::new((cl * rl) as nat, |k: int| T::spec_zero()),
    {
        let size = cl * rl;
        let mut data: Vec<T> = Vec::with_capacity(size);
        let mut k: usize = 0;
        while k < size
            invariant
                k <= size,
                data@ == Seq::new(k as nat, |q: int| T::spec_zero()),
            decreases size - k,
        {
            data.push(T::zero());
            k += 1;
            assert(data@ =~= Seq::new(k as nat, |q: int| T::spec_zero()));
        }
        let r = Matrix { data, stride: rl };
        proof {
            vstd::arithmetic::div_mod::lemma_div_multiples_vanish(cl as int, rl as int);
            vstd::arithmetic::div_mod::lemma_mod_multiples_basic(cl as int, rl as int);
            assert(cl * rl == rl * cl) by (nonlinear_arith);
        }
        r
    }
}

impl<T: Arith> Matrix<T> {
    /// Every element multiplied by `scalar`.
    pub fn mul_scalar(&self, scalar: &T) -> (r: Self)
        requires
            self.wf(),
        ensures
            r.wf(),
            r.spec_row_len() == self.spec_row_len(),
            r.spec_col_len() == self.spec_col_len(),
            r@ == Seq::new(self@.len(), |k: int| self@[k].spec_times(*scalar)),
    {
        let mut data: Vec<T> = Vec::with_capacity(self.data.len());
        let mut k: usize = 0;
        while k < self.data.len()
            invariant
                k <= self@.len(),
                data@ == Seq::new(k as nat, |q: int| self@[q].spec_times(*scalar)),
            decreases self@.len() - k,
        {
            data.push(self.data[k].times(*scalar));
            k += 1;
            assert(data@ =~= Seq::new(k as nat, |q: int| self@[q].spec_times(*scalar)));
        }
        Matrix { data, stride: self.stride }
    }
}

impl<T: Copy> Matrix<T> {
    /// A matrix whose rows are `rows`, in order. Every row must have the
    /// length of the first, which must not be empty.
    pub fn from_rows(rows: &[Vector<T>]) -> (r: Result<Self, LinalgError>)
        requires
            rows@.len() > 0,
            rows@[0]@.len() > 0,
            rows@.len() * rows@[0]@.len() <= usize::MAX,
        ensures
            (forall|i: int| 0 <= i < rows@.len() ==> (#[trigger] rows@[i])@.len() == rows@[0]@.len())
                <==> r is Ok,
            r is Err ==> r == Err::<Self, LinalgError>(LinalgError::IncompatibleDimensions),
            r is Ok ==> {
                &&& r->Ok_0.wf()
                &&& r->Ok_0.spec_col_len() == rows@.len()
                &&& r->Ok_0.spec_row_len() == rows@[0]@.len()
                &&& forall|i: int| 0 <= i < rows@.len() ==> #[trigger] r->Ok_0.row(i) == rows@[i]@
            },
    {
        let mut m = Matrix::from_row(&rows[0]);
        let ghost n = rows@[0]@.len() as int;
        let mut i: usize = 1;
        while i < rows.len()
            invariant
                1 <= i <= rows@.len(),
                n == rows@[0]@.len(),
                rows@.len() * n <= usize::MAX,
                m.wf(),
                m.spec_row_len() == n,
                m.spec_col_len() == i,
                forall|k: int| 0 <= k < i ==> (#[trigger] rows@[k])@.len() == n,
                forall|k: int| 0 <= k < i ==> #[trigger] m.row(k) == rows@[k]@,
            decreases rows@.len() - i,
        {
            proof {
                m.lemma_len();
                assert(i * n + n <= rows@.len() * n) by (nonlinear_arith)
                    requires
                        i < rows@.len(),
                        0 <= n,
                ;
            }
            if rows[i].len() != m.row_len() {
                return Err(LinalgError::IncompatibleDimensions);
            }
            let ghost prev = m;
            m = match m.push_row(&rows[i]) {
                Ok(next) => next,
                Err(e) => {
                    return Err(e);
                },
            };
            proof {
                assert forall|k: int| 0 <= k <= i implies #[trigger] m.row(k) == rows@[k]@ by {
                    assert forall|j: int| 0 <= j < n implies m.row(k)[j] == rows@[k]@[j] by {
                        if k < i {
                            lemma_index_in_bounds(k, j, i as int, n);
                            assert(m.row(k)[j] == prev.row(k)[j]);
                        } else {
                            assert(k * n + j == i * n + j);
                        }
                    }
                    assert(m.row(k) =~= rows@[k]@);
                }
            }
            i += 1;
        }
        Ok(m)
    }
}

impl<'a, T: Arith + Zero> Dot<&'a Matrix<T>> for &'a Matrix<T> {
    type Output = Result<Matrix<T>, LinalgError>;

    open spec fn dot_requires(self, rhs: &'a Matrix<T>) -> bool {
        &&& self.wf()
        &&& rhs.wf()
        &&& self.spec_row_len() == rhs.spec_col_len() ==> self.spec_col_len()
            * rhs.spec_row_len() <= usize::MAX
    }

    open spec fn dot_ensures(self, rhs: &'a Matrix<T>, r: Result<Matrix<T>, LinalgError>) -> bool {
        if self.spec_row_len() == rhs.spec_col_len() {
            &&& r is Ok
            &&& r->Ok_0.wf()
            &&& r->Ok_0.spec_col_len() == self.spec_col_len()
            &&& r->Ok_0.spec_row_len() == rhs.spec_row_len()
            &&& forall|x: int, y: int|
                0 <= x < self.spec_col_len() && 0 <= y < rhs.spec_row_len()
                    ==> #[trigger] r->Ok_0.entry(x, y) == seq_dot(self.row(x), rhs.col(y))
        } else {
            r == Err::<Matrix<T>, LinalgError>(LinalgError::IncompatibleDimensions)
        }
    }

    /// The matrix product: entry `(x, y)` is the sum over `i` of
    /// `self(x, i) * rhs(i, y)`. Cells are filled column by column, each
    /// accumulated from zero in increasing `i`.
    fn dot(self, rhs: &'a Matrix<T>) -> (r: Result<Matrix<T>, LinalgError>) {
        if self.row_len() != rhs.col_len() {
            return Err(LinalgError::IncompatibleDimensions);
        }
        let m = self.col_len();
        let k = self.row_len();
        let n = rhs.row_len();
        let mut rlt = Matrix::<T>::zeros(m, n);
        let mut y: usize = 0;
        while y < n
            invariant
                self.wf(),
                rhs.wf(),
                m == self.spec_col_len(),
                k == self.spec_row_len(),
                k == rhs.spec_col_len(),
                n == rhs.spec_row_len(),
                rlt.wf(),
                rlt.spec_col_len() == m,
                rlt.spec_row_len() == n,
                y <= n,
                forall|a: int, b: int|
                    0 <= a < m && 0 <= b < y ==> #[trigger] rlt.entry(a, b) == seq_dot(
                        self.row(a),
                        rhs.col(b),
                    ),
            decreases n - y,
        {
            let mut x: usize = 0;
            while x < m
                invariant
                    self.wf(),
                    rhs.wf(),
                    m == self.spec_col_len(),
                    k == self.spec_row_len(),
                    k == rhs.spec_col_len(),
                    n == rhs.spec_row_len(),
                    rlt.wf(),
                    rlt.spec_col_len() == m,
                    rlt.spec_row_len() == n,
                    y < n,
                    x <= m,
                    forall|a: int, b: int|
                        0 <= a < m && 0 <= b < n && (b < y || (b == y && a < x))
                            ==> #[trigger] rlt.entry(a, b) == seq_dot(self.row(a), rhs.col(b)),
                decreases m - x,
            {
                let mut acc = T::zero();
                let mut i: usize = 0;
                while i < k
                    invariant
                        self.wf(),
                        rhs.wf(),
                        m == self.spec_col_len(),
                        k == self.spec_row_len(),
                        k == rhs.spec_col_len(),
                        n == rhs.spec_row_len(),
                        x < m,
                        y < n,
                        i <= k,
                        acc == dot_upto(self.row(x as int), rhs.col(y as int), i as int),
                    decreases k - i,
                {
                    acc = acc.plus(self.at(x, i).times(*rhs.at(i, y)));
                    i += 1;
                }
                let ghost before = rlt;
                let cell = rlt.mut_at(x, y);
                *cell = acc;
                proof {
                    before.lemma_entry_index(x as int, y as int);
                    assert(rlt@.len() == before@.len());
                    assert forall|a: int, b: int|
                        0 <= a < m && 0 <= b < n && (b < y || (b == y && a < x + 1))
                            implies #[trigger] rlt.entry(a, b) == seq_dot(self.row(a), rhs.col(b)) by {
                        before.lemma_entry_index(a, b);
                        if a != x || b != y {
                            lemma_index_injective(a, b, x as int, y as int, n as int);
                            assert(rlt.entry(a, b) == before.entry(a, b));
                        }
                    }
                }
                x += 1;
            }
            y += 1;
        }
        Ok(rlt)
    }
}

impl<'a, T: Arith + Zero> Dot<&'a Matrix<T>> for &'a Vector<T> {
    type Output = Result<Vector<T>, LinalgError>;

    open spec fn dot_requires(self, rhs: &'a Matrix<T>) -> bool {
        rhs.wf()
    }

    open spec fn dot_ensures(self, rhs: &'a Matrix<T>, r: Result<Vector<T>, LinalgError>) -> bool {
        if self@.len() == rhs.spec_col_len() {
            &&& r is Ok
            &&& r->Ok_0@.len() == rhs.spec_row_len()
            &&& forall|h: int|
                0 <= h < rhs.spec_row_len() ==> #[trigger] r->Ok_0@[h] == seq_dot(self@, rhs.col(h))
        } else {
            r == Err::<Vector<T>, LinalgError>(LinalgError::IncompatibleDimensions)
        }
    }

    /// The row vector times the matrix: element `h` is the sum over `i` of
    /// `self[i] * rhs(i, h)`.
    fn dot(self, rhs: &'a Matrix<T>) -> (r: Result<Vector<T>, LinalgError>) {
        if self.len() != rhs.col_len() {
            return Err(LinalgError::IncompatibleDimensions);
        }
        let n = rhs.row_len();
        let mut data: Vec<T> = Vec::with_capacity(n);
        let mut h: usize = 0;
        while h < n
            invariant
                rhs.wf(),
                self@.len() == rhs.spec_col_len(),
                n == rhs.spec_row_len(),
                h <= n,
                data@.len() == h,
                forall|b: int| 0 <= b < h ==> #[trigger] data@[b] == seq_dot(self@, rhs.col(b)),
            decreases n - h,
        {
            let mut acc = T::zero();
            let mut i: usize = 0;
            while i < self.len()
                invariant
                    rhs.wf(),
                    self@.len() == rhs.spec_col_len(),
                    n == rhs.spec_row_len(),
                    h < n,
                    i <= self@.len(),
                    acc == dot_upto(self@, rhs.col(h as int), i as int),
                decreases self@.len() - i,
            {
                acc = acc.plus(self.at(i).times(*rhs.at(i, h)));
                i += 1;
            }
            data.push(acc);
            h += 1;
        }
        Ok(Vector::from_vec(data))
    }
}

} // verus!
