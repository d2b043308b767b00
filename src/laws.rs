//! Algebraic facts about the products, proved for every element type
//! whose operations satisfy the stated hypotheses.
use vstd::prelude::*;
use crate::num::{Arith, One, Zero};
use crate::matrix::Matrix;
use crate::ops::{Dot, LinalgError, dot_upto, seq_dot};
use crate::sqrmat::SquareMatrix;
use crate::vector::Vector;

verus! {

/// Multiplication of elements does not depend on the order of its operands.
pub open spec fn times_commutes<T: Arith>() -> bool {
    forall|x: T, y: T| #[trigger] x.spec_times(y) == y.spec_times(x)
}

/// Zero is an identity for addition and absorbs multiplication, and one is
/// an identity for multiplication.
pub open spec fn unit_laws<T: Arith + Zero + One>() -> bool {
    &&& forall|x: T| #[trigger] T::spec_zero().spec_plus(x) == x
    &&& forall|x: T| #[trigger] x.spec_plus(T::spec_zero()) == x
    &&& forall|x: T| #[trigger] x.spec_times(T::spec_one()) == x
    &&& forall|x: T| #[trigger] T::spec_one().spec_times(x) == x
    &&& forall|x: T| #[trigger] x.spec_times(T::spec_zero()) == T::spec_zero()
    &&& forall|x: T| #[trigger] T::spec_zero().spec_times(x) == T::spec_zero()
}

/// The row of an identity matrix, or its column: one at `y`, zero elsewhere.
pub open spec fn is_unit_seq<T: Zero + One>(e: Seq<T>, y: int) -> bool {
    forall|i: int| 0 <= i < e.len() ==> #[trigger] e[i] == if i == y {
        T::spec_one()
    } else {
        T::spec_zero()
    }
}

proof fn lemma_dot_upto_commutative<T: Arith + Zero>(a: Seq<T>, b: Seq<T>, n: int)
    requires
        times_commutes::<T>(),
        0 <= n <= a.len(),
        a.len() == b.len(),
    ensures
        dot_upto(a, b, n) == dot_upto(b, a, n),
    decreases n,
{
    if n > 0 {
        lemma_dot_upto_commutative(a, b, n - 1);
        assert(a[n - 1].spec_times(b[n - 1]) == b[n - 1].spec_times(a[n - 1]));
    }
}

/// `a.dot(b) == b.dot(a)` for any two vectors, when multiplication of
/// elements does not depend on the order of its operands. Vectors of
/// different lengths give the same error both ways.
pub proof fn lemma_dot_commutative<'a, T: Arith + Zero>(
    a: &'a Vector<T>,
    b: &'a Vector<T>,
    ab: Result<T, LinalgError>,
    ba: Result<T, LinalgError>,
)
    requires
        times_commutes::<T>(),
        a.dot_ensures(b, ab),
        b.dot_ensures(a, ba),
    ensures
        ab == ba,
{
    if a@.len() == b@.len() {
        lemma_dot_upto_commutative(a@, b@, a@.len() as int);
    }
}

/// Summing `a[i] * e[i]` against a unit sequence picks out `a[y]` once the
/// sum has passed position `y`.
proof fn lemma_dot_upto_unit_right<T: Arith + Zero + One>(a: Seq<T>, e: Seq<T>, y: int, n: int)
    requires
        unit_laws::<T>(),
        is_unit_seq(e, y),
        0 <= n <= a.len(),
        a.len() == e.len(),
        0 <= y < a.len(),
    ensures
        dot_upto(a, e, n) == if n <= y {
            T::spec_zero()
        } else {
            a[y]
        },
    decreases n,
{
    if n > 0 {
        lemma_dot_upto_unit_right(a, e, y, n - 1);
        let i = n - 1;
        if i == y {
            assert(a[i].spec_times(e[i]) == a[i].spec_times(T::spec_one()));
        } else {
            assert(a[i].spec_times(e[i]) == a[i].spec_times(T::spec_zero()));
        }
    }
}

/// The mirror image of `lemma_dot_upto_unit_right`.
proof fn lemma_dot_upto_unit_left<T: Arith + Zero + One>(e: Seq<T>, a: Seq<T>, y: int, n: int)
    requires
        unit_laws::<T>(),
        is_unit_seq(e, y),
        0 <= n <= a.len(),
        a.len() == e.len(),
        0 <= y < a.len(),
    ensures
        dot_upto(e, a, n) == if n <= y {
            T::spec_zero()
        } else {
            a[y]
        },
    decreases n,
{
    if n > 0 {
        lemma_dot_upto_unit_left(e, a, y, n - 1);
        let i = n - 1;
        if i == y {
            assert(e[i].spec_times(a[i]) == T::spec_one().spec_times(a[i]));
        } else {
            assert(e[i].spec_times(a[i]) == T::spec_zero().spec_times(a[i]));
        }
    }
}

/// Each entry of a square matrix times the identity, on either side, is
/// the matrix's own entry.
proof fn lemma_identity_entries<T: Arith + Zero + One>(m: &SquareMatrix<T>, id: &SquareMatrix<T>)
    requires
        unit_laws::<T>(),
        m.wf(),
        id.wf(),
        id.spec_order() == m.spec_order(),
        forall|i: int, j: int|
            0 <= i < id.spec_order() && 0 <= j < id.spec_order() ==> #[trigger] id.entry(i, j)
                == if i == j {
                T::spec_one()
            } else {
                T::spec_zero()
            },
    ensures
        forall|x: int, y: int|
            0 <= x < m.spec_order() && 0 <= y < m.spec_order() ==> #[trigger] seq_dot(
                m.inner().row(x),
                id.inner().col(y),
            ) == m.entry(x, y),
        forall|x: int, y: int|
            0 <= x < m.spec_order() && 0 <= y < m.spec_order() ==> #[trigger] seq_dot(
                id.inner().row(x),
                m.inner().col(y),
            ) == m.entry(x, y),
{
    let n = m.spec_order() as int;
    assert forall|x: int, y: int| 0 <= x < n && 0 <= y < n implies #[trigger] seq_dot(
        m.inner().row(x),
        id.inner().col(y),
    ) == m.entry(x, y) by {
        let a = m.inner().row(x);
        let e = id.inner().col(y);
        assert(is_unit_seq(e, y)) by {
            assert forall|i: int| 0 <= i < e.len() implies #[trigger] e[i] == if i == y {
                T::spec_one()
            } else {
                T::spec_zero()
            } by {
                assert(e[i] == id.entry(i, y));
            }
        }
        lemma_dot_upto_unit_right(a, e, y, n);
    }
    assert forall|x: int, y: int| 0 <= x < n && 0 <= y < n implies #[trigger] seq_dot(
        id.inner().row(x),
        m.inner().col(y),
    ) == m.entry(x, y) by {
        let e = id.inner().row(x);
        let a = m.inner().col(y);
        assert(is_unit_seq(e, x)) by {
            assert forall|i: int| 0 <= i < e.len() implies #[trigger] e[i] == if i == x {
                T::spec_one()
            } else {
                T::spec_zero()
            } by {
                assert(e[i] == id.entry(x, i));
            }
        }
        lemma_dot_upto_unit_left(e, a, x, n);
    }
}

/// Two well-formed matrices of one shape whose entries agree hold the
/// same buffer.
proof fn lemma_same_entries<T>(p: Matrix<T>, q: Matrix<T>)
    requires
        p.wf(),
        q.wf(),
        p.spec_row_len() == q.spec_row_len(),
        p.spec_col_len() == q.spec_col_len(),
        forall|x: int, y: int|
            0 <= x < p.spec_col_len() && 0 <= y < p.spec_row_len() ==> #[trigger] p.entry(x, y)
                == q.entry(x, y),
    ensures
        p@ == q@,
{
    p.lemma_len();
    q.lemma_len();
    let n = p.spec_row_len() as int;
    assert forall|k: int| 0 <= k < p@.len() implies p@[k] == q@[k] by {
        vstd::arithmetic::div_mod::lemma_fundamental_div_mod(k, n);
        let x = k / n;
        let y = k % n;
        assert(0 <= x < p.spec_col_len()) by {
            vstd::arithmetic::div_mod::lemma_div_pos_is_pos(k, n);
            vstd::arithmetic::div_mod::lemma_div_by_multiple_is_strongly_ordered(
                k,
                p@.len() as int,
                p.spec_col_len() as int,
                n,
            );
        }
        assert(k == x * n + y) by (nonlinear_arith)
            requires
                k == n * x + y,
        ;
        assert(p.entry(x, y) == q.entry(x, y));
    }
    assert(p@ =~= q@);
}

/// Multiplying a square matrix by the identity of its order, on either
/// side, gives back the matrix, when zero and one behave as units.
pub proof fn lemma_identity_law<'a, T: Arith + Zero + One>(
    m: &'a SquareMatrix<T>,
    id: &'a SquareMatrix<T>,
    right: Result<Matrix<T>, LinalgError>,
    left: Result<Matrix<T>, LinalgError>,
)
    requires
        unit_laws::<T>(),
        m.wf(),
        id.wf(),
        id.spec_order() == m.spec_order(),
        forall|i: int, j: int|
            0 <= i < id.spec_order() && 0 <= j < id.spec_order() ==> #[trigger] id.entry(i, j)
                == if i == j {
                T::spec_one()
            } else {
                T::spec_zero()
            },
        (&m.inner()).dot_ensures(&id.inner(), right),
        (&id.inner()).dot_ensures(&m.inner(), left),
    ensures
        right is Ok,
        right->Ok_0@ == m.inner()@,
        right->Ok_0.spec_row_len() == m.spec_order(),
        left is Ok,
        left->Ok_0@ == m.inner()@,
        left->Ok_0.spec_row_len() == m.spec_order(),
{
    lemma_identity_entries(m, id);
    lemma_same_entries(right->Ok_0, m.inner());
    lemma_same_entries(left->Ok_0, m.inner());
}

/// `i64` elements meet the hypotheses of the laws above: multiplication
/// commutes, zero and one are units, and zero absorbs.
pub proof fn lemma_i64_laws()
    ensures
        times_commutes::<i64>(),
        unit_laws::<i64>(),
{
    assert forall|x: i64, y: i64| #[trigger] x.spec_times(y) == y.spec_times(x) by {
        assert(x as int * y as int == y as int * x as int) by (nonlinear_arith);
    }
    assert forall|x: i64| #[trigger] x.spec_times(1i64) == x && 1i64.spec_times(x) == x by {
        let r = 0x1_0000_0000_0000_0000int;
        if x >= 0 {
            vstd::arithmetic::div_mod::lemma_small_mod(x as nat, r as nat);
        } else {
            vstd::arithmetic::div_mod::lemma_mod_add_multiples_vanish(x as int, r);
            vstd::arithmetic::div_mod::lemma_small_mod((x + r) as nat, r as nat);
        }
    }
    assert forall|x: i64| #[trigger] x.spec_times(0i64) == 0i64 && 0i64.spec_times(x) == 0i64 by {
    }
}

/// `u64` elements meet the hypotheses of the laws above: multiplication
/// commutes, zero and one are units, and zero absorbs.
pub proof fn lemma_u64_laws()
    ensures
        times_commutes::<u64>(),
        unit_laws::<u64>(),
{
    assert forall|x: u64, y: u64| #[trigger] x.spec_times(y) == y.spec_times(x) by {
        assert(x as nat * y as nat == y as nat * x as nat) by (nonlinear_arith);
    }
    assert forall|x: u64| #[trigger] x.spec_times(1u64) == x && 1u64.spec_times(x) == x by {
        vstd::arithmetic::div_mod::lemma_small_mod(x as nat, 0x1_0000_0000_0000_0000nat);
    }
}

} // verus!
