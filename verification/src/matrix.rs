//! The matrix multiply kernel: allocates three square matrices, fills two
//! with ones, and multiplies them into the third with the standard naive
//! triple loop. The product is discarded; the work is the point.

use vstd::prelude::*;

verus! {

/// `m` is a square matrix of dimension `size`.
pub open spec fn is_square(m: Seq<Seq<i32>>, size: int) -> bool {
    &&& m.len() == size
    &&& forall|i: int| 0 <= i < size ==> (#[trigger] m[i]).len() == size
}

/// `m` is a square matrix of dimension `size` with every cell equal to `v`.
pub open spec fn filled_with(m: Seq<Seq<i32>>, size: int, v: i32) -> bool {
    &&& is_square(m, size)
    &&& forall|i: int, j: int| 0 <= i < size && 0 <= j < size ==> #[trigger] m[i][j] == v
}

/// The deep view of a vector of rows indexes exactly as the rows themselves.
proof fn lemma_matrix_deep_view(m: &Vec<Vec<i32>>)
    ensures
        m.deep_view().len() == m@.len(),
        forall|i: int| 0 <= i < m@.len() ==> #[trigger] m.deep_view()[i] == m@[i]@,
{
    assert forall|i: int| 0 <= i < m@.len() implies #[trigger] m.deep_view()[i] == m@[i]@ by {
        assert(m@[i].deep_view() =~= m@[i]@);
    }
}

/// A freshly allocated `size` by `size` matrix with every cell set to `v`.
fn filled_matrix(size: usize, v: i32) -> (m: Vec<Vec<i32>>)
    ensures
        m@.len() == size,
        forall|i: int| 0 <= i < size ==> (#[trigger] m@[i])@.len() == size,
        forall|i: int, j: int| 0 <= i < size && 0 <= j < size ==> #[trigger] m@[i]@[j] == v,
        filled_with(m.deep_view(), size as int, v),
{
    let mut m: Vec<Vec<i32>> = Vec::new();
    let mut i: usize = 0;
    while i < size
        invariant
            i <= size,
            m@.len() == i,
            forall|r: int| 0 <= r < i ==> (#[trigger] m@[r])@.len() == size,
            forall|r: int, t: int| 0 <= r < i && 0 <= t < size ==> #[trigger] m@[r]@[t] == v,
        decreases size - i,
    {
        let mut row: Vec<i32> = Vec::new();
        let mut j: usize = 0;
        while j < size
            invariant
                j <= size,
                row@.len() == j,
                forall|t: int| 0 <= t < j ==> #[trigger] row@[t] == v,
            decreases size - j,
        {
            row.push(v);
            j = j + 1;
        }
        m.push(row);
        i = i + 1;
    }
    proof {
        lemma_matrix_deep_view(&m);
        assert forall|i0: int, j0: int|
            0 <= i0 < size && 0 <= j0 < size implies #[trigger] m.deep_view()[i0][j0] == v by {
            assert(m.deep_view()[i0] == m@[i0]@);
        }
    }
    m
}

/// The instrumented multiply kernel. It builds the two all-ones matrices
/// and the zero matrix, runs the triple-nested loop (row outer, column
/// middle, accumulation inner), and returns the product together with the
/// number of multiply-add operations performed. Every cell of the product
/// of two all-ones matrices of dimension `size` equals `size`, and the loop
/// performs exactly `size^3` multiply-adds.
pub fn matrix_multiply_counted(size: i32) -> (r: (Vec<Vec<i32>>, u128))
    requires
        0 <= size,
    ensures
        filled_with(r.0.deep_view(), size as int, size),
        r.1 == size * size * size,
{
    let n: usize = size as usize;
    let a: Vec<Vec<i32>> = filled_matrix(n, 1);
    let b: Vec<Vec<i32>> = filled_matrix(n, 1);
    let mut c: Vec<Vec<i32>> = filled_matrix(n, 0);
    let mut count: u128 = 0;
    let mut i: usize = 0;
    while i < n
        invariant
            n == size as int,
            0 <= size,
            i <= n,
            a@.len() == n,
            forall|r0: int| 0 <= r0 < n ==> (#[trigger] a@[r0])@.len() == n,
            forall|r0: int, t: int| 0 <= r0 < n && 0 <= t < n ==> #[trigger] a@[r0]@[t] == 1,
            b@.len() == n,
            forall|r0: int| 0 <= r0 < n ==> (#[trigger] b@[r0])@.len() == n,
            forall|r0: int, t: int| 0 <= r0 < n && 0 <= t < n ==> #[trigger] b@[r0]@[t] == 1,
            c@.len() == n,
            forall|r0: int| 0 <= r0 < n ==> (#[trigger] c@[r0])@.len() == n,
            forall|r0: int, t: int|
                0 <= r0 < i && 0 <= t < n ==> #[trigger] c@[r0]@[t] == size,
            forall|r0: int, t: int|
                i <= r0 < n && 0 <= t < n ==> #[trigger] c@[r0]@[t] == 0,
            count == i * n * n,
        decreases n - i,
    {
        let mut j: usize = 0;
        while j < n
            invariant
                n == size as int,
                0 <= size,
                i < n,
                j <= n,
                a@.len() == n,
                forall|r0: int| 0 <= r0 < n ==> (#[trigger] a@[r0])@.len() == n,
                forall|r0: int, t: int|
                    0 <= r0 < n && 0 <= t < n ==> #[trigger] a@[r0]@[t] == 1,
                b@.len() == n,
                forall|r0: int| 0 <= r0 < n ==> (#[trigger] b@[r0])@.len() == n,
                forall|r0: int, t: int|
                    0 <= r0 < n && 0 <= t < n ==> #[trigger] b@[r0]@[t] == 1,
                c@.len() == n,
                forall|r0: int| 0 <= r0 < n ==> (#[trigger] c@[r0])@.len() == n,
                forall|r0: int, t: int|
                    0 <= r0 < i && 0 <= t < n ==> #[trigger] c@[r0]@[t] == size,
                forall|t: int| 0 <= t < j ==> #[trigger] c@[i as int]@[t] == size,
                forall|t: int| j <= t < n ==> #[trigger] c@[i as int]@[t] == 0,
                forall|r0: int, t: int|
                    i < r0 < n && 0 <= t < n ==> #[trigger] c@[r0]@[t] == 0,
                count == i * n * n + j * n,
            decreases n - j,
        {
            let mut k: usize = 0;
            while k < n
                invariant
                    n == size as int,
                    0 <= size,
                    i < n,
                    j < n,
                    k <= n,
                    a@.len() == n,
                    forall|r0: int| 0 <= r0 < n ==> (#[trigger] a@[r0])@.len() == n,
                    forall|r0: int, t: int|
                        0 <= r0 < n && 0 <= t < n ==> #[trigger] a@[r0]@[t] == 1,
                    b@.len() == n,
                    forall|r0: int| 0 <= r0 < n ==> (#[trigger] b@[r0])@.len() == n,
                    forall|r0: int, t: int|
                        0 <= r0 < n && 0 <= t < n ==> #[trigger] b@[r0]@[t] == 1,
                    c@.len() == n,
                    forall|r0: int| 0 <= r0 < n ==> (#[trigger] c@[r0])@.len() == n,
                    forall|r0: int, t: int|
                        0 <= r0 < i && 0 <= t < n ==> #[trigger] c@[r0]@[t] == size,
                    forall|t: int| 0 <= t < j ==> #[trigger] c@[i as int]@[t] == size,
                    c@[i as int]@[j as int] as int == k as int,
                    forall|t: int| j < t < n ==> #[trigger] c@[i as int]@[t] == 0,
                    forall|r0: int, t: int|
                        i < r0 < n && 0 <= t < n ==> #[trigger] c@[r0]@[t] == 0,
                    count == i * n * n + j * n + k,
                decreases n - k,
            {
                proof {
                    assert(count < n * n * n) by (nonlinear_arith)
                        requires
                            count == i * n * n + j * n + k,
                            0 <= i < n,
                            0 <= j < n,
                            0 <= k < n,
                    ;
                    assert(n * n * n < u128::MAX) by (nonlinear_arith)
                        requires
                            0 <= n <= 0x8000_0000,
                    ;
                }
                let aik: i32 = a[i][k];
                let bkj: i32 = b[k][j];
                c[i][j] = c[i][j] + aik * bkj;
                count = count + 1;
                k = k + 1;
            }
            proof {
                assert(i * n * n + j * n + n == i * n * n + (j + 1) * n) by (nonlinear_arith);
            }
            j = j + 1;
        }
        proof {
            assert(i * n * n + n * n == (i + 1) * n * n) by (nonlinear_arith);
        }
        i = i + 1;
    }
    proof {
        lemma_matrix_deep_view(&c);
        assert forall|i0: int, j0: int|
            0 <= i0 < size && 0 <= j0 < size implies #[trigger] c.deep_view()[i0][j0] == size by {
            assert(c.deep_view()[i0] == c@[i0]@);
        }
    }
    (c, count)
}

/// Runs the multiply kernel for its computational load alone: the product
/// is built and then discarded, as in a timing probe only the work matters.
pub fn matrix_multiply(size: i32)
    requires
        0 <= size,
{
    let _work = matrix_multiply_counted(size);
}

/// Validating entry point: a negative dimension is rejected up front
/// instead of being left to the caller; any other dimension runs the
/// kernel. Returns whether the kernel ran.
pub fn try_matrix_multiply(size: i32) -> (ok: bool)
    ensures
        ok <==> 0 <= size,
{
    if size < 0 {
        false
    } else {
        matrix_multiply(size);
        true
    }
}

/// The multiply kernel is pure: two square matrices of the same dimension
/// whose cells all hold the same value are one and the same matrix, so
/// repeated runs on one dimension cannot produce different products.
pub proof fn lemma_filled_matrices_equal(m1: Seq<Seq<i32>>, m2: Seq<Seq<i32>>, size: int, v: i32)
    requires
        filled_with(m1, size, v),
        filled_with(m2, size, v),
    ensures
        m1 == m2,
{
    assert forall|i: int| 0 <= i < size implies m1[i] == m2[i] by {
        assert forall|j: int| 0 <= j < size implies m1[i][j] == m2[i][j] by {
        }
        assert(m1[i] =~= m2[i]);
    }
    assert(m1 =~= m2);
}

} // verus!
