//! Square and rectangular matrices of complex amplitudes, stored row-major.

use vstd::prelude::*;
use crate::complex::{cx_add_s, cx_conj_s, cx_mul_s, cx_one, cx_zero, Complex};

verus! {

/// The mathematical model of a matrix: its dimensions and its row-major
/// entries.
#[verifier::ext_equal]
pub struct MatrixS {
    pub rows: int,
    pub cols: int,
    pub data: Seq<Complex>,
}

/// A row-major matrix of amplitudes.
#[derive(Debug)]
pub struct Matrix {
    pub rows: usize,
    pub cols: usize,
    pub data: Vec<Complex>,
}

impl View for Matrix {
    type V = MatrixS;

    open spec fn view(&self) -> MatrixS {
        MatrixS { rows: self.rows as int, cols: self.cols as int, data: self.data@ }
    }
}

/// Well-formedness: the entry list has exactly `rows · cols` elements.
pub open spec fn ms_wf(m: MatrixS) -> bool {
    &&& 0 <= m.rows
    &&& 0 <= m.cols
    &&& m.data.len() == m.rows * m.cols
}

/// The entry in row `i`, column `j`.
pub open spec fn ms_idx(m: MatrixS, i: int, j: int) -> Complex {
    m.data[i * m.cols + j]
}

/// The model of the `n × n` identity matrix.
pub open spec fn identity_s(n: int) -> MatrixS {
    MatrixS {
        rows: n,
        cols: n,
        data: Seq::new((n * n) as nat, |t: int| if t / n == t % n {
            cx_one()
        } else {
            cx_zero()
        }),
    }
}

/// Partial sum of the matrix-product entry `(i, j)`: the first `k` terms of
/// `Σ_k a[i,k]·b[k,j]`, accumulated left to right from zero.
pub open spec fn mm_sum(a: MatrixS, b: MatrixS, i: int, j: int, k: nat) -> Complex
    decreases k,
{
    if k == 0 {
        cx_zero()
    } else {
        cx_add_s(
            mm_sum(a, b, i, j, (k - 1) as nat),
            cx_mul_s(ms_idx(a, i, k - 1), ms_idx(b, k - 1, j)),
        )
    }
}

/// The model of the matrix product `a · b`.
pub open spec fn matmul_s(a: MatrixS, b: MatrixS) -> MatrixS {
    MatrixS {
        rows: a.rows,
        cols: b.cols,
        data: Seq::new(
            (a.rows * b.cols) as nat,
            |t: int| mm_sum(a, b, t / b.cols, t % b.cols, a.cols as nat),
        ),
    }
}

/// The model of the conjugate transpose.
pub open spec fn dagger_s(m: MatrixS) -> MatrixS {
    MatrixS {
        rows: m.cols,
        cols: m.rows,
        data: Seq::new(
            (m.cols * m.rows) as nat,
            |t: int| cx_conj_s(ms_idx(m, t % m.rows, t / m.rows)),
        ),
    }
}

/// A row-major index stays below the entry count.
pub proof fn lemma_rm_bound(i: int, j: int, rows: int, cols: int)
    requires
        0 <= i < rows,
        0 <= j < cols,
    ensures
        0 <= i * cols + j < rows * cols,
{
    assert(0 <= i * cols + j < rows * cols) by (nonlinear_arith)
        requires
            0 <= i < rows,
            0 <= j < cols,
    ;
}

/// Dividing a row-major index by the width recovers the coordinates.
pub proof fn lemma_rm_index(i: int, j: int, cols: int)
    requires
        0 <= i,
        0 <= j < cols,
    ensures
        (i * cols + j) / cols == i,
        (i * cols + j) % cols == j,
{
    assert((i * cols + j) / cols == i && (i * cols + j) % cols == j) by (nonlinear_arith)
        requires
            0 <= i,
            0 <= j < cols,
    ;
}

/// Any index below `rows · cols` decomposes into row-major coordinates.
pub proof fn lemma_rm_decomp(t: int, rows: int, cols: int)
    requires
        0 <= t < rows * cols,
        0 < cols,
    ensures
        0 <= t / cols < rows,
        0 <= t % cols < cols,
        (t / cols) * cols + (t % cols) == t,
{
    assert(0 <= t / cols < rows && 0 <= t % cols < cols && (t / cols) * cols + (t % cols) == t)
        by (nonlinear_arith)
        requires
            0 <= t < rows * cols,
            0 < cols,
    ;
}

/// A vector of `n` zero amplitudes.
pub fn zero_amplitudes(n: usize) -> (v: Vec<Complex>)
    ensures
        v@.len() == n,
        forall|i: int| 0 <= i < n ==> v@[i] == cx_zero(),
{
    let mut v: Vec<Complex> = Vec::new();
    let mut k: usize = 0;
    while k < n
        invariant
            k <= n,
            v@.len() == k,
            forall|i: int| 0 <= i < k ==> v@[i] == cx_zero(),
        decreases n - k,
    {
        v.push(Complex::zero());
        k += 1;
    }
    v
}

/// A copy of an amplitude vector, element for element.
pub fn copy_amplitudes(v: &Vec<Complex>) -> (r: Vec<Complex>)
    ensures
        r@ == v@,
{
    let mut r: Vec<Complex> = Vec::new();
    let mut k: usize = 0;
    while k < v.len()
        invariant
            k <= v@.len(),
            r@ == v@.subrange(0, k as int),
        decreases v@.len() - k,
    {
        r.push(v[k]);
        proof {
            assert(r@ =~= v@.subrange(0, k + 1));
        }
        k += 1;
    }
    proof {
        assert(v@.subrange(0, v@.len() as int) =~= v@);
    }
    r
}

/// A copy of a target list, element for element.
pub fn copy_targets(v: &Vec<usize>) -> (r: Vec<usize>)
    ensures
        r@ == v@,
{
    let mut r: Vec<usize> = Vec::new();
    let mut k: usize = 0;
    while k < v.len()
        invariant
            k <= v@.len(),
            r@ == v@.subrange(0, k as int),
        decreases v@.len() - k,
    {
        r.push(v[k]);
        proof {
            assert(r@ =~= v@.subrange(0, k + 1));
        }
        k += 1;
    }
    proof {
        assert(v@.subrange(0, v@.len() as int) =~= v@);
    }
    r
}

impl Clone for Matrix {
    /// A clone carries the same dimensions and the same entries.
    fn clone(&self) -> (r: Self)
        ensures
            r@ == self@,
    {
        Matrix { rows: self.rows, cols: self.cols, data: copy_amplitudes(&self.data) }
    }
}

impl Matrix {
    /// Build a matrix from its dimensions and row-major entries.
    pub fn new(rows: usize, cols: usize, data: Vec<Complex>) -> (r: Matrix)
        requires
            data@.len() == rows * cols,
        ensures
            r.rows == rows,
            r.cols == cols,
            r.data@ == data@,
            ms_wf(r@),
    {
        Matrix { rows, cols, data }
    }

    /// The `size × size` identity matrix.
    pub fn identity(size: usize) -> (r: Matrix)
        requires
            (size as int) * (size as int) <= usize::MAX,
        ensures
            ms_wf(r@),
            r@ =~= identity_s(size as int),
    {
        proof {
            assert(0 <= (size as int) * (size as int)) by (nonlinear_arith);
        }
        let total = size * size;
        let mut data: Vec<Complex> = Vec::new();
        let mut t: usize = 0;
        while t < total
            invariant
                t <= total,
                total == (size as int) * (size as int),
                data@.len() == t,
                forall|u: int|
                    0 <= u < t ==> #[trigger] data@[u] == (if u / (size as int) == u % (size as int) {
                        cx_one()
                    } else {
                        cx_zero()
                    }),
            decreases total - t,
        {
            proof {
                if size == 0 {
                    assert((size as int) * (size as int) == 0) by (nonlinear_arith)
                        requires
                            size as int == 0,
                    ;
                }
            }
            if t / size == t % size {
                data.push(Complex::one());
            } else {
                data.push(Complex::zero());
            }
            t += 1;
        }
        Matrix { rows: size, cols: size, data }
    }

    /// The entry in row `i`, column `j`.
    pub fn get(&self, i: usize, j: usize) -> (r: Complex)
        requires
            ms_wf(self@),
            i < self.rows,
            j < self.cols,
        ensures
            r == ms_idx(self@, i as int, j as int),
    {
        let len = self.data.len();
        proof {
            lemma_rm_bound(i as int, j as int, self.rows as int, self.cols as int);
            assert(len == self.data@.len());
        }
        self.data[i * self.cols + j]
    }

    /// Replace the entry in row `i`, column `j`.
    pub fn set(&mut self, i: usize, j: usize, value: Complex)
        requires
            ms_wf(old(self)@),
            i < old(self).rows,
            j < old(self).cols,
        ensures
            final(self).rows == old(self).rows,
            final(self).cols == old(self).cols,
            final(self).data@ == old(self).data@.update(
                i as int * old(self).cols as int + j as int,
                value,
            ),
    {
        let len = self.data.len();
        proof {
            lemma_rm_bound(i as int, j as int, self.rows as int, self.cols as int);
            assert(len == self.data@.len());
        }
        let idx = i * self.cols + j;
        self.data[idx] = value;
    }

    /// The matrix product `self · other`, or `None` when the inner
    /// dimensions disagree.
    pub fn dot(&self, other: &Matrix) -> (r: Option<Matrix>)
        requires
            ms_wf(self@),
            ms_wf(other@),
            (self.rows as int) * (other.cols as int) <= usize::MAX,
        ensures
            r is Some <==> self.cols == other.rows,
            r is Some ==> ms_wf(r->Some_0@) && r->Some_0@ =~= matmul_s(self@, other@),
    {
        if self.cols != other.rows {
            return None;
        }
        let m = self.rows;
        let n = other.cols;
        let inner = self.cols;
        proof {
            assert(0 <= (m as int) * (n as int)) by (nonlinear_arith);
        }
        let total = m * n;
        let mut data: Vec<Complex> = Vec::new();
        let mut t: usize = 0;
        while t < total
            invariant
                t <= total,
                total == (m as int) * (n as int),
                m == self.rows,
                n == other.cols,
                inner == self.cols == other.rows,
                ms_wf(self@),
                ms_wf(other@),
                data@.len() == t,
                forall|u: int|
                    0 <= u < t ==> #[trigger] data@[u] == mm_sum(
                        self@,
                        other@,
                        u / (n as int),
                        u % (n as int),
                        inner as nat,
                    ),
            decreases total - t,
        {
            proof {
                if n == 0 {
                    assert((m as int) * (n as int) == 0) by (nonlinear_arith)
                        requires
                            n as int == 0,
                    ;
                }
                lemma_rm_decomp(t as int, m as int, n as int);
            }
            let i = t / n;
            let j = t % n;
            let mut acc = Complex::zero();
            let mut k: usize = 0;
            while k < inner
                invariant
                    i < m,
                    j < n,
                    k <= inner,
                    m == self.rows,
                    n == other.cols,
                    inner == self.cols == other.rows,
                    ms_wf(self@),
                    ms_wf(other@),
                    acc == mm_sum(self@, other@, i as int, j as int, k as nat),
                decreases inner - k,
            {
                let a = self.get(i, k);
                let b = other.get(k, j);
                acc = acc.add(a.mul(b));
                k += 1;
            }
            data.push(acc);
            t += 1;
        }
        let r = Matrix { rows: m, cols: n, data };
        proof {
            assert(r@.data =~= matmul_s(self@, other@).data);
        }
        Some(r)
    }

    /// The conjugate transpose.
    pub fn dagger(&self) -> (r: Matrix)
        requires
            ms_wf(self@),
        ensures
            ms_wf(r@),
            r@ =~= dagger_s(self@),
    {
        let m = self.cols;
        let n = self.rows;
        proof {
            assert((m as int) * (n as int) == (n as int) * (m as int)
                && 0 <= (m as int) * (n as int)) by (nonlinear_arith);
        }
        let total = self.data.len();
        let mut data: Vec<Complex> = Vec::new();
        let mut t: usize = 0;
        while t < total
            invariant
                t <= total,
                total == (m as int) * (n as int),
                m == self.cols,
                n == self.rows,
                ms_wf(self@),
                data@.len() == t,
                forall|u: int|
                    0 <= u < t ==> #[trigger] data@[u] == cx_conj_s(
                        ms_idx(self@, u % (n as int), u / (n as int)),
                    ),
            decreases total - t,
        {
            proof {
                if n == 0 {
                    assert((m as int) * (n as int) == 0) by (nonlinear_arith)
                        requires
                            n as int == 0,
                    ;
                }
                lemma_rm_decomp(t as int, m as int, n as int);
            }
            let i = t / n;
            let j = t % n;
            let e = self.get(j, i);
            data.push(e.get_conjugate());
            t += 1;
        }
        let r = Matrix { rows: m, cols: n, data };
        proof {
            assert(r@.data =~= dagger_s(self@).data);
        }
        r
    }
}


/// The `size × size` identity matrix, as a free function.
pub fn identity_matrix(size: usize) -> (r: Matrix)
    requires
        (size as int) * (size as int) <= usize::MAX,
    ensures
        ms_wf(r@),
        r@ =~= identity_s(size as int),
{
    Matrix::identity(size)
}

} // verus!
