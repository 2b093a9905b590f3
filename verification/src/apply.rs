//! The indexing primitive: apply an M-qubit gate matrix to selected qubits
//! of a 2^N amplitude buffer.
//!
//! Qubit `t` (0-based, leftmost in a ket) occupies bit position `N−1−t` of a
//! basis index.  For an ordered target list `T` of length `M`, the new
//! amplitude at index `i` is `Σ_j U[tidx(i), j] · S[src(i, j)]`, where
//! `tidx(i)` gathers the target bits of `i` into an `M`-bit row index and
//! `src(i, j)` replaces the target bits of `i` by the bits of `j`.  The spec
//! functions below define that algebra exactly, and every application
//! routine — serial, data-parallel, and the in-place single-qubit fast
//! path — is proved to return it.

use vstd::prelude::*;
use rayon::iter::IntoParallelIterator;
use rayon::iter::ParallelIterator;
use crate::complex::{
    cx_add_s, cx_mul_s, cx_zero, lemma_cx_add_zero, lemma_cx_mul_zero, Complex,
};
use crate::matrix::{ms_idx, ms_wf, Matrix, MatrixS};

verus! {

/// The largest supported register width: the buffer length 2^N must fit
/// comfortably in `usize` on every platform.
pub const MAX_QUBITS: usize = 30;

/// The bit position of qubit `t` in a basis index: `n − 1 − t`.
pub open spec fn bit_pos(targets: Seq<usize>, n: u64, k: int) -> u64 {
    (n - 1 - targets[k]) as u64
}

/// The first `k` steps of gathering the target bits of `i` into a row
/// index: bit `n−1−t_k` of `i` lands at bit `M−1−k`.
pub open spec fn tidx_rec(i: u64, targets: Seq<usize>, n: u64, k: nat) -> u64
    decreases k,
{
    if k == 0 {
        0
    } else if (i >> bit_pos(targets, n, k - 1)) & 1 == 1 {
        tidx_rec(i, targets, n, (k - 1) as nat) | (1u64 << (targets.len() - k) as u64)
    } else {
        tidx_rec(i, targets, n, (k - 1) as nat)
    }
}

/// The matrix row selected by index `i`.
pub open spec fn target_index(i: u64, targets: Seq<usize>, n: u64) -> u64 {
    tidx_rec(i, targets, n, targets.len())
}

/// The first `k` steps of clearing the target bit positions out of the
/// all-ones mask.
pub open spec fn ntmask_rec(targets: Seq<usize>, n: u64, k: nat) -> u64
    decreases k,
{
    if k == 0 {
        ((1u64 << n) - 1) as u64
    } else {
        ntmask_rec(targets, n, (k - 1) as nat) & !(1u64 << bit_pos(targets, n, k - 1))
    }
}

/// The mask of non-target bit positions.
pub open spec fn nt_mask(targets: Seq<usize>, n: u64) -> u64 {
    ntmask_rec(targets, n, targets.len())
}

/// The first `k` steps of scattering the bits of column `j` into
/// the target positions of `i` (whose target bits are first cleared).
pub open spec fn src_rec(i: u64, j: u64, targets: Seq<usize>, n: u64, k: nat) -> u64
    decreases k,
{
    if k == 0 {
        i & nt_mask(targets, n)
    } else if (j >> (targets.len() - k) as u64) & 1 == 1 {
        src_rec(i, j, targets, n, (k - 1) as nat) | (1u64 << bit_pos(targets, n, k - 1))
    } else {
        src_rec(i, j, targets, n, (k - 1) as nat)
    }
}

/// The buffer index whose amplitude feeds gate column `j` of row `i`.
pub open spec fn src_index(i: u64, j: u64, targets: Seq<usize>, n: u64) -> u64 {
    src_rec(i, j, targets, n, targets.len())
}

/// The first `jcount` terms of the new amplitude at index `i`, accumulated
/// left to right from zero: `Σ_j U[tidx(i), j] · S[src(i, j)]`.
pub open spec fn row_sum(
    state: Seq<Complex>,
    mat: MatrixS,
    targets: Seq<usize>,
    n: u64,
    i: u64,
    jcount: nat,
) -> Complex
    decreases jcount,
{
    if jcount == 0 {
        cx_zero()
    } else {
        cx_add_s(
            row_sum(state, mat, targets, n, i, (jcount - 1) as nat),
            cx_mul_s(
                ms_idx(mat, target_index(i, targets, n) as int, jcount - 1),
                state[src_index(i, (jcount - 1) as u64, targets, n) as int],
            ),
        )
    }
}

/// The new amplitude at index `i` after applying the matrix.
pub open spec fn kernel_row(
    state: Seq<Complex>,
    mat: MatrixS,
    targets: Seq<usize>,
    n: u64,
    i: u64,
) -> Complex {
    row_sum(state, mat, targets, n, i, mat.cols as nat)
}

/// The whole new buffer.
pub open spec fn apply_gate_s(
    state: Seq<Complex>,
    mat: MatrixS,
    targets: Seq<usize>,
    n: u64,
) -> Seq<Complex> {
    Seq::new(state.len(), |i: int| kernel_row(state, mat, targets, n, i as u64))
}

/// Well-formedness of one gate application: the register is no wider than
/// `MAX_QUBITS`, the buffer has length 2^n, every target is a qubit of the
/// register, and the matrix is square of side 2^M.
pub open spec fn gate_app_wf(
    state: Seq<Complex>,
    mat: MatrixS,
    targets: Seq<usize>,
    n: u64,
) -> bool {
    &&& n <= MAX_QUBITS
    &&& state.len() == 1u64 << n
    &&& targets.len() <= n
    &&& forall|k: int| 0 <= k < targets.len() ==> (#[trigger] targets[k] as u64) < n
    &&& ms_wf(mat)
    &&& mat.rows == mat.cols
    &&& mat.cols == 1u64 << (targets.len() as u64)
}

/// Conjunction of `a & b` is bounded by both operands.
pub proof fn lemma_and_le(a: u64, b: u64)
    ensures
        (a & b) <= a,
        (a & b) <= b,
{
    assert((a & b) <= a && (a & b) <= b) by (bit_vector);
}

/// Setting a bit below position `g` keeps a value below 2^g.
pub proof fn lemma_or_bit_lt(a: u64, k: u64, g: u64)
    requires
        g < 64,
        k < g,
        a < (1u64 << g),
    ensures
        (a | (1u64 << k)) < (1u64 << g),
{
    assert((a | (1u64 << k)) < (1u64 << g)) by (bit_vector)
        requires
            g < 64,
            k < g,
            a < (1u64 << g),
    ;
}

/// A power of two is at least one.
pub proof fn lemma_pow_pos(g: u64)
    requires
        g < 64,
    ensures
        1u64 << g >= 1,
{
    assert(1u64 << g >= 1) by (bit_vector)
        requires
            g < 64,
    ;
}

/// A power of two of a register width stays small.
pub proof fn lemma_pow_small(g: u64)
    requires
        g <= 30,
    ensures
        1 <= (1u64 << g) <= 0x4000_0000,
{
    assert(1 <= (1u64 << g) <= 0x4000_0000) by (bit_vector)
        requires
            g <= 30,
    ;
}

/// The gathered row index is below the local dimension 2^M.
pub proof fn lemma_tidx_bound(i: u64, targets: Seq<usize>, n: u64, k: nat)
    requires
        n <= MAX_QUBITS,
        targets.len() <= n,
        k <= targets.len(),
    ensures
        tidx_rec(i, targets, n, k) < (1u64 << (targets.len() as u64)),
    decreases k,
{
    let g = targets.len() as u64;
    lemma_pow_pos(g);
    if k == 0 {
    } else {
        lemma_tidx_bound(i, targets, n, (k - 1) as nat);
        if (i >> bit_pos(targets, n, k - 1)) & 1 == 1 {
            lemma_or_bit_lt(tidx_rec(i, targets, n, (k - 1) as nat), (targets.len() - k) as u64, g);
        }
    }
}

/// The non-target mask is below 2^n.
pub proof fn lemma_mask_bound(targets: Seq<usize>, n: u64, k: nat)
    requires
        n <= MAX_QUBITS,
        k <= targets.len(),
    ensures
        ntmask_rec(targets, n, k) < (1u64 << n),
    decreases k,
{
    if k == 0 {
        lemma_pow_pos(n);
    } else {
        lemma_mask_bound(targets, n, (k - 1) as nat);
        lemma_and_le(
            ntmask_rec(targets, n, (k - 1) as nat),
            !(1u64 << bit_pos(targets, n, k - 1)),
        );
    }
}

/// The source index is below the buffer dimension 2^n.
pub proof fn lemma_src_bound(i: u64, j: u64, targets: Seq<usize>, n: u64, k: nat)
    requires
        n <= MAX_QUBITS,
        targets.len() <= n,
        forall|t: int| 0 <= t < targets.len() ==> (#[trigger] targets[t] as u64) < n,
        k <= targets.len(),
    ensures
        src_rec(i, j, targets, n, k) < (1u64 << n),
    decreases k,
{
    if k == 0 {
        lemma_mask_bound(targets, n, targets.len());
        lemma_and_le(i, nt_mask(targets, n));
    } else {
        lemma_src_bound(i, j, targets, n, (k - 1) as nat);
        if (j >> (targets.len() - k) as u64) & 1 == 1 {
            lemma_or_bit_lt(
                src_rec(i, j, targets, n, (k - 1) as nat),
                bit_pos(targets, n, k - 1),
                n,
            );
        }
    }
}

/// One new amplitude, computed from scratch: the building block shared by
/// the serial and the data-parallel application routines.
pub fn gate_row(
    state: &Vec<Complex>,
    mat: &Matrix,
    targets: &Vec<usize>,
    num_qubits: usize,
    i: usize,
) -> (r: Complex)
    requires
        gate_app_wf(state@, mat@, targets@, num_qubits as u64),
        i < state@.len(),
    ensures
        r == kernel_row(state@, mat@, targets@, num_qubits as u64, i as u64),
{
    let ghost n = num_qubits as u64;
    let g = targets.len();
    let gate_dim: usize = mat.cols;
    let nq64 = num_qubits as u64;

    // The mask of non-target bit positions.
    let mut mask: u64 = (1u64 << nq64) - 1;
    proof {
        lemma_pow_pos(nq64);
    }
    let mut k: usize = 0;
    while k < g
        invariant
            k <= g,
            g == targets@.len(),
            nq64 == n,
            gate_app_wf(state@, mat@, targets@, n),
            mask == ntmask_rec(targets@, n, k as nat),
        decreases g - k,
    {
        let pos: u64 = nq64 - 1 - (targets[k] as u64);
        mask = mask & !(1u64 << pos);
        k += 1;
    }

    // The matrix row selected by i.
    let mut target_idx: u64 = 0;
    let mut k: usize = 0;
    while k < g
        invariant
            k <= g,
            g == targets@.len(),
            nq64 == n,
            i < state@.len(),
            gate_app_wf(state@, mat@, targets@, n),
            target_idx == tidx_rec(i as u64, targets@, n, k as nat),
        decreases g - k,
    {
        let pos: u64 = nq64 - 1 - (targets[k] as u64);
        if ((i as u64) >> pos) & 1 == 1 {
            target_idx = target_idx | (1u64 << ((g - 1 - k) as u64));
        }
        k += 1;
    }
    proof {
        lemma_tidx_bound(i as u64, targets@, n, targets@.len());
    }

    let mut sum = Complex::zero();
    let mut j: usize = 0;
    while j < gate_dim
        invariant
            j <= gate_dim,
            g == targets@.len(),
            nq64 == n,
            i < state@.len(),
            gate_dim == mat@.cols,
            gate_app_wf(state@, mat@, targets@, n),
            mask == nt_mask(targets@, n),
            target_idx == target_index(i as u64, targets@, n),
            target_idx < gate_dim,
            sum == row_sum(state@, mat@, targets@, n, i as u64, j as nat),
        decreases gate_dim - j,
    {
        let gate_elem = mat.get(target_idx as usize, j);
        if gate_elem.is_zero() {
            // Sparsity: an exactly-zero gate element contributes nothing.
            proof {
                lemma_cx_mul_zero(
                    state@[src_index(i as u64, j as u64, targets@, n) as int],
                );
                lemma_cx_add_zero(sum);
            }
        } else {
            let mut source_idx: u64 = (i as u64) & mask;
            let mut k: usize = 0;
            while k < g
                invariant
                    k <= g,
                    g == targets@.len(),
                    nq64 == n,
                    i < state@.len(),
                    j < gate_dim,
                    gate_dim == mat@.cols,
                    gate_app_wf(state@, mat@, targets@, n),
                    mask == nt_mask(targets@, n),
                    source_idx == src_rec(i as u64, j as u64, targets@, n, k as nat),
                decreases g - k,
            {
                let pos: u64 = nq64 - 1 - (targets[k] as u64);
                if ((j as u64) >> ((g - 1 - k) as u64)) & 1 == 1 {
                    source_idx = source_idx | (1u64 << pos);
                }
                k += 1;
            }
            proof {
                lemma_src_bound(i as u64, j as u64, targets@, n, targets@.len());
                lemma_pow_small(n);
                assert(source_idx < state@.len());
            }
            sum = sum.add(gate_elem.mul(state[source_idx as usize]));
        }
        j += 1;
    }
    sum
}

/// Serial application of a gate matrix to the selected qubits: a freshly
/// allocated buffer holding `Σ_j U[tidx(i), j] · S[src(i, j)]` at each `i`.
pub fn apply_gate_serial(
    state: &Vec<Complex>,
    mat: &Matrix,
    targets: &Vec<usize>,
    num_qubits: usize,
) -> (r: Vec<Complex>)
    requires
        gate_app_wf(state@, mat@, targets@, num_qubits as u64),
    ensures
        r@ == apply_gate_s(state@, mat@, targets@, num_qubits as u64),
{
    let ghost n = num_qubits as u64;
    let dim = state.len();
    let mut out: Vec<Complex> = Vec::new();
    let mut i: usize = 0;
    while i < dim
        invariant
            i <= dim,
            dim == state@.len(),
            n == num_qubits as u64,
            gate_app_wf(state@, mat@, targets@, n),
            out@.len() == i,
            forall|u: int|
                0 <= u < i ==> #[trigger] out@[u] == kernel_row(state@, mat@, targets@, n, u as u64),
        decreases dim - i,
    {
        let v = gate_row(state, mat, targets, num_qubits, i);
        out.push(v);
        i += 1;
    }
    proof {
        assert(out@ =~= apply_gate_s(state@, mat@, targets@, n));
    }
    out
}

/// Data-parallel application: each output amplitude is computed
/// independently over the index domain and collected in order.
///
/// Relies on rayon's `into_par_iter` over a range together with `map` and
/// `collect`: the collected vector has one element per index, in index
/// order, each the result of the mapped call.
#[verifier::external_body]
pub fn apply_gate_parallel(
    state: &Vec<Complex>,
    mat: &Matrix,
    targets: &Vec<usize>,
    num_qubits: usize,
) -> (r: Vec<Complex>)
    requires
        gate_app_wf(state@, mat@, targets@, num_qubits as u64),
    ensures
        r@.len() == state@.len(),
        forall|u: int|
            0 <= u < state@.len() ==> #[trigger] r@[u] == kernel_row(
                state@,
                mat@,
                targets@,
                num_qubits as u64,
                u as u64,
            ),
{
    (0..state.len())
        .into_par_iter()
        .map(|i| gate_row(state, mat, targets, num_qubits, i))
        .collect()
}

/// The pair base of an index: the index with the target bit cleared.
pub open spec fn pair_base(u: u64, p: u64) -> u64 {
    u & !(1u64 << p)
}

/// Bit facts about a pair `(b, b | 2^p)` whose base `b` has bit `p` clear.
proof fn lemma_pair_bits(b: u64, p: u64, n: u64)
    requires
        p < n,
        n <= 63,
        b < (1u64 << n),
        (b >> p) & 1 == 0,
    ensures
        b & !(1u64 << p) == b,
        (b | (1u64 << p)) & !(1u64 << p) == b,
        ((b | (1u64 << p)) >> p) & 1 == 1,
        b | (1u64 << p) != b,
        (b | (1u64 << p)) < (1u64 << n),
        b & ((((1u64 << n) - 1) as u64) & !(1u64 << p)) == b,
        (b | (1u64 << p)) & ((((1u64 << n) - 1) as u64) & !(1u64 << p)) == b,
{
    assert(b & !(1u64 << p) == b && (b | (1u64 << p)) & !(1u64 << p) == b && ((b | (1u64 << p))
        >> p) & 1 == 1 && b | (1u64 << p) != b && (b | (1u64 << p)) < (1u64 << n) && b & ((((1u64
        << n) - 1) as u64) & !(1u64 << p)) == b && (b | (1u64 << p)) & ((((1u64 << n) - 1) as u64)
        & !(1u64 << p)) == b) by (bit_vector)
        requires
            p < n,
            n <= 63,
            b < (1u64 << n),
            (b >> p) & 1 == 0,
    ;
}

/// A pair base always has the target bit clear.
proof fn lemma_base_clear(u: u64, p: u64)
    requires
        p < 64,
    ensures
        ((u & !(1u64 << p)) >> p) & 1 == 0,
        (u & !(1u64 << p)) <= u,
{
    assert(((u & !(1u64 << p)) >> p) & 1 == 0 && (u & !(1u64 << p)) <= u) by (bit_vector)
        requires
            p < 64,
    ;
}

/// The only indices whose pair base is `b` are `b` and `b | 2^p`.
proof fn lemma_base_members(u: u64, b: u64, p: u64)
    requires
        p < 64,
        u & !(1u64 << p) == b,
    ensures
        u == b || u == (b | (1u64 << p)),
{
    assert(u & !(1u64 << p) == b ==> u == b || u == (b | (1u64 << p))) by (bit_vector)
        requires
            p < 64,
    ;
}

/// For a single-qubit gate, the two amplitudes of a pair `(b, b | 2^p)` are
/// exactly the 2×2 mixing of the old pair:
/// `new_b = g₀₀·S[b] + g₀₁·S[b|2^p]` and `new_{b|2^p} = g₁₀·S[b] + g₁₁·S[b|2^p]`.
proof fn lemma_single_qubit_rows(
    state: Seq<Complex>,
    mat: MatrixS,
    target: usize,
    n: u64,
    b: u64,
)
    requires
        gate_app_wf(state, mat, seq![target], n),
        b < (1u64 << n),
        (b >> ((n - 1 - target) as u64)) & 1 == 0,
    ensures
        kernel_row(state, mat, seq![target], n, b) == cx_add_s(
            cx_mul_s(mat.data[0], state[b as int]),
            cx_mul_s(mat.data[1], state[(b | (1u64 << ((n - 1 - target) as u64))) as int]),
        ),
        kernel_row(state, mat, seq![target], n, b | (1u64 << ((n - 1 - target) as u64)))
            == cx_add_s(
            cx_mul_s(mat.data[2], state[b as int]),
            cx_mul_s(mat.data[3], state[(b | (1u64 << ((n - 1 - target) as u64))) as int]),
        ),
{
    let ts = seq![target];
    assert(ts.len() == 1);
    assert(ts[0] == target);
    let p = (n - 1 - target) as u64;
    let hi = b | (1u64 << p);
    assert((target as u64) < n);
    lemma_pair_bits(b, p, n);
    assert(1u64 << 1u64 == 2) by (bit_vector);
    assert(mat.cols == 2);
    assert(bit_pos(ts, n, 0) == p);

    // Row indices: 0 for the clear half, 1 for the set half.
    assert(tidx_rec(b, ts, n, 0) == 0);
    assert(tidx_rec(hi, ts, n, 0) == 0);
    assert(target_index(b, ts, n) == 0);
    assert(tidx_rec(hi, ts, n, 1) == (0u64 | (1u64 << 0u64)));
    assert(0u64 | (1u64 << 0u64) == 1) by (bit_vector);

    // Source indices: column 0 reads the clear half, column 1 the set half.
    assert(ntmask_rec(ts, n, 0) == ((1u64 << n) - 1) as u64);
    assert(nt_mask(ts, n) == (((1u64 << n) - 1) as u64) & !(1u64 << p));
    assert((0u64 >> 0u64) & 1 == 0) by (bit_vector);
    assert((1u64 >> 0u64) & 1 == 1) by (bit_vector);
    assert(src_rec(b, 0, ts, n, 0) == b);
    assert(src_rec(b, 1, ts, n, 0) == b);
    assert(src_rec(hi, 0, ts, n, 0) == b);
    assert(src_rec(hi, 1, ts, n, 0) == b);
    assert(src_index(b, 0, ts, n) == b);
    assert(src_index(b, 1, ts, n) == (b | (1u64 << p)));
    assert(src_index(hi, 0, ts, n) == b);
    assert(src_index(hi, 1, ts, n) == (b | (1u64 << p)));

    // Matrix entries of the 2×2 gate.
    assert(ms_idx(mat, 0, 0) == mat.data[0]);
    assert(ms_idx(mat, 0, 1) == mat.data[1]);
    assert(ms_idx(mat, 1, 0) == mat.data[2]);
    assert(ms_idx(mat, 1, 1) == mat.data[3]);

    // Collapse the two-term sums.
    lemma_cx_add_zero(cx_mul_s(mat.data[0], state[b as int]));
    lemma_cx_add_zero(cx_mul_s(mat.data[2], state[b as int]));
    assert(row_sum(state, mat, ts, n, b, 0) == cx_zero());
    assert(row_sum(state, mat, ts, n, hi, 0) == cx_zero());
    assert(row_sum(state, mat, ts, n, b, 1) == cx_add_s(
        cx_zero(),
        cx_mul_s(mat.data[0], state[b as int]),
    ));
    assert(row_sum(state, mat, ts, n, hi, 1) == cx_add_s(
        cx_zero(),
        cx_mul_s(mat.data[2], state[b as int]),
    ));
    assert(row_sum(state, mat, ts, n, b, 2) == cx_add_s(
        cx_add_s(cx_zero(), cx_mul_s(mat.data[0], state[b as int])),
        cx_mul_s(mat.data[1], state[hi as int]),
    ));
    assert(row_sum(state, mat, ts, n, hi, 2) == cx_add_s(
        cx_add_s(cx_zero(), cx_mul_s(mat.data[2], state[b as int])),
        cx_mul_s(mat.data[3], state[hi as int]),
    ));
}

/// The in-place single-qubit fast path: enumerate amplitude-index pairs
/// `(i, i | 2^{n−1−t})` with the target bit of `i` clear and update both in
/// place.  The result equals the generic indexing primitive exactly.
pub fn apply_single_qubit_gate_simd(
    state: &mut Vec<Complex>,
    gate: &Matrix,
    target: usize,
    num_qubits: usize,
)
    requires
        gate_app_wf(old(state)@, gate@, seq![target], num_qubits as u64),
    ensures
        final(state)@ == apply_gate_s(old(state)@, gate@, seq![target], num_qubits as u64),
{
    let ghost n = num_qubits as u64;
    let ghost orig = old(state)@;
    proof {
        assert(seq![target][0] == target);
        assert((target as u64) < n);
    }
    let p: u64 = (num_qubits as u64) - 1 - (target as u64);
    let step: u64 = 1u64 << p;
    let dim = state.len();
    proof {
        lemma_pow_small(n);
        assert(1u64 << 1u64 == 2) by (bit_vector);
        assert(gate@.rows == 2 && gate@.cols == 2);
    }
    let g00 = gate.get(0, 0);
    let g01 = gate.get(0, 1);
    let g10 = gate.get(1, 0);
    let g11 = gate.get(1, 1);
    proof {
        assert(g00 == gate@.data[0] && g01 == gate@.data[1] && g10 == gate@.data[2] && g11
            == gate@.data[3]);
    }
    let mut i: usize = 0;
    while i < dim
        invariant
            i <= dim,
            dim == orig.len(),
            n == num_qubits as u64,
            (target as u64) < n,
            n <= 30,
            p == (n - 1 - target) as u64,
            step == 1u64 << p,
            gate_app_wf(orig, gate@, seq![target], n),
            g00 == gate@.data[0],
            g01 == gate@.data[1],
            g10 == gate@.data[2],
            g11 == gate@.data[3],
            state@.len() == dim,
            forall|u: int|
                0 <= u < dim ==> #[trigger] state@[u] == (if pair_base(u as u64, p) < i {
                    kernel_row(orig, gate@, seq![target], n, u as u64)
                } else {
                    orig[u]
                }),
        decreases dim - i,
    {
        proof {
            lemma_pow_small(n);
        }
        if ((i as u64) >> p) & 1 == 0 {
            proof {
                lemma_pair_bits(i as u64, p, n);
            }
            let j: usize = ((i as u64) | step) as usize;
            let si = state[i];
            let sj = state[j];
            proof {
                assert(pair_base(i as u64, p) == i as u64);
                assert(pair_base(j as u64, p) == i as u64);
                lemma_single_qubit_rows(orig, gate@, target, n, i as u64);
            }
            let new_i = g00.mul(si).add(g01.mul(sj));
            let new_j = g10.mul(si).add(g11.mul(sj));
            state[i] = new_i;
            state[j] = new_j;
            proof {
                assert forall|u: int| 0 <= u < dim implies #[trigger] state@[u] == (if pair_base(
                    u as u64,
                    p,
                ) < i + 1 {
                    kernel_row(orig, gate@, seq![target], n, u as u64)
                } else {
                    orig[u]
                }) by {
                    lemma_base_clear(u as u64, p);
                    if pair_base(u as u64, p) == i as u64 {
                        lemma_base_members(u as u64, i as u64, p);
                    }
                }
            }
        } else {
            proof {
                assert forall|u: int| 0 <= u < dim implies #[trigger] state@[u] == (if pair_base(
                    u as u64,
                    p,
                ) < i + 1 {
                    kernel_row(orig, gate@, seq![target], n, u as u64)
                } else {
                    orig[u]
                }) by {
                    lemma_base_clear(u as u64, p);
                }
            }
        }
        i += 1;
    }
    proof {
        assert forall|u: int| 0 <= u < dim implies #[trigger] state@[u] == kernel_row(
            orig,
            gate@,
            seq![target],
            n,
            u as u64,
        ) by {
            lemma_base_clear(u as u64, p);
        }
        assert(state@ =~= apply_gate_s(orig, gate@, seq![target], n));
    }
}

/// The data-parallel flavour of the single-qubit fast path: the new
/// amplitudes are computed in parallel, then written back.
pub fn apply_single_qubit_gate_simd_parallel(
    state: &mut Vec<Complex>,
    gate: &Matrix,
    target: usize,
    num_qubits: usize,
)
    requires
        gate_app_wf(old(state)@, gate@, seq![target], num_qubits as u64),
    ensures
        final(state)@ == apply_gate_s(old(state)@, gate@, seq![target], num_qubits as u64),
{
    let mut targets: Vec<usize> = Vec::new();
    targets.push(target);
    proof {
        assert(targets@ =~= seq![target]);
    }
    let r = apply_gate_parallel(state, gate, &targets, num_qubits);
    proof {
        assert(r@ =~= apply_gate_s(old(state)@, gate@, seq![target], num_qubits as u64));
    }
    *state = r;
}

} // verus!
