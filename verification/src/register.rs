//! The straightforward register abstraction: a named register of qubits
//! whose state is evolved by lifting each gate to a full 2^N × 2^N
//! operator and multiplying.  Slower than the kernel path, retained for
//! correctness cross-checks.

use vstd::prelude::*;
use crate::apply::{lemma_pow_small, lemma_tidx_bound, nt_mask, target_index, tidx_rec, MAX_QUBITS};
use crate::complex::{cx_add_s, cx_mul_s, cx_one, cx_zero, Complex};
use crate::matrix::{
    copy_amplitudes, lemma_rm_decomp, ms_idx, ms_wf, zero_amplitudes, Matrix, MatrixS,
};

verus! {

/// The widest register for which a dense 2^N × 2^N operator is built.
pub const MAX_DENSE_QUBITS: usize = 12;

/// A state vector of amplitudes.
pub type QuantumState = Vec<Complex>;

/// The 2-amplitude state |0⟩.
pub fn state_0() -> (r: Vec<Complex>)
    ensures
        r@ =~= seq![cx_one(), cx_zero()],
{
    let mut v: Vec<Complex> = Vec::new();
    v.push(Complex::one());
    v.push(Complex::zero());
    v
}

/// The 2-amplitude state |1⟩.
pub fn state_1() -> (r: Vec<Complex>)
    ensures
        r@ =~= seq![cx_zero(), cx_one()],
{
    let mut v: Vec<Complex> = Vec::new();
    v.push(Complex::zero());
    v.push(Complex::one());
    v
}

/// A named gate: a display name, a unitary matrix and its qubit arity.
pub struct QuantumGate {
    pub name: String,
    pub matrix: Matrix,
    pub num_qubits: usize,
}

/// Shape well-formedness of a gate: a square matrix of side 2^arity.
pub open spec fn gate_wf(g: &QuantumGate) -> bool {
    &&& g.num_qubits <= MAX_QUBITS
    &&& ms_wf(g.matrix@)
    &&& g.matrix@.rows == g.matrix@.cols
    &&& g.matrix@.cols == 1u64 << (g.num_qubits as u64)
}

impl QuantumGate {
    /// Build a gate; the matrix must be square of side 2^arity.
    pub fn new(name: &str, matrix: Matrix, num_qubits: usize) -> (r: QuantumGate)
        requires
            num_qubits <= MAX_QUBITS,
            ms_wf(matrix@),
            matrix@.rows == matrix@.cols,
            matrix@.cols == 1u64 << (num_qubits as u64),
        ensures
            r.name@ == name@,
            r.matrix@ == matrix@,
            r.num_qubits == num_qubits,
            gate_wf(&r),
    {
        QuantumGate { name: name.to_owned(), matrix, num_qubits }
    }

    /// Build a gate from a square matrix whose side is a known power of
    /// two; the arity is recovered from the side.
    pub fn from_matrix(name: &str, matrix: Matrix) -> (r: QuantumGate)
        requires
            ms_wf(matrix@),
            matrix@.rows == matrix@.cols,
            exists|k: u64| 0 <= k <= MAX_QUBITS && matrix@.rows == 1u64 << k,
        ensures
            r.name@ == name@,
            r.matrix@ == matrix@,
            r.matrix@.rows == 1u64 << (r.num_qubits as u64),
            gate_wf(&r),
    {
        let ghost k0 = choose|k: u64| 0 <= k <= MAX_QUBITS && matrix@.rows == 1u64 << k;
        let rows64 = matrix.rows as u64;
        let mut k: usize = 0;
        while k <= MAX_QUBITS
            invariant
                ms_wf(matrix@),
                matrix@.rows == matrix@.cols,
                rows64 == matrix@.rows,
                0 <= k0 <= MAX_QUBITS,
                matrix@.rows == 1u64 << k0,
                forall|kk: u64| 0 <= kk < k ==> (1u64 << kk) != rows64,
            decreases MAX_QUBITS + 1 - k,
        {
            if (1u64 << (k as u64)) == rows64 {
                return QuantumGate::new(name, matrix, k);
            }
            k += 1;
        }
        proof {
            assert(false);
        }
        QuantumGate { name: String::new(), matrix, num_qubits: 0 }
    }
}

/// The full-operator lift of an M-qubit gate onto an `n`-qubit register:
/// the entry `(row, col)` is the operator entry at the gathered target bits
/// when the non-target bits of `row` and `col` agree, and zero otherwise.
pub open spec fn lift_s(mat: MatrixS, targets: Seq<usize>, n: u64) -> MatrixS {
    MatrixS {
        rows: (1u64 << n) as int,
        cols: (1u64 << n) as int,
        data: Seq::new(
            ((1u64 << n) * (1u64 << n)) as nat,
            |t: int|
                {
                    let row = t / ((1u64 << n) as int);
                    let col = t % ((1u64 << n) as int);
                    if (row as u64) & nt_mask(targets, n) == (col as u64) & nt_mask(targets, n) {
                        ms_idx(
                            mat,
                            target_index(row as u64, targets, n) as int,
                            target_index(col as u64, targets, n) as int,
                        )
                    } else {
                        cx_zero()
                    }
                },
        ),
    }
}

/// Build the dense full operator of a gate on the selected qubits.
pub fn build_full_operator(
    gate_matrix: &Matrix,
    targets: &Vec<usize>,
    total_qubits: usize,
) -> (r: Matrix)
    requires
        total_qubits <= MAX_DENSE_QUBITS,
        targets@.len() <= total_qubits,
        forall|t: int| 0 <= t < targets@.len() ==> (#[trigger] targets@[t] as u64) < total_qubits,
        ms_wf(gate_matrix@),
        gate_matrix@.rows == gate_matrix@.cols,
        gate_matrix@.cols == 1u64 << (targets@.len() as u64),
    ensures
        ms_wf(r@),
        r@ =~= lift_s(gate_matrix@, targets@, total_qubits as u64),
{
    let ghost n = total_qubits as u64;
    let nq64 = total_qubits as u64;
    let g = targets.len();
    let dim: usize = 1usize << total_qubits;
    proof {
        lemma_pow_small(n);
        assert((1usize << total_qubits) == (1u64 << n) && (1u64 << n) <= 4096) by (bit_vector)
            requires
                total_qubits == n,
                n <= 12,
        ;
        assert(0 <= ((1u64 << n) as int) * ((1u64 << n) as int) <= 4096 * 4096)
            by (nonlinear_arith)
            requires
                1 <= (1u64 << n) <= 4096,
        ;
    }
    let total: usize = dim * dim;

    // The mask of non-target bit positions.
    let mut mask: u64 = (1u64 << nq64) - 1;
    let mut k: usize = 0;
    while k < g
        invariant
            k <= g,
            g == targets@.len(),
            nq64 == n,
            n <= MAX_DENSE_QUBITS,
            targets@.len() <= n,
            forall|t: int| 0 <= t < targets@.len() ==> (#[trigger] targets@[t] as u64) < n,
            mask == crate::apply::ntmask_rec(targets@, n, k as nat),
        decreases g - k,
    {
        let pos: u64 = nq64 - 1 - (targets[k] as u64);
        mask = mask & !(1u64 << pos);
        k += 1;
    }

    let mut data: Vec<Complex> = Vec::new();
    let mut t: usize = 0;
    while t < total
        invariant
            t <= total,
            g == targets@.len(),
            nq64 == n,
            n <= MAX_DENSE_QUBITS,
            dim == 1u64 << n,
            total == ((1u64 << n) as int) * ((1u64 << n) as int),
            targets@.len() <= n,
            forall|u: int| 0 <= u < targets@.len() ==> (#[trigger] targets@[u] as u64) < n,
            ms_wf(gate_matrix@),
            gate_matrix@.rows == gate_matrix@.cols,
            gate_matrix@.cols == 1u64 << (targets@.len() as u64),
            mask == nt_mask(targets@, n),
            data@.len() == t,
            forall|u: int|
                0 <= u < t ==> #[trigger] data@[u] == lift_s(gate_matrix@, targets@, n).data[u],
        decreases total - t,
    {
        proof {
            lemma_rm_decomp(t as int, dim as int, dim as int);
        }
        let row = t / dim;
        let col = t % dim;

        let mut row_tidx: u64 = 0;
        let mut col_tidx: u64 = 0;
        let mut k: usize = 0;
        while k < g
            invariant
                k <= g,
                g == targets@.len(),
                nq64 == n,
                n <= MAX_DENSE_QUBITS,
                targets@.len() <= n,
                forall|u: int| 0 <= u < targets@.len() ==> (#[trigger] targets@[u] as u64) < n,
                row_tidx == tidx_rec(row as u64, targets@, n, k as nat),
                col_tidx == tidx_rec(col as u64, targets@, n, k as nat),
            decreases g - k,
        {
            let pos: u64 = nq64 - 1 - (targets[k] as u64);
            if ((row as u64) >> pos) & 1 == 1 {
                row_tidx = row_tidx | (1u64 << ((g - 1 - k) as u64));
            }
            if ((col as u64) >> pos) & 1 == 1 {
                col_tidx = col_tidx | (1u64 << ((g - 1 - k) as u64));
            }
            k += 1;
        }
        proof {
            lemma_tidx_bound(row as u64, targets@, n, targets@.len());
            lemma_tidx_bound(col as u64, targets@, n, targets@.len());
        }

        if ((row as u64) & mask) == ((col as u64) & mask) {
            let e = gate_matrix.get(row_tidx as usize, col_tidx as usize);
            data.push(e);
        } else {
            data.push(Complex::zero());
        }
        t += 1;
    }
    let r = Matrix { rows: dim, cols: dim, data };
    proof {
        assert(r@.data =~= lift_s(gate_matrix@, targets@, n).data);
    }
    r
}

/// Partial sum of the matrix–vector product entry `i`: the first `k`
/// terms of `Σ_j M[i,j] · v[j]`.
pub open spec fn mv_sum(m: MatrixS, v: Seq<Complex>, i: int, k: nat) -> Complex
    decreases k,
{
    if k == 0 {
        cx_zero()
    } else {
        cx_add_s(mv_sum(m, v, i, (k - 1) as nat), cx_mul_s(ms_idx(m, i, k - 1), v[k - 1]))
    }
}

/// The model of the matrix–vector product `M · v`.
pub open spec fn matvec_s(m: MatrixS, v: Seq<Complex>) -> Seq<Complex> {
    Seq::new(m.rows as nat, |i: int| mv_sum(m, v, i, m.cols as nat))
}

/// Multiply a square matrix onto a state vector.
pub fn matvec(m: &Matrix, v: &Vec<Complex>) -> (r: Vec<Complex>)
    requires
        ms_wf(m@),
        m@.cols == v@.len(),
    ensures
        r@ =~= matvec_s(m@, v@),
{
    let rows = m.rows;
    let cols = m.cols;
    let mut out: Vec<Complex> = Vec::new();
    let mut i: usize = 0;
    while i < rows
        invariant
            i <= rows,
            rows == m@.rows,
            cols == m@.cols,
            ms_wf(m@),
            cols == v@.len(),
            out@.len() == i,
            forall|u: int| 0 <= u < i ==> #[trigger] out@[u] == mv_sum(m@, v@, u, cols as nat),
        decreases rows - i,
    {
        let mut acc = Complex::zero();
        let mut k: usize = 0;
        while k < cols
            invariant
                i < rows,
                k <= cols,
                rows == m@.rows,
                cols == m@.cols,
                ms_wf(m@),
                cols == v@.len(),
                acc == mv_sum(m@, v@, i as int, k as nat),
            decreases cols - k,
        {
            let e = m.get(i, k);
            acc = acc.add(e.mul(v[k]));
            k += 1;
        }
        out.push(acc);
        i += 1;
    }
    out
}

/// A single named qubit with its 2-amplitude state.
pub struct QuantumBit {
    pub state: Vec<Complex>,
    pub name: String,
}

impl QuantumBit {
    /// Build a qubit from its name and state.
    pub fn new(name: &str, state: Vec<Complex>) -> (r: QuantumBit)
        ensures
            r.name@ == name@,
            r.state@ == state@,
    {
        QuantumBit { state, name: name.to_owned() }
    }

    /// The qubit's state, as a fresh vector.
    pub fn get_state(&self) -> (r: Vec<Complex>)
        ensures
            r@ == self.state@,
    {
        copy_amplitudes(&self.state)
    }

    /// The qubit's name.
    pub fn get_name(&self) -> (r: &String)
        ensures
            r@ == self.name@,
    {
        &self.name
    }
}

/// A named register of qubits evolved by full-operator multiplication.
pub struct QuantumRegister {
    pub state_vector: Vec<Complex>,
    pub name: String,
    pub num_qubits: usize,
}

/// The initial state of an `n`-qubit register: amplitude 1 at index 0.
pub open spec fn initial_state_s(n: u64) -> Seq<Complex> {
    Seq::new((1u64 << n) as nat, |i: int| if i == 0 {
        cx_one()
    } else {
        cx_zero()
    })
}

/// A fresh amplitude buffer in the initial state |0…0⟩.
pub fn initial_state(num_qubits: usize) -> (r: Vec<Complex>)
    requires
        num_qubits <= MAX_QUBITS,
    ensures
        r@ =~= initial_state_s(num_qubits as u64),
{
    proof {
        lemma_pow_small(num_qubits as u64);
        assert((1usize << num_qubits) == (1u64 << (num_qubits as u64))) by (bit_vector)
            requires
                num_qubits <= 30,
        ;
    }
    let dim: usize = 1usize << num_qubits;
    let mut v = zero_amplitudes(dim);
    v[0] = Complex::one();
    v
}


/// The Kronecker product of two amplitude vectors:
/// entry `t` is `a[t / |b|] · b[t % |b|]`.
pub open spec fn kron_s(a: Seq<Complex>, b: Seq<Complex>) -> Seq<Complex> {
    Seq::new(
        (a.len() * b.len()) as nat,
        |t: int| cx_mul_s(a[t / (b.len() as int)], b[t % (b.len() as int)]),
    )
}

/// The Kronecker product of a list of amplitude vectors, folded left to
/// right; the empty list gives the scalar 1.
pub open spec fn kron_all_s(qs: Seq<Seq<Complex>>) -> Seq<Complex>
    decreases qs.len(),
{
    if qs.len() == 0 {
        seq![cx_one()]
    } else if qs.len() == 1 {
        qs[0]
    } else {
        kron_s(kron_all_s(qs.drop_last()), qs.last())
    }
}

/// The Kronecker product of two amplitude vectors.
pub fn kron(a: &Vec<Complex>, b: &Vec<Complex>) -> (r: Vec<Complex>)
    requires
        1 <= b@.len(),
        (a@.len() as int) * (b@.len() as int) <= usize::MAX,
    ensures
        r@ =~= kron_s(a@, b@),
{
    let rows = a.len();
    let cols = b.len();
    proof {
        assert(0 <= (rows as int) * (cols as int)) by (nonlinear_arith)
            requires
                rows as int >= 0,
                cols as int >= 0,
        ;
    }
    let total = rows * cols;
    let mut out: Vec<Complex> = Vec::new();
    let mut t: usize = 0;
    while t < total
        invariant
            t <= total,
            rows == a@.len(),
            cols == b@.len(),
            1 <= cols,
            total == (rows as int) * (cols as int),
            out@.len() == t,
            forall|u: int|
                0 <= u < t ==> #[trigger] out@[u] == cx_mul_s(
                    a@[u / (cols as int)],
                    b@[u % (cols as int)],
                ),
        decreases total - t,
    {
        proof {
            crate::matrix::lemma_rm_decomp(t as int, rows as int, cols as int);
        }
        let i = t / cols;
        let j = t % cols;
        out.push(a[i].mul(b[j]));
        t += 1;
    }
    out
}

/// The per-qubit states of a qubit list.
pub open spec fn bit_states(bits: Seq<QuantumBit>) -> Seq<Seq<Complex>> {
    bits.map_values(|q: QuantumBit| q.state@)
}

/// The joint state of a list has one amplitude per bit pattern.
pub proof fn lemma_kron_all_len(qs: Seq<Seq<Complex>>)
    requires
        forall|i: int| 0 <= i < qs.len() ==> (#[trigger] qs[i]).len() == 2,
        qs.len() <= 63,
    ensures
        kron_all_s(qs).len() == 1u64 << (qs.len() as u64),
    decreases qs.len(),
{
    if qs.len() == 0 {
        assert(1u64 << 0u64 == 1) by (bit_vector);
    } else if qs.len() == 1 {
        assert(1u64 << 1u64 == 2) by (bit_vector);
    } else {
        assert(forall|i: int|
            0 <= i < qs.drop_last().len() ==> (#[trigger] qs.drop_last()[i]).len() == 2);
        lemma_kron_all_len(qs.drop_last());
        let k = (qs.len() - 1) as u64;
        assert((1u64 << k) * 2 == 1u64 << ((k + 1) as u64)) by (bit_vector)
            requires
                k <= 62,
        ;
    }
}

impl QuantumRegister {
    /// Assemble a register from named qubits: the joint state is the
    /// Kronecker product of the per-qubit states, left to right.
    pub fn from(name: &str, bits: &Vec<QuantumBit>) -> (r: QuantumRegister)
        requires
            1 <= bits@.len() <= MAX_DENSE_QUBITS,
            forall|i: int| 0 <= i < bits@.len() ==> (#[trigger] bits@[i]).state@.len() == 2,
        ensures
            r.wf(),
            r.name@ == name@,
            r.num_qubits == bits@.len(),
            r.state_vector@ == kron_all_s(bit_states(bits@)),
    {
        let ghost states = bit_states(bits@);
        let mut acc = copy_amplitudes(&bits[0].state);
        proof {
            assert(states.take(1) =~= seq![states[0]]);
            assert(kron_all_s(states.take(1)) == states[0]);
            lemma_kron_all_len(states.take(1));
        }
        let mut i: usize = 1;
        while i < bits.len()
            invariant
                1 <= i <= bits@.len(),
                bits@.len() <= MAX_DENSE_QUBITS,
                states == bit_states(bits@),
                forall|k: int| 0 <= k < bits@.len() ==> (#[trigger] bits@[k]).state@.len() == 2,
                acc@ == kron_all_s(states.take(i as int)),
                acc@.len() == 1u64 << (i as u64),
            decreases bits@.len() - i,
        {
            proof {
                assert(states.take(i as int + 1).drop_last() =~= states.take(i as int));
                assert(states.take(i as int + 1).last() == states[i as int]);
                assert(states[i as int] == bits@[i as int].state@);
                lemma_pow_small(i as u64);
                assert((acc@.len() as int) * 2 <= usize::MAX) by (nonlinear_arith)
                    requires
                        acc@.len() as int <= 0x4000_0000,
                ;
                assert(forall|k: int|
                    0 <= k < states.take(i as int + 1).len() ==> (#[trigger] states.take(
                        i as int + 1,
                    )[k]).len() == 2);
                lemma_kron_all_len(states.take(i as int + 1));
            }
            let next = kron(&acc, &bits[i].state);
            acc = next;
            i += 1;
        }
        proof {
            assert(states.take(bits@.len() as int) =~= states);
        }
        QuantumRegister {
            state_vector: acc,
            name: name.to_owned(),
            num_qubits: bits.len(),
        }
    }
}


/// The state after applying a list of gates to their target lists, left
/// to right, by full-operator multiplication.
pub open spec fn apply_gates_s(
    operations: Seq<(QuantumGate, Vec<usize>)>,
    state: Seq<Complex>,
    n: u64,
) -> Seq<Complex>
    decreases operations.len(),
{
    if operations.len() == 0 {
        state
    } else {
        apply_gates_s(
            operations.skip(1),
            matvec_s(lift_s(operations[0].0.matrix@, operations[0].1@, n), state),
            n,
        )
    }
}

impl QuantumRegister {
    /// Whether the register's buffer has the right length.
    pub open spec fn wf(&self) -> bool {
        &&& self.num_qubits <= MAX_DENSE_QUBITS
        &&& self.state_vector@.len() == 1u64 << (self.num_qubits as u64)
    }

    /// A register of `num_qubits` qubits in the initial state |0…0⟩.
    pub fn new(name: &str, num_qubits: usize) -> (r: QuantumRegister)
        requires
            num_qubits <= MAX_DENSE_QUBITS,
        ensures
            r.wf(),
            r.name@ == name@,
            r.num_qubits == num_qubits,
            r.state_vector@ == initial_state_s(num_qubits as u64),
    {
        let state_vector = initial_state(num_qubits);
        QuantumRegister { state_vector, name: name.to_owned(), num_qubits }
    }

    /// The register's state, as a fresh vector.
    pub fn get_state(&self) -> (r: Vec<Complex>)
        ensures
            r@ == self.state_vector@,
    {
        copy_amplitudes(&self.state_vector)
    }

    /// The register's name.
    pub fn get_name(&self) -> (r: &String)
        ensures
            r@ == self.name@,
    {
        &self.name
    }

    /// The register width.
    pub fn num_qubits(&self) -> (r: usize)
        ensures
            r == self.num_qubits,
    {
        self.num_qubits
    }


    /// Apply a list of gates to their target lists, in order.
    pub fn apply_gates(&mut self, operations: &Vec<(QuantumGate, Vec<usize>)>)
        requires
            old(self).wf(),
            forall|t: int|
                0 <= t < operations@.len() ==> {
                    &&& gate_wf(&(#[trigger] operations@[t]).0)
                    &&& operations@[t].0.num_qubits <= old(self).num_qubits
                    &&& operations@[t].0.num_qubits == operations@[t].1@.len()
                    &&& forall|u: int|
                        0 <= u < operations@[t].1@.len() ==> (#[trigger] operations@[t].1@[u])
                            < old(self).num_qubits
                    &&& forall|a: int, b: int|
                        0 <= a < b < operations@[t].1@.len() ==> operations@[t].1@[a]
                            != operations@[t].1@[b]
                },
        ensures
            final(self).wf(),
            final(self).num_qubits == old(self).num_qubits,
            final(self).name@ == old(self).name@,
            final(self).state_vector@ == apply_gates_s(
                operations@,
                old(self).state_vector@,
                old(self).num_qubits as u64,
            ),
    {
        let ghost n = self.num_qubits as u64;
        let ghost full = operations@;
        proof {
            assert(full.skip(0) =~= full);
        }
        let mut i: usize = 0;
        while i < operations.len()
            invariant
                i <= operations@.len(),
                n == self.num_qubits as u64,
                full == operations@,
                self.wf(),
                self.num_qubits == old(self).num_qubits,
                self.name@ == old(self).name@,
                forall|t: int|
                    0 <= t < operations@.len() ==> {
                        &&& gate_wf(&(#[trigger] operations@[t]).0)
                        &&& operations@[t].0.num_qubits <= self.num_qubits
                        &&& operations@[t].0.num_qubits == operations@[t].1@.len()
                        &&& forall|u: int|
                            0 <= u < operations@[t].1@.len() ==> (#[trigger] operations@[t].1@[u])
                                < self.num_qubits
                        &&& forall|a: int, b: int|
                            0 <= a < b < operations@[t].1@.len() ==> operations@[t].1@[a]
                                != operations@[t].1@[b]
                    },
                apply_gates_s(full, old(self).state_vector@, n) == apply_gates_s(
                    full.skip(i as int),
                    self.state_vector@,
                    n,
                ),
            decreases operations@.len() - i,
        {
            proof {
                assert(full.skip(i as int)[0] == full[i as int]);
                assert(full.skip(i as int).skip(1) =~= full.skip(i as int + 1));
            }
            let gate = &operations[i].0;
            let targets = &operations[i].1;
            self.apply_gate(gate, targets);
            i += 1;
        }
        proof {
            assert(full.skip(operations@.len() as int) =~= Seq::<(QuantumGate, Vec<usize>)>::empty());
        }
    }

    /// Apply a gate to the selected qubits by building its full operator
    /// and multiplying it onto the state: the generic full-operator route
    /// of the basic runtime.
    pub fn apply_gate(&mut self, gate: &QuantumGate, targets: &Vec<usize>)
        requires
            old(self).wf(),
            gate_wf(gate),
            gate.num_qubits <= old(self).num_qubits,
            gate.num_qubits == targets@.len(),
            forall|t: int|
                0 <= t < targets@.len() ==> (#[trigger] targets@[t]) < old(self).num_qubits,
            forall|a: int, b: int|
                0 <= a < b < targets@.len() ==> targets@[a] != targets@[b],
        ensures
            final(self).wf(),
            final(self).num_qubits == old(self).num_qubits,
            final(self).name@ == old(self).name@,
            final(self).state_vector@ == matvec_s(
                lift_s(gate.matrix@, targets@, old(self).num_qubits as u64),
                old(self).state_vector@,
            ),
    {
        let full_operator = build_full_operator(&gate.matrix, targets, self.num_qubits);
        proof {
            lemma_pow_small(self.num_qubits as u64);
        }
        let new_state = matvec(&full_operator, &self.state_vector);
        proof {
            assert(new_state@ =~= matvec_s(
                lift_s(gate.matrix@, targets@, self.num_qubits as u64),
                self.state_vector@,
            ));
        }
        self.state_vector = new_state;
    }
}

} // verus!
