//! The engine's intermediate representation: a kernel is a gate matrix, an
//! ordered target list, a display name and a classification.

use vstd::prelude::*;
use vstd::string::StrSliceExecFns;
use crate::complex::{cx_mul_s, cx_zero, Complex};
use crate::matrix::{matmul_s, ms_idx, ms_wf, Matrix, MatrixS};

verus! {

/// How the engine classifies a kernel's matrix.
#[derive(Clone, Copy, Debug, PartialEq, Eq, Structural)]
pub enum GateType {
    Diagonal,
    NonDiagonal,
    Controlled,
}

/// The mathematical model of a kernel.
#[verifier::ext_equal]
pub struct KernelV {
    pub matrix: MatrixS,
    pub targets: Seq<usize>,
    pub name: Seq<char>,
    pub gate_type: GateType,
}

/// The engine IR record: matrix, ordered targets, display name and
/// classification.
pub struct Kernel {
    pub matrix: Matrix,
    pub targets: Vec<usize>,
    pub name: String,
    pub gate_type: GateType,
}

impl View for Kernel {
    type V = KernelV;

    open spec fn view(&self) -> KernelV {
        KernelV {
            matrix: self.matrix@,
            targets: self.targets@,
            name: self.name@,
            gate_type: self.gate_type,
        }
    }
}

/// The views of a kernel list.
pub open spec fn kvs(ks: Seq<Kernel>) -> Seq<KernelV> {
    ks.map_values(|k: Kernel| k@)
}

/// Shape well-formedness: a square matrix of side 2^M for M targets.
pub open spec fn kv_shape_wf(k: KernelV) -> bool {
    &&& k.targets.len() <= crate::apply::MAX_QUBITS
    &&& ms_wf(k.matrix)
    &&& k.matrix.rows == k.matrix.cols
    &&& k.matrix.cols == 1u64 << (k.targets.len() as u64)
}

/// Applicability to an `n`-qubit register: every target is a qubit index.
pub open spec fn kv_targets_wf(k: KernelV, n: u64) -> bool {
    &&& k.targets.len() <= n
    &&& forall|t: int| 0 <= t < k.targets.len() ==> (#[trigger] k.targets[t] as u64) < n
}

/// `s` starts with `p`.
pub open spec fn starts_with_s(s: Seq<char>, p: Seq<char>) -> bool {
    p.len() <= s.len() && s.subrange(0, p.len() as int) == p
}

/// Whether a string starts with the given prefix.
pub fn str_starts_with(s: &str, prefix: &str) -> (r: bool)
    ensures
        r == starts_with_s(s@, prefix@),
{
    let slen = s.unicode_len();
    let plen = prefix.unicode_len();
    if plen > slen {
        return false;
    }
    let mut i: usize = 0;
    while i < plen
        invariant
            i <= plen,
            plen == prefix@.len(),
            plen <= s@.len(),
            forall|k: int| 0 <= k < i ==> s@[k] == prefix@[k],
        decreases plen - i,
    {
        if s.get_char(i) != prefix.get_char(i) {
            proof {
                assert(s@.subrange(0, plen as int)[i as int] != prefix@[i as int]);
            }
            return false;
        }
        i += 1;
    }
    proof {
        assert(s@.subrange(0, plen as int) =~= prefix@);
    }
    true
}

/// The diagonal gate families, recognised by name prefix.  The prefix
/// alone is not trusted: classification also checks the matrix, so a
/// non-diagonal matrix is never labelled `Diagonal` whatever its name
/// (the `S` prefix would otherwise catch `Sx`, `Sxdg` and `SWAP`).
pub open spec fn has_diagonal_name(name: Seq<char>) -> bool {
    ||| starts_with_s(name, "Z"@)
    ||| starts_with_s(name, "S"@)
    ||| starts_with_s(name, "T"@)
    ||| starts_with_s(name, "Sdg"@)
    ||| starts_with_s(name, "Tdg"@)
    ||| starts_with_s(name, "Rz"@)
    ||| starts_with_s(name, "P"@)
    ||| starts_with_s(name, "U1"@)
    ||| starts_with_s(name, "CZ"@)
    ||| starts_with_s(name, "CP"@)
    ||| starts_with_s(name, "CRz"@)
}

/// The controlled gate families, recognised by name prefix.
pub open spec fn has_controlled_name(name: Seq<char>) -> bool {
    ||| starts_with_s(name, "CNOT"@)
    ||| starts_with_s(name, "CZ"@)
    ||| starts_with_s(name, "SWAP"@)
    ||| starts_with_s(name, "CRx"@)
    ||| starts_with_s(name, "CRy"@)
    ||| starts_with_s(name, "CRz"@)
    ||| starts_with_s(name, "CP"@)
    ||| starts_with_s(name, "CCNOT"@)
    ||| starts_with_s(name, "CSWAP"@)
}

/// The classification tolerance: 1e-10 in fixed-point units, rounded up.
pub const DIAG_EPS: i64 = 28148;

/// An amplitude within the classification tolerance of zero.
pub open spec fn near_zero_s(a: Complex) -> bool {
    &&& -(DIAG_EPS as int) < a.real < DIAG_EPS
    &&& -(DIAG_EPS as int) < a.imaginary < DIAG_EPS
}

/// Every off-diagonal entry of the matrix is within the classification
/// tolerance of zero.
pub open spec fn near_diagonal_s(mat: MatrixS) -> bool {
    forall|i: int, j: int|
        0 <= i < mat.rows && 0 <= j < mat.cols && i != j ==> near_zero_s(
            #[trigger] ms_idx(mat, i, j),
        )
}

/// The classification rule: a well-known diagonal name whose matrix
/// really is diagonal within tolerance, then the controlled families,
/// then a shape test on 2×2 matrices whose off-diagonal entries are
/// within tolerance of zero.  A matrix that is not near-diagonal is never
/// classified `Diagonal`, whatever its name: the commutation rule depends
/// on it.
pub open spec fn classify_s(name: Seq<char>, mat: MatrixS) -> GateType {
    if has_diagonal_name(name) && near_diagonal_s(mat) {
        GateType::Diagonal
    } else if has_controlled_name(name) {
        GateType::Controlled
    } else if mat.rows == 2 && mat.cols == 2 && near_zero_s(mat.data[1]) && near_zero_s(
        mat.data[2],
    ) {
        GateType::Diagonal
    } else {
        GateType::NonDiagonal
    }
}

/// A kernel is labelled `Diagonal` only when its matrix is diagonal
/// within the classification tolerance, whatever its name says: the
/// commutation rule never rests on a name alone.
pub proof fn lemma_diagonal_classification_sound(name: Seq<char>, mat: MatrixS)
    requires
        ms_wf(mat),
        mat.rows == mat.cols,
        classify_s(name, mat) == GateType::Diagonal,
    ensures
        near_diagonal_s(mat),
{
    if has_diagonal_name(name) && near_diagonal_s(mat) {
    } else {
        assert(mat.rows == 2 && mat.cols == 2);
        assert forall|i: int, j: int|
            0 <= i < mat.rows && 0 <= j < mat.cols && i != j implies near_zero_s(
            #[trigger] ms_idx(mat, i, j),
        ) by {
            if i == 0 {
                assert(ms_idx(mat, 0, 1) == mat.data[1]);
            } else {
                assert(ms_idx(mat, 1, 0) == mat.data[2]);
            }
        }
    }
}

/// Whether an amplitude is within the classification tolerance of zero.
fn near_zero(a: &Complex) -> (r: bool)
    ensures
        r == near_zero_s(*a),
{
    -DIAG_EPS < a.real && a.real < DIAG_EPS && -DIAG_EPS < a.imaginary && a.imaginary < DIAG_EPS
}

/// Whether every off-diagonal entry is within the classification
/// tolerance of zero.
fn matrix_near_diagonal(matrix: &Matrix) -> (r: bool)
    requires
        ms_wf(matrix@),
    ensures
        r == near_diagonal_s(matrix@),
{
    let rows = matrix.rows;
    let cols = matrix.cols;
    let total = matrix.data.len();
    let mut t: usize = 0;
    while t < total
        invariant
            t <= total,
            rows == matrix@.rows,
            cols == matrix@.cols,
            ms_wf(matrix@),
            total == matrix@.data.len(),
            forall|i: int, j: int|
                0 <= i < rows && 0 <= j < cols && i != j && i * cols + j < t ==> near_zero_s(
                    #[trigger] ms_idx(matrix@, i, j),
                ),
        decreases total - t,
    {
        proof {
            if cols == 0 {
                assert((rows as int) * (cols as int) == 0) by (nonlinear_arith)
                    requires
                        cols as int == 0,
                ;
            }
            crate::matrix::lemma_rm_decomp(t as int, rows as int, cols as int);
        }
        let i = t / cols;
        let j = t % cols;
        if i != j {
            let e = matrix.get(i, j);
            if !near_zero(&e) {
                return false;
            }
        }
        proof {
            assert forall|ii: int, jj: int|
                0 <= ii < rows && 0 <= jj < cols && ii != jj && ii * cols + jj < t + 1
                implies near_zero_s(#[trigger] ms_idx(matrix@, ii, jj)) by {
                crate::matrix::lemma_rm_index(ii, jj, cols as int);
                if ii * cols + jj == t {
                    assert(ii == i && jj == j);
                }
            }
        }
        t += 1;
    }
    proof {
        assert forall|i: int, j: int|
            0 <= i < matrix@.rows && 0 <= j < matrix@.cols && i != j implies near_zero_s(
            #[trigger] ms_idx(matrix@, i, j),
        ) by {
            crate::matrix::lemma_rm_bound(i, j, matrix@.rows, matrix@.cols);
        }
    }
    true
}


/// Every off-diagonal entry of the matrix is exactly zero.
pub open spec fn exactly_diagonal_s(mat: MatrixS) -> bool {
    forall|i: int, j: int|
        0 <= i < mat.rows && 0 <= j < mat.cols && i != j ==> #[trigger] ms_idx(mat, i, j)
            == cx_zero()
}

/// The partial product sums of two exactly diagonal matrices: only the
/// diagonal term contributes.
proof fn lemma_diag_mm_sum(a: MatrixS, b: MatrixS, i: int, j: int, k: nat)
    requires
        ms_wf(a),
        ms_wf(b),
        a.rows == a.cols,
        b.rows == a.rows,
        b.cols == a.cols,
        exactly_diagonal_s(a),
        exactly_diagonal_s(b),
        0 <= i < a.rows,
        0 <= j < a.rows,
        k <= a.rows,
    ensures
        crate::matrix::mm_sum(a, b, i, j, k) == (if i == j && i < k {
            cx_mul_s(ms_idx(a, i, i), ms_idx(b, i, i))
        } else {
            cx_zero()
        }),
    decreases k,
{
    if k == 0 {
    } else {
        let c = k - 1;
        lemma_diag_mm_sum(a, b, i, j, (k - 1) as nat);
        let term = cx_mul_s(ms_idx(a, i, c), ms_idx(b, c, j));
        if c == i && i == j {
            crate::complex::lemma_cx_add_zero(term);
        } else if c == i {
            assert(ms_idx(b, c, j) == cx_zero());
            crate::complex::lemma_cx_mul_zero(ms_idx(a, i, c));
            crate::complex::lemma_cx_add_zero(crate::matrix::mm_sum(a, b, i, j, (k - 1) as nat));
        } else {
            assert(ms_idx(a, i, c) == cx_zero());
            crate::complex::lemma_cx_mul_zero(ms_idx(b, c, j));
            crate::complex::lemma_cx_add_zero(crate::matrix::mm_sum(a, b, i, j, (k - 1) as nat));
        }
    }
}

/// Two exactly diagonal matrices of the same size commute exactly: the
/// conservative rule of `commutes_with` reports no commutation that the
/// model does not have, for kernels whose matrices are exactly diagonal.
pub proof fn lemma_diagonal_matrices_commute(a: MatrixS, b: MatrixS)
    requires
        ms_wf(a),
        ms_wf(b),
        a.rows == a.cols,
        b.rows == a.rows,
        b.cols == a.cols,
        exactly_diagonal_s(a),
        exactly_diagonal_s(b),
    ensures
        matmul_s(a, b) =~= matmul_s(b, a),
{
    let n = a.rows;
    assert forall|t: int| 0 <= t < n * n implies #[trigger] matmul_s(a, b).data[t] == matmul_s(
        b,
        a,
    ).data[t] by {
        crate::matrix::lemma_rm_decomp(t, n, n);
        let i = t / n;
        let j = t % n;
        lemma_diag_mm_sum(a, b, i, j, n as nat);
        lemma_diag_mm_sum(b, a, i, j, n as nat);
        if i == j {
            crate::complex::lemma_cx_mul_comm(ms_idx(a, i, i), ms_idx(b, i, i));
        }
    }
}

/// Two target lists share a qubit.
pub open spec fn shares_s(a: Seq<usize>, b: Seq<usize>) -> bool {
    exists|i: int, j: int| 0 <= i < a.len() && 0 <= j < b.len() && a[i] == b[j]
}

/// Sharing is symmetric.
pub proof fn lemma_shares_symm(a: Seq<usize>, b: Seq<usize>)
    ensures
        shares_s(a, b) == shares_s(b, a),
{
    if shares_s(a, b) {
        let (i, j) = choose|i: int, j: int|
            0 <= i < a.len() && 0 <= j < b.len() && a[i] == b[j];
        assert(0 <= j < b.len() && 0 <= i < a.len() && b[j] == a[i]);
    }
    if shares_s(b, a) {
        let (i, j) = choose|i: int, j: int|
            0 <= i < b.len() && 0 <= j < a.len() && b[i] == a[j];
        assert(0 <= j < a.len() && 0 <= i < b.len() && a[j] == b[i]);
    }
}

/// The conservative commutation rule: disjoint targets always commute, and
/// two diagonal kernels on identical target lists commute.
pub open spec fn commutes_s(a: KernelV, b: KernelV) -> bool {
    ||| !shares_s(a.targets, b.targets)
    ||| (a.gate_type == GateType::Diagonal && b.gate_type == GateType::Diagonal && a.targets
        =~= b.targets)
}

/// Fusibility: both kernels act on the same single qubit.
pub open spec fn can_fuse_s(a: KernelV, b: KernelV) -> bool {
    a.targets.len() == 1 && b.targets.len() == 1 && a.targets[0] == b.targets[0]
}

/// The fused kernel: the matrix product `b · a` (left-to-right application
/// is left multiplication), the shared target, the joined name, and
/// `Diagonal` only when both inputs are diagonal.
pub open spec fn fuse_s(a: KernelV, b: KernelV) -> KernelV {
    KernelV {
        matrix: matmul_s(b.matrix, a.matrix),
        targets: a.targets,
        name: a.name + "+"@ + b.name,
        gate_type: if a.gate_type == GateType::Diagonal && b.gate_type == GateType::Diagonal {
            GateType::Diagonal
        } else {
            GateType::NonDiagonal
        },
    }
}

impl Clone for Kernel {
    /// A clone carries the same view.
    fn clone(&self) -> (r: Self)
        ensures
            r@ == self@,
    {
        Kernel {
            matrix: self.matrix.clone(),
            targets: crate::matrix::copy_targets(&self.targets),
            name: self.name.clone(),
            gate_type: self.gate_type,
        }
    }
}

impl Kernel {
    /// Build a kernel; the matrix must be square of side 2^M for the M
    /// targets, and the classification is derived from the name and the
    /// matrix.
    pub fn new(name: &str, matrix: Matrix, targets: Vec<usize>) -> (r: Kernel)
        requires
            targets@.len() <= crate::apply::MAX_QUBITS,
            ms_wf(matrix@),
            matrix@.rows == matrix@.cols,
            matrix@.cols == 1u64 << (targets@.len() as u64),
        ensures
            r@.name == name@,
            r@.matrix == matrix@,
            r@.targets == targets@,
            r@.gate_type == classify_s(name@, matrix@),
            kv_shape_wf(r@),
    {
        let gate_type = Self::detect_gate_type(name, &matrix);
        Kernel { matrix, targets, name: name.to_owned(), gate_type }
    }

    /// Derive the classification from the name prefix, else from the
    /// matrix shape.
    fn detect_gate_type(name: &str, matrix: &Matrix) -> (r: GateType)
        requires
            ms_wf(matrix@),
        ensures
            r == classify_s(name@, matrix@),
    {
        if str_starts_with(name, "Z") || str_starts_with(name, "S") || str_starts_with(name, "T")
            || str_starts_with(name, "Sdg") || str_starts_with(name, "Tdg") || str_starts_with(
            name,
            "Rz",
        ) || str_starts_with(name, "P") || str_starts_with(name, "U1") || str_starts_with(
            name,
            "CZ",
        ) || str_starts_with(name, "CP") || str_starts_with(name, "CRz") {
            if matrix_near_diagonal(matrix) {
                return GateType::Diagonal;
            }
        }
        if str_starts_with(name, "CNOT") || str_starts_with(name, "CZ") || str_starts_with(
            name,
            "SWAP",
        ) || str_starts_with(name, "CRx") || str_starts_with(name, "CRy") || str_starts_with(
            name,
            "CRz",
        ) || str_starts_with(name, "CP") || str_starts_with(name, "CCNOT") || str_starts_with(
            name,
            "CSWAP",
        ) {
            return GateType::Controlled;
        }
        if matrix.rows == 2 && matrix.cols == 2 {
            let offs_low = matrix.get(0, 1);
            let offs_high = matrix.get(1, 0);
            if near_zero(&offs_low) && near_zero(&offs_high) {
                proof {
                    assert(matrix@.data[1] == crate::matrix::ms_idx(matrix@, 0, 1));
                    assert(matrix@.data[2] == crate::matrix::ms_idx(matrix@, 1, 0));
                }
                return GateType::Diagonal;
            }
        }
        GateType::NonDiagonal
    }

    /// The number of qubits the kernel acts on.
    pub fn num_qubits(&self) -> (r: usize)
        ensures
            r == self@.targets.len(),
    {
        self.targets.len()
    }


    /// The set of targeted qubits, as a deduplicated list.
    pub fn target_set(&self) -> (r: Vec<usize>)
        ensures
            forall|x: usize| r@.contains(x) <==> self@.targets.contains(x),
            forall|a: int, b: int| 0 <= a < b < r@.len() ==> r@[a] != r@[b],
    {
        let mut out: Vec<usize> = Vec::new();
        let mut i: usize = 0;
        while i < self.targets.len()
            invariant
                i <= self@.targets.len(),
                forall|x: usize| out@.contains(x) <==> self@.targets.take(i as int).contains(x),
                forall|a: int, b: int| 0 <= a < b < out@.len() ==> out@[a] != out@[b],
            decreases self@.targets.len() - i,
        {
            let t = self.targets[i];
            let ghost prev = out@;
            if !targets_contain(&out, t) {
                out.push(t);
            }
            proof {
                assert forall|x: usize| out@.contains(x) implies self@.targets.take(
                    i as int + 1,
                ).contains(x) by {
                    let w = choose|w: int| 0 <= w < out@.len() && out@[w] == x;
                    if w < prev.len() {
                        assert(prev[w] == x);
                        assert(prev.contains(x));
                        let v = choose|v: int|
                            0 <= v < i && #[trigger] self@.targets.take(i as int)[v] == x;
                        assert(self@.targets.take(i as int + 1)[v] == x);
                    } else {
                        assert(x == t);
                        assert(self@.targets.take(i as int + 1)[i as int] == t);
                    }
                }
                assert forall|x: usize| self@.targets.take(i as int + 1).contains(x)
                    implies out@.contains(x) by {
                    let v = choose|v: int|
                        0 <= v < i + 1 && #[trigger] self@.targets.take(i as int + 1)[v] == x;
                    if v < i {
                        assert(self@.targets.take(i as int)[v] == x);
                        assert(prev.contains(x));
                        let w = choose|w: int| 0 <= w < prev.len() && prev[w] == x;
                        assert(out@[w] == x);
                    } else {
                        assert(x == t);
                        if prev.contains(t) {
                            let w = choose|w: int| 0 <= w < prev.len() && prev[w] == t;
                            assert(out@[w] == t);
                        } else {
                            assert(out@[out@.len() - 1] == t);
                        }
                    }
                }
            }
            i += 1;
        }
        proof {
            assert(self@.targets.take(self@.targets.len() as int) =~= self@.targets);
        }
        out
    }

    /// Whether the target lists of the two kernels intersect.
    pub fn shares_qubits(&self, other: &Kernel) -> (r: bool)
        ensures
            r == shares_s(self@.targets, other@.targets),
    {
        let mut i: usize = 0;
        while i < self.targets.len()
            invariant
                i <= self@.targets.len(),
                forall|a: int, b: int|
                    0 <= a < i && 0 <= b < other@.targets.len() ==> self@.targets[a]
                        != other@.targets[b],
            decreases self@.targets.len() - i,
        {
            let mut j: usize = 0;
            while j < other.targets.len()
                invariant
                    i < self@.targets.len(),
                    j <= other@.targets.len(),
                    forall|b: int| 0 <= b < j ==> self@.targets[i as int] != other@.targets[b],
                decreases other@.targets.len() - j,
            {
                if self.targets[i] == other.targets[j] {
                    return true;
                }
                j += 1;
            }
            i += 1;
        }
        false
    }

    /// The conservative commutation test: disjoint targets, or two
    /// diagonal kernels on identical target lists.  It never reports
    /// commutation where it does not hold: the `Diagonal` label is
    /// confirmed against the matrix (`lemma_diagonal_classification_sound`),
    /// and exactly diagonal matrices provably commute
    /// (`lemma_diagonal_matrices_commute`).
    pub fn commutes_with(&self, other: &Kernel) -> (r: bool)
        ensures
            r == commutes_s(self@, other@),
    {
        if !self.shares_qubits(other) {
            return true;
        }
        if self.gate_type == GateType::Diagonal && other.gate_type == GateType::Diagonal {
            if targets_equal(&self.targets, &other.targets) {
                return true;
            }
        }
        false
    }

    /// Whether the two kernels can fuse: both single-qubit on the same
    /// qubit.
    pub fn can_fuse_with(&self, other: &Kernel) -> (r: bool)
        ensures
            r == can_fuse_s(self@, other@),
    {
        if self.targets.len() != 1 || other.targets.len() != 1 {
            return false;
        }
        self.targets[0] == other.targets[0]
    }

    /// Fuse two single-qubit kernels on the same qubit into one whose
    /// matrix is `other.matrix · self.matrix`; `None` when they cannot
    /// fuse.
    pub fn fuse(&self, other: &Kernel) -> (r: Option<Kernel>)
        requires
            kv_shape_wf(self@),
            kv_shape_wf(other@),
        ensures
            r is Some <==> can_fuse_s(self@, other@),
            r is Some ==> r->Some_0@ =~= fuse_s(self@, other@) && kv_shape_wf(r->Some_0@),
    {
        if !self.can_fuse_with(other) {
            return None;
        }
        proof {
            assert(1u64 << 1u64 == 2) by (bit_vector);
            assert(self@.matrix.cols == 2 && other@.matrix.cols == 2);
            assert((other.matrix.rows as int) * (self.matrix.cols as int) == 4)
                by (nonlinear_arith)
                requires
                    other.matrix.rows as int == 2,
                    self.matrix.cols as int == 2,
            ;
        }
        let fused = other.matrix.dot(&self.matrix);
        match fused {
            None => None,
            Some(fused_matrix) => {
                let new_type = if self.gate_type == GateType::Diagonal && other.gate_type
                    == GateType::Diagonal {
                    GateType::Diagonal
                } else {
                    GateType::NonDiagonal
                };
                let mut name = self.name.clone();
                name.append("+");
                name.append(other.name.as_str());
                let r = Kernel {
                    matrix: fused_matrix,
                    targets: crate::matrix::copy_targets(&self.targets),
                    name,
                    gate_type: new_type,
                };
                proof {
                    assert(r@ =~= fuse_s(self@, other@));
                }
                Some(r)
            },
        }
    }
}



/// Whether a target list holds the given qubit.
pub fn targets_contain(v: &Vec<usize>, x: usize) -> (r: bool)
    ensures
        r == v@.contains(x),
{
    let mut i: usize = 0;
    while i < v.len()
        invariant
            i <= v@.len(),
            forall|k: int| 0 <= k < i ==> v@[k] != x,
        decreases v@.len() - i,
    {
        if v[i] == x {
            return true;
        }
        i += 1;
    }
    false
}

/// Whether two target lists are equal element for element.
pub fn targets_equal(a: &Vec<usize>, b: &Vec<usize>) -> (r: bool)
    ensures
        r == (a@ =~= b@),
{
    if a.len() != b.len() {
        return false;
    }
    let mut i: usize = 0;
    while i < a.len()
        invariant
            i <= a@.len(),
            a@.len() == b@.len(),
            forall|k: int| 0 <= k < i ==> a@[k] == b@[k],
        decreases a@.len() - i,
    {
        if a[i] != b[i] {
            return false;
        }
        i += 1;
    }
    true
}

} // verus!
