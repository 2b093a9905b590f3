//! The catalogue of gates: canonical unitary matrices for the named gates and
//! constructors for the parametric families.
//!
//! A rotation angle is carried as an `Angle`: the fixed-point cosine and
//! sine of the angle, evaluated by the caller.  The matrix constructors
//! are exact functions of those components, with angle sums formed by the
//! addition formulas.

use vstd::prelude::*;
use crate::complex::{cx_add_s, cx_conj_s, cx_mul_s, cx_one, cx_zero, Complex};
use crate::fixed::{fx_add, fx_add_s, fx_mul, fx_mul_s, fx_neg, fx_neg_s, fx_sub, fx_sub_s, FX_ONE};
use crate::matrix::{dagger_s, identity_s, matmul_s, ms_idx, ms_wf, Matrix, MatrixS};
use crate::register::QuantumGate;

verus! {

/// 1/√2 in fixed-point units.
pub const INV_SQRT2: i64 = 199032864766430;

/// 1/2 in fixed-point units.
pub const FX_HALF: i64 = 140737488355328;

/// An angle, carried by its fixed-point cosine and sine.
#[derive(Clone, Copy, Debug, PartialEq, Eq, Structural)]
pub struct Angle {
    pub cos: i64,
    pub sin: i64,
}

/// The model of an angle sum: the addition formulas
/// `cos(a+b) = cos a·cos b − sin a·sin b` and
/// `sin(a+b) = cos a·sin b + sin a·cos b`.
pub open spec fn angle_sum_s(a: Angle, b: Angle) -> Angle {
    Angle {
        cos: fx_sub_s(
            fx_mul_s(a.cos as int, b.cos as int),
            fx_mul_s(a.sin as int, b.sin as int),
        ) as i64,
        sin: fx_add_s(
            fx_mul_s(a.cos as int, b.sin as int),
            fx_mul_s(a.sin as int, b.cos as int),
        ) as i64,
    }
}

impl Angle {
    /// Build an angle from its cosine and sine.
    pub fn new(cos: i64, sin: i64) -> (r: Angle)
        ensures
            r.cos == cos && r.sin == sin,
    {
        Angle { cos, sin }
    }

    /// The sum of two angles, by the addition formulas.
    pub fn compose(self, other: Angle) -> (r: Angle)
        ensures
            r == angle_sum_s(self, other),
    {
        Angle {
            cos: fx_sub(fx_mul(self.cos, other.cos), fx_mul(self.sin, other.sin)),
            sin: fx_add(fx_mul(self.cos, other.sin), fx_mul(self.sin, other.cos)),
        }
    }
}

/// The Hadamard matrix: (1/√2)·[[1, 1], [1, −1]].
pub open spec fn hadamard_s() -> MatrixS {
    MatrixS {
        rows: 2,
        cols: 2,
        data: seq![
            Complex { real: INV_SQRT2, imaginary: 0 },
            Complex { real: INV_SQRT2, imaginary: 0 },
            Complex { real: INV_SQRT2, imaginary: 0 },
            Complex { real: (-INV_SQRT2) as i64, imaginary: 0 },
        ],
    }
}

/// The Pauli X matrix: [[0, 1], [1, 0]].
pub open spec fn pauli_x_s() -> MatrixS {
    MatrixS {
        rows: 2,
        cols: 2,
        data: seq![cx_zero(), cx_one(), cx_one(), cx_zero()],
    }
}

/// The Pauli Y matrix: [[0, −i], [i, 0]].
pub open spec fn pauli_y_s() -> MatrixS {
    MatrixS {
        rows: 2,
        cols: 2,
        data: seq![
            cx_zero(),
            Complex { real: 0, imaginary: (-FX_ONE) as i64 },
            Complex { real: 0, imaginary: FX_ONE },
            cx_zero(),
        ],
    }
}

/// The Pauli Z matrix: diag(1, −1).
pub open spec fn pauli_z_s() -> MatrixS {
    identity_s(2).with_entry(3, Complex { real: (-FX_ONE) as i64, imaginary: 0 })
}

/// The S matrix: diag(1, i).
pub open spec fn s_gate_s() -> MatrixS {
    identity_s(2).with_entry(3, Complex { real: 0, imaginary: FX_ONE })
}

/// The T matrix: diag(1, e^{iπ/4}).
pub open spec fn t_gate_s() -> MatrixS {
    identity_s(2).with_entry(3, Complex { real: INV_SQRT2, imaginary: INV_SQRT2 })
}

/// The S† matrix: diag(1, −i).
pub open spec fn sdg_gate_s() -> MatrixS {
    identity_s(2).with_entry(3, Complex { real: 0, imaginary: (-FX_ONE) as i64 })
}

/// The T† matrix: diag(1, e^{−iπ/4}).
pub open spec fn tdg_gate_s() -> MatrixS {
    identity_s(2).with_entry(3, Complex { real: INV_SQRT2, imaginary: (-INV_SQRT2) as i64 })
}

/// The √X matrix: (1/2)·[[1+i, 1−i], [1−i, 1+i]].
pub open spec fn sx_gate_s() -> MatrixS {
    MatrixS {
        rows: 2,
        cols: 2,
        data: seq![
            Complex { real: FX_HALF, imaginary: FX_HALF },
            Complex { real: FX_HALF, imaginary: (-FX_HALF) as i64 },
            Complex { real: FX_HALF, imaginary: (-FX_HALF) as i64 },
            Complex { real: FX_HALF, imaginary: FX_HALF },
        ],
    }
}

/// The √X† matrix: (1/2)·[[1−i, 1+i], [1+i, 1−i]].
pub open spec fn sxdg_gate_s() -> MatrixS {
    MatrixS {
        rows: 2,
        cols: 2,
        data: seq![
            Complex { real: FX_HALF, imaginary: (-FX_HALF) as i64 },
            Complex { real: FX_HALF, imaginary: FX_HALF },
            Complex { real: FX_HALF, imaginary: FX_HALF },
            Complex { real: FX_HALF, imaginary: (-FX_HALF) as i64 },
        ],
    }
}

/// The CNOT matrix: the 4×4 identity with rows 2 and 3 swapped.
pub open spec fn cnot_s() -> MatrixS {
    identity_s(4).with_entry(10, cx_zero()).with_entry(11, cx_one()).with_entry(
        14,
        cx_one(),
    ).with_entry(15, cx_zero())
}

/// The CZ matrix: diag(1, 1, 1, −1).
pub open spec fn cz_s() -> MatrixS {
    identity_s(4).with_entry(15, Complex { real: (-FX_ONE) as i64, imaginary: 0 })
}

/// The SWAP matrix: the 4×4 identity with rows 1 and 2 swapped.
pub open spec fn swap_s() -> MatrixS {
    identity_s(4).with_entry(5, cx_zero()).with_entry(6, cx_one()).with_entry(
        9,
        cx_one(),
    ).with_entry(10, cx_zero())
}

/// The iSWAP matrix: SWAP with the swapped amplitudes multiplied by i.
pub open spec fn iswap_s() -> MatrixS {
    identity_s(4).with_entry(5, cx_zero()).with_entry(
        6,
        Complex { real: 0, imaginary: FX_ONE },
    ).with_entry(9, Complex { real: 0, imaginary: FX_ONE }).with_entry(10, cx_zero())
}

/// The √SWAP matrix.
pub open spec fn sqrt_swap_s() -> MatrixS {
    identity_s(4).with_entry(5, Complex { real: FX_HALF, imaginary: FX_HALF }).with_entry(
        6,
        Complex { real: FX_HALF, imaginary: (-FX_HALF) as i64 },
    ).with_entry(9, Complex { real: FX_HALF, imaginary: (-FX_HALF) as i64 }).with_entry(
        10,
        Complex { real: FX_HALF, imaginary: FX_HALF },
    )
}

/// The Toffoli (CCNOT) matrix: the 8×8 identity with rows 6 and 7 swapped.
pub open spec fn toffoli_s() -> MatrixS {
    identity_s(8).with_entry(54, cx_zero()).with_entry(55, cx_one()).with_entry(
        62,
        cx_one(),
    ).with_entry(63, cx_zero())
}

/// The Fredkin (CSWAP) matrix: the 8×8 identity with rows 5 and 6 swapped.
pub open spec fn fredkin_s() -> MatrixS {
    identity_s(8).with_entry(45, cx_zero()).with_entry(46, cx_one()).with_entry(
        53,
        cx_one(),
    ).with_entry(54, cx_zero())
}

impl MatrixS {
    /// The matrix with one flat entry replaced.
    pub open spec fn with_entry(self, t: int, v: Complex) -> MatrixS {
        MatrixS { rows: self.rows, cols: self.cols, data: self.data.update(t, v) }
    }
}

/// A 2×2 matrix from its four entries.
fn mat2(a: Complex, b: Complex, c: Complex, d: Complex) -> (r: Matrix)
    ensures
        ms_wf(r@),
        r@.rows == 2 && r@.cols == 2,
        r@.data =~= seq![a, b, c, d],
{
    let mut entries: Vec<Complex> = Vec::new();
    entries.push(a);
    entries.push(b);
    entries.push(c);
    entries.push(d);
    Matrix::new(2, 2, entries)
}


/// Small powers of two.
proof fn lemma_small_pows()
    ensures
        1u64 << 1u64 == 2,
        1u64 << 2u64 == 4,
        1u64 << 3u64 == 8,
{
    assert(1u64 << 1u64 == 2 && 1u64 << 2u64 == 4 && 1u64 << 3u64 == 8) by (bit_vector);
}

/// The Hadamard gate.
pub fn hadamard() -> (r: QuantumGate)
    ensures
        crate::register::gate_wf(&r),
        r.name@ == "H"@,
        r.num_qubits == 1,
        r.matrix@ =~= hadamard_s(),
{
    proof {
        lemma_small_pows();
    }
    let m = mat2(
        Complex::new(INV_SQRT2, 0),
        Complex::new(INV_SQRT2, 0),
        Complex::new(INV_SQRT2, 0),
        Complex::new(-INV_SQRT2, 0),
    );
    QuantumGate::new("H", m, 1)
}

/// The Pauli X gate.
pub fn pauli_x() -> (r: QuantumGate)
    ensures
        crate::register::gate_wf(&r),
        r.name@ == "X"@,
        r.num_qubits == 1,
        r.matrix@ =~= pauli_x_s(),
{
    proof {
        lemma_small_pows();
    }
    let m = mat2(Complex::zero(), Complex::one(), Complex::one(), Complex::zero());
    QuantumGate::new("X", m, 1)
}

/// The Pauli Y gate.
pub fn pauli_y() -> (r: QuantumGate)
    ensures
        crate::register::gate_wf(&r),
        r.name@ == "Y"@,
        r.num_qubits == 1,
        r.matrix@ =~= pauli_y_s(),
{
    proof {
        lemma_small_pows();
    }
    let m = mat2(
        Complex::zero(),
        Complex::new(0, -FX_ONE),
        Complex::new(0, FX_ONE),
        Complex::zero(),
    );
    QuantumGate::new("Y", m, 1)
}

/// The Pauli Z gate.
pub fn pauli_z() -> (r: QuantumGate)
    ensures
        crate::register::gate_wf(&r),
        r.name@ == "Z"@,
        r.num_qubits == 1,
        r.matrix@ =~= pauli_z_s(),
{
    proof {
        lemma_small_pows();
    }
    let mut m = Matrix::identity(2);
    m.set(1, 1, Complex::new(-FX_ONE, 0));
    QuantumGate::new("Z", m, 1)
}

/// The S gate.
pub fn s_gate() -> (r: QuantumGate)
    ensures
        crate::register::gate_wf(&r),
        r.name@ == "S"@,
        r.num_qubits == 1,
        r.matrix@ =~= s_gate_s(),
{
    proof {
        lemma_small_pows();
    }
    let mut m = Matrix::identity(2);
    m.set(1, 1, Complex::new(0, FX_ONE));
    QuantumGate::new("S", m, 1)
}

/// The T gate.
pub fn t_gate() -> (r: QuantumGate)
    ensures
        crate::register::gate_wf(&r),
        r.name@ == "T"@,
        r.num_qubits == 1,
        r.matrix@ =~= t_gate_s(),
{
    proof {
        lemma_small_pows();
    }
    let mut m = Matrix::identity(2);
    m.set(1, 1, Complex::new(INV_SQRT2, INV_SQRT2));
    QuantumGate::new("T", m, 1)
}

/// The S† gate.
pub fn sdg_gate() -> (r: QuantumGate)
    ensures
        crate::register::gate_wf(&r),
        r.name@ == "S\u{2020}"@,
        r.num_qubits == 1,
        r.matrix@ =~= sdg_gate_s(),
{
    proof {
        lemma_small_pows();
    }
    let mut m = Matrix::identity(2);
    m.set(1, 1, Complex::new(0, -FX_ONE));
    QuantumGate::new("S\u{2020}", m, 1)
}

/// The T† gate.
pub fn tdg_gate() -> (r: QuantumGate)
    ensures
        crate::register::gate_wf(&r),
        r.name@ == "T\u{2020}"@,
        r.num_qubits == 1,
        r.matrix@ =~= tdg_gate_s(),
{
    proof {
        lemma_small_pows();
    }
    let mut m = Matrix::identity(2);
    m.set(1, 1, Complex::new(INV_SQRT2, -INV_SQRT2));
    QuantumGate::new("T\u{2020}", m, 1)
}

/// The √X gate.
pub fn sx_gate() -> (r: QuantumGate)
    ensures
        crate::register::gate_wf(&r),
        r.name@ == "\u{221a}X"@,
        r.num_qubits == 1,
        r.matrix@ =~= sx_gate_s(),
{
    proof {
        lemma_small_pows();
    }
    let m = mat2(
        Complex::new(FX_HALF, FX_HALF),
        Complex::new(FX_HALF, -FX_HALF),
        Complex::new(FX_HALF, -FX_HALF),
        Complex::new(FX_HALF, FX_HALF),
    );
    QuantumGate::new("\u{221a}X", m, 1)
}

/// The √X† gate.
pub fn sxdg_gate() -> (r: QuantumGate)
    ensures
        crate::register::gate_wf(&r),
        r.name@ == "\u{221a}X\u{2020}"@,
        r.num_qubits == 1,
        r.matrix@ =~= sxdg_gate_s(),
{
    proof {
        lemma_small_pows();
    }
    let m = mat2(
        Complex::new(FX_HALF, -FX_HALF),
        Complex::new(FX_HALF, FX_HALF),
        Complex::new(FX_HALF, FX_HALF),
        Complex::new(FX_HALF, -FX_HALF),
    );
    QuantumGate::new("\u{221a}X\u{2020}", m, 1)
}

/// The single-qubit identity gate.
pub fn identity_gate() -> (r: QuantumGate)
    ensures
        crate::register::gate_wf(&r),
        r.name@ == "I"@,
        r.num_qubits == 1,
        r.matrix@ =~= identity_s(2),
{
    proof {
        lemma_small_pows();
    }
    let m = Matrix::identity(2);
    QuantumGate::new("I", m, 1)
}

/// The CNOT gate.
pub fn cnot() -> (r: QuantumGate)
    ensures
        crate::register::gate_wf(&r),
        r.name@ == "CNOT"@,
        r.num_qubits == 2,
        r.matrix@ =~= cnot_s(),
{
    proof {
        lemma_small_pows();
    }
    let mut m = Matrix::identity(4);
    m.set(2, 2, Complex::zero());
    m.set(2, 3, Complex::one());
    m.set(3, 2, Complex::one());
    m.set(3, 3, Complex::zero());
    QuantumGate::new("CNOT", m, 2)
}

/// The CZ gate.
pub fn cz() -> (r: QuantumGate)
    ensures
        crate::register::gate_wf(&r),
        r.name@ == "CZ"@,
        r.num_qubits == 2,
        r.matrix@ =~= cz_s(),
{
    proof {
        lemma_small_pows();
    }
    let mut m = Matrix::identity(4);
    m.set(3, 3, Complex::new(-FX_ONE, 0));
    QuantumGate::new("CZ", m, 2)
}

/// The SWAP gate.
pub fn swap() -> (r: QuantumGate)
    ensures
        crate::register::gate_wf(&r),
        r.name@ == "SWAP"@,
        r.num_qubits == 2,
        r.matrix@ =~= swap_s(),
{
    proof {
        lemma_small_pows();
    }
    let mut m = Matrix::identity(4);
    m.set(1, 1, Complex::zero());
    m.set(1, 2, Complex::one());
    m.set(2, 1, Complex::one());
    m.set(2, 2, Complex::zero());
    QuantumGate::new("SWAP", m, 2)
}

/// The iSWAP gate.
pub fn iswap() -> (r: QuantumGate)
    ensures
        crate::register::gate_wf(&r),
        r.name@ == "iSWAP"@,
        r.num_qubits == 2,
        r.matrix@ =~= iswap_s(),
{
    proof {
        lemma_small_pows();
    }
    let mut m = Matrix::identity(4);
    m.set(1, 1, Complex::zero());
    m.set(1, 2, Complex::new(0, FX_ONE));
    m.set(2, 1, Complex::new(0, FX_ONE));
    m.set(2, 2, Complex::zero());
    QuantumGate::new("iSWAP", m, 2)
}

/// The √SWAP gate.
pub fn sqrt_swap() -> (r: QuantumGate)
    ensures
        crate::register::gate_wf(&r),
        r.name@ == "\u{221a}SWAP"@,
        r.num_qubits == 2,
        r.matrix@ =~= sqrt_swap_s(),
{
    proof {
        lemma_small_pows();
    }
    let mut m = Matrix::identity(4);
    m.set(1, 1, Complex::new(FX_HALF, FX_HALF));
    m.set(1, 2, Complex::new(FX_HALF, -FX_HALF));
    m.set(2, 1, Complex::new(FX_HALF, -FX_HALF));
    m.set(2, 2, Complex::new(FX_HALF, FX_HALF));
    QuantumGate::new("\u{221a}SWAP", m, 2)
}

/// The Toffoli gate.
pub fn toffoli() -> (r: QuantumGate)
    ensures
        crate::register::gate_wf(&r),
        r.name@ == "CCNOT"@,
        r.num_qubits == 3,
        r.matrix@ =~= toffoli_s(),
{
    proof {
        lemma_small_pows();
    }
    let mut m = Matrix::identity(8);
    m.set(6, 6, Complex::zero());
    m.set(6, 7, Complex::one());
    m.set(7, 6, Complex::one());
    m.set(7, 7, Complex::zero());
    QuantumGate::new("CCNOT", m, 3)
}

/// The Fredkin gate.
pub fn fredkin() -> (r: QuantumGate)
    ensures
        crate::register::gate_wf(&r),
        r.name@ == "CSWAP"@,
        r.num_qubits == 3,
        r.matrix@ =~= fredkin_s(),
{
    proof {
        lemma_small_pows();
    }
    let mut m = Matrix::identity(8);
    m.set(5, 5, Complex::zero());
    m.set(5, 6, Complex::one());
    m.set(6, 5, Complex::one());
    m.set(6, 6, Complex::zero());
    QuantumGate::new("CSWAP", m, 3)
}

/// The Rx matrix `[[c, −is], [−is, c]]` of the half-angle components.
pub open spec fn rx_s(half: Angle) -> MatrixS {
    MatrixS {
        rows: 2,
        cols: 2,
        data: seq![
            Complex { real: half.cos, imaginary: 0 },
            Complex { real: 0, imaginary: fx_neg_s(half.sin as int) as i64 },
            Complex { real: 0, imaginary: fx_neg_s(half.sin as int) as i64 },
            Complex { real: half.cos, imaginary: 0 },
        ],
    }
}

/// The Ry matrix `[[c, −s], [s, c]]` of the half-angle components.
pub open spec fn ry_s(half: Angle) -> MatrixS {
    MatrixS {
        rows: 2,
        cols: 2,
        data: seq![
            Complex { real: half.cos, imaginary: 0 },
            Complex { real: fx_neg_s(half.sin as int) as i64, imaginary: 0 },
            Complex { real: half.sin, imaginary: 0 },
            Complex { real: half.cos, imaginary: 0 },
        ],
    }
}

/// The Rz matrix `diag(e^{−iθ/2}, e^{iθ/2})` of the half-angle components.
pub open spec fn rz_s(half: Angle) -> MatrixS {
    MatrixS {
        rows: 2,
        cols: 2,
        data: seq![
            Complex { real: half.cos, imaginary: fx_neg_s(half.sin as int) as i64 },
            cx_zero(),
            cx_zero(),
            Complex { real: half.cos, imaginary: half.sin },
        ],
    }
}

/// The phase matrix `diag(1, e^{iθ})`.
pub open spec fn p_s(theta: Angle) -> MatrixS {
    MatrixS {
        rows: 2,
        cols: 2,
        data: seq![
            cx_one(),
            cx_zero(),
            cx_zero(),
            Complex { real: theta.cos, imaginary: theta.sin },
        ],
    }
}

/// The U2 matrix `(1/√2)·[[1, −e^{iλ}], [e^{iφ}, e^{i(φ+λ)}]]`.
pub open spec fn u2_s(phi: Angle, lambda: Angle) -> MatrixS {
    MatrixS {
        rows: 2,
        cols: 2,
        data: seq![
            Complex { real: INV_SQRT2, imaginary: 0 },
            Complex {
                real: fx_neg_s(fx_mul_s(INV_SQRT2 as int, lambda.cos as int)) as i64,
                imaginary: fx_neg_s(fx_mul_s(INV_SQRT2 as int, lambda.sin as int)) as i64,
            },
            Complex {
                real: fx_mul_s(INV_SQRT2 as int, phi.cos as int) as i64,
                imaginary: fx_mul_s(INV_SQRT2 as int, phi.sin as int) as i64,
            },
            Complex {
                real: fx_mul_s(INV_SQRT2 as int, angle_sum_s(phi, lambda).cos as int) as i64,
                imaginary: fx_mul_s(INV_SQRT2 as int, angle_sum_s(phi, lambda).sin as int) as i64,
            },
        ],
    }
}

/// The U3 matrix of the half-angle of θ and the phases φ and λ.
pub open spec fn u3_s(half_theta: Angle, phi: Angle, lambda: Angle) -> MatrixS {
    MatrixS {
        rows: 2,
        cols: 2,
        data: seq![
            Complex { real: half_theta.cos, imaginary: 0 },
            Complex {
                real: fx_neg_s(fx_mul_s(half_theta.sin as int, lambda.cos as int)) as i64,
                imaginary: fx_neg_s(fx_mul_s(half_theta.sin as int, lambda.sin as int)) as i64,
            },
            Complex {
                real: fx_mul_s(half_theta.sin as int, phi.cos as int) as i64,
                imaginary: fx_mul_s(half_theta.sin as int, phi.sin as int) as i64,
            },
            Complex {
                real: fx_mul_s(half_theta.cos as int, angle_sum_s(phi, lambda).cos as int) as i64,
                imaginary: fx_mul_s(
                    half_theta.cos as int,
                    angle_sum_s(phi, lambda).sin as int,
                ) as i64,
            },
        ],
    }
}

/// The controlled rotation block `diag(I\u{2082}, R)` for a 2×2 rotation `R`.
pub open spec fn controlled_s(r: MatrixS) -> MatrixS {
    identity_s(4).with_entry(10, r.data[0]).with_entry(11, r.data[1]).with_entry(
        14,
        r.data[2],
    ).with_entry(15, r.data[3])
}

/// The Rx matrix of the half-angle components.
pub fn rx_matrix(half: Angle) -> (r: Matrix)
    ensures
        ms_wf(r@),
        r@.rows == 2 && r@.cols == 2,
        r@ =~= rx_s(half),
{
    mat2(
        Complex::new(half.cos, 0),
        Complex::new(0, fx_neg(half.sin)),
        Complex::new(0, fx_neg(half.sin)),
        Complex::new(half.cos, 0),
    )
}

/// The Ry matrix of the half-angle components.
pub fn ry_matrix(half: Angle) -> (r: Matrix)
    ensures
        ms_wf(r@),
        r@.rows == 2 && r@.cols == 2,
        r@ =~= ry_s(half),
{
    mat2(
        Complex::new(half.cos, 0),
        Complex::new(fx_neg(half.sin), 0),
        Complex::new(half.sin, 0),
        Complex::new(half.cos, 0),
    )
}

/// The Rz matrix of the half-angle components.
pub fn rz_matrix(half: Angle) -> (r: Matrix)
    ensures
        ms_wf(r@),
        r@.rows == 2 && r@.cols == 2,
        r@ =~= rz_s(half),
{
    mat2(
        Complex::new(half.cos, fx_neg(half.sin)),
        Complex::zero(),
        Complex::zero(),
        Complex::new(half.cos, half.sin),
    )
}

/// The phase matrix of the full-angle components.
pub fn p_matrix(theta: Angle) -> (r: Matrix)
    ensures
        ms_wf(r@),
        r@.rows == 2 && r@.cols == 2,
        r@ =~= p_s(theta),
{
    mat2(
        Complex::one(),
        Complex::zero(),
        Complex::zero(),
        Complex::new(theta.cos, theta.sin),
    )
}

/// The U1 matrix: the phase matrix.
pub fn u1_matrix(lambda: Angle) -> (r: Matrix)
    ensures
        ms_wf(r@),
        r@.rows == 2 && r@.cols == 2,
        r@ =~= p_s(lambda),
{
    p_matrix(lambda)
}

/// The U2 matrix of the two phase angles.
pub fn u2_matrix(phi: Angle, lambda: Angle) -> (r: Matrix)
    ensures
        ms_wf(r@),
        r@.rows == 2 && r@.cols == 2,
        r@ =~= u2_s(phi, lambda),
{
    let sum = phi.compose(lambda);
    mat2(
        Complex::new(INV_SQRT2, 0),
        Complex::new(
            fx_neg(fx_mul(INV_SQRT2, lambda.cos)),
            fx_neg(fx_mul(INV_SQRT2, lambda.sin)),
        ),
        Complex::new(fx_mul(INV_SQRT2, phi.cos), fx_mul(INV_SQRT2, phi.sin)),
        Complex::new(fx_mul(INV_SQRT2, sum.cos), fx_mul(INV_SQRT2, sum.sin)),
    )
}

/// The U3 matrix of the half-angle of θ and the phases φ and λ.
pub fn u3_matrix(half_theta: Angle, phi: Angle, lambda: Angle) -> (r: Matrix)
    ensures
        ms_wf(r@),
        r@.rows == 2 && r@.cols == 2,
        r@ =~= u3_s(half_theta, phi, lambda),
{
    let sum = phi.compose(lambda);
    mat2(
        Complex::new(half_theta.cos, 0),
        Complex::new(
            fx_neg(fx_mul(half_theta.sin, lambda.cos)),
            fx_neg(fx_mul(half_theta.sin, lambda.sin)),
        ),
        Complex::new(fx_mul(half_theta.sin, phi.cos), fx_mul(half_theta.sin, phi.sin)),
        Complex::new(fx_mul(half_theta.cos, sum.cos), fx_mul(half_theta.cos, sum.sin)),
    )
}

/// The controlled block `diag(I\u{2082}, R)` of a 2×2 rotation.
fn controlled_matrix(rot: &Matrix) -> (r: Matrix)
    requires
        ms_wf(rot@),
        rot@.rows == 2 && rot@.cols == 2,
    ensures
        ms_wf(r@),
        r@.rows == 4 && r@.cols == 4,
        r@ =~= controlled_s(rot@),
{
    let mut m = Matrix::identity(4);
    m.set(2, 2, rot.get(0, 0));
    m.set(2, 3, rot.get(0, 1));
    m.set(3, 2, rot.get(1, 0));
    m.set(3, 3, rot.get(1, 1));
    m
}

/// The controlled Rx matrix of the half-angle components.
pub fn crx_matrix(half: Angle) -> (r: Matrix)
    ensures
        ms_wf(r@),
        r@.rows == 4 && r@.cols == 4,
        r@ =~= controlled_s(rx_s(half)),
{
    let rot = rx_matrix(half);
    controlled_matrix(&rot)
}

/// The controlled Ry matrix of the half-angle components.
pub fn cry_matrix(half: Angle) -> (r: Matrix)
    ensures
        ms_wf(r@),
        r@.rows == 4 && r@.cols == 4,
        r@ =~= controlled_s(ry_s(half)),
{
    let rot = ry_matrix(half);
    controlled_matrix(&rot)
}

/// The controlled Rz matrix of the half-angle components.
pub fn crz_matrix(half: Angle) -> (r: Matrix)
    ensures
        ms_wf(r@),
        r@.rows == 4 && r@.cols == 4,
        r@ =~= controlled_s(rz_s(half)),
{
    let rot = rz_matrix(half);
    controlled_matrix(&rot)
}

/// The controlled phase matrix of the full-angle components.
pub fn cp_matrix(theta: Angle) -> (r: Matrix)
    ensures
        ms_wf(r@),
        r@.rows == 4 && r@.cols == 4,
        r@ =~= controlled_s(p_s(theta)),
{
    let rot = p_matrix(theta);
    controlled_matrix(&rot)
}


/// A matrix is an axis permutation with support `sup`: each row `i`
/// holds one entry of unit magnitude (±1 or ±i) in column `sup(i)` and
/// zeros elsewhere, and distinct rows are supported on distinct columns.
pub open spec fn axis_perm_wf(m: MatrixS, sup: spec_fn(int) -> int) -> bool {
    &&& forall|i: int| 0 <= i < m.rows ==> 0 <= #[trigger] sup(i) < m.cols
    &&& forall|i: int|
        0 <= i < m.rows ==> axis_unit_or_zero(#[trigger] m.data[i * m.cols + sup(i)]) && m.data[i
            * m.cols + sup(i)] != cx_zero()
    &&& forall|i: int, k: int|
        0 <= i < m.rows && 0 <= k < m.cols && k != sup(i) ==> #[trigger] m.data[i * m.cols + k]
            == cx_zero()
    &&& forall|i: int, j: int| 0 <= i < j < m.rows ==> #[trigger] sup(i) != #[trigger] sup(j)
}

/// An amplitude that is 0, ±1 or ±i.
pub open spec fn axis_unit_or_zero(a: Complex) -> bool {
    ||| a == cx_zero()
    ||| a.real == FX_ONE && a.imaginary == 0
    ||| a.real == (-FX_ONE) as i64 && a.imaginary == 0
    ||| a.real == 0 && a.imaginary == FX_ONE
    ||| a.real == 0 && a.imaginary == (-FX_ONE) as i64
}

/// The product of an axis amplitude with a conjugate: exactly the unit
/// when both are the same unit entry, exactly zero when either is zero.
proof fn lemma_axis_products(a: Complex, b: Complex)
    requires
        axis_unit_or_zero(a),
        axis_unit_or_zero(b),
    ensures
        a == b && a != cx_zero() ==> cx_mul_s(a, cx_conj_s(b)) == cx_one(),
        a == cx_zero() || b == cx_zero() ==> cx_mul_s(a, cx_conj_s(b)) == cx_zero(),
{
    assert(crate::fixed::unit_div((FX_ONE as int) * (FX_ONE as int)) == FX_ONE) by (nonlinear_arith);
    assert(crate::fixed::unit_div((-(FX_ONE as int)) * (-(FX_ONE as int))) == FX_ONE)
        by (nonlinear_arith);
    assert(crate::fixed::unit_div((FX_ONE as int) * 0) == 0) by (nonlinear_arith);
    assert(crate::fixed::unit_div(0 * (FX_ONE as int)) == 0) by (nonlinear_arith);
    assert(crate::fixed::unit_div((-(FX_ONE as int)) * 0) == 0) by (nonlinear_arith);
    assert(crate::fixed::unit_div(0 * (-(FX_ONE as int))) == 0) by (nonlinear_arith);
    assert(crate::fixed::unit_div(0int * 0int) == 0) by (nonlinear_arith);
    assert(crate::fixed::unit_div((FX_ONE as int) * (-(FX_ONE as int))) == -(FX_ONE as int))
        by (nonlinear_arith);
    assert(crate::fixed::unit_div((-(FX_ONE as int)) * (FX_ONE as int)) == -(FX_ONE as int))
        by (nonlinear_arith);
}

/// Partial sums of one product row of an axis permutation against its
/// conjugate transpose: the unit appears exactly when the diagonal term
/// has been passed.
proof fn lemma_axis_perm_row(m: MatrixS, sup: spec_fn(int) -> int, i: int, j: int, k: nat)
    requires
        ms_wf(m),
        m.rows == m.cols,
        axis_perm_wf(m, sup),
        0 <= i < m.rows,
        0 <= j < m.rows,
        k <= m.rows,
    ensures
        crate::matrix::mm_sum(m, dagger_s(m), i, j, k) == (if i == j && sup(i) < k {
            cx_one()
        } else {
            cx_zero()
        }),
    decreases k,
{
    let md = dagger_s(m);
    if k == 0 {
    } else {
        let c = k - 1;
        lemma_axis_perm_row(m, sup, i, j, (k - 1) as nat);
        crate::matrix::lemma_rm_index(c, j, m.rows);
        crate::matrix::lemma_rm_bound(c, j, m.rows, m.rows);
        assert(ms_idx(md, c, j) == cx_conj_s(ms_idx(m, j, c)));
        let a = ms_idx(m, i, c);
        let b = ms_idx(m, j, c);
        if i != j && sup(i) == sup(j) {
            assert(false);
        }
        if c == sup(i) && i == j {
            lemma_axis_products(a, b);
            crate::complex::lemma_cx_add_zero(cx_one());
        } else if c == sup(i) {
            assert(b == cx_zero());
            lemma_axis_products(a, b);
            crate::complex::lemma_cx_add_zero(
                crate::matrix::mm_sum(m, md, i, j, (k - 1) as nat),
            );
        } else {
            assert(a == cx_zero());
            lemma_axis_products(a, b);
            crate::complex::lemma_cx_add_zero(
                crate::matrix::mm_sum(m, md, i, j, (k - 1) as nat),
            );
        }
    }
}

/// An axis permutation is exactly unitary: `U · U† = I` with no rounding.
pub proof fn lemma_axis_perm_unitary(m: MatrixS, sup: spec_fn(int) -> int)
    requires
        ms_wf(m),
        m.rows == m.cols,
        axis_perm_wf(m, sup),
    ensures
        matmul_s(m, dagger_s(m)) =~= identity_s(m.rows),
{
    let p = matmul_s(m, dagger_s(m));
    let n = m.rows;
    assert(p.data.len() == n * n);
    assert forall|t: int| 0 <= t < n * n implies #[trigger] p.data[t] == identity_s(n).data[t] by {
        crate::matrix::lemma_rm_decomp(t, n, n);
        lemma_axis_perm_row(m, sup, t / n, t % n, n as nat);
    }
}

/// The catalogue gates with exactly representable entries are exactly
/// unitary in fixed point: for the Pauli, phase and permutation gates,
/// `U · U† = I` with no rounding at all.
pub proof fn lemma_exact_gates_unitary()
    ensures
        matmul_s(pauli_x_s(), dagger_s(pauli_x_s())) =~= identity_s(2),
        matmul_s(pauli_y_s(), dagger_s(pauli_y_s())) =~= identity_s(2),
        matmul_s(pauli_z_s(), dagger_s(pauli_z_s())) =~= identity_s(2),
        matmul_s(s_gate_s(), dagger_s(s_gate_s())) =~= identity_s(2),
        matmul_s(sdg_gate_s(), dagger_s(sdg_gate_s())) =~= identity_s(2),
        matmul_s(identity_s(2), dagger_s(identity_s(2))) =~= identity_s(2),
        matmul_s(cnot_s(), dagger_s(cnot_s())) =~= identity_s(4),
        matmul_s(cz_s(), dagger_s(cz_s())) =~= identity_s(4),
        matmul_s(swap_s(), dagger_s(swap_s())) =~= identity_s(4),
        matmul_s(iswap_s(), dagger_s(iswap_s())) =~= identity_s(4),
        matmul_s(toffoli_s(), dagger_s(toffoli_s())) =~= identity_s(8),
        matmul_s(fredkin_s(), dagger_s(fredkin_s())) =~= identity_s(8),
{
    lemma_single_qubit_exact_unitary();
    lemma_two_qubit_exact_unitary();
    lemma_three_qubit_exact_unitary();
}

/// The single-qubit axis gates are exactly unitary.
proof fn lemma_single_qubit_exact_unitary()
    ensures
        matmul_s(pauli_x_s(), dagger_s(pauli_x_s())) =~= identity_s(2),
        matmul_s(pauli_y_s(), dagger_s(pauli_y_s())) =~= identity_s(2),
        matmul_s(pauli_z_s(), dagger_s(pauli_z_s())) =~= identity_s(2),
        matmul_s(s_gate_s(), dagger_s(s_gate_s())) =~= identity_s(2),
        matmul_s(sdg_gate_s(), dagger_s(sdg_gate_s())) =~= identity_s(2),
        matmul_s(identity_s(2), dagger_s(identity_s(2))) =~= identity_s(2),
{
    let flip = (|i: int| 1 - i);
    let keep = (|i: int| i);
    lemma_axis_perm_2(pauli_x_s(), flip);
    lemma_axis_perm_unitary(pauli_x_s(), flip);
    lemma_axis_perm_2(pauli_y_s(), flip);
    lemma_axis_perm_unitary(pauli_y_s(), flip);
    lemma_axis_perm_2(pauli_z_s(), keep);
    lemma_axis_perm_unitary(pauli_z_s(), keep);
    lemma_axis_perm_2(s_gate_s(), keep);
    lemma_axis_perm_unitary(s_gate_s(), keep);
    lemma_axis_perm_2(sdg_gate_s(), keep);
    lemma_axis_perm_unitary(sdg_gate_s(), keep);
    lemma_axis_perm_2(identity_s(2), keep);
    lemma_axis_perm_unitary(identity_s(2), keep);
}

/// Establish the axis-permutation shape of a 2×2 gate from its four
/// entries.
proof fn lemma_axis_perm_2(m: MatrixS, sup: spec_fn(int) -> int)
    requires
        m.rows == 2,
        m.cols == 2,
        m.data.len() == 4,
        0 <= sup(0) < 2,
        0 <= sup(1) < 2,
        sup(0) != sup(1),
        axis_unit_or_zero(m.data[sup(0)]) && m.data[sup(0)] != cx_zero(),
        axis_unit_or_zero(m.data[2 + sup(1)]) && m.data[2 + sup(1)] != cx_zero(),
        m.data[1 - sup(0)] == cx_zero(),
        m.data[2 + 1 - sup(1)] == cx_zero(),
    ensures
        axis_perm_wf(m, sup),
        ms_wf(m),
{
    assert forall|i: int| 0 <= i < 2 implies 0 <= #[trigger] sup(i) < 2 by {
        if i == 0 {
        } else {
            assert(sup(1) < 2);
        }
    }
    assert forall|i: int|
        0 <= i < 2 implies axis_unit_or_zero(#[trigger] m.data[i * 2 + sup(i)]) && m.data[i * 2
            + sup(i)] != cx_zero() by {
        if i == 0 {
            assert(m.data[0 * 2 + sup(0)] == m.data[sup(0)]);
        } else {
            assert(m.data[1 * 2 + sup(1)] == m.data[2 + sup(1)]);
        }
    }
    assert forall|i: int, k: int|
        0 <= i < 2 && 0 <= k < 2 && k != sup(i) implies #[trigger] m.data[i * 2 + k]
            == cx_zero() by {
        if i == 0 {
            assert(k == 1 - sup(0));
        } else {
            assert(k == 1 - sup(1));
        }
    }
}

/// The two-qubit permutation-phase gates are exactly unitary.
proof fn lemma_two_qubit_exact_unitary()
    ensures
        matmul_s(cnot_s(), dagger_s(cnot_s())) =~= identity_s(4),
        matmul_s(cz_s(), dagger_s(cz_s())) =~= identity_s(4),
        matmul_s(swap_s(), dagger_s(swap_s())) =~= identity_s(4),
        matmul_s(iswap_s(), dagger_s(iswap_s())) =~= identity_s(4),
{
    lemma_cnot_exact();
    lemma_cz_exact();
    lemma_swap_exact();
    lemma_iswap_exact();
}

/// The three-qubit permutation gates are exactly unitary.
proof fn lemma_three_qubit_exact_unitary()
    ensures
        matmul_s(toffoli_s(), dagger_s(toffoli_s())) =~= identity_s(8),
        matmul_s(fredkin_s(), dagger_s(fredkin_s())) =~= identity_s(8),
{
    lemma_toffoli_exact();
    lemma_fredkin_exact();
}

/// `cnot_s()` is exactly unitary.
proof fn lemma_cnot_exact()
    ensures
        matmul_s(cnot_s(), dagger_s(cnot_s())) =~= identity_s(4),
{
    let m = cnot_s();
    let sup = (|i: int| if i == 2 { 3int } else if i == 3 { 2int } else { i });
    assert(m.data[0] == cx_one());
    assert(m.data[1] == cx_zero());
    assert(m.data[2] == cx_zero());
    assert(m.data[3] == cx_zero());
    assert(m.data[4] == cx_zero());
    assert(m.data[5] == cx_one());
    assert(m.data[6] == cx_zero());
    assert(m.data[7] == cx_zero());
    assert(m.data[8] == cx_zero());
    assert(m.data[9] == cx_zero());
    assert(m.data[10] == cx_zero());
    assert(m.data[11] == cx_one());
    assert(m.data[12] == cx_zero());
    assert(m.data[13] == cx_zero());
    assert(m.data[14] == cx_one());
    assert(m.data[15] == cx_zero());
    assert forall|i: int| 0 <= i < 4 implies 0 <= #[trigger] sup(i) < 4 by {
        if i == 0 { } else if i == 1 { } else if i == 2 { } else { }
    }
    assert forall|i: int|
        0 <= i < 4 implies axis_unit_or_zero(#[trigger] m.data[i * 4 + sup(i)]) && m.data[i
            * 4 + sup(i)] != cx_zero() by {
        if i == 0 {
            assert(m.data[i * 4 + sup(i)] == m.data[0]);
        } else if i == 1 {
            assert(m.data[i * 4 + sup(i)] == m.data[5]);
        } else if i == 2 {
            assert(m.data[i * 4 + sup(i)] == m.data[11]);
        } else if i == 3 {
            assert(m.data[i * 4 + sup(i)] == m.data[14]);
        }
    }
    assert forall|i: int, k: int|
        0 <= i < 4 && 0 <= k < 4 && k != sup(i) implies #[trigger] m.data[i * 4 + k]
            == cx_zero() by {
        if i == 0 {
            if k == 0 {
                assert(m.data[i * 4 + k] == m.data[i * 4 + 0]);
            } else if k == 1 {
                assert(m.data[i * 4 + k] == m.data[i * 4 + 1]);
            } else if k == 2 {
                assert(m.data[i * 4 + k] == m.data[i * 4 + 2]);
            } else {
                assert(m.data[i * 4 + k] == m.data[i * 4 + 3]);
            }
        } else if i == 1 {
            if k == 0 {
                assert(m.data[i * 4 + k] == m.data[i * 4 + 0]);
            } else if k == 1 {
                assert(m.data[i * 4 + k] == m.data[i * 4 + 1]);
            } else if k == 2 {
                assert(m.data[i * 4 + k] == m.data[i * 4 + 2]);
            } else {
                assert(m.data[i * 4 + k] == m.data[i * 4 + 3]);
            }
        } else if i == 2 {
            if k == 0 {
                assert(m.data[i * 4 + k] == m.data[i * 4 + 0]);
            } else if k == 1 {
                assert(m.data[i * 4 + k] == m.data[i * 4 + 1]);
            } else if k == 2 {
                assert(m.data[i * 4 + k] == m.data[i * 4 + 2]);
            } else {
                assert(m.data[i * 4 + k] == m.data[i * 4 + 3]);
            }
        } else {
            if k == 0 {
                assert(m.data[i * 4 + k] == m.data[i * 4 + 0]);
            } else if k == 1 {
                assert(m.data[i * 4 + k] == m.data[i * 4 + 1]);
            } else if k == 2 {
                assert(m.data[i * 4 + k] == m.data[i * 4 + 2]);
            } else {
                assert(m.data[i * 4 + k] == m.data[i * 4 + 3]);
            }
        }
    }
    lemma_axis_perm_unitary(m, sup);
}

/// `cz_s()` is exactly unitary.
proof fn lemma_cz_exact()
    ensures
        matmul_s(cz_s(), dagger_s(cz_s())) =~= identity_s(4),
{
    let m = cz_s();
    let sup = (|i: int| i);
    assert(m.data[0] == cx_one());
    assert(m.data[1] == cx_zero());
    assert(m.data[2] == cx_zero());
    assert(m.data[3] == cx_zero());
    assert(m.data[4] == cx_zero());
    assert(m.data[5] == cx_one());
    assert(m.data[6] == cx_zero());
    assert(m.data[7] == cx_zero());
    assert(m.data[8] == cx_zero());
    assert(m.data[9] == cx_zero());
    assert(m.data[10] == cx_one());
    assert(m.data[11] == cx_zero());
    assert(m.data[12] == cx_zero());
    assert(m.data[13] == cx_zero());
    assert(m.data[14] == cx_zero());
    assert(m.data[15] == Complex { real: (-FX_ONE) as i64, imaginary: 0 });
    assert forall|i: int| 0 <= i < 4 implies 0 <= #[trigger] sup(i) < 4 by {
        if i == 0 { } else if i == 1 { } else if i == 2 { } else { }
    }
    assert forall|i: int|
        0 <= i < 4 implies axis_unit_or_zero(#[trigger] m.data[i * 4 + sup(i)]) && m.data[i
            * 4 + sup(i)] != cx_zero() by {
        if i == 0 {
            assert(m.data[i * 4 + sup(i)] == m.data[0]);
        } else if i == 1 {
            assert(m.data[i * 4 + sup(i)] == m.data[5]);
        } else if i == 2 {
            assert(m.data[i * 4 + sup(i)] == m.data[10]);
        } else if i == 3 {
            assert(m.data[i * 4 + sup(i)] == m.data[15]);
        }
    }
    assert forall|i: int, k: int|
        0 <= i < 4 && 0 <= k < 4 && k != sup(i) implies #[trigger] m.data[i * 4 + k]
            == cx_zero() by {
        if i == 0 {
            if k == 0 {
                assert(m.data[i * 4 + k] == m.data[i * 4 + 0]);
            } else if k == 1 {
                assert(m.data[i * 4 + k] == m.data[i * 4 + 1]);
            } else if k == 2 {
                assert(m.data[i * 4 + k] == m.data[i * 4 + 2]);
            } else {
                assert(m.data[i * 4 + k] == m.data[i * 4 + 3]);
            }
        } else if i == 1 {
            if k == 0 {
                assert(m.data[i * 4 + k] == m.data[i * 4 + 0]);
            } else if k == 1 {
                assert(m.data[i * 4 + k] == m.data[i * 4 + 1]);
            } else if k == 2 {
                assert(m.data[i * 4 + k] == m.data[i * 4 + 2]);
            } else {
                assert(m.data[i * 4 + k] == m.data[i * 4 + 3]);
            }
        } else if i == 2 {
            if k == 0 {
                assert(m.data[i * 4 + k] == m.data[i * 4 + 0]);
            } else if k == 1 {
                assert(m.data[i * 4 + k] == m.data[i * 4 + 1]);
            } else if k == 2 {
                assert(m.data[i * 4 + k] == m.data[i * 4 + 2]);
            } else {
                assert(m.data[i * 4 + k] == m.data[i * 4 + 3]);
            }
        } else {
            if k == 0 {
                assert(m.data[i * 4 + k] == m.data[i * 4 + 0]);
            } else if k == 1 {
                assert(m.data[i * 4 + k] == m.data[i * 4 + 1]);
            } else if k == 2 {
                assert(m.data[i * 4 + k] == m.data[i * 4 + 2]);
            } else {
                assert(m.data[i * 4 + k] == m.data[i * 4 + 3]);
            }
        }
    }
    lemma_axis_perm_unitary(m, sup);
}

/// `swap_s()` is exactly unitary.
proof fn lemma_swap_exact()
    ensures
        matmul_s(swap_s(), dagger_s(swap_s())) =~= identity_s(4),
{
    let m = swap_s();
    let sup = (|i: int| if i == 1 { 2int } else if i == 2 { 1int } else { i });
    assert(m.data[0] == cx_one());
    assert(m.data[1] == cx_zero());
    assert(m.data[2] == cx_zero());
    assert(m.data[3] == cx_zero());
    assert(m.data[4] == cx_zero());
    assert(m.data[5] == cx_zero());
    assert(m.data[6] == cx_one());
    assert(m.data[7] == cx_zero());
    assert(m.data[8] == cx_zero());
    assert(m.data[9] == cx_one());
    assert(m.data[10] == cx_zero());
    assert(m.data[11] == cx_zero());
    assert(m.data[12] == cx_zero());
    assert(m.data[13] == cx_zero());
    assert(m.data[14] == cx_zero());
    assert(m.data[15] == cx_one());
    assert forall|i: int| 0 <= i < 4 implies 0 <= #[trigger] sup(i) < 4 by {
        if i == 0 { } else if i == 1 { } else if i == 2 { } else { }
    }
    assert forall|i: int|
        0 <= i < 4 implies axis_unit_or_zero(#[trigger] m.data[i * 4 + sup(i)]) && m.data[i
            * 4 + sup(i)] != cx_zero() by {
        if i == 0 {
            assert(m.data[i * 4 + sup(i)] == m.data[0]);
        } else if i == 1 {
            assert(m.data[i * 4 + sup(i)] == m.data[6]);
        } else if i == 2 {
            assert(m.data[i * 4 + sup(i)] == m.data[9]);
        } else if i == 3 {
            assert(m.data[i * 4 + sup(i)] == m.data[15]);
        }
    }
    assert forall|i: int, k: int|
        0 <= i < 4 && 0 <= k < 4 && k != sup(i) implies #[trigger] m.data[i * 4 + k]
            == cx_zero() by {
        if i == 0 {
            if k == 0 {
                assert(m.data[i * 4 + k] == m.data[i * 4 + 0]);
            } else if k == 1 {
                assert(m.data[i * 4 + k] == m.data[i * 4 + 1]);
            } else if k == 2 {
                assert(m.data[i * 4 + k] == m.data[i * 4 + 2]);
            } else {
                assert(m.data[i * 4 + k] == m.data[i * 4 + 3]);
            }
        } else if i == 1 {
            if k == 0 {
                assert(m.data[i * 4 + k] == m.data[i * 4 + 0]);
            } else if k == 1 {
                assert(m.data[i * 4 + k] == m.data[i * 4 + 1]);
            } else if k == 2 {
                assert(m.data[i * 4 + k] == m.data[i * 4 + 2]);
            } else {
                assert(m.data[i * 4 + k] == m.data[i * 4 + 3]);
            }
        } else if i == 2 {
            if k == 0 {
                assert(m.data[i * 4 + k] == m.data[i * 4 + 0]);
            } else if k == 1 {
                assert(m.data[i * 4 + k] == m.data[i * 4 + 1]);
            } else if k == 2 {
                assert(m.data[i * 4 + k] == m.data[i * 4 + 2]);
            } else {
                assert(m.data[i * 4 + k] == m.data[i * 4 + 3]);
            }
        } else {
            if k == 0 {
                assert(m.data[i * 4 + k] == m.data[i * 4 + 0]);
            } else if k == 1 {
                assert(m.data[i * 4 + k] == m.data[i * 4 + 1]);
            } else if k == 2 {
                assert(m.data[i * 4 + k] == m.data[i * 4 + 2]);
            } else {
                assert(m.data[i * 4 + k] == m.data[i * 4 + 3]);
            }
        }
    }
    lemma_axis_perm_unitary(m, sup);
}

/// `iswap_s()` is exactly unitary.
proof fn lemma_iswap_exact()
    ensures
        matmul_s(iswap_s(), dagger_s(iswap_s())) =~= identity_s(4),
{
    let m = iswap_s();
    let sup = (|i: int| if i == 1 { 2int } else if i == 2 { 1int } else { i });
    assert(m.data[0] == cx_one());
    assert(m.data[1] == cx_zero());
    assert(m.data[2] == cx_zero());
    assert(m.data[3] == cx_zero());
    assert(m.data[4] == cx_zero());
    assert(m.data[5] == cx_zero());
    assert(m.data[6] == Complex { real: 0, imaginary: FX_ONE });
    assert(m.data[7] == cx_zero());
    assert(m.data[8] == cx_zero());
    assert(m.data[9] == Complex { real: 0, imaginary: FX_ONE });
    assert(m.data[10] == cx_zero());
    assert(m.data[11] == cx_zero());
    assert(m.data[12] == cx_zero());
    assert(m.data[13] == cx_zero());
    assert(m.data[14] == cx_zero());
    assert(m.data[15] == cx_one());
    assert forall|i: int| 0 <= i < 4 implies 0 <= #[trigger] sup(i) < 4 by {
        if i == 0 { } else if i == 1 { } else if i == 2 { } else { }
    }
    assert forall|i: int|
        0 <= i < 4 implies axis_unit_or_zero(#[trigger] m.data[i * 4 + sup(i)]) && m.data[i
            * 4 + sup(i)] != cx_zero() by {
        if i == 0 {
            assert(m.data[i * 4 + sup(i)] == m.data[0]);
        } else if i == 1 {
            assert(m.data[i * 4 + sup(i)] == m.data[6]);
        } else if i == 2 {
            assert(m.data[i * 4 + sup(i)] == m.data[9]);
        } else if i == 3 {
            assert(m.data[i * 4 + sup(i)] == m.data[15]);
        }
    }
    assert forall|i: int, k: int|
        0 <= i < 4 && 0 <= k < 4 && k != sup(i) implies #[trigger] m.data[i * 4 + k]
            == cx_zero() by {
        if i == 0 {
            if k == 0 {
                assert(m.data[i * 4 + k] == m.data[i * 4 + 0]);
            } else if k == 1 {
                assert(m.data[i * 4 + k] == m.data[i * 4 + 1]);
            } else if k == 2 {
                assert(m.data[i * 4 + k] == m.data[i * 4 + 2]);
            } else {
                assert(m.data[i * 4 + k] == m.data[i * 4 + 3]);
            }
        } else if i == 1 {
            if k == 0 {
                assert(m.data[i * 4 + k] == m.data[i * 4 + 0]);
            } else if k == 1 {
                assert(m.data[i * 4 + k] == m.data[i * 4 + 1]);
            } else if k == 2 {
                assert(m.data[i * 4 + k] == m.data[i * 4 + 2]);
            } else {
                assert(m.data[i * 4 + k] == m.data[i * 4 + 3]);
            }
        } else if i == 2 {
            if k == 0 {
                assert(m.data[i * 4 + k] == m.data[i * 4 + 0]);
            } else if k == 1 {
                assert(m.data[i * 4 + k] == m.data[i * 4 + 1]);
            } else if k == 2 {
                assert(m.data[i * 4 + k] == m.data[i * 4 + 2]);
            } else {
                assert(m.data[i * 4 + k] == m.data[i * 4 + 3]);
            }
        } else {
            if k == 0 {
                assert(m.data[i * 4 + k] == m.data[i * 4 + 0]);
            } else if k == 1 {
                assert(m.data[i * 4 + k] == m.data[i * 4 + 1]);
            } else if k == 2 {
                assert(m.data[i * 4 + k] == m.data[i * 4 + 2]);
            } else {
                assert(m.data[i * 4 + k] == m.data[i * 4 + 3]);
            }
        }
    }
    lemma_axis_perm_unitary(m, sup);
}

/// `toffoli_s()` is exactly unitary.
proof fn lemma_toffoli_exact()
    ensures
        matmul_s(toffoli_s(), dagger_s(toffoli_s())) =~= identity_s(8),
{
    let m = toffoli_s();
    let sup = (|i: int| if i == 6 { 7int } else if i == 7 { 6int } else { i });
    assert(m.data[0] == cx_one());
    assert(m.data[1] == cx_zero());
    assert(m.data[2] == cx_zero());
    assert(m.data[3] == cx_zero());
    assert(m.data[4] == cx_zero());
    assert(m.data[5] == cx_zero());
    assert(m.data[6] == cx_zero());
    assert(m.data[7] == cx_zero());
    assert(m.data[8] == cx_zero());
    assert(m.data[9] == cx_one());
    assert(m.data[10] == cx_zero());
    assert(m.data[11] == cx_zero());
    assert(m.data[12] == cx_zero());
    assert(m.data[13] == cx_zero());
    assert(m.data[14] == cx_zero());
    assert(m.data[15] == cx_zero());
    assert(m.data[16] == cx_zero());
    assert(m.data[17] == cx_zero());
    assert(m.data[18] == cx_one());
    assert(m.data[19] == cx_zero());
    assert(m.data[20] == cx_zero());
    assert(m.data[21] == cx_zero());
    assert(m.data[22] == cx_zero());
    assert(m.data[23] == cx_zero());
    assert(m.data[24] == cx_zero());
    assert(m.data[25] == cx_zero());
    assert(m.data[26] == cx_zero());
    assert(m.data[27] == cx_one());
    assert(m.data[28] == cx_zero());
    assert(m.data[29] == cx_zero());
    assert(m.data[30] == cx_zero());
    assert(m.data[31] == cx_zero());
    assert(m.data[32] == cx_zero());
    assert(m.data[33] == cx_zero());
    assert(m.data[34] == cx_zero());
    assert(m.data[35] == cx_zero());
    assert(m.data[36] == cx_one());
    assert(m.data[37] == cx_zero());
    assert(m.data[38] == cx_zero());
    assert(m.data[39] == cx_zero());
    assert(m.data[40] == cx_zero());
    assert(m.data[41] == cx_zero());
    assert(m.data[42] == cx_zero());
    assert(m.data[43] == cx_zero());
    assert(m.data[44] == cx_zero());
    assert(m.data[45] == cx_one());
    assert(m.data[46] == cx_zero());
    assert(m.data[47] == cx_zero());
    assert(m.data[48] == cx_zero());
    assert(m.data[49] == cx_zero());
    assert(m.data[50] == cx_zero());
    assert(m.data[51] == cx_zero());
    assert(m.data[52] == cx_zero());
    assert(m.data[53] == cx_zero());
    assert(m.data[54] == cx_zero());
    assert(m.data[55] == cx_one());
    assert(m.data[56] == cx_zero());
    assert(m.data[57] == cx_zero());
    assert(m.data[58] == cx_zero());
    assert(m.data[59] == cx_zero());
    assert(m.data[60] == cx_zero());
    assert(m.data[61] == cx_zero());
    assert(m.data[62] == cx_one());
    assert(m.data[63] == cx_zero());
    assert forall|i: int| 0 <= i < 8 implies 0 <= #[trigger] sup(i) < 8 by {
        if i == 0 { } else if i == 1 { } else if i == 2 { } else if i == 3 { } else if i == 4 { } else if i == 5 { } else if i == 6 { } else { }
    }
    assert forall|i: int|
        0 <= i < 8 implies axis_unit_or_zero(#[trigger] m.data[i * 8 + sup(i)]) && m.data[i
            * 8 + sup(i)] != cx_zero() by {
        if i == 0 {
            assert(m.data[i * 8 + sup(i)] == m.data[0]);
        } else if i == 1 {
            assert(m.data[i * 8 + sup(i)] == m.data[9]);
        } else if i == 2 {
            assert(m.data[i * 8 + sup(i)] == m.data[18]);
        } else if i == 3 {
            assert(m.data[i * 8 + sup(i)] == m.data[27]);
        } else if i == 4 {
            assert(m.data[i * 8 + sup(i)] == m.data[36]);
        } else if i == 5 {
            assert(m.data[i * 8 + sup(i)] == m.data[45]);
        } else if i == 6 {
            assert(m.data[i * 8 + sup(i)] == m.data[55]);
        } else if i == 7 {
            assert(m.data[i * 8 + sup(i)] == m.data[62]);
        }
    }
    assert forall|i: int, k: int|
        0 <= i < 8 && 0 <= k < 8 && k != sup(i) implies #[trigger] m.data[i * 8 + k]
            == cx_zero() by {
        if i == 0 {
            if k == 0 {
                assert(m.data[i * 8 + k] == m.data[i * 8 + 0]);
            } else if k == 1 {
                assert(m.data[i * 8 + k] == m.data[i * 8 + 1]);
            } else if k == 2 {
                assert(m.data[i * 8 + k] == m.data[i * 8 + 2]);
            } else if k == 3 {
                assert(m.data[i * 8 + k] == m.data[i * 8 + 3]);
            } else if k == 4 {
                assert(m.data[i * 8 + k] == m.data[i * 8 + 4]);
            } else if k == 5 {
                assert(m.data[i * 8 + k] == m.data[i * 8 + 5]);
            } else if k == 6 {
                assert(m.data[i * 8 + k] == m.data[i * 8 + 6]);
            } else {
                assert(m.data[i * 8 + k] == m.data[i * 8 + 7]);
            }
        } else if i == 1 {
            if k == 0 {
                assert(m.data[i * 8 + k] == m.data[i * 8 + 0]);
            } else if k == 1 {
                assert(m.data[i * 8 + k] == m.data[i * 8 + 1]);
            } else if k == 2 {
                assert(m.data[i * 8 + k] == m.data[i * 8 + 2]);
            } else if k == 3 {
                assert(m.data[i * 8 + k] == m.data[i * 8 + 3]);
            } else if k == 4 {
                assert(m.data[i * 8 + k] == m.data[i * 8 + 4]);
            } else if k == 5 {
                assert(m.data[i * 8 + k] == m.data[i * 8 + 5]);
            } else if k == 6 {
                assert(m.data[i * 8 + k] == m.data[i * 8 + 6]);
            } else {
                assert(m.data[i * 8 + k] == m.data[i * 8 + 7]);
            }
        } else if i == 2 {
            if k == 0 {
                assert(m.data[i * 8 + k] == m.data[i * 8 + 0]);
            } else if k == 1 {
                assert(m.data[i * 8 + k] == m.data[i * 8 + 1]);
            } else if k == 2 {
                assert(m.data[i * 8 + k] == m.data[i * 8 + 2]);
            } else if k == 3 {
                assert(m.data[i * 8 + k] == m.data[i * 8 + 3]);
            } else if k == 4 {
                assert(m.data[i * 8 + k] == m.data[i * 8 + 4]);
            } else if k == 5 {
                assert(m.data[i * 8 + k] == m.data[i * 8 + 5]);
            } else if k == 6 {
                assert(m.data[i * 8 + k] == m.data[i * 8 + 6]);
            } else {
                assert(m.data[i * 8 + k] == m.data[i * 8 + 7]);
            }
        } else if i == 3 {
            if k == 0 {
                assert(m.data[i * 8 + k] == m.data[i * 8 + 0]);
            } else if k == 1 {
                assert(m.data[i * 8 + k] == m.data[i * 8 + 1]);
            } else if k == 2 {
                assert(m.data[i * 8 + k] == m.data[i * 8 + 2]);
            } else if k == 3 {
                assert(m.data[i * 8 + k] == m.data[i * 8 + 3]);
            } else if k == 4 {
                assert(m.data[i * 8 + k] == m.data[i * 8 + 4]);
            } else if k == 5 {
                assert(m.data[i * 8 + k] == m.data[i * 8 + 5]);
            } else if k == 6 {
                assert(m.data[i * 8 + k] == m.data[i * 8 + 6]);
            } else {
                assert(m.data[i * 8 + k] == m.data[i * 8 + 7]);
            }
        } else if i == 4 {
            if k == 0 {
                assert(m.data[i * 8 + k] == m.data[i * 8 + 0]);
            } else if k == 1 {
                assert(m.data[i * 8 + k] == m.data[i * 8 + 1]);
            } else if k == 2 {
                assert(m.data[i * 8 + k] == m.data[i * 8 + 2]);
            } else if k == 3 {
                assert(m.data[i * 8 + k] == m.data[i * 8 + 3]);
            } else if k == 4 {
                assert(m.data[i * 8 + k] == m.data[i * 8 + 4]);
            } else if k == 5 {
                assert(m.data[i * 8 + k] == m.data[i * 8 + 5]);
            } else if k == 6 {
                assert(m.data[i * 8 + k] == m.data[i * 8 + 6]);
            } else {
                assert(m.data[i * 8 + k] == m.data[i * 8 + 7]);
            }
        } else if i == 5 {
            if k == 0 {
                assert(m.data[i * 8 + k] == m.data[i * 8 + 0]);
            } else if k == 1 {
                assert(m.data[i * 8 + k] == m.data[i * 8 + 1]);
            } else if k == 2 {
                assert(m.data[i * 8 + k] == m.data[i * 8 + 2]);
            } else if k == 3 {
                assert(m.data[i * 8 + k] == m.data[i * 8 + 3]);
            } else if k == 4 {
                assert(m.data[i * 8 + k] == m.data[i * 8 + 4]);
            } else if k == 5 {
                assert(m.data[i * 8 + k] == m.data[i * 8 + 5]);
            } else if k == 6 {
                assert(m.data[i * 8 + k] == m.data[i * 8 + 6]);
            } else {
                assert(m.data[i * 8 + k] == m.data[i * 8 + 7]);
            }
        } else if i == 6 {
            if k == 0 {
                assert(m.data[i * 8 + k] == m.data[i * 8 + 0]);
            } else if k == 1 {
                assert(m.data[i * 8 + k] == m.data[i * 8 + 1]);
            } else if k == 2 {
                assert(m.data[i * 8 + k] == m.data[i * 8 + 2]);
            } else if k == 3 {
                assert(m.data[i * 8 + k] == m.data[i * 8 + 3]);
            } else if k == 4 {
                assert(m.data[i * 8 + k] == m.data[i * 8 + 4]);
            } else if k == 5 {
                assert(m.data[i * 8 + k] == m.data[i * 8 + 5]);
            } else if k == 6 {
                assert(m.data[i * 8 + k] == m.data[i * 8 + 6]);
            } else {
                assert(m.data[i * 8 + k] == m.data[i * 8 + 7]);
            }
        } else {
            if k == 0 {
                assert(m.data[i * 8 + k] == m.data[i * 8 + 0]);
            } else if k == 1 {
                assert(m.data[i * 8 + k] == m.data[i * 8 + 1]);
            } else if k == 2 {
                assert(m.data[i * 8 + k] == m.data[i * 8 + 2]);
            } else if k == 3 {
                assert(m.data[i * 8 + k] == m.data[i * 8 + 3]);
            } else if k == 4 {
                assert(m.data[i * 8 + k] == m.data[i * 8 + 4]);
            } else if k == 5 {
                assert(m.data[i * 8 + k] == m.data[i * 8 + 5]);
            } else if k == 6 {
                assert(m.data[i * 8 + k] == m.data[i * 8 + 6]);
            } else {
                assert(m.data[i * 8 + k] == m.data[i * 8 + 7]);
            }
        }
    }
    lemma_axis_perm_unitary(m, sup);
}

/// `fredkin_s()` is exactly unitary.
proof fn lemma_fredkin_exact()
    ensures
        matmul_s(fredkin_s(), dagger_s(fredkin_s())) =~= identity_s(8),
{
    let m = fredkin_s();
    let sup = (|i: int| if i == 5 { 6int } else if i == 6 { 5int } else { i });
    assert(m.data[0] == cx_one());
    assert(m.data[1] == cx_zero());
    assert(m.data[2] == cx_zero());
    assert(m.data[3] == cx_zero());
    assert(m.data[4] == cx_zero());
    assert(m.data[5] == cx_zero());
    assert(m.data[6] == cx_zero());
    assert(m.data[7] == cx_zero());
    assert(m.data[8] == cx_zero());
    assert(m.data[9] == cx_one());
    assert(m.data[10] == cx_zero());
    assert(m.data[11] == cx_zero());
    assert(m.data[12] == cx_zero());
    assert(m.data[13] == cx_zero());
    assert(m.data[14] == cx_zero());
    assert(m.data[15] == cx_zero());
    assert(m.data[16] == cx_zero());
    assert(m.data[17] == cx_zero());
    assert(m.data[18] == cx_one());
    assert(m.data[19] == cx_zero());
    assert(m.data[20] == cx_zero());
    assert(m.data[21] == cx_zero());
    assert(m.data[22] == cx_zero());
    assert(m.data[23] == cx_zero());
    assert(m.data[24] == cx_zero());
    assert(m.data[25] == cx_zero());
    assert(m.data[26] == cx_zero());
    assert(m.data[27] == cx_one());
    assert(m.data[28] == cx_zero());
    assert(m.data[29] == cx_zero());
    assert(m.data[30] == cx_zero());
    assert(m.data[31] == cx_zero());
    assert(m.data[32] == cx_zero());
    assert(m.data[33] == cx_zero());
    assert(m.data[34] == cx_zero());
    assert(m.data[35] == cx_zero());
    assert(m.data[36] == cx_one());
    assert(m.data[37] == cx_zero());
    assert(m.data[38] == cx_zero());
    assert(m.data[39] == cx_zero());
    assert(m.data[40] == cx_zero());
    assert(m.data[41] == cx_zero());
    assert(m.data[42] == cx_zero());
    assert(m.data[43] == cx_zero());
    assert(m.data[44] == cx_zero());
    assert(m.data[45] == cx_zero());
    assert(m.data[46] == cx_one());
    assert(m.data[47] == cx_zero());
    assert(m.data[48] == cx_zero());
    assert(m.data[49] == cx_zero());
    assert(m.data[50] == cx_zero());
    assert(m.data[51] == cx_zero());
    assert(m.data[52] == cx_zero());
    assert(m.data[53] == cx_one());
    assert(m.data[54] == cx_zero());
    assert(m.data[55] == cx_zero());
    assert(m.data[56] == cx_zero());
    assert(m.data[57] == cx_zero());
    assert(m.data[58] == cx_zero());
    assert(m.data[59] == cx_zero());
    assert(m.data[60] == cx_zero());
    assert(m.data[61] == cx_zero());
    assert(m.data[62] == cx_zero());
    assert(m.data[63] == cx_one());
    assert forall|i: int| 0 <= i < 8 implies 0 <= #[trigger] sup(i) < 8 by {
        if i == 0 { } else if i == 1 { } else if i == 2 { } else if i == 3 { } else if i == 4 { } else if i == 5 { } else if i == 6 { } else { }
    }
    assert forall|i: int|
        0 <= i < 8 implies axis_unit_or_zero(#[trigger] m.data[i * 8 + sup(i)]) && m.data[i
            * 8 + sup(i)] != cx_zero() by {
        if i == 0 {
            assert(m.data[i * 8 + sup(i)] == m.data[0]);
        } else if i == 1 {
            assert(m.data[i * 8 + sup(i)] == m.data[9]);
        } else if i == 2 {
            assert(m.data[i * 8 + sup(i)] == m.data[18]);
        } else if i == 3 {
            assert(m.data[i * 8 + sup(i)] == m.data[27]);
        } else if i == 4 {
            assert(m.data[i * 8 + sup(i)] == m.data[36]);
        } else if i == 5 {
            assert(m.data[i * 8 + sup(i)] == m.data[46]);
        } else if i == 6 {
            assert(m.data[i * 8 + sup(i)] == m.data[53]);
        } else if i == 7 {
            assert(m.data[i * 8 + sup(i)] == m.data[63]);
        }
    }
    assert forall|i: int, k: int|
        0 <= i < 8 && 0 <= k < 8 && k != sup(i) implies #[trigger] m.data[i * 8 + k]
            == cx_zero() by {
        if i == 0 {
            if k == 0 {
                assert(m.data[i * 8 + k] == m.data[i * 8 + 0]);
            } else if k == 1 {
                assert(m.data[i * 8 + k] == m.data[i * 8 + 1]);
            } else if k == 2 {
                assert(m.data[i * 8 + k] == m.data[i * 8 + 2]);
            } else if k == 3 {
                assert(m.data[i * 8 + k] == m.data[i * 8 + 3]);
            } else if k == 4 {
                assert(m.data[i * 8 + k] == m.data[i * 8 + 4]);
            } else if k == 5 {
                assert(m.data[i * 8 + k] == m.data[i * 8 + 5]);
            } else if k == 6 {
                assert(m.data[i * 8 + k] == m.data[i * 8 + 6]);
            } else {
                assert(m.data[i * 8 + k] == m.data[i * 8 + 7]);
            }
        } else if i == 1 {
            if k == 0 {
                assert(m.data[i * 8 + k] == m.data[i * 8 + 0]);
            } else if k == 1 {
                assert(m.data[i * 8 + k] == m.data[i * 8 + 1]);
            } else if k == 2 {
                assert(m.data[i * 8 + k] == m.data[i * 8 + 2]);
            } else if k == 3 {
                assert(m.data[i * 8 + k] == m.data[i * 8 + 3]);
            } else if k == 4 {
                assert(m.data[i * 8 + k] == m.data[i * 8 + 4]);
            } else if k == 5 {
                assert(m.data[i * 8 + k] == m.data[i * 8 + 5]);
            } else if k == 6 {
                assert(m.data[i * 8 + k] == m.data[i * 8 + 6]);
            } else {
                assert(m.data[i * 8 + k] == m.data[i * 8 + 7]);
            }
        } else if i == 2 {
            if k == 0 {
                assert(m.data[i * 8 + k] == m.data[i * 8 + 0]);
            } else if k == 1 {
                assert(m.data[i * 8 + k] == m.data[i * 8 + 1]);
            } else if k == 2 {
                assert(m.data[i * 8 + k] == m.data[i * 8 + 2]);
            } else if k == 3 {
                assert(m.data[i * 8 + k] == m.data[i * 8 + 3]);
            } else if k == 4 {
                assert(m.data[i * 8 + k] == m.data[i * 8 + 4]);
            } else if k == 5 {
                assert(m.data[i * 8 + k] == m.data[i * 8 + 5]);
            } else if k == 6 {
                assert(m.data[i * 8 + k] == m.data[i * 8 + 6]);
            } else {
                assert(m.data[i * 8 + k] == m.data[i * 8 + 7]);
            }
        } else if i == 3 {
            if k == 0 {
                assert(m.data[i * 8 + k] == m.data[i * 8 + 0]);
            } else if k == 1 {
                assert(m.data[i * 8 + k] == m.data[i * 8 + 1]);
            } else if k == 2 {
                assert(m.data[i * 8 + k] == m.data[i * 8 + 2]);
            } else if k == 3 {
                assert(m.data[i * 8 + k] == m.data[i * 8 + 3]);
            } else if k == 4 {
                assert(m.data[i * 8 + k] == m.data[i * 8 + 4]);
            } else if k == 5 {
                assert(m.data[i * 8 + k] == m.data[i * 8 + 5]);
            } else if k == 6 {
                assert(m.data[i * 8 + k] == m.data[i * 8 + 6]);
            } else {
                assert(m.data[i * 8 + k] == m.data[i * 8 + 7]);
            }
        } else if i == 4 {
            if k == 0 {
                assert(m.data[i * 8 + k] == m.data[i * 8 + 0]);
            } else if k == 1 {
                assert(m.data[i * 8 + k] == m.data[i * 8 + 1]);
            } else if k == 2 {
                assert(m.data[i * 8 + k] == m.data[i * 8 + 2]);
            } else if k == 3 {
                assert(m.data[i * 8 + k] == m.data[i * 8 + 3]);
            } else if k == 4 {
                assert(m.data[i * 8 + k] == m.data[i * 8 + 4]);
            } else if k == 5 {
                assert(m.data[i * 8 + k] == m.data[i * 8 + 5]);
            } else if k == 6 {
                assert(m.data[i * 8 + k] == m.data[i * 8 + 6]);
            } else {
                assert(m.data[i * 8 + k] == m.data[i * 8 + 7]);
            }
        } else if i == 5 {
            if k == 0 {
                assert(m.data[i * 8 + k] == m.data[i * 8 + 0]);
            } else if k == 1 {
                assert(m.data[i * 8 + k] == m.data[i * 8 + 1]);
            } else if k == 2 {
                assert(m.data[i * 8 + k] == m.data[i * 8 + 2]);
            } else if k == 3 {
                assert(m.data[i * 8 + k] == m.data[i * 8 + 3]);
            } else if k == 4 {
                assert(m.data[i * 8 + k] == m.data[i * 8 + 4]);
            } else if k == 5 {
                assert(m.data[i * 8 + k] == m.data[i * 8 + 5]);
            } else if k == 6 {
                assert(m.data[i * 8 + k] == m.data[i * 8 + 6]);
            } else {
                assert(m.data[i * 8 + k] == m.data[i * 8 + 7]);
            }
        } else if i == 6 {
            if k == 0 {
                assert(m.data[i * 8 + k] == m.data[i * 8 + 0]);
            } else if k == 1 {
                assert(m.data[i * 8 + k] == m.data[i * 8 + 1]);
            } else if k == 2 {
                assert(m.data[i * 8 + k] == m.data[i * 8 + 2]);
            } else if k == 3 {
                assert(m.data[i * 8 + k] == m.data[i * 8 + 3]);
            } else if k == 4 {
                assert(m.data[i * 8 + k] == m.data[i * 8 + 4]);
            } else if k == 5 {
                assert(m.data[i * 8 + k] == m.data[i * 8 + 5]);
            } else if k == 6 {
                assert(m.data[i * 8 + k] == m.data[i * 8 + 6]);
            } else {
                assert(m.data[i * 8 + k] == m.data[i * 8 + 7]);
            }
        } else {
            if k == 0 {
                assert(m.data[i * 8 + k] == m.data[i * 8 + 0]);
            } else if k == 1 {
                assert(m.data[i * 8 + k] == m.data[i * 8 + 1]);
            } else if k == 2 {
                assert(m.data[i * 8 + k] == m.data[i * 8 + 2]);
            } else if k == 3 {
                assert(m.data[i * 8 + k] == m.data[i * 8 + 3]);
            } else if k == 4 {
                assert(m.data[i * 8 + k] == m.data[i * 8 + 4]);
            } else if k == 5 {
                assert(m.data[i * 8 + k] == m.data[i * 8 + 5]);
            } else if k == 6 {
                assert(m.data[i * 8 + k] == m.data[i * 8 + 6]);
            } else {
                assert(m.data[i * 8 + k] == m.data[i * 8 + 7]);
            }
        }
    }
    lemma_axis_perm_unitary(m, sup);
}

} // verus!
