//! The density-matrix engine: ρ as a 2^N × 2^N row-major array, evolved by
//! unitaries and by single-qubit Kraus channels, with the same indexing
//! algebra as the state-vector engine.

use vstd::prelude::*;
use crate::apply::{
    lemma_and_le, lemma_or_bit_lt, lemma_pow_small, lemma_src_bound, lemma_tidx_bound, src_index,
    target_index, tidx_rec,
};
use crate::complex::{cx_add_s, cx_conj_s, cx_mul_s, cx_one, cx_zero, Complex};
use crate::fixed::{fx_mul, fx_mul_s, fx_sqrt, fx_sqrt_s, FX_ONE};
use crate::matrix::{
    lemma_rm_bound, lemma_rm_decomp, lemma_rm_index, ms_idx, ms_wf, zero_amplitudes, Matrix,
    MatrixS,
};
use crate::register::MAX_DENSE_QUBITS;

verus! {

/// One Kraus operator: a named matrix.
pub struct KrausOperator {
    pub matrix: Matrix,
    pub name: String,
}

impl KrausOperator {
    /// Build a Kraus operator.
    pub fn new(name: &str, matrix: Matrix) -> (r: KrausOperator)
        ensures
            r.name@ == name@,
            r.matrix@ == matrix@,
    {
        KrausOperator { matrix, name: name.to_owned() }
    }
}

/// A noise channel: a named list of Kraus operators on `num_qubits`
/// qubits.  The operators are expected to satisfy `Σ K_a† K_a = I`; that
/// is the caller's responsibility and is not enforced at apply time.
pub struct NoiseChannel {
    pub name: String,
    pub operators: Vec<KrausOperator>,
    pub num_qubits: usize,
}

/// The matrices of a channel's operators.
pub open spec fn channel_mats(c: &NoiseChannel) -> Seq<MatrixS> {
    c.operators@.map_values(|k: KrausOperator| k.matrix@)
}

/// A well-formed single-qubit channel: every operator matrix is 2×2.
pub open spec fn channel_wf(c: &NoiseChannel) -> bool {
    &&& c.num_qubits == 1
    &&& forall|a: int|
        0 <= a < channel_mats(c).len() ==> ms_wf(#[trigger] channel_mats(c)[a])
            && channel_mats(c)[a].rows == 2 && channel_mats(c)[a].cols == 2
}

impl NoiseChannel {
    /// Build a channel from its operators.
    pub fn new(name: &str, operators: Vec<KrausOperator>, num_qubits: usize) -> (r: NoiseChannel)
        ensures
            r.name@ == name@,
            r.operators@ == operators@,
            r.num_qubits == num_qubits,
    {
        NoiseChannel { name: name.to_owned(), operators, num_qubits }
    }
}

/// A diagonal 2×2 Kraus operator `diag(a, d)`.
fn kraus2_diag(name: &str, a: Complex, d: Complex) -> (r: KrausOperator)
    ensures
        r.name@ == name@,
        ms_wf(r.matrix@),
        r.matrix@.rows == 2 && r.matrix@.cols == 2,
        r.matrix@.data =~= seq![a, cx_zero(), cx_zero(), d],
{
    let mut entries: Vec<Complex> = Vec::new();
    entries.push(a);
    entries.push(Complex::zero());
    entries.push(Complex::zero());
    entries.push(d);
    KrausOperator::new(name, Matrix::new(2, 2, entries))
}

/// An anti-diagonal 2×2 Kraus operator `[[0, b], [c, 0]]`.
fn kraus2_anti(name: &str, b: Complex, c: Complex) -> (r: KrausOperator)
    ensures
        r.name@ == name@,
        ms_wf(r.matrix@),
        r.matrix@.rows == 2 && r.matrix@.cols == 2,
        r.matrix@.data =~= seq![cx_zero(), b, c, cx_zero()],
{
    let mut entries: Vec<Complex> = Vec::new();
    entries.push(Complex::zero());
    entries.push(b);
    entries.push(c);
    entries.push(Complex::zero());
    KrausOperator::new(name, Matrix::new(2, 2, entries))
}

impl NoiseChannel {
    /// The depolarising channel of probability `p` (fixed-point, in
    /// `[0, 1]`): `K0 = √(1−p)·I`, and the three Pauli operators scaled
    /// by `√(p/3)`.
    pub fn depolarising(p: i64) -> (r: NoiseChannel)
        requires
            0 <= p <= FX_ONE,
        ensures
            channel_wf(&r),
            r.name@ == "Depolarising"@,
            r.operators@.len() == 4,
            channel_mats(&r)[0].data =~= seq![
                Complex { real: fx_sqrt_s(FX_ONE - p) as i64, imaginary: 0 },
                cx_zero(),
                cx_zero(),
                Complex { real: fx_sqrt_s(FX_ONE - p) as i64, imaginary: 0 },
            ],
            channel_mats(&r)[1].data =~= seq![
                cx_zero(),
                Complex { real: fx_sqrt_s(p / 3) as i64, imaginary: 0 },
                Complex { real: fx_sqrt_s(p / 3) as i64, imaginary: 0 },
                cx_zero(),
            ],
            channel_mats(&r)[2].data =~= seq![
                cx_zero(),
                Complex { real: 0, imaginary: (-fx_sqrt_s(p / 3)) as i64 },
                Complex { real: 0, imaginary: fx_sqrt_s(p / 3) as i64 },
                cx_zero(),
            ],
            channel_mats(&r)[3].data =~= seq![
                Complex { real: fx_sqrt_s(p / 3) as i64, imaginary: 0 },
                cx_zero(),
                cx_zero(),
                Complex { real: (-fx_sqrt_s(p / 3)) as i64, imaginary: 0 },
            ],
    {
        let sqrt_1_p = fx_sqrt(FX_ONE - p);
        let sqrt_p3 = fx_sqrt(p / 3);
        let k0 = kraus2_diag("K0", Complex::new(sqrt_1_p, 0), Complex::new(sqrt_1_p, 0));
        let k1 = kraus2_anti("K1(X)", Complex::new(sqrt_p3, 0), Complex::new(sqrt_p3, 0));
        let k2 = kraus2_anti("K2(Y)", Complex::new(0, -sqrt_p3), Complex::new(0, sqrt_p3));
        let k3 = kraus2_diag("K3(Z)", Complex::new(sqrt_p3, 0), Complex::new(-sqrt_p3, 0));
        let mut operators: Vec<KrausOperator> = Vec::new();
        operators.push(k0);
        operators.push(k1);
        operators.push(k2);
        operators.push(k3);
        NoiseChannel::new("Depolarising", operators, 1)
    }

    /// The amplitude-damping channel of rate `γ`:
    /// `K0 = diag(1, √(1−γ))`, `K1 = [[0, √γ], [0, 0]]`.
    pub fn amplitude_damping(gamma: i64) -> (r: NoiseChannel)
        requires
            0 <= gamma <= FX_ONE,
        ensures
            channel_wf(&r),
            r.name@ == "AmplitudeDamping"@,
            r.operators@.len() == 2,
            channel_mats(&r)[0].data =~= seq![
                cx_one(),
                cx_zero(),
                cx_zero(),
                Complex { real: fx_sqrt_s(FX_ONE - gamma) as i64, imaginary: 0 },
            ],
            channel_mats(&r)[1].data =~= seq![
                cx_zero(),
                Complex { real: fx_sqrt_s(gamma as int) as i64, imaginary: 0 },
                cx_zero(),
                cx_zero(),
            ],
    {
        let sqrt_gamma = fx_sqrt(gamma);
        let sqrt_1_gamma = fx_sqrt(FX_ONE - gamma);
        let k0 = kraus2_diag("K0", Complex::one(), Complex::new(sqrt_1_gamma, 0));
        let mut entries: Vec<Complex> = Vec::new();
        entries.push(Complex::zero());
        entries.push(Complex::new(sqrt_gamma, 0));
        entries.push(Complex::zero());
        entries.push(Complex::zero());
        let k1 = KrausOperator::new("K1", Matrix::new(2, 2, entries));
        let mut operators: Vec<KrausOperator> = Vec::new();
        operators.push(k0);
        operators.push(k1);
        NoiseChannel::new("AmplitudeDamping", operators, 1)
    }

    /// The phase-damping channel of rate `γ`:
    /// `K0 = diag(1, √(1−γ))`, `K1 = diag(0, √γ)`.
    pub fn phase_damping(gamma: i64) -> (r: NoiseChannel)
        requires
            0 <= gamma <= FX_ONE,
        ensures
            channel_wf(&r),
            r.name@ == "PhaseDamping"@,
            r.operators@.len() == 2,
            channel_mats(&r)[0].data =~= seq![
                cx_one(),
                cx_zero(),
                cx_zero(),
                Complex { real: fx_sqrt_s(FX_ONE - gamma) as i64, imaginary: 0 },
            ],
            channel_mats(&r)[1].data =~= seq![
                cx_zero(),
                cx_zero(),
                cx_zero(),
                Complex { real: fx_sqrt_s(gamma as int) as i64, imaginary: 0 },
            ],
    {
        let sqrt_gamma = fx_sqrt(gamma);
        let sqrt_1_gamma = fx_sqrt(FX_ONE - gamma);
        let k0 = kraus2_diag("K0", Complex::one(), Complex::new(sqrt_1_gamma, 0));
        let k1 = kraus2_diag("K1", Complex::zero(), Complex::new(sqrt_gamma, 0));
        let mut operators: Vec<KrausOperator> = Vec::new();
        operators.push(k0);
        operators.push(k1);
        NoiseChannel::new("PhaseDamping", operators, 1)
    }

    /// The bit-flip channel of probability `p`: `K0 = √(1−p)·I`,
    /// `K1 = √p·X`.
    pub fn bit_flip(p: i64) -> (r: NoiseChannel)
        requires
            0 <= p <= FX_ONE,
        ensures
            channel_wf(&r),
            r.name@ == "BitFlip"@,
            r.operators@.len() == 2,
            channel_mats(&r)[0].data =~= seq![
                Complex { real: fx_sqrt_s(FX_ONE - p) as i64, imaginary: 0 },
                cx_zero(),
                cx_zero(),
                Complex { real: fx_sqrt_s(FX_ONE - p) as i64, imaginary: 0 },
            ],
            channel_mats(&r)[1].data =~= seq![
                cx_zero(),
                Complex { real: fx_sqrt_s(p as int) as i64, imaginary: 0 },
                Complex { real: fx_sqrt_s(p as int) as i64, imaginary: 0 },
                cx_zero(),
            ],
    {
        let sqrt_1_p = fx_sqrt(FX_ONE - p);
        let sqrt_p = fx_sqrt(p);
        let k0 = kraus2_diag("K0(I)", Complex::new(sqrt_1_p, 0), Complex::new(sqrt_1_p, 0));
        let k1 = kraus2_anti("K1(X)", Complex::new(sqrt_p, 0), Complex::new(sqrt_p, 0));
        let mut operators: Vec<KrausOperator> = Vec::new();
        operators.push(k0);
        operators.push(k1);
        NoiseChannel::new("BitFlip", operators, 1)
    }

    /// The phase-flip channel of probability `p`: `K0 = √(1−p)·I`,
    /// `K1 = √p·Z`.
    pub fn phase_flip(p: i64) -> (r: NoiseChannel)
        requires
            0 <= p <= FX_ONE,
        ensures
            channel_wf(&r),
            r.name@ == "PhaseFlip"@,
            r.operators@.len() == 2,
            channel_mats(&r)[0].data =~= seq![
                Complex { real: fx_sqrt_s(FX_ONE - p) as i64, imaginary: 0 },
                cx_zero(),
                cx_zero(),
                Complex { real: fx_sqrt_s(FX_ONE - p) as i64, imaginary: 0 },
            ],
            channel_mats(&r)[1].data =~= seq![
                Complex { real: fx_sqrt_s(p as int) as i64, imaginary: 0 },
                cx_zero(),
                cx_zero(),
                Complex { real: (-fx_sqrt_s(p as int)) as i64, imaginary: 0 },
            ],
    {
        let sqrt_1_p = fx_sqrt(FX_ONE - p);
        let sqrt_p = fx_sqrt(p);
        let k0 = kraus2_diag("K0(I)", Complex::new(sqrt_1_p, 0), Complex::new(sqrt_1_p, 0));
        let k1 = kraus2_diag("K1(Z)", Complex::new(sqrt_p, 0), Complex::new(-sqrt_p, 0));
        let mut operators: Vec<KrausOperator> = Vec::new();
        operators.push(k0);
        operators.push(k1);
        NoiseChannel::new("PhaseFlip", operators, 1)
    }

    /// The bit-phase-flip channel of probability `p`: `K0 = √(1−p)·I`,
    /// `K1 = √p·Y`.
    pub fn bit_phase_flip(p: i64) -> (r: NoiseChannel)
        requires
            0 <= p <= FX_ONE,
        ensures
            channel_wf(&r),
            r.name@ == "BitPhaseFlip"@,
            r.operators@.len() == 2,
            channel_mats(&r)[0].data =~= seq![
                Complex { real: fx_sqrt_s(FX_ONE - p) as i64, imaginary: 0 },
                cx_zero(),
                cx_zero(),
                Complex { real: fx_sqrt_s(FX_ONE - p) as i64, imaginary: 0 },
            ],
            channel_mats(&r)[1].data =~= seq![
                cx_zero(),
                Complex { real: 0, imaginary: (-fx_sqrt_s(p as int)) as i64 },
                Complex { real: 0, imaginary: fx_sqrt_s(p as int) as i64 },
                cx_zero(),
            ],
    {
        let sqrt_1_p = fx_sqrt(FX_ONE - p);
        let sqrt_p = fx_sqrt(p);
        let k0 = kraus2_diag("K0(I)", Complex::new(sqrt_1_p, 0), Complex::new(sqrt_1_p, 0));
        let k1 = kraus2_anti("K1(Y)", Complex::new(0, -sqrt_p), Complex::new(0, sqrt_p));
        let mut operators: Vec<KrausOperator> = Vec::new();
        operators.push(k0);
        operators.push(k1);
        NoiseChannel::new("BitPhaseFlip", operators, 1)
    }

    /// The generalised amplitude-damping channel of excitation
    /// probability `p` and rate `γ`.
    pub fn generalised_amplitude_damping(p: i64, gamma: i64) -> (r: NoiseChannel)
        requires
            0 <= p <= FX_ONE,
            0 <= gamma <= FX_ONE,
        ensures
            channel_wf(&r),
            r.name@ == "GeneralisedAmplitudeDamping"@,
            r.operators@.len() == 4,
            channel_mats(&r)[0].data =~= seq![
                Complex { real: fx_sqrt_s(p as int) as i64, imaginary: 0 },
                cx_zero(),
                cx_zero(),
                Complex {
                    real: fx_mul_s(fx_sqrt_s(p as int), fx_sqrt_s(FX_ONE - gamma)) as i64,
                    imaginary: 0,
                },
            ],
            channel_mats(&r)[1].data =~= seq![
                cx_zero(),
                Complex {
                    real: fx_mul_s(fx_sqrt_s(p as int), fx_sqrt_s(gamma as int)) as i64,
                    imaginary: 0,
                },
                cx_zero(),
                cx_zero(),
            ],
            channel_mats(&r)[2].data =~= seq![
                Complex {
                    real: fx_mul_s(fx_sqrt_s(FX_ONE - p), fx_sqrt_s(FX_ONE - gamma)) as i64,
                    imaginary: 0,
                },
                cx_zero(),
                cx_zero(),
                Complex { real: fx_sqrt_s(FX_ONE - p) as i64, imaginary: 0 },
            ],
            channel_mats(&r)[3].data =~= seq![
                cx_zero(),
                cx_zero(),
                Complex {
                    real: fx_mul_s(fx_sqrt_s(FX_ONE - p), fx_sqrt_s(gamma as int)) as i64,
                    imaginary: 0,
                },
                cx_zero(),
            ],
    {
        let sqrt_p = fx_sqrt(p);
        let sqrt_1_p = fx_sqrt(FX_ONE - p);
        let sqrt_gamma = fx_sqrt(gamma);
        let sqrt_1_gamma = fx_sqrt(FX_ONE - gamma);
        let k0 = kraus2_diag(
            "K0",
            Complex::new(sqrt_p, 0),
            Complex::new(fx_mul(sqrt_p, sqrt_1_gamma), 0),
        );
        let mut e1: Vec<Complex> = Vec::new();
        e1.push(Complex::zero());
        e1.push(Complex::new(fx_mul(sqrt_p, sqrt_gamma), 0));
        e1.push(Complex::zero());
        e1.push(Complex::zero());
        let k1 = KrausOperator::new("K1", Matrix::new(2, 2, e1));
        let k2 = kraus2_diag(
            "K2",
            Complex::new(fx_mul(sqrt_1_p, sqrt_1_gamma), 0),
            Complex::new(sqrt_1_p, 0),
        );
        let mut e3: Vec<Complex> = Vec::new();
        e3.push(Complex::zero());
        e3.push(Complex::zero());
        e3.push(Complex::new(fx_mul(sqrt_1_p, sqrt_gamma), 0));
        e3.push(Complex::zero());
        let k3 = KrausOperator::new("K3", Matrix::new(2, 2, e3));
        let mut operators: Vec<KrausOperator> = Vec::new();
        operators.push(k0);
        operators.push(k1);
        operators.push(k2);
        operators.push(k3);
        NoiseChannel::new("GeneralisedAmplitudeDamping", operators, 1)
    }
}


/// A density matrix ρ: a 2^N × 2^N row-major complex array.
pub struct DensityMatrix {
    pub data: Vec<Complex>,
    pub dim: usize,
    pub num_qubits: usize,
}

/// The initial density matrix |0…0⟩⟨0…0|: 1 in the top-left corner.
pub open spec fn dm_initial_s(n: u64) -> Seq<Complex> {
    Seq::new(
        (((1u64 << n) as int) * ((1u64 << n) as int)) as nat,
        |t: int| if t == 0 {
            cx_one()
        } else {
            cx_zero()
        },
    )
}

/// The first `k` diagonal entries summed: the trace.
pub open spec fn trace_rec(d: Seq<Complex>, dim: int, k: nat) -> Complex
    decreases k,
{
    if k == 0 {
        cx_zero()
    } else {
        cx_add_s(trace_rec(d, dim, (k - 1) as nat), d[(k - 1) * dim + (k - 1)])
    }
}

/// The first `t` flat terms of `Σ ρ_ij·ρ_ji`: the purity, in the
/// Hermitian case `trace(ρ²)`.
pub open spec fn purity_rec(d: Seq<Complex>, dim: int, t: nat) -> Complex
    decreases t,
{
    if t == 0 {
        cx_zero()
    } else {
        cx_add_s(
            purity_rec(d, dim, (t - 1) as nat),
            cx_mul_s(d[t - 1], d[((t - 1) % dim) * dim + (t - 1) / dim]),
        )
    }
}

/// One term of the unitary-evolution sum for entry `(i, j)`:
/// `U[tidx(i), k] · ρ[src(i,k), src(j,l)] · U*[tidx(j), l]` with
/// `k = m / 2^M` and `l = m % 2^M`.
pub open spec fn dmu_term(
    d: Seq<Complex>,
    dim: int,
    gate: MatrixS,
    targets: Seq<usize>,
    n: u64,
    i: u64,
    j: u64,
    m: int,
) -> Complex {
    let k = m / gate.cols;
    let l = m % gate.cols;
    cx_mul_s(
        cx_mul_s(
            ms_idx(gate, target_index(i, targets, n) as int, k),
            d[(src_index(i, k as u64, targets, n) as int) * dim + src_index(
                j,
                l as u64,
                targets,
                n,
            ) as int],
        ),
        cx_conj_s(ms_idx(gate, target_index(j, targets, n) as int, l)),
    )
}

/// The first `m` terms of the unitary-evolution sum for entry `(i, j)`.
pub open spec fn dmu_rec(
    d: Seq<Complex>,
    dim: int,
    gate: MatrixS,
    targets: Seq<usize>,
    n: u64,
    i: u64,
    j: u64,
    m: nat,
) -> Complex
    decreases m,
{
    if m == 0 {
        cx_zero()
    } else {
        cx_add_s(
            dmu_rec(d, dim, gate, targets, n, i, j, (m - 1) as nat),
            dmu_term(d, dim, gate, targets, n, i, j, m - 1),
        )
    }
}

/// The full new entry `(i, j)` after unitary evolution.
pub open spec fn dmu_entry(
    d: Seq<Complex>,
    dim: int,
    gate: MatrixS,
    targets: Seq<usize>,
    n: u64,
    i: u64,
    j: u64,
) -> Complex {
    dmu_rec(d, dim, gate, targets, n, i, j, (gate.cols * gate.cols) as nat)
}

/// The whole new array after unitary evolution: ρ' = U ρ U†.
pub open spec fn apply_unitary_s(
    d: Seq<Complex>,
    gate: MatrixS,
    targets: Seq<usize>,
    n: u64,
) -> Seq<Complex> {
    Seq::new(
        d.len(),
        |t: int| dmu_entry(
            d,
            (1u64 << n) as int,
            gate,
            targets,
            n,
            (t / ((1u64 << n) as int)) as u64,
            (t % ((1u64 << n) as int)) as u64,
        ),
    )
}

/// The target bit of an index.
pub open spec fn nc_bit(i: u64, p: u64) -> u64 {
    (i >> p) & 1
}

/// The index with the target bit replaced by `kbit`.
pub open spec fn nc_src(i: u64, p: u64, kbit: u64) -> u64 {
    (i & !(1u64 << p)) | (kbit << p)
}

/// One term of the Kraus sum for entry `(i, j)` of one operator:
/// `K[bit(i), ki] · ρ[src(i,ki), src(j,kj)] · K*[bit(j), kj]` with
/// `ki = m / 2` and `kj = m % 2`.
pub open spec fn nc_term(
    k: MatrixS,
    d: Seq<Complex>,
    dim: int,
    p: u64,
    i: u64,
    j: u64,
    m: int,
) -> Complex {
    let ki = m / 2;
    let kj = m % 2;
    cx_mul_s(
        cx_mul_s(
            ms_idx(k, nc_bit(i, p) as int, ki),
            d[(nc_src(i, p, ki as u64) as int) * dim + nc_src(j, p, kj as u64) as int],
        ),
        cx_conj_s(ms_idx(k, nc_bit(j, p) as int, kj)),
    )
}

/// The first `m` terms of one operator's contribution added onto `acc`.
pub open spec fn nc_accum(
    acc: Complex,
    k: MatrixS,
    d: Seq<Complex>,
    dim: int,
    p: u64,
    i: u64,
    j: u64,
    m: nat,
) -> Complex
    decreases m,
{
    if m == 0 {
        acc
    } else {
        cx_add_s(
            nc_accum(acc, k, d, dim, p, i, j, (m - 1) as nat),
            nc_term(k, d, dim, p, i, j, m - 1),
        )
    }
}

/// Entry `(i, j)` of `Σ_a K_a ρ K_a†`, accumulated operator by operator.
pub open spec fn nc_entry(
    ops: Seq<MatrixS>,
    d: Seq<Complex>,
    dim: int,
    p: u64,
    i: u64,
    j: u64,
) -> Complex
    decreases ops.len(),
{
    if ops.len() == 0 {
        cx_zero()
    } else {
        nc_accum(nc_entry(ops.drop_last(), d, dim, p, i, j), ops.last(), d, dim, p, i, j, 4)
    }
}

/// The whole new array after a single-qubit Kraus channel on `target`.
pub open spec fn apply_channel_s(
    ops: Seq<MatrixS>,
    d: Seq<Complex>,
    n: u64,
    target: usize,
) -> Seq<Complex> {
    Seq::new(
        d.len(),
        |t: int| nc_entry(
            ops,
            d,
            (1u64 << n) as int,
            (n - 1 - target) as u64,
            (t / ((1u64 << n) as int)) as u64,
            (t % ((1u64 << n) as int)) as u64,
        ),
    )
}

/// The first `k` diagonal entries with the target bit equal to the
/// outcome, their real parts summed with saturating addition: the
/// measurement probability.
pub open spec fn mp_rec(d: Seq<Complex>, dim: int, p: u64, outcome: usize, k: nat) -> int
    decreases k,
{
    if k == 0 {
        0
    } else {
        let prev = mp_rec(d, dim, p, outcome, (k - 1) as nat);
        if nc_bit((k - 1) as u64, p) == outcome {
            crate::fixed::fx_add_s(prev, d[(k - 1) * dim + (k - 1)].real as int)
        } else {
            prev
        }
    }
}

/// The first `t` flat terms of `⟨ψ|ρ|ψ⟩`.
pub open spec fn fid_rec(d: Seq<Complex>, state: Seq<Complex>, dim: int, t: nat) -> Complex
    decreases t,
{
    if t == 0 {
        cx_zero()
    } else {
        cx_add_s(
            fid_rec(d, state, dim, (t - 1) as nat),
            cx_mul_s(
                cx_mul_s(cx_conj_s(state[(t - 1) / dim]), d[t - 1]),
                state[(t - 1) % dim],
            ),
        )
    }
}

impl DensityMatrix {
    /// Well-formedness: `dim = 2^N` and a `dim × dim` entry array.
    pub open spec fn wf(&self) -> bool {
        &&& self.num_qubits <= MAX_DENSE_QUBITS
        &&& self.dim == 1u64 << (self.num_qubits as u64)
        &&& self.data@.len() == (self.dim as int) * (self.dim as int)
    }

    /// The |0…0⟩ projector on `num_qubits` qubits.
    pub fn new(num_qubits: usize) -> (r: DensityMatrix)
        requires
            num_qubits <= MAX_DENSE_QUBITS,
        ensures
            r.wf(),
            r.num_qubits == num_qubits,
            r.data@ =~= dm_initial_s(num_qubits as u64),
    {
        proof {
            lemma_pow_small(num_qubits as u64);
            assert((1usize << num_qubits) == (1u64 << (num_qubits as u64)) && 1 <= (1u64 << (
            num_qubits as u64)) <= 4096) by (bit_vector)
                requires
                    num_qubits <= 12,
            ;
            assert(1 <= ((1u64 << (num_qubits as u64)) as int) * ((1u64 << (
            num_qubits as u64)) as int) <= 4096 * 4096) by (nonlinear_arith)
                requires
                    1 <= (1u64 << (num_qubits as u64)) <= 4096,
            ;
        }
        let dim: usize = 1usize << num_qubits;
        let total: usize = dim * dim;
        let mut data = zero_amplitudes(total);
        data[0] = Complex::one();
        DensityMatrix { data, dim, num_qubits }
    }

    /// The projector ρ = |ψ⟩⟨ψ| of a pure state.
    pub fn from_state_vector(state: &Vec<Complex>) -> (r: DensityMatrix)
        requires
            exists|k: u64| 0 <= k <= MAX_DENSE_QUBITS && state@.len() == 1u64 << k,
        ensures
            r.wf(),
            r.dim == state@.len(),
            forall|t: int|
                0 <= t < r.data@.len() ==> #[trigger] r.data@[t] == cx_mul_s(
                    state@[t / (state@.len() as int)],
                    cx_conj_s(state@[t % (state@.len() as int)]),
                ),
    {
        let ghost k0 = choose|k: u64| 0 <= k <= MAX_DENSE_QUBITS && state@.len() == 1u64 << k;
        let dim = state.len();
        let mut num_qubits: usize = 0;
        let mut found = false;
        let mut k: usize = 0;
        while k <= MAX_DENSE_QUBITS && !found
            invariant
                k <= MAX_DENSE_QUBITS + 1,
                0 <= k0 <= MAX_DENSE_QUBITS,
                state@.len() == 1u64 << k0,
                dim == state@.len(),
                !found ==> forall|kk: u64| 0 <= kk < k ==> (1u64 << kk) != dim as u64,
                found ==> num_qubits <= MAX_DENSE_QUBITS && dim == 1u64 << (num_qubits as u64),
            decreases MAX_DENSE_QUBITS + 1 - k, (if found { 0int } else { 1int }),
        {
            if (1u64 << (k as u64)) == dim as u64 {
                num_qubits = k;
                found = true;
            } else {
                k += 1;
            }
        }
        proof {
            if !found {
                assert(false);
            }
            assert(1 <= (1u64 << (num_qubits as u64)) <= 4096) by (bit_vector)
                requires
                    num_qubits <= 12,
            ;
            assert(1 <= (dim as int) * (dim as int) <= 4096 * 4096) by (nonlinear_arith)
                requires
                    1 <= dim as int <= 4096,
            ;
        }
        let total: usize = dim * dim;
        let mut data: Vec<Complex> = Vec::new();
        let mut t: usize = 0;
        while t < total
            invariant
                t <= total,
                dim == state@.len(),
                1 <= dim,
                total == (dim as int) * (dim as int),
                data@.len() == t,
                forall|u: int|
                    0 <= u < t ==> #[trigger] data@[u] == cx_mul_s(
                        state@[u / (dim as int)],
                        cx_conj_s(state@[u % (dim as int)]),
                    ),
            decreases total - t,
        {
            proof {
                lemma_rm_decomp(t as int, dim as int, dim as int);
            }
            let i = t / dim;
            let j = t % dim;
            let v = state[i].mul(state[j].get_conjugate());
            data.push(v);
            t += 1;
        }
        DensityMatrix { data, dim, num_qubits }
    }

    /// The entry in row `row`, column `col`.
    pub fn get(&self, row: usize, col: usize) -> (r: Complex)
        requires
            self.wf(),
            row < self.dim,
            col < self.dim,
        ensures
            r == self.data@[row as int * self.dim as int + col as int],
    {
        let len = self.data.len();
        proof {
            lemma_rm_bound(row as int, col as int, self.dim as int, self.dim as int);
            assert(len == self.data@.len());
        }
        self.data[row * self.dim + col]
    }

    /// Replace the entry in row `row`, column `col`.
    pub fn set(&mut self, row: usize, col: usize, value: Complex)
        requires
            old(self).wf(),
            row < old(self).dim,
            col < old(self).dim,
        ensures
            final(self).wf(),
            final(self).dim == old(self).dim,
            final(self).num_qubits == old(self).num_qubits,
            final(self).data@ == old(self).data@.update(
                row as int * old(self).dim as int + col as int,
                value,
            ),
    {
        let len = self.data.len();
        proof {
            lemma_rm_bound(row as int, col as int, self.dim as int, self.dim as int);
            assert(len == self.data@.len());
        }
        let idx = row * self.dim + col;
        self.data[idx] = value;
    }

    /// The trace `Σ ρ_ii`.
    pub fn trace(&self) -> (r: Complex)
        requires
            self.wf(),
        ensures
            r == trace_rec(self.data@, self.dim as int, self.dim as nat),
    {
        let mut sum = Complex::zero();
        let mut i: usize = 0;
        while i < self.dim
            invariant
                i <= self.dim,
                self.wf(),
                sum == trace_rec(self.data@, self.dim as int, i as nat),
            decreases self.dim - i,
        {
            let dlen = self.data.len();
            proof {
                lemma_rm_bound(i as int, i as int, self.dim as int, self.dim as int);
                assert(dlen == self.data@.len());
            }
            sum = sum.add(self.data[i * self.dim + i]);
            i += 1;
        }
        sum
    }

    /// The purity `Σ ρ_ij·ρ_ji` (the real part): `trace(ρ²)` in the
    /// Hermitian case; 1 for pure states, below 1 for mixed ones.
    pub fn purity(&self) -> (r: i64)
        requires
            self.wf(),
        ensures
            r as int == purity_rec(
                self.data@,
                self.dim as int,
                (self.dim as int * self.dim as int) as nat,
            ).real,
    {
        let total = self.data.len();
        let mut sum = Complex::zero();
        let mut t: usize = 0;
        while t < total
            invariant
                t <= total,
                self.wf(),
                total == self.dim as int * self.dim as int,
                sum == purity_rec(self.data@, self.dim as int, t as nat),
            decreases total - t,
        {
            proof {
                lemma_rm_decomp(t as int, self.dim as int, self.dim as int);
                lemma_rm_bound(
                    (t as int) % (self.dim as int),
                    (t as int) / (self.dim as int),
                    self.dim as int,
                    self.dim as int,
                );
            }
            let i = t / self.dim;
            let j = t % self.dim;
            let rho_ij = self.data[t];
            let rho_ji = self.data[j * self.dim + i];
            sum = sum.add(rho_ij.mul(rho_ji));
            t += 1;
        }
        sum.real
    }

    /// Whether the purity is within `tolerance` of 1.
    pub fn is_pure(&self, tolerance: i64) -> (r: bool)
        requires
            self.wf(),
        ensures
            r == ({
                let pv = purity_rec(
                    self.data@,
                    self.dim as int,
                    (self.dim as int * self.dim as int) as nat,
                ).real;
                -(tolerance as int) < pv - FX_ONE < tolerance
            }),
    {
        let pv = self.purity();
        let diff: i128 = pv as i128 - FX_ONE as i128;
        -(tolerance as i128) < diff && diff < tolerance as i128
    }

    /// The diagonal probabilities `ρ_ii` (real parts).
    pub fn probabilities(&self) -> (r: Vec<i64>)
        requires
            self.wf(),
        ensures
            r@.len() == self.dim,
            forall|i: int|
                0 <= i < self.dim ==> #[trigger] r@[i] == self.data@[i * (self.dim as int)
                    + i].real,
    {
        let mut out: Vec<i64> = Vec::new();
        let mut i: usize = 0;
        while i < self.dim
            invariant
                i <= self.dim,
                self.wf(),
                out@.len() == i,
                forall|u: int|
                    0 <= u < i ==> #[trigger] out@[u] == self.data@[u * (self.dim as int)
                        + u].real,
            decreases self.dim - i,
        {
            let dlen = self.data.len();
            proof {
                lemma_rm_bound(i as int, i as int, self.dim as int, self.dim as int);
                assert(dlen == self.data@.len());
            }
            out.push(self.data[i * self.dim + i].real);
            i += 1;
        }
        out
    }

    /// The probability of measuring `outcome` on `qubit`: the diagonal
    /// mass on the matching basis states.
    pub fn measure_probability(&self, qubit: usize, outcome: usize) -> (r: i64)
        requires
            self.wf(),
            qubit < self.num_qubits,
        ensures
            r as int == mp_rec(
                self.data@,
                self.dim as int,
                (self.num_qubits - 1 - qubit) as u64,
                outcome,
                self.dim as nat,
            ),
    {
        let p: u64 = (self.num_qubits as u64) - 1 - (qubit as u64);
        let mut prob: i64 = 0;
        let mut i: usize = 0;
        while i < self.dim
            invariant
                i <= self.dim,
                self.wf(),
                qubit < self.num_qubits,
                p == (self.num_qubits - 1 - qubit) as u64,
                prob as int == mp_rec(self.data@, self.dim as int, p, outcome, i as nat),
            decreases self.dim - i,
        {
            let dlen = self.data.len();
            proof {
                lemma_rm_bound(i as int, i as int, self.dim as int, self.dim as int);
                crate::apply::lemma_pow_small(self.num_qubits as u64);
                assert(dlen == self.data@.len());
                assert(((i as u64) >> p) & 1 <= 1) by (bit_vector);
            }
            if (((i as u64) >> p) & 1) as usize == outcome {
                prob = crate::fixed::fx_add(prob, self.data[i * self.dim + i].real);
            }
            i += 1;
        }
        prob
    }

    /// The fidelity `⟨ψ|ρ|ψ⟩` with a pure state (the real part).
    pub fn fidelity_with_pure_state(&self, state: &Vec<Complex>) -> (r: i64)
        requires
            self.wf(),
            state@.len() == self.dim,
        ensures
            r as int == fid_rec(
                self.data@,
                state@,
                self.dim as int,
                (self.dim as int * self.dim as int) as nat,
            ).real,
    {
        let total = self.data.len();
        let mut sum = Complex::zero();
        let mut t: usize = 0;
        while t < total
            invariant
                t <= total,
                self.wf(),
                state@.len() == self.dim,
                total == self.dim as int * self.dim as int,
                sum == fid_rec(self.data@, state@, self.dim as int, t as nat),
            decreases total - t,
        {
            proof {
                lemma_rm_decomp(t as int, self.dim as int, self.dim as int);
            }
            let i = t / self.dim;
            let j = t % self.dim;
            sum = sum.add(state[i].get_conjugate().mul(self.data[t]).mul(state[j]));
            t += 1;
        }
        sum.real
    }
}


impl DensityMatrix {
    /// Unitary evolution ρ' = U ρ U†: each new entry `(i, j)` gathers
    /// `Σ_{k,l} U[tidx(i),k] · ρ[src(i,k), src(j,l)] · U*[tidx(j),l]`
    /// over the operator's local dimension, with the same bit-indexing scheme
    /// as the state-vector engine.
    pub fn apply_unitary(&mut self, gate: &Matrix, targets: &Vec<usize>)
        requires
            old(self).wf(),
            targets@.len() <= old(self).num_qubits,
            forall|t: int|
                0 <= t < targets@.len() ==> (#[trigger] targets@[t]) < old(self).num_qubits,
            ms_wf(gate@),
            gate@.rows == gate@.cols,
            gate@.cols == 1u64 << (targets@.len() as u64),
        ensures
            final(self).wf(),
            final(self).dim == old(self).dim,
            final(self).num_qubits == old(self).num_qubits,
            final(self).data@ == apply_unitary_s(
                old(self).data@,
                gate@,
                targets@,
                old(self).num_qubits as u64,
            ),
    {
        let ghost n = self.num_qubits as u64;
        let ghost d = self.data@;
        let nq64 = self.num_qubits as u64;
        let dim = self.dim;
        let g = targets.len();
        let gd: usize = gate.cols;
        let total = self.data.len();
        proof {
            lemma_pow_small(n);
        }
        let mut new_data: Vec<Complex> = Vec::new();
        let mut t: usize = 0;
        while t < total
            invariant
                t <= total,
                n == self.num_qubits as u64,
                nq64 == n,
                d == self.data@,
                self.wf(),
                targets@.len() <= n,
                forall|u: int| 0 <= u < targets@.len() ==> (#[trigger] targets@[u]) < n,
                ms_wf(gate@),
                gate@.rows == gate@.cols,
                gate@.cols == 1u64 << (targets@.len() as u64),
                g == targets@.len(),
                gd == gate@.cols,
                dim == self.dim,
                dim == 1u64 << n,
                total == (dim as int) * (dim as int),
                new_data@.len() == t,
                forall|u: int|
                    0 <= u < t ==> #[trigger] new_data@[u] == dmu_entry(
                        d,
                        dim as int,
                        gate@,
                        targets@,
                        n,
                        (u / (dim as int)) as u64,
                        (u % (dim as int)) as u64,
                    ),
            decreases total - t,
        {
            proof {
                lemma_rm_decomp(t as int, dim as int, dim as int);
            }
            let i = t / dim;
            let j = t % dim;

            // The matrix rows selected by i and j.
            let mut tidx_i: u64 = 0;
            let mut tidx_j: u64 = 0;
            let mut k: usize = 0;
            while k < g
                invariant
                    k <= g,
                    g == targets@.len(),
                    nq64 == n,
                    targets@.len() <= n,
                    n <= 30,
                    forall|u: int| 0 <= u < targets@.len() ==> (#[trigger] targets@[u]) < n,
                    tidx_i == tidx_rec(i as u64, targets@, n, k as nat),
                    tidx_j == tidx_rec(j as u64, targets@, n, k as nat),
                decreases g - k,
            {
                let pos: u64 = nq64 - 1 - (targets[k] as u64);
                if ((i as u64) >> pos) & 1 == 1 {
                    tidx_i = tidx_i | (1u64 << ((g - 1 - k) as u64));
                }
                if ((j as u64) >> pos) & 1 == 1 {
                    tidx_j = tidx_j | (1u64 << ((g - 1 - k) as u64));
                }
                k += 1;
            }
            proof {
                lemma_tidx_bound(i as u64, targets@, n, targets@.len());
                lemma_tidx_bound(j as u64, targets@, n, targets@.len());
            }

            let mut sum = Complex::zero();
            let mut k: usize = 0;
            while k < gd
                invariant
                    k <= gd,
                    g == targets@.len(),
                    nq64 == n,
                    d == self.data@,
                    self.wf(),
                    targets@.len() <= n,
                    forall|u: int| 0 <= u < targets@.len() ==> (#[trigger] targets@[u]) < n,
                    ms_wf(gate@),
                    gate@.rows == gate@.cols,
                    gate@.cols == 1u64 << (targets@.len() as u64),
                    gd == gate@.cols,
                    dim == self.dim,
                    dim == 1u64 << n,
                    n <= 30,
                    i < dim,
                    j < dim,
                    tidx_i == target_index(i as u64, targets@, n),
                    tidx_j == target_index(j as u64, targets@, n),
                    tidx_i < gd,
                    tidx_j < gd,
                    sum == dmu_rec(d, dim as int, gate@, targets@, n, i as u64, j as u64, (
                    k * gd) as nat),
                decreases gd - k,
            {
                // The row source index for gate column k.
                let mut src_i: u64 = 0;
                let mut kk: usize = 0;
                let mut mask: u64 = (1u64 << nq64) - 1;
                while kk < g
                    invariant
                        kk <= g,
                        g == targets@.len(),
                        nq64 == n,
                        targets@.len() <= n,
                        n <= 30,
                        forall|u: int| 0 <= u < targets@.len() ==> (#[trigger] targets@[u]) < n,
                        mask == crate::apply::ntmask_rec(targets@, n, kk as nat),
                    decreases g - kk,
                {
                    let pos: u64 = nq64 - 1 - (targets[kk] as u64);
                    mask = mask & !(1u64 << pos);
                    kk += 1;
                }
                src_i = (i as u64) & mask;
                let mut kk: usize = 0;
                while kk < g
                    invariant
                        kk <= g,
                        g == targets@.len(),
                        nq64 == n,
                        targets@.len() <= n,
                        n <= 30,
                        k < gd,
                        forall|u: int| 0 <= u < targets@.len() ==> (#[trigger] targets@[u]) < n,
                        mask == crate::apply::nt_mask(targets@, n),
                        src_i == crate::apply::src_rec(i as u64, k as u64, targets@, n, kk as nat),
                    decreases g - kk,
                {
                    let pos: u64 = nq64 - 1 - (targets[kk] as u64);
                    if ((k as u64) >> ((g - 1 - kk) as u64)) & 1 == 1 {
                        src_i = src_i | (1u64 << pos);
                    }
                    kk += 1;
                }
                proof {
                    lemma_src_bound(i as u64, k as u64, targets@, n, targets@.len());
                }

                let mut l: usize = 0;
                while l < gd
                    invariant
                        l <= gd,
                        k < gd,
                        g == targets@.len(),
                        nq64 == n,
                        d == self.data@,
                        self.wf(),
                        targets@.len() <= n,
                        forall|u: int| 0 <= u < targets@.len() ==> (#[trigger] targets@[u]) < n,
                        ms_wf(gate@),
                        gate@.rows == gate@.cols,
                        gate@.cols == 1u64 << (targets@.len() as u64),
                        gd == gate@.cols,
                        dim == self.dim,
                        dim == 1u64 << n,
                        n <= 30,
                        i < dim,
                        j < dim,
                        tidx_i == target_index(i as u64, targets@, n),
                        tidx_j == target_index(j as u64, targets@, n),
                        tidx_i < gd,
                        tidx_j < gd,
                        mask == crate::apply::nt_mask(targets@, n),
                        src_i == src_index(i as u64, k as u64, targets@, n),
                        src_i < dim,
                        sum == dmu_rec(d, dim as int, gate@, targets@, n, i as u64, j as u64, (
                        k * gd + l) as nat),
                    decreases gd - l,
                {
                    let mut src_j: u64 = (j as u64) & mask;
                    let mut kk: usize = 0;
                    while kk < g
                        invariant
                            kk <= g,
                            g == targets@.len(),
                            nq64 == n,
                            targets@.len() <= n,
                            n <= 30,
                            l < gd,
                            forall|u: int|
                                0 <= u < targets@.len() ==> (#[trigger] targets@[u]) < n,
                            mask == crate::apply::nt_mask(targets@, n),
                            src_j == crate::apply::src_rec(
                                j as u64,
                                l as u64,
                                targets@,
                                n,
                                kk as nat,
                            ),
                        decreases g - kk,
                    {
                        let pos: u64 = nq64 - 1 - (targets[kk] as u64);
                        if ((l as u64) >> ((g - 1 - kk) as u64)) & 1 == 1 {
                            src_j = src_j | (1u64 << pos);
                        }
                        kk += 1;
                    }
                    proof {
                        lemma_src_bound(j as u64, l as u64, targets@, n, targets@.len());
                        lemma_rm_bound(src_i as int, src_j as int, dim as int, dim as int);
                        lemma_rm_index(k as int, l as int, gd as int);
                    }
                    let dlen = self.data.len();
                    proof {
                        assert(dlen == self.data@.len());
                    }
                    let u_ik = gate.get(tidx_i as usize, k);
                    let u_jl_dag = gate.get(tidx_j as usize, l).get_conjugate();
                    let rho_kl = self.data[(src_i as usize) * dim + (src_j as usize)];
                    sum = sum.add(u_ik.mul(rho_kl).mul(u_jl_dag));
                    l += 1;
                }
                proof {
                    assert(k * gd + gd == (k + 1) * gd) by (nonlinear_arith);
                }
                k += 1;
            }
            proof {
                assert(gd * gd == gate@.cols * gate@.cols) by (nonlinear_arith)
                    requires
                        gd == gate@.cols,
                ;
            }
            new_data.push(sum);
            t += 1;
        }
        self.data = new_data;
        proof {
            assert(self.data@ =~= apply_unitary_s(d, gate@, targets@, n));
        }
    }

    /// Kraus-channel evolution ρ' = Σ_a K_a ρ K_a† for a single-qubit
    /// channel on `target`: for every operator, each entry gathers the
    /// four terms `K[bit(i),ki] · ρ[src(i,ki), src(j,kj)] · K*[bit(j),kj]`.
    pub fn apply_noise_channel(&mut self, channel: &NoiseChannel, target: usize)
        requires
            old(self).wf(),
            channel_wf(channel),
            target < old(self).num_qubits,
        ensures
            final(self).wf(),
            final(self).dim == old(self).dim,
            final(self).num_qubits == old(self).num_qubits,
            final(self).data@ == apply_channel_s(
                channel_mats(channel),
                old(self).data@,
                old(self).num_qubits as u64,
                target,
            ),
    {
        let ghost n = self.num_qubits as u64;
        let ghost d = self.data@;
        let ghost mats = channel_mats(channel);
        let p: u64 = (self.num_qubits as u64) - 1 - (target as u64);
        let dim = self.dim;
        let total = self.data.len();
        proof {
            lemma_pow_small(n);
        }
        let mut new_data = zero_amplitudes(total);
        proof {
            assert(mats.take(0) =~= Seq::<MatrixS>::empty());
        }
        let mut a: usize = 0;
        while a < channel.operators.len()
            invariant
                a <= channel.operators@.len(),
                n == self.num_qubits as u64,
                d == self.data@,
                self.wf(),
                channel_wf(channel),
                mats == channel_mats(channel),
                target < self.num_qubits,
                p == (n - 1 - target) as u64,
                dim == self.dim,
                dim == 1u64 << n,
                total == (dim as int) * (dim as int),
                new_data@.len() == total,
                forall|u: int|
                    0 <= u < total ==> #[trigger] new_data@[u] == nc_entry(
                        mats.take(a as int),
                        d,
                        dim as int,
                        p,
                        (u / (dim as int)) as u64,
                        (u % (dim as int)) as u64,
                    ),
            decreases channel.operators@.len() - a,
        {
            let ghost prev_ops = mats.take(a as int);
            let kraus = &channel.operators[a];
            proof {
                assert(mats[a as int] == kraus.matrix@);
                assert(mats.take(a as int + 1).drop_last() =~= mats.take(a as int));
                assert(mats.take(a as int + 1).last() == mats[a as int]);
            }
            let mut t: usize = 0;
            while t < total
                invariant
                    t <= total,
                    a < channel.operators@.len(),
                    n == self.num_qubits as u64,
                    d == self.data@,
                    self.wf(),
                    channel_wf(channel),
                    mats == channel_mats(channel),
                    kraus == channel.operators@[a as int],
                    ms_wf(kraus.matrix@),
                    kraus.matrix@.rows == 2,
                    kraus.matrix@.cols == 2,
                    target < self.num_qubits,
                    p == (n - 1 - target) as u64,
                    dim == self.dim,
                    dim == 1u64 << n,
                    total == (dim as int) * (dim as int),
                    new_data@.len() == total,
                    forall|u: int|
                        0 <= u < t ==> #[trigger] new_data@[u] == nc_entry(
                            mats.take(a as int + 1),
                            d,
                            dim as int,
                            p,
                            (u / (dim as int)) as u64,
                            (u % (dim as int)) as u64,
                        ),
                    forall|u: int|
                        t <= u < total ==> #[trigger] new_data@[u] == nc_entry(
                            mats.take(a as int),
                            d,
                            dim as int,
                            p,
                            (u / (dim as int)) as u64,
                            (u % (dim as int)) as u64,
                        ),
                decreases total - t,
            {
                proof {
                    lemma_rm_decomp(t as int, dim as int, dim as int);
                    assert(p < n);
                }
                let i = t / dim;
                let j = t % dim;
                let i_bit: u64 = ((i as u64) >> p) & 1;
                let j_bit: u64 = ((j as u64) >> p) & 1;
                proof {
                    assert(((i as u64) >> p) & 1 <= 1 && ((j as u64) >> p) & 1 <= 1)
                        by (bit_vector);
                    assert((0u64 << p) == 0 && ((i as u64) & !(1u64 << p)) | 0 == ((i as u64) & !(
                    1u64 << p)) && ((j as u64) & !(1u64 << p)) | 0 == ((j as u64) & !(1u64 << p)))
                        by (bit_vector);
                    lemma_and_le(i as u64, !(1u64 << p));
                    lemma_and_le(j as u64, !(1u64 << p));
                    lemma_or_bit_lt((i as u64) & !(1u64 << p), p, n);
                    lemma_or_bit_lt((j as u64) & !(1u64 << p), p, n);
                }
                let base_i: u64 = (i as u64) & !(1u64 << p);
                let base_j: u64 = (j as u64) & !(1u64 << p);
                let hi_i: u64 = base_i | (1u64 << p);
                let hi_j: u64 = base_j | (1u64 << p);
                proof {
                    assert(nc_src(i as u64, p, 0) == base_i);
                    assert(nc_src(j as u64, p, 0) == base_j);
                    assert(((i as u64) & !(1u64 << p)) | (1u64 << p) == hi_i && ((j as u64) & !(
                    1u64 << p)) | (1u64 << p) == hi_j);
                    assert(nc_src(i as u64, p, 1) == hi_i);
                    assert(nc_src(j as u64, p, 1) == hi_j);
                    lemma_rm_bound(base_i as int, base_j as int, dim as int, dim as int);
                    lemma_rm_bound(base_i as int, hi_j as int, dim as int, dim as int);
                    lemma_rm_bound(hi_i as int, base_j as int, dim as int, dim as int);
                    lemma_rm_bound(hi_i as int, hi_j as int, dim as int, dim as int);
                }
                let dlen = self.data.len();
                proof {
                    assert(dlen == self.data@.len());
                }
                let k00 = kraus.matrix.get(i_bit as usize, 0);
                let k01 = kraus.matrix.get(i_bit as usize, 1);
                let d00 = kraus.matrix.get(j_bit as usize, 0).get_conjugate();
                let d01 = kraus.matrix.get(j_bit as usize, 1).get_conjugate();
                let r00 = self.data[(base_i as usize) * dim + (base_j as usize)];
                let r01 = self.data[(base_i as usize) * dim + (hi_j as usize)];
                let r10 = self.data[(hi_i as usize) * dim + (base_j as usize)];
                let r11 = self.data[(hi_i as usize) * dim + (hi_j as usize)];
                let ghost before = new_data@[t as int];
                let mut acc = new_data[t];
                acc = acc.add(k00.mul(r00).mul(d00));
                acc = acc.add(k00.mul(r01).mul(d01));
                acc = acc.add(k01.mul(r10).mul(d00));
                acc = acc.add(k01.mul(r11).mul(d01));
                proof {
                    let km = kraus.matrix@;
                    let dimi = dim as int;
                    let iu = i as u64;
                    let ju = j as u64;
                    assert(nc_bit(iu, p) == i_bit);
                    assert(nc_bit(ju, p) == j_bit);
                    assert(nc_term(km, d, dimi, p, iu, ju, 0) == cx_mul_s(
                        cx_mul_s(ms_idx(km, i_bit as int, 0), d[(base_i as int) * dimi
                            + base_j as int]),
                        cx_conj_s(ms_idx(km, j_bit as int, 0)),
                    ));
                    assert(nc_term(km, d, dimi, p, iu, ju, 1) == cx_mul_s(
                        cx_mul_s(ms_idx(km, i_bit as int, 0), d[(base_i as int) * dimi
                            + hi_j as int]),
                        cx_conj_s(ms_idx(km, j_bit as int, 1)),
                    ));
                    assert(nc_term(km, d, dimi, p, iu, ju, 2) == cx_mul_s(
                        cx_mul_s(ms_idx(km, i_bit as int, 1), d[(hi_i as int) * dimi
                            + base_j as int]),
                        cx_conj_s(ms_idx(km, j_bit as int, 0)),
                    ));
                    assert(nc_term(km, d, dimi, p, iu, ju, 3) == cx_mul_s(
                        cx_mul_s(ms_idx(km, i_bit as int, 1), d[(hi_i as int) * dimi
                            + hi_j as int]),
                        cx_conj_s(ms_idx(km, j_bit as int, 1)),
                    ));
                    assert(nc_accum(before, km, d, dimi, p, iu, ju, 0) == before);
                    assert(nc_accum(before, km, d, dimi, p, iu, ju, 1) == cx_add_s(
                        nc_accum(before, km, d, dimi, p, iu, ju, 0),
                        nc_term(km, d, dimi, p, iu, ju, 0),
                    ));
                    assert(nc_accum(before, km, d, dimi, p, iu, ju, 2) == cx_add_s(
                        nc_accum(before, km, d, dimi, p, iu, ju, 1),
                        nc_term(km, d, dimi, p, iu, ju, 1),
                    ));
                    assert(nc_accum(before, km, d, dimi, p, iu, ju, 3) == cx_add_s(
                        nc_accum(before, km, d, dimi, p, iu, ju, 2),
                        nc_term(km, d, dimi, p, iu, ju, 2),
                    ));
                    assert(nc_accum(before, km, d, dimi, p, iu, ju, 4) == cx_add_s(
                        nc_accum(before, km, d, dimi, p, iu, ju, 3),
                        nc_term(km, d, dimi, p, iu, ju, 3),
                    ));
                    assert(acc == nc_accum(before, km, d, dimi, p, iu, ju, 4));
                }
                new_data[t] = acc;
                proof {
                    assert(before == nc_entry(
                        mats.take(a as int),
                        d,
                        dim as int,
                        p,
                        i as u64,
                        j as u64,
                    ));
                    assert(mats.take(a as int + 1).drop_last() =~= mats.take(a as int));
                    assert(mats.take(a as int + 1).last() == mats[a as int]);
                    assert(mats[a as int] == kraus.matrix@);
                    assert(nc_entry(mats.take(a as int + 1), d, dim as int, p, i as u64, j as u64)
                        == nc_accum(
                        nc_entry(mats.take(a as int), d, dim as int, p, i as u64, j as u64),
                        kraus.matrix@,
                        d,
                        dim as int,
                        p,
                        i as u64,
                        j as u64,
                        4,
                    ));
                    assert(new_data@[t as int] == nc_entry(
                        mats.take(a as int + 1),
                        d,
                        dim as int,
                        p,
                        (t as int / (dim as int)) as u64,
                        (t as int % (dim as int)) as u64,
                    ));
                }
                t += 1;
            }
            a += 1;
        }
        proof {
            assert(mats.take(channel.operators@.len() as int) =~= mats);
        }
        self.data = new_data;
        proof {
            assert(self.data@ =~= apply_channel_s(mats, d, n, target));
        }
    }
}

} // verus!
