//! Quantified properties sampled on concrete circuits: norm conservation,
//! catalogue unitarity, preset agreement, optimisation semantics, and the
//! density-matrix invariants.

use libpsi_core::complex::Complex;
use libpsi_core::fixed::FX_ONE;
use libpsi_core::gates::{self, Angle};
use libpsi_core::kernel::Kernel;
use libpsi_core::matrix::Matrix;
use libpsi_core::noise::{DensityMatrix, NoiseChannel};
use libpsi_core::register::QuantumGate;
use libpsi_core::runtime::{GateOp, Runtime, RuntimeConfig};

const SCALE: f64 = FX_ONE as f64;

fn to_f(v: i64) -> f64 {
    v as f64 / SCALE
}

fn fx(x: f64) -> i64 {
    (x * SCALE).round() as i64
}

fn angle(theta: f64) -> Angle {
    Angle::new(fx(theta.cos()), fx(theta.sin()))
}

fn norm_sum(state: &Vec<Complex>) -> f64 {
    let mut sum = 0.0;
    for a in state.iter() {
        let re = to_f(a.real);
        let im = to_f(a.imaginary);
        sum += re * re + im * im;
    }
    sum
}

fn states_close(a: &Vec<Complex>, b: &Vec<Complex>, tol: f64) {
    assert_eq!(a.len(), b.len());
    for idx in 0..a.len() {
        assert!(
            (to_f(a[idx].real) - to_f(b[idx].real)).abs() < tol,
            "real at {}: {} vs {}",
            idx,
            to_f(a[idx].real),
            to_f(b[idx].real)
        );
        assert!((to_f(a[idx].imaginary) - to_f(b[idx].imaginary)).abs() < tol);
    }
}

fn sample_ops() -> Vec<GateOp> {
    vec![
        GateOp::H(0),
        GateOp::T(1),
        GateOp::CNOT(0, 1),
        GateOp::Rx(2, angle(0.35)),
        GateOp::S(2),
        GateOp::CZ(1, 2),
        GateOp::Ry(0, angle(1.1)),
        GateOp::SWAP(0, 2),
        GateOp::Sdg(1),
        GateOp::CCNOT(0, 1, 2),
        GateOp::P(0, angle(0.7)),
        GateOp::Sx(1),
        GateOp::Measure(0, 0),
        GateOp::U2(2, angle(0.2), angle(0.9)),
    ]
}

#[test]
fn norm_is_conserved_across_presets() {
    let ops = sample_ops();
    let configs = vec![
        RuntimeConfig::new(),
        RuntimeConfig::new().batched(),
        RuntimeConfig::new().structure_aware().simd(),
        RuntimeConfig::optimal().with_threshold(0),
    ];
    for config in configs {
        let state = config.compute(3, &ops);
        assert!((norm_sum(&state) - 1.0).abs() < 1e-10, "norm {}", norm_sum(&state));
    }
    let basic = Runtime::BasicRT.compute(3, &ops);
    assert!((norm_sum(&basic) - 1.0).abs() < 1e-10);
}

fn assert_unitary(gate: &QuantumGate) {
    let md = gate.matrix.dagger();
    let prod = gate.matrix.dot(&md).unwrap();
    let dim = prod.rows;
    for i in 0..dim {
        for j in 0..dim {
            let e = prod.get(i, j);
            let want = if i == j { 1.0 } else { 0.0 };
            assert!(
                (to_f(e.real) - want).abs() < 1e-10,
                "{}: entry ({}, {}) = {}",
                gate.name,
                i,
                j,
                to_f(e.real)
            );
            assert!(to_f(e.imaginary).abs() < 1e-10);
        }
    }
}

fn assert_matrix_unitary(name: &str, m: &Matrix) {
    let md = m.dagger();
    let prod = m.dot(&md).unwrap();
    for i in 0..prod.rows {
        for j in 0..prod.cols {
            let e = prod.get(i, j);
            let want = if i == j { 1.0 } else { 0.0 };
            assert!((to_f(e.real) - want).abs() < 1e-10, "{} ({}, {})", name, i, j);
            assert!(to_f(e.imaginary).abs() < 1e-10, "{} ({}, {})", name, i, j);
        }
    }
}

#[test]
fn catalogue_gates_are_unitary() {
    assert_unitary(&gates::hadamard());
    assert_unitary(&gates::pauli_x());
    assert_unitary(&gates::pauli_y());
    assert_unitary(&gates::pauli_z());
    assert_unitary(&gates::s_gate());
    assert_unitary(&gates::t_gate());
    assert_unitary(&gates::sdg_gate());
    assert_unitary(&gates::tdg_gate());
    assert_unitary(&gates::sx_gate());
    assert_unitary(&gates::sxdg_gate());
    assert_unitary(&gates::identity_gate());
    assert_unitary(&gates::cnot());
    assert_unitary(&gates::cz());
    assert_unitary(&gates::swap());
    assert_unitary(&gates::iswap());
    assert_unitary(&gates::sqrt_swap());
    assert_unitary(&gates::toffoli());
    assert_unitary(&gates::fredkin());
}

#[test]
fn parametric_gates_are_unitary() {
    let thetas = [0.0, 0.3, 1.2, 2.8, -0.9];
    for &t in thetas.iter() {
        assert_matrix_unitary("Rx", &gates::rx_matrix(angle(t / 2.0)));
        assert_matrix_unitary("Ry", &gates::ry_matrix(angle(t / 2.0)));
        assert_matrix_unitary("Rz", &gates::rz_matrix(angle(t / 2.0)));
        assert_matrix_unitary("P", &gates::p_matrix(angle(t)));
        assert_matrix_unitary("U1", &gates::u1_matrix(angle(t)));
        assert_matrix_unitary("U2", &gates::u2_matrix(angle(t), angle(0.4)));
        assert_matrix_unitary("U3", &gates::u3_matrix(angle(t / 2.0), angle(0.4), angle(1.3)));
        assert_matrix_unitary("CRx", &gates::crx_matrix(angle(t / 2.0)));
        assert_matrix_unitary("CRy", &gates::cry_matrix(angle(t / 2.0)));
        assert_matrix_unitary("CRz", &gates::crz_matrix(angle(t / 2.0)));
        assert_matrix_unitary("CP", &gates::cp_matrix(angle(t)));
    }
}

#[test]
fn presets_agree_on_sample_circuit() {
    let ops = sample_ops();
    let reference = Runtime::BasicRT.compute(3, &ops);
    let presets = vec![
        Runtime::BasicRTMT,
        Runtime::BatchedRT,
        Runtime::BatchedRTMT,
        Runtime::SimdRT,
        Runtime::SimdRTMT,
        Runtime::StructureAwareRT,
        Runtime::StructureAwareMT,
        Runtime::Custom(RuntimeConfig::optimal().with_threshold(0)),
    ];
    for preset in presets {
        let state = preset.compute(3, &ops);
        states_close(&reference, &state, 1e-10);
    }
}

#[test]
fn structure_aware_matches_basic() {
    let ops = sample_ops();
    let basic = Runtime::BasicRT.compute(3, &ops);
    let optimised = RuntimeConfig::new().structure_aware().simd().compute(3, &ops);
    states_close(&basic, &optimised, 1e-10);
}

#[test]
fn optimise_twice_leaves_kernels_unchanged() {
    let ops = sample_ops();
    let mut batch = libpsi_core::runtime::build_structure_aware_batch(3, &ops);
    batch.optimise();
    let first: Vec<(String, Vec<usize>)> = batch
        .kernels()
        .iter()
        .map(|k| (k.name.clone(), k.targets.clone()))
        .collect();
    batch.optimise();
    let second: Vec<(String, Vec<usize>)> = batch
        .kernels()
        .iter()
        .map(|k| (k.name.clone(), k.targets.clone()))
        .collect();
    assert_eq!(first, second);
}

#[test]
fn fused_kernel_matches_sequential_application() {
    let h = Kernel::new("H", gates::hadamard().matrix, vec![0]);
    let t = Kernel::new("T", gates::t_gate().matrix, vec![0]);
    let fused = h.fuse(&t).unwrap();
    assert_eq!(fused.name, "H+T");

    let mut seq_state = libpsi_core::register::initial_state(1);
    seq_state = libpsi_core::batch::apply_kernel(&seq_state, &h, 1);
    seq_state = libpsi_core::batch::apply_kernel(&seq_state, &t, 1);

    let mut fused_state = libpsi_core::register::initial_state(1);
    fused_state = libpsi_core::batch::apply_kernel(&fused_state, &fused, 1);

    states_close(&seq_state, &fused_state, 1e-10);
}

#[test]
fn density_unitary_preserves_trace_and_hermiticity() {
    let inv_sqrt2 = fx(1.0 / 2.0_f64.sqrt());
    let bell = vec![
        Complex::new(inv_sqrt2, 0),
        Complex::new(0, 0),
        Complex::new(0, 0),
        Complex::new(inv_sqrt2, 0),
    ];
    let mut dm = DensityMatrix::from_state_vector(&bell);
    dm.apply_unitary(&gates::hadamard().matrix, &vec![0]);
    dm.apply_unitary(&gates::cnot().matrix, &vec![0, 1]);
    dm.apply_unitary(&gates::t_gate().matrix, &vec![1]);

    let tr = dm.trace();
    assert!((to_f(tr.real) - 1.0).abs() < 1e-10);
    assert!(to_f(tr.imaginary).abs() < 1e-10);

    for i in 0..4 {
        for j in 0..4 {
            let a = dm.get(i, j);
            let b = dm.get(j, i);
            assert!((to_f(a.real) - to_f(b.real)).abs() < 1e-10);
            assert!((to_f(a.imaginary) + to_f(b.imaginary)).abs() < 1e-10);
        }
    }

    assert!(to_f(dm.purity()) <= 1.0 + 1e-10);
}

#[test]
fn channels_preserve_trace() {
    let psi = vec![Complex::new(fx(0.6), 0), Complex::new(0, fx(0.8))];
    let channels = vec![
        NoiseChannel::depolarising(fx(0.1)),
        NoiseChannel::amplitude_damping(fx(0.2)),
        NoiseChannel::phase_damping(fx(0.2)),
        NoiseChannel::bit_flip(fx(0.1)),
        NoiseChannel::phase_flip(fx(0.1)),
        NoiseChannel::bit_phase_flip(fx(0.1)),
        NoiseChannel::generalised_amplitude_damping(fx(0.3), fx(0.2)),
    ];
    for channel in channels {
        let mut dm = DensityMatrix::from_state_vector(&psi);
        dm.apply_noise_channel(&channel, 0);
        let tr = dm.trace();
        assert!(
            (to_f(tr.real) - 1.0).abs() < 1e-10,
            "{}: trace {}",
            channel.name,
            to_f(tr.real)
        );
        assert!(to_f(tr.imaginary).abs() < 1e-10);
        assert!(to_f(dm.purity()) <= 1.0 + 1e-10);
    }
}

#[test]
fn noise_reduces_purity_monotonically() {
    let inv_sqrt2 = fx(1.0 / 2.0_f64.sqrt());
    let plus = vec![Complex::new(inv_sqrt2, 0), Complex::new(inv_sqrt2, 0)];
    let mut dm = DensityMatrix::from_state_vector(&plus);
    let before = to_f(dm.purity());
    dm.apply_noise_channel(&NoiseChannel::depolarising(fx(0.25)), 0);
    let after = to_f(dm.purity());
    assert!(after <= before + 1e-10);
    assert!(after < 1.0);
}

#[test]
fn amplitude_damping_decays_excited_state() {
    // With rate 1, |1⟩⟨1| decays entirely to |0⟩⟨0|.
    let one_state = vec![Complex::new(0, 0), Complex::new(FX_ONE, 0)];
    let mut dm = DensityMatrix::from_state_vector(&one_state);
    dm.apply_noise_channel(&NoiseChannel::amplitude_damping(FX_ONE), 0);
    assert!((to_f(dm.get(0, 0).real) - 1.0).abs() < 1e-10);
    assert!(to_f(dm.get(1, 1).real).abs() < 1e-10);
}

#[test]
fn depolarising_three_quarters_mixes_completely() {
    // With p = 3/4 the depolarising channel sends any pure state to I/2.
    let mut dm = DensityMatrix::new(1);
    dm.apply_noise_channel(&NoiseChannel::depolarising(fx(0.75)), 0);
    assert!((to_f(dm.get(0, 0).real) - 0.5).abs() < 1e-7);
    assert!((to_f(dm.get(1, 1).real) - 0.5).abs() < 1e-7);
    assert!((to_f(dm.purity()) - 0.5).abs() < 1e-7);
}

#[test]
fn sqrt_swap_squares_to_swap() {
    let half = Kernel::new("sqswap", gates::sqrt_swap().matrix, vec![0, 1]);
    let full = Kernel::new("SWAP", gates::swap().matrix, vec![0, 1]);
    let x1 = Kernel::new("X", gates::pauli_x().matrix, vec![1]);

    let mut twice = libpsi_core::register::initial_state(2);
    twice = libpsi_core::batch::apply_kernel(&twice, &x1, 2);
    twice = libpsi_core::batch::apply_kernel(&twice, &half, 2);
    twice = libpsi_core::batch::apply_kernel(&twice, &half, 2);

    let mut once = libpsi_core::register::initial_state(2);
    once = libpsi_core::batch::apply_kernel(&once, &x1, 2);
    once = libpsi_core::batch::apply_kernel(&once, &full, 2);

    states_close(&once, &twice, 1e-10);
}
