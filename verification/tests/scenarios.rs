//! End-to-end circuit scenarios checked against closed-form states.

use libpsi_core::complex::Complex;
use libpsi_core::fixed::FX_ONE;
use libpsi_core::noise::{DensityMatrix, NoiseChannel};
use libpsi_core::runtime::{GateOp, Runtime, RuntimeConfig};
use libpsi_core::structure::StructureAwareKernelBatch;

const SCALE: f64 = FX_ONE as f64;

fn to_f(v: i64) -> f64 {
    v as f64 / SCALE
}

fn fx(x: f64) -> i64 {
    (x * SCALE).round() as i64
}

fn assert_amp(state: &Vec<Complex>, idx: usize, re: f64, im: f64) {
    let a = state[idx];
    assert!(
        (to_f(a.real) - re).abs() < 1e-10,
        "amplitude {} real: {} vs {}",
        idx,
        to_f(a.real),
        re
    );
    assert!(
        (to_f(a.imaginary) - im).abs() < 1e-10,
        "amplitude {} imag: {} vs {}",
        idx,
        to_f(a.imaginary),
        im
    );
}

fn all_configs() -> Vec<RuntimeConfig> {
    vec![
        RuntimeConfig::new(),
        RuntimeConfig::new().batched(),
        RuntimeConfig::new().batched().simd(),
        RuntimeConfig::new().structure_aware().simd(),
        RuntimeConfig::optimal().with_threshold(0),
    ]
}

#[test]
fn bell_state() {
    let inv_sqrt2 = 1.0 / 2.0_f64.sqrt();
    let ops = vec![GateOp::H(0), GateOp::CNOT(0, 1)];
    for config in all_configs() {
        let state = config.compute(2, &ops);
        assert_eq!(state.len(), 4);
        assert_amp(&state, 0, inv_sqrt2, 0.0);
        assert_amp(&state, 1, 0.0, 0.0);
        assert_amp(&state, 2, 0.0, 0.0);
        assert_amp(&state, 3, inv_sqrt2, 0.0);
    }
}

#[test]
fn ghz_three_qubits() {
    let inv_sqrt2 = 1.0 / 2.0_f64.sqrt();
    let ops = vec![GateOp::H(0), GateOp::CNOT(0, 1), GateOp::CNOT(0, 2)];
    for config in all_configs() {
        let state = config.compute(3, &ops);
        assert_eq!(state.len(), 8);
        assert_amp(&state, 0, inv_sqrt2, 0.0);
        assert_amp(&state, 7, inv_sqrt2, 0.0);
        for idx in 1..7 {
            assert_amp(&state, idx, 0.0, 0.0);
        }
    }
}

#[test]
fn swap_via_cnots() {
    let ops = vec![
        GateOp::X(0),
        GateOp::CNOT(0, 1),
        GateOp::CNOT(1, 0),
        GateOp::CNOT(0, 1),
    ];
    for config in all_configs() {
        let state = config.compute(2, &ops);
        assert_amp(&state, 0, 0.0, 0.0);
        assert_amp(&state, 1, 1.0, 0.0);
        assert_amp(&state, 2, 0.0, 0.0);
        assert_amp(&state, 3, 0.0, 0.0);
    }
}

#[test]
fn toffoli_flips_target() {
    let ops = vec![GateOp::X(0), GateOp::X(1), GateOp::CCNOT(0, 1, 2)];
    for config in all_configs() {
        let state = config.compute(3, &ops);
        for idx in 0..7 {
            assert_amp(&state, idx, 0.0, 0.0);
        }
        assert_amp(&state, 7, 1.0, 0.0);
    }
}

#[test]
fn fusion_collapses_single_qubit_run() {
    let ops = vec![
        GateOp::H(0),
        GateOp::T(0),
        GateOp::S(0),
        GateOp::X(0),
        GateOp::Y(0),
        GateOp::Z(0),
        GateOp::H(0),
        GateOp::T(0),
    ];

    // Eight kernels lower; one left-to-right fusion pass halves them.
    let mut batch = libpsi_core::runtime::build_kernel_batch(1, &ops);
    assert_eq!(batch.len(), 8);
    batch.optimize();
    assert_eq!(batch.len(), 4);

    // The structure-aware multi-pass fusion reaches one fused kernel.
    let mut sbatch = libpsi_core::runtime::build_structure_aware_batch(1, &ops);
    sbatch.optimise();
    assert_eq!(sbatch.len(), 1);

    // The fused result agrees with the basic register route.
    let basic = Runtime::BasicRT.compute(1, &ops);
    let fused = RuntimeConfig::new().structure_aware().compute(1, &ops);
    for idx in 0..2 {
        assert!((to_f(basic[idx].real) - to_f(fused[idx].real)).abs() < 1e-10);
        assert!((to_f(basic[idx].imaginary) - to_f(fused[idx].imaginary)).abs() < 1e-10);
    }
}

#[test]
fn bit_flip_half_mixes_ground_state() {
    // Bit-flip with p = 1/2 sends |0⟩⟨0| to the maximally mixed I/2.
    let mut dm = DensityMatrix::new(1);
    let channel = NoiseChannel::bit_flip(FX_ONE / 2);
    dm.apply_noise_channel(&channel, 0);
    assert!((to_f(dm.get(0, 0).real) - 0.5).abs() < 1e-10);
    assert!((to_f(dm.get(1, 1).real) - 0.5).abs() < 1e-10);
    assert!(to_f(dm.get(0, 1).real).abs() < 1e-10);
    assert!(to_f(dm.get(1, 0).real).abs() < 1e-10);
    assert!((to_f(dm.purity()) - 0.5).abs() < 1e-10);
    assert!(!dm.is_pure(fx(1e-6)));
}

#[test]
fn phase_flip_half_mixes_plus_state() {
    // Phase-flip with p = 1/2 sends |+⟩⟨+| to the maximally mixed I/2
    // with purity 1/2.
    let inv_sqrt2 = fx(1.0 / 2.0_f64.sqrt());
    let plus = vec![Complex::new(inv_sqrt2, 0), Complex::new(inv_sqrt2, 0)];
    let mut dm = DensityMatrix::from_state_vector(&plus);
    assert!((to_f(dm.purity()) - 1.0).abs() < 1e-10);
    let channel = NoiseChannel::phase_flip(FX_ONE / 2);
    dm.apply_noise_channel(&channel, 0);
    assert!((to_f(dm.get(0, 0).real) - 0.5).abs() < 1e-10);
    assert!((to_f(dm.get(1, 1).real) - 0.5).abs() < 1e-10);
    assert!(to_f(dm.get(0, 1).real).abs() < 1e-10);
    assert!(to_f(dm.get(1, 0).real).abs() < 1e-10);
    assert!((to_f(dm.purity()) - 0.5).abs() < 1e-10);
}

#[test]
fn layered_execution_matches_flat() {
    let ops = vec![
        GateOp::H(0),
        GateOp::H(1),
        GateOp::T(0),
        GateOp::CNOT(0, 1),
        GateOp::Z(1),
    ];
    let mut sbatch: StructureAwareKernelBatch =
        libpsi_core::runtime::build_structure_aware_batch(2, &ops);
    sbatch.optimise();
    assert!(sbatch.num_layers() >= 1);

    let mut flat_state = libpsi_core::register::initial_state(2);
    sbatch.execute(&mut flat_state);
    let mut layered_state = libpsi_core::register::initial_state(2);
    sbatch.execute_layered(&mut layered_state);
    for idx in 0..4 {
        assert!(
            (to_f(flat_state[idx].real) - to_f(layered_state[idx].real)).abs() < 1e-10
        );
        assert!(
            (to_f(flat_state[idx].imaginary) - to_f(layered_state[idx].imaginary)).abs()
                < 1e-10
        );
    }
}
