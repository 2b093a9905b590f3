//! Unit-level checks: fixed-point arithmetic, amplitudes, matrices,
//! kernel classification and fusion, custom gates, classical bits, and
//! the execution paths against each other.

use std::sync::Arc;

use libpsi_core::batch::{apply_kernel, apply_kernel_parallel};
use libpsi_core::classical::{ClassicalBit, ClassicalRegister};
use libpsi_core::complex::Complex;
use libpsi_core::custom_gate::{CompositeOp, CustomGate, CustomGateBuilder};
use libpsi_core::fixed::{fx_add, fx_mul, fx_neg, fx_sqrt, fx_sub, FX_ONE};
use libpsi_core::gates::{self, Angle};
use libpsi_core::kernel::{GateType, Kernel};
use libpsi_core::matrix::{identity_matrix, Matrix};
use libpsi_core::noise::DensityMatrix;
use libpsi_core::runtime::{GateOp, Runtime, RuntimeConfig};
use libpsi_core::structure::StructureAwareKernelBatch;

const SCALE: f64 = FX_ONE as f64;

fn to_f(v: i64) -> f64 {
    v as f64 / SCALE
}

fn fx(x: f64) -> i64 {
    (x * SCALE).round() as i64
}

#[test]
fn fixed_point_arithmetic() {
    assert_eq!(fx_add(FX_ONE, FX_ONE), 2 * FX_ONE);
    assert_eq!(fx_sub(FX_ONE, FX_ONE), 0);
    assert_eq!(fx_neg(FX_ONE), -FX_ONE);
    // 1 · x = x exactly.
    assert_eq!(fx_mul(FX_ONE, 12345678), 12345678);
    // 1/2 · 1/2 = 1/4 exactly.
    assert_eq!(fx_mul(FX_ONE / 2, FX_ONE / 2), FX_ONE / 4);
    // Saturation instead of overflow.
    assert_eq!(fx_add(i64::MAX, 1), i64::MAX);
}

#[test]
fn fixed_point_sqrt() {
    assert_eq!(fx_sqrt(0), 0);
    assert_eq!(fx_sqrt(FX_ONE), FX_ONE);
    assert_eq!(fx_sqrt(4 * FX_ONE), 2 * FX_ONE);
    assert!((to_f(fx_sqrt(FX_ONE / 2)) - 0.5_f64.sqrt()).abs() < 1e-10);
}

#[test]
fn complex_arithmetic() {
    let a = Complex::new(FX_ONE, FX_ONE);
    let b = Complex::new(0, FX_ONE);
    // (1 + i)(i) = -1 + i.
    let p = a.mul(b);
    assert_eq!(p.real, -FX_ONE);
    assert_eq!(p.imaginary, FX_ONE);
    let s = a.add(b);
    assert_eq!(s.real, FX_ONE);
    assert_eq!(s.imaginary, 2 * FX_ONE);
    let c = a.get_conjugate();
    assert_eq!(c.real, FX_ONE);
    assert_eq!(c.imaginary, -FX_ONE);
    assert_eq!(a.norm2(), 2 * FX_ONE);
    assert!((to_f(a.abs()) - 2.0_f64.sqrt()).abs() < 1e-10);
    let mut m = a;
    m.conjugate();
    assert_eq!(m.imaginary, -FX_ONE);
    // Conjugation is an involution away from the saturating boundary...
    assert_eq!(a.get_conjugate().get_conjugate(), a);
    // ...and saturates at the single boundary value, as documented.
    let boundary = Complex::new(0, i64::MIN);
    assert_eq!(boundary.get_conjugate().imaginary, i64::MAX);
    assert_eq!(boundary.get_conjugate().get_conjugate().imaginary, i64::MIN + 1);
    assert!(Complex::zero().is_zero());
    assert!(!Complex::one().is_zero());
}

#[test]
fn matrix_product_and_mismatch() {
    let id = identity_matrix(3);
    let m = Matrix::new(
        3,
        3,
        vec![
            Complex::new(FX_ONE, 0),
            Complex::new(0, FX_ONE),
            Complex::zero(),
            Complex::zero(),
            Complex::new(FX_ONE, 0),
            Complex::zero(),
            Complex::new(0, -FX_ONE),
            Complex::zero(),
            Complex::new(FX_ONE, 0),
        ],
    );
    let p = id.dot(&m).unwrap();
    for i in 0..3 {
        for j in 0..3 {
            assert_eq!(p.get(i, j), m.get(i, j));
        }
    }
    // Mismatched inner dimensions are rejected.
    let wide = Matrix::new(2, 3, vec![Complex::zero(); 6]);
    assert!(wide.dot(&wide).is_none());
}

#[test]
fn kernel_classification() {
    let z = Kernel::new("Z", gates::pauli_z().matrix, vec![0]);
    assert_eq!(z.gate_type, GateType::Diagonal);
    let x = Kernel::new("X", gates::pauli_x().matrix, vec![0]);
    assert_eq!(x.gate_type, GateType::NonDiagonal);
    let c = Kernel::new("CNOT", gates::cnot().matrix, vec![0, 1]);
    assert_eq!(c.gate_type, GateType::Controlled);
    // Shape-based fallback: a diagonal matrix under an unknown name.
    let d = Kernel::new("Other", gates::rz_matrix(Angle::new(fx(0.6), fx(0.4))), vec![0]);
    assert_eq!(d.gate_type, GateType::Diagonal);
    let nd = Kernel::new("Other", gates::rx_matrix(Angle::new(fx(0.6), fx(0.4))), vec![0]);
    assert_eq!(nd.gate_type, GateType::NonDiagonal);
    // A diagonal-family name prefix alone does not make a kernel
    // Diagonal: the matrix must really be diagonal.
    let sx = Kernel::new("Sx", gates::sx_gate().matrix, vec![0]);
    assert_eq!(sx.gate_type, GateType::NonDiagonal);
    let sxdg = Kernel::new("Sxdg", gates::sxdg_gate().matrix, vec![0]);
    assert_eq!(sxdg.gate_type, GateType::NonDiagonal);
    let sw = Kernel::new("SWAP", gates::swap().matrix, vec![0, 1]);
    assert_eq!(sw.gate_type, GateType::Controlled);
    let rz_named = Kernel::new("Rz", gates::rz_matrix(Angle::new(fx(0.8), fx(0.6))), vec![0]);
    assert_eq!(rz_named.gate_type, GateType::Diagonal);
}

#[test]
fn commutation_is_sound_for_non_diagonal_names() {
    // Sx is not diagonal, so it must not be reported as commuting with Z
    // on the same qubit; on different qubits they commute trivially.
    let sx0 = Kernel::new("Sx", gates::sx_gate().matrix, vec![0]);
    let z0 = Kernel::new("Z", gates::pauli_z().matrix, vec![0]);
    let z1 = Kernel::new("Z", gates::pauli_z().matrix, vec![1]);
    assert!(!sx0.commutes_with(&z0));
    assert!(!z0.commutes_with(&sx0));
    assert!(sx0.commutes_with(&z1));
    // Two SWAP kernels on the same pair are not reported as commuting
    // through a diagonal label either.
    let sw = Kernel::new("SWAP", gates::swap().matrix, vec![0, 1]);
    let cz = Kernel::new("CZ", gates::cz().matrix, vec![0, 1]);
    assert!(!sw.commutes_with(&cz));
    // Genuinely diagonal kernels on the same targets still commute.
    let czb = Kernel::new("CZ", gates::cz().matrix, vec![0, 1]);
    assert!(cz.commutes_with(&czb));
}

#[test]
fn kernel_relations() {
    let z0 = Kernel::new("Z", gates::pauli_z().matrix, vec![0]);
    let z1 = Kernel::new("Z", gates::pauli_z().matrix, vec![1]);
    let s0 = Kernel::new("S", gates::s_gate().matrix, vec![0]);
    let cnot = Kernel::new("CNOT", gates::cnot().matrix, vec![0, 1]);

    assert!(!z0.shares_qubits(&z1));
    assert!(z0.shares_qubits(&cnot));
    // Disjoint targets commute; same-target diagonals commute.
    assert!(z0.commutes_with(&z1));
    assert!(z0.commutes_with(&s0));
    assert!(!z0.commutes_with(&cnot));

    assert!(z0.can_fuse_with(&s0));
    assert!(!z0.can_fuse_with(&z1));
    assert!(!z0.can_fuse_with(&cnot));
    assert!(z0.fuse(&z1).is_none());
    let fused = z0.fuse(&s0).unwrap();
    assert_eq!(fused.name, "Z+S");
    assert_eq!(fused.gate_type, GateType::Diagonal);
    assert_eq!(fused.targets, vec![0]);
    assert_eq!(z0.num_qubits(), 1);
}

#[test]
fn custom_composite_gate_runs() {
    // A composite Bell preparation as a reusable two-qubit gate.
    let bell_gate = CustomGateBuilder::new("bell", 2).h(0).cnot(0, 1).build();
    let ops = vec![GateOp::Custom(Arc::new(bell_gate), vec![0, 1])];
    let state = RuntimeConfig::new().compute(2, &ops);
    let inv_sqrt2 = 1.0 / 2.0_f64.sqrt();
    assert!((to_f(state[0].real) - inv_sqrt2).abs() < 1e-10);
    assert!((to_f(state[3].real) - inv_sqrt2).abs() < 1e-10);
    assert!(to_f(state[1].real).abs() < 1e-10);
    assert!(to_f(state[2].real).abs() < 1e-10);
}

#[test]
fn custom_matrix_gate_runs() {
    let custom = CustomGate::from_matrix("my-x", gates::pauli_x().matrix);
    assert_eq!(custom.num_qubits, 1);
    let ops = vec![GateOp::Custom(Arc::new(custom), vec![1])];
    let state = RuntimeConfig::new().compute(2, &ops);
    assert!((to_f(state[1].real) - 1.0).abs() < 1e-10);
    assert!(to_f(state[0].real).abs() < 1e-10);
}

#[test]
fn custom_from_composite_three_qubits() {
    let toff = CustomGate::from_composite(
        "toff",
        3,
        vec![(CompositeOp::X, vec![0]), (CompositeOp::X, vec![1]), (
            CompositeOp::CCNOT,
            vec![0, 1, 2],
        )],
    );
    let gate = toff.to_quantum_gate();
    assert_eq!(gate.num_qubits, 3);
    let ops = vec![GateOp::Custom(Arc::new(toff), vec![0, 1, 2])];
    let state = RuntimeConfig::new().compute(3, &ops);
    assert!((to_f(state[7].real) - 1.0).abs() < 1e-10);
}

#[test]
fn measurement_is_an_engine_no_op() {
    let ops = vec![GateOp::H(0), GateOp::CNOT(0, 1)];
    let with_measure = vec![
        GateOp::H(0),
        GateOp::Measure(0, 0),
        GateOp::CNOT(0, 1),
        GateOp::Measure(1, 1),
    ];
    let a = RuntimeConfig::new().compute(2, &ops);
    let b = RuntimeConfig::new().compute(2, &with_measure);
    for idx in 0..4 {
        assert_eq!(a[idx], b[idx]);
    }
}

#[test]
fn gate_op_metadata() {
    assert_eq!(GateOp::H(2).quantum_targets(), vec![2]);
    assert_eq!(GateOp::CNOT(1, 0).quantum_targets(), vec![1, 0]);
    assert_eq!(GateOp::CSWAP(0, 1, 2).quantum_targets(), vec![0, 1, 2]);
    assert_eq!(GateOp::Measure(1, 3).quantum_targets(), vec![1]);
    assert_eq!(GateOp::Measure(1, 3).classical_targets(), vec![3]);
    assert!(GateOp::Measure(0, 0).is_measurement());
    assert!(!GateOp::H(0).is_measurement());
    assert!(!GateOp::H(0).is_custom());
    assert!(GateOp::T(0).is_non_clifford());
    assert!(!GateOp::S(0).is_non_clifford());
    assert_eq!(GateOp::H(0).name(), "H");
    assert_eq!(GateOp::Sdg(0).name(), "S\u{2020}");
    assert_eq!(GateOp::Sx(0).name(), "\u{221a}X");
}

#[test]
fn classical_register_holds_bits() {
    let bit = ClassicalBit::new("c0", true);
    assert_eq!(bit.get_name().as_str(), "c0");
    assert!(bit.get_state());

    let names = vec![String::from("a"), String::from("b")];
    let mut reg = ClassicalRegister::new("creg", &names);
    assert_eq!(reg.get_name().as_str(), "creg");
    let bits = reg.get_bits();
    assert_eq!(bits.len(), 2);
    assert!(!bits[0].get_state());
    assert_eq!(bits[1].get_name().as_str(), "b");

    reg.set_bits(vec![ClassicalBit::new("a", true), ClassicalBit::new("b", false)]);
    assert!(reg.get_bits()[0].get_state());
}

#[test]
fn angle_composition_follows_addition_formulas() {
    let a = 0.7_f64;
    let b = 1.9_f64;
    let sum = Angle::new(fx(a.cos()), fx(a.sin())).compose(Angle::new(fx(b.cos()), fx(b.sin())));
    assert!((to_f(sum.cos) - (a + b).cos()).abs() < 1e-10);
    assert!((to_f(sum.sin) - (a + b).sin()).abs() < 1e-10);
}

#[test]
fn rotation_gate_acts_on_ground_state() {
    let theta = 1.0_f64;
    let half = Angle::new(fx((theta / 2.0).cos()), fx((theta / 2.0).sin()));
    let state = RuntimeConfig::new().compute(1, &vec![GateOp::Rx(0, half)]);
    assert!((to_f(state[0].real) - (theta / 2.0).cos()).abs() < 1e-10);
    assert!((to_f(state[1].imaginary) + (theta / 2.0).sin()).abs() < 1e-10);
    assert!(to_f(state[0].imaginary).abs() < 1e-10);
    assert!(to_f(state[1].real).abs() < 1e-10);
}

#[test]
fn parallel_and_simd_paths_match_serial_exactly() {
    let h = Kernel::new("H", gates::hadamard().matrix, vec![1]);
    let cnot = Kernel::new("CNOT", gates::cnot().matrix, vec![0, 1]);
    let mut serial = libpsi_core::register::initial_state(2);
    serial = apply_kernel(&serial, &h, 2);
    serial = apply_kernel(&serial, &cnot, 2);

    let mut parallel = libpsi_core::register::initial_state(2);
    parallel = apply_kernel_parallel(&parallel, &h, 2);
    parallel = apply_kernel_parallel(&parallel, &cnot, 2);
    assert_eq!(serial, parallel);

    let mut simd = libpsi_core::register::initial_state(2);
    libpsi_core::apply::apply_single_qubit_gate_simd(&mut simd, &gates::hadamard().matrix, 1, 2);
    simd = apply_kernel(&simd, &cnot, 2);
    assert_eq!(serial, simd);

    let mut simd_par = libpsi_core::register::initial_state(2);
    libpsi_core::apply::apply_single_qubit_gate_simd_parallel(
        &mut simd_par,
        &gates::hadamard().matrix,
        1,
        2,
    );
    simd_par = apply_kernel(&simd_par, &cnot, 2);
    assert_eq!(serial, simd_par);

    // The parallel primitive really transforms the buffer: X moves the
    // amplitude away from |00⟩.
    let x = Kernel::new("X", gates::pauli_x().matrix, vec![0]);
    let moved = apply_kernel_parallel(&libpsi_core::register::initial_state(1), &x, 1);
    assert_eq!(moved[0], Complex::zero());
    assert_eq!(moved[1], Complex::one());
}

#[test]
fn stats_count_kernel_shapes() {
    let ops = vec![
        GateOp::H(0),
        GateOp::Z(1),
        GateOp::CNOT(0, 1),
        GateOp::SWAP(1, 2),
        GateOp::CCNOT(0, 1, 2),
        GateOp::Measure(0, 0),
    ];
    let batch: StructureAwareKernelBatch = libpsi_core::runtime::build_structure_aware_batch(
        3, &ops,
    );
    let stats = batch.stats();
    assert_eq!(stats.total_kernels, 5);
    assert_eq!(stats.single_qubit, 2);
    assert_eq!(stats.two_qubit, 2);
    assert_eq!(stats.multi_qubit, 1);
    // Only Z counts as diagonal: a SWAP kernel is not diagonal whatever
    // the name prefix suggests.
    assert_eq!(stats.diagonal, 1);
    assert_eq!(stats.execution_layers, 0);
}

#[test]
fn register_route_builds_bell_state() {
    let mut reg = libpsi_core::register::QuantumRegister::new("r", 2);
    assert_eq!(reg.num_qubits(), 2);
    reg.apply_gate(&gates::hadamard(), &vec![0]);
    reg.apply_gate(&gates::cnot(), &vec![0, 1]);
    let state = reg.get_state();
    let inv_sqrt2 = 1.0 / 2.0_f64.sqrt();
    assert!((to_f(state[0].real) - inv_sqrt2).abs() < 1e-10);
    assert!((to_f(state[3].real) - inv_sqrt2).abs() < 1e-10);
}

#[test]
fn density_matrix_measurement_and_fidelity() {
    let inv_sqrt2 = fx(1.0 / 2.0_f64.sqrt());
    let bell = vec![
        Complex::new(inv_sqrt2, 0),
        Complex::new(0, 0),
        Complex::new(0, 0),
        Complex::new(inv_sqrt2, 0),
    ];
    let dm = DensityMatrix::from_state_vector(&bell);
    assert!((to_f(dm.measure_probability(0, 0)) - 0.5).abs() < 1e-10);
    assert!((to_f(dm.measure_probability(0, 1)) - 0.5).abs() < 1e-10);
    assert!((to_f(dm.fidelity_with_pure_state(&bell)) - 1.0).abs() < 1e-10);
    let probs = dm.probabilities();
    assert_eq!(probs.len(), 4);
    assert!((to_f(probs[0]) - 0.5).abs() < 1e-10);
    assert!(to_f(probs[1]).abs() < 1e-10);
    assert!(dm.is_pure(fx(1e-6)));
}

#[test]
fn density_matrix_unitary_matches_state_vector() {
    // Evolving |0⟩⟨0| by H then T matches the projector of the evolved
    // pure state.
    let mut dm = DensityMatrix::new(1);
    dm.apply_unitary(&gates::hadamard().matrix, &vec![0]);
    dm.apply_unitary(&gates::t_gate().matrix, &vec![0]);

    let ops = vec![GateOp::H(0), GateOp::T(0)];
    let psi = RuntimeConfig::new().compute(1, &ops);
    for i in 0..2 {
        for j in 0..2 {
            let expect = psi[i].mul(psi[j].get_conjugate());
            let got = dm.get(i, j);
            assert!((to_f(got.real) - to_f(expect.real)).abs() < 1e-10);
            assert!((to_f(got.imaginary) - to_f(expect.imaginary)).abs() < 1e-10);
        }
    }
}

#[test]
fn runtime_to_config_maps_presets() {
    assert!(Runtime::StructureAwareMT.to_config().structure_aware);
    assert!(Runtime::StructureAwareMT.to_config().parallel);
    assert!(Runtime::SimdRT.to_config().simd);
    assert!(Runtime::SimdRT.to_config().batched);
    assert!(!Runtime::BasicRT.to_config().parallel);
    assert_eq!(Runtime::custom(), RuntimeConfig::new());
    assert_eq!(Runtime::optimal(), RuntimeConfig::optimal());
    assert_eq!(Runtime::default(), Runtime::BasicRT);
    assert_eq!(RuntimeConfig::default(), RuntimeConfig::new());
}

#[test]
fn runtime_labels() {
    assert_eq!(RuntimeConfig::new().describe(), "Runtime[basic]");
    assert_eq!(
        RuntimeConfig::optimal().describe(),
        "Runtime[structure-aware+SIMD+parallel]"
    );
    assert_eq!(RuntimeConfig::new().batched().describe(), "Runtime[batched]");
    assert_eq!(
        RuntimeConfig::new().batched().simd().parallel().describe(),
        "Runtime[batched+SIMD+parallel]"
    );
    assert_eq!(
        RuntimeConfig::new().structure_aware().batched().describe(),
        "Runtime[structure-aware]"
    );
}

#[test]
fn register_from_qubits_takes_kronecker_product() {
    let bits = vec![
        libpsi_core::register::QuantumBit::new("q0", libpsi_core::register::state_1()),
        libpsi_core::register::QuantumBit::new("q1", libpsi_core::register::state_0()),
    ];
    assert_eq!(bits[0].get_name().as_str(), "q0");
    let reg = libpsi_core::register::QuantumRegister::from("pair", &bits);
    assert_eq!(reg.num_qubits(), 2);
    let state = reg.get_state();
    // |10> is basis index 2 (qubit 0 is the most significant bit).
    assert_eq!(state[2], Complex::one());
    assert_eq!(state[0], Complex::zero());
    assert_eq!(state[1], Complex::zero());
    assert_eq!(state[3], Complex::zero());
}

#[test]
fn register_applies_gate_list_in_order() {
    let mut reg = libpsi_core::register::QuantumRegister::new("r", 2);
    let ops = vec![
        (gates::hadamard(), vec![0]),
        (gates::cnot(), vec![0, 1]),
    ];
    reg.apply_gates(&ops);
    let state = reg.get_state();
    let inv_sqrt2 = 1.0 / 2.0_f64.sqrt();
    assert!((to_f(state[0].real) - inv_sqrt2).abs() < 1e-10);
    assert!((to_f(state[3].real) - inv_sqrt2).abs() < 1e-10);
    assert!(to_f(state[1].real).abs() < 1e-10);
    assert!(to_f(state[2].real).abs() < 1e-10);
}

#[test]
fn target_set_deduplicates() {
    let k = Kernel::new("CNOT", gates::cnot().matrix, vec![3, 1]);
    let ts = k.target_set();
    assert_eq!(ts.len(), 2);
    assert!(ts.contains(&3));
    assert!(ts.contains(&1));
}
