//! The runtime: a configuration selects features, a compute step lowers a
//! gate stream to kernels, optionally optimises the kernel list, and
//! executes it on a fresh amplitude buffer.
//!
//! The result of a compute step depends only on the optimisation pipeline
//! the configuration selects (`structure_aware` / `batched`): the `simd`
//! and `parallel` features change how the buffer is filled, never what it
//! holds.

use vstd::prelude::*;
use vstd::string::StringExecFns;
use std::sync::Arc;
use crate::apply::MAX_QUBITS;
use crate::batch::{
    exec_kernels_s, execute_kernel_list, fuse_pass_s, kv_app_wf, kvs_app_wf, KernelBatch,
};
use crate::complex::Complex;
use crate::custom_gate::{custom_matrix_s, lemma_composite_dims, CustomGate, CustomGateDefinition};
use crate::gates::{
    cnot, cnot_s, controlled_s, cp_matrix, crx_matrix, cry_matrix, crz_matrix, cz, cz_s, fredkin,
    fredkin_s, hadamard, hadamard_s, p_matrix, p_s, pauli_x, pauli_x_s, pauli_y, pauli_y_s,
    pauli_z, pauli_z_s, rx_matrix, rx_s, ry_matrix, ry_s, rz_matrix, rz_s, s_gate, s_gate_s,
    sdg_gate, sdg_gate_s, swap, swap_s, sx_gate, sx_gate_s, sxdg_gate, sxdg_gate_s, t_gate,
    t_gate_s, tdg_gate, tdg_gate_s, toffoli, toffoli_s, u1_matrix, u2_matrix, u2_s, u3_matrix,
    u3_s, Angle,
};
use crate::kernel::{classify_s, kv_shape_wf, kv_targets_wf, kvs, Kernel, KernelV};
use crate::matrix::MatrixS;
use crate::register::{
    initial_state, initial_state_s, lift_s, matvec_s, QuantumGate, QuantumRegister,
    MAX_DENSE_QUBITS,
};
use crate::structure::{optimise_pipeline_s, StructureAwareKernelBatch};

verus! {

/// Below this register width the parallel primitives are not worth their
/// scheduling cost.
pub const PARALLEL_THRESHOLD: usize = 8;

/// One entry of a gate stream.
pub enum GateOp {
    H(usize),
    X(usize),
    Y(usize),
    Z(usize),
    S(usize),
    T(usize),
    Sdg(usize),
    Tdg(usize),
    Sx(usize),
    Sxdg(usize),
    Rx(usize, Angle),
    Ry(usize, Angle),
    Rz(usize, Angle),
    P(usize, Angle),
    U1(usize, Angle),
    U2(usize, Angle, Angle),
    U3(usize, Angle, Angle, Angle),
    CNOT(usize, usize),
    CZ(usize, usize),
    SWAP(usize, usize),
    CRx(usize, usize, Angle),
    CRy(usize, usize, Angle),
    CRz(usize, usize, Angle),
    CP(usize, usize, Angle),
    CCNOT(usize, usize, usize),
    CSWAP(usize, usize, usize),
    Measure(usize, usize),
    Custom(Arc<CustomGate>, Vec<usize>),
}

/// The matrix an operation lowers to.
pub open spec fn op_matrix_s(op: GateOp) -> MatrixS {
    match op {
        GateOp::H(_) => hadamard_s(),
        GateOp::X(_) => pauli_x_s(),
        GateOp::Y(_) => pauli_y_s(),
        GateOp::Z(_) => pauli_z_s(),
        GateOp::S(_) => s_gate_s(),
        GateOp::T(_) => t_gate_s(),
        GateOp::Sdg(_) => sdg_gate_s(),
        GateOp::Tdg(_) => tdg_gate_s(),
        GateOp::Sx(_) => sx_gate_s(),
        GateOp::Sxdg(_) => sxdg_gate_s(),
        GateOp::Rx(_, a) => rx_s(a),
        GateOp::Ry(_, a) => ry_s(a),
        GateOp::Rz(_, a) => rz_s(a),
        GateOp::P(_, a) => p_s(a),
        GateOp::U1(_, a) => p_s(a),
        GateOp::U2(_, phi, lambda) => u2_s(phi, lambda),
        GateOp::U3(_, theta, phi, lambda) => u3_s(theta, phi, lambda),
        GateOp::CNOT(_, _) => cnot_s(),
        GateOp::CZ(_, _) => cz_s(),
        GateOp::SWAP(_, _) => swap_s(),
        GateOp::CRx(_, _, a) => controlled_s(rx_s(a)),
        GateOp::CRy(_, _, a) => controlled_s(ry_s(a)),
        GateOp::CRz(_, _, a) => controlled_s(rz_s(a)),
        GateOp::CP(_, _, a) => controlled_s(p_s(a)),
        GateOp::CCNOT(_, _, _) => toffoli_s(),
        GateOp::CSWAP(_, _, _) => fredkin_s(),
        GateOp::Measure(_, _) => crate::matrix::identity_s(2),
        GateOp::Custom(g, _) => custom_matrix_s(&g),
    }
}

/// The ordered quantum targets of an operation.
pub open spec fn op_targets_s(op: GateOp) -> Seq<usize> {
    match op {
        GateOp::H(t) => seq![t],
        GateOp::X(t) => seq![t],
        GateOp::Y(t) => seq![t],
        GateOp::Z(t) => seq![t],
        GateOp::S(t) => seq![t],
        GateOp::T(t) => seq![t],
        GateOp::Sdg(t) => seq![t],
        GateOp::Tdg(t) => seq![t],
        GateOp::Sx(t) => seq![t],
        GateOp::Sxdg(t) => seq![t],
        GateOp::Rx(t, _) => seq![t],
        GateOp::Ry(t, _) => seq![t],
        GateOp::Rz(t, _) => seq![t],
        GateOp::P(t, _) => seq![t],
        GateOp::U1(t, _) => seq![t],
        GateOp::U2(t, _, _) => seq![t],
        GateOp::U3(t, _, _, _) => seq![t],
        GateOp::CNOT(c, t) => seq![c, t],
        GateOp::CZ(c, t) => seq![c, t],
        GateOp::SWAP(a, b) => seq![a, b],
        GateOp::CRx(c, t, _) => seq![c, t],
        GateOp::CRy(c, t, _) => seq![c, t],
        GateOp::CRz(c, t, _) => seq![c, t],
        GateOp::CP(c, t, _) => seq![c, t],
        GateOp::CCNOT(c1, c2, t) => seq![c1, c2, t],
        GateOp::CSWAP(c, t1, t2) => seq![c, t1, t2],
        GateOp::Measure(q, _) => seq![q],
        GateOp::Custom(_, targets) => targets@,
    }
}

/// The kernel name an operation lowers under.
pub open spec fn op_kernel_name_s(op: GateOp) -> Seq<char> {
    match op {
        GateOp::H(_) => "H"@,
        GateOp::X(_) => "X"@,
        GateOp::Y(_) => "Y"@,
        GateOp::Z(_) => "Z"@,
        GateOp::S(_) => "S"@,
        GateOp::T(_) => "T"@,
        GateOp::Sdg(_) => "Sdg"@,
        GateOp::Tdg(_) => "Tdg"@,
        GateOp::Sx(_) => "Sx"@,
        GateOp::Sxdg(_) => "Sxdg"@,
        GateOp::Rx(_, _) => "Rx"@,
        GateOp::Ry(_, _) => "Ry"@,
        GateOp::Rz(_, _) => "Rz"@,
        GateOp::P(_, _) => "P"@,
        GateOp::U1(_, _) => "U1"@,
        GateOp::U2(_, _, _) => "U2"@,
        GateOp::U3(_, _, _, _) => "U3"@,
        GateOp::CNOT(_, _) => "CNOT"@,
        GateOp::CZ(_, _) => "CZ"@,
        GateOp::SWAP(_, _) => "SWAP"@,
        GateOp::CRx(_, _, _) => "CRx"@,
        GateOp::CRy(_, _, _) => "CRy"@,
        GateOp::CRz(_, _, _) => "CRz"@,
        GateOp::CP(_, _, _) => "CP"@,
        GateOp::CCNOT(_, _, _) => "CCNOT"@,
        GateOp::CSWAP(_, _, _) => "CSWAP"@,
        GateOp::Measure(_, _) => "M"@,
        GateOp::Custom(_, _) => "Custom"@,
    }
}

/// The kernel an operation lowers to.
pub open spec fn op_kernel_s(op: GateOp) -> KernelV {
    KernelV {
        matrix: op_matrix_s(op),
        targets: op_targets_s(op),
        name: op_kernel_name_s(op),
        gate_type: classify_s(op_kernel_name_s(op), op_matrix_s(op)),
    }
}

/// Well-formedness of one operation over an `n`-qubit register: targets
/// in range and pairwise distinct, no more targets than qubits, and a
/// well-formed custom gate whose arity matches its target count.
pub open spec fn op_wf(op: GateOp, n: u64) -> bool {
    &&& op_targets_s(op).len() <= n
    &&& forall|i: int|
        0 <= i < op_targets_s(op).len() ==> (#[trigger] op_targets_s(op)[i] as u64) < n
    &&& forall|a: int, b: int|
        0 <= a < b < op_targets_s(op).len() ==> op_targets_s(op)[a] != op_targets_s(op)[b]
    &&& match op {
        GateOp::Custom(g, targets) => g.wf() && targets@.len() == g.num_qubits,
        _ => true,
    }
}

/// Well-formedness of a whole operation list.
pub open spec fn ops_wf(ops: Seq<GateOp>, n: u64) -> bool {
    forall|i: int| 0 <= i < ops.len() ==> op_wf(#[trigger] ops[i], n)
}

/// Lowering a gate stream to a kernel list: `Measure` entries are engine
/// no-ops and are skipped; every other entry becomes one kernel.
pub open spec fn lower_s(ops: Seq<GateOp>) -> Seq<KernelV>
    decreases ops.len(),
{
    if ops.len() == 0 {
        Seq::empty()
    } else if ops[0] is Measure {
        lower_s(ops.skip(1))
    } else {
        seq![op_kernel_s(ops[0])] + lower_s(ops.skip(1))
    }
}

/// A singleton target list.
fn one_target(a: usize) -> (r: Vec<usize>)
    ensures
        r@ =~= seq![a],
{
    let mut v: Vec<usize> = Vec::new();
    v.push(a);
    v
}

/// A two-element target list.
fn two_targets(a: usize, b: usize) -> (r: Vec<usize>)
    ensures
        r@ =~= seq![a, b],
{
    let mut v: Vec<usize> = Vec::new();
    v.push(a);
    v.push(b);
    v
}

/// A three-element target list.
fn three_targets(a: usize, b: usize, c: usize) -> (r: Vec<usize>)
    ensures
        r@ =~= seq![a, b, c],
{
    let mut v: Vec<usize> = Vec::new();
    v.push(a);
    v.push(b);
    v.push(c);
    v
}

/// Small powers of two.
proof fn lemma_small_pows2()
    ensures
        1u64 << 1u64 == 2,
        1u64 << 2u64 == 4,
        1u64 << 3u64 == 8,
{
    assert(1u64 << 1u64 == 2 && 1u64 << 2u64 == 4 && 1u64 << 3u64 == 8) by (bit_vector);
}

/// The kernel of an operation fits an `n`-qubit register.
pub proof fn lemma_op_kernel_wf(op: GateOp, n: u64)
    requires
        op_wf(op, n),
        n <= MAX_QUBITS,
        !(op is Measure),
    ensures
        kv_app_wf(op_kernel_s(op), n),
{
    lemma_small_pows2();
    let k = op_kernel_s(op);
    assert(k.targets == op_targets_s(op));
    assert(k.matrix == op_matrix_s(op));
    assert(kv_targets_wf(k, n));
    match op {
        GateOp::Custom(g, targets) => {
            match g.definition {
                CustomGateDefinition::Matrix(m) => {},
                CustomGateDefinition::Composite(ops) => {
                    lemma_composite_dims(ops@, g.num_qubits as u64);
                },
            }
            assert(k.targets.len() == g.num_qubits);
            assert(kv_shape_wf(k));
        },
        _ => {
            assert(kv_shape_wf(k));
        },
    }
}

/// Lowering yields applicable kernels.
pub proof fn lemma_lower_wf(ops: Seq<GateOp>, n: u64)
    requires
        ops_wf(ops, n),
        n <= MAX_QUBITS,
    ensures
        kvs_app_wf(lower_s(ops), n),
    decreases ops.len(),
{
    if ops.len() == 0 {
    } else {
        assert(ops_wf(ops.skip(1), n));
        lemma_lower_wf(ops.skip(1), n);
        if !(ops[0] is Measure) {
            lemma_op_kernel_wf(ops[0], n);
            let rest = lower_s(ops.skip(1));
            let whole = seq![op_kernel_s(ops[0])] + rest;
            assert forall|i: int| 0 <= i < whole.len() implies kv_app_wf(#[trigger] whole[i], n) by {
                if i == 0 {
                    assert(whole[0] == op_kernel_s(ops[0]));
                } else {
                    assert(whole[i] == rest[i - 1]);
                }
            }
        }
    }
}

/// Lower one operation to its kernel; `Measure` lowers to nothing.
pub fn op_to_kernel(op: &GateOp) -> (r: Option<Kernel>)
    requires
        match *op {
            GateOp::Custom(g, targets) => g.wf() && targets@.len() == g.num_qubits,
            _ => true,
        },
    ensures
        r is Some <==> !(*op is Measure),
        r is Some ==> r->Some_0@ =~= op_kernel_s(*op),
{
    proof {
        lemma_small_pows2();
    }
    let r: Kernel = match op {
        GateOp::H(t) => Kernel::new("H", hadamard().matrix, one_target(*t)),
        GateOp::X(t) => Kernel::new("X", pauli_x().matrix, one_target(*t)),
        GateOp::Y(t) => Kernel::new("Y", pauli_y().matrix, one_target(*t)),
        GateOp::Z(t) => Kernel::new("Z", pauli_z().matrix, one_target(*t)),
        GateOp::S(t) => Kernel::new("S", s_gate().matrix, one_target(*t)),
        GateOp::T(t) => Kernel::new("T", t_gate().matrix, one_target(*t)),
        GateOp::Sdg(t) => Kernel::new("Sdg", sdg_gate().matrix, one_target(*t)),
        GateOp::Tdg(t) => Kernel::new("Tdg", tdg_gate().matrix, one_target(*t)),
        GateOp::Sx(t) => Kernel::new("Sx", sx_gate().matrix, one_target(*t)),
        GateOp::Sxdg(t) => Kernel::new("Sxdg", sxdg_gate().matrix, one_target(*t)),
        GateOp::Rx(t, a) => Kernel::new("Rx", rx_matrix(*a), one_target(*t)),
        GateOp::Ry(t, a) => Kernel::new("Ry", ry_matrix(*a), one_target(*t)),
        GateOp::Rz(t, a) => Kernel::new("Rz", rz_matrix(*a), one_target(*t)),
        GateOp::P(t, a) => Kernel::new("P", p_matrix(*a), one_target(*t)),
        GateOp::U1(t, a) => Kernel::new("U1", u1_matrix(*a), one_target(*t)),
        GateOp::U2(t, phi, lambda) => Kernel::new("U2", u2_matrix(*phi, *lambda), one_target(*t)),
        GateOp::U3(t, theta, phi, lambda) => Kernel::new(
            "U3",
            u3_matrix(*theta, *phi, *lambda),
            one_target(*t),
        ),
        GateOp::CNOT(c, t) => Kernel::new("CNOT", cnot().matrix, two_targets(*c, *t)),
        GateOp::CZ(c, t) => Kernel::new("CZ", cz().matrix, two_targets(*c, *t)),
        GateOp::SWAP(a, b) => Kernel::new("SWAP", swap().matrix, two_targets(*a, *b)),
        GateOp::CRx(c, t, a) => Kernel::new("CRx", crx_matrix(*a), two_targets(*c, *t)),
        GateOp::CRy(c, t, a) => Kernel::new("CRy", cry_matrix(*a), two_targets(*c, *t)),
        GateOp::CRz(c, t, a) => Kernel::new("CRz", crz_matrix(*a), two_targets(*c, *t)),
        GateOp::CP(c, t, a) => Kernel::new("CP", cp_matrix(*a), two_targets(*c, *t)),
        GateOp::CCNOT(c1, c2, t) => Kernel::new(
            "CCNOT",
            toffoli().matrix,
            three_targets(*c1, *c2, *t),
        ),
        GateOp::CSWAP(c, t1, t2) => Kernel::new(
            "CSWAP",
            fredkin().matrix,
            three_targets(*c, *t1, *t2),
        ),
        GateOp::Measure(_, _) => {
            return None;
        },
        GateOp::Custom(gate, tgts) => {
            let qg = gate.to_quantum_gate();
            Kernel::new("Custom", qg.matrix, crate::matrix::copy_targets(tgts))
        },
    };
    Some(r)
}

/// The feature set of a compute step.
#[derive(Debug, Clone, Copy, PartialEq, Eq, Structural)]
pub struct RuntimeConfig {
    pub parallel: bool,
    pub simd: bool,
    pub batched: bool,
    pub structure_aware: bool,
    pub parallel_threshold: usize,
}

impl Default for RuntimeConfig {
    /// The default configuration has no feature set.
    fn default() -> (r: RuntimeConfig)
        ensures
            r == RuntimeConfig::base(),
    {
        RuntimeConfig::new()
    }
}

/// The optimisation a configuration performs on the lowered kernel list:
/// the structure-aware pipeline, a single fusion pass, or nothing.
pub open spec fn pipeline_s(c: RuntimeConfig, ks: Seq<KernelV>) -> Seq<KernelV> {
    if c.structure_aware {
        optimise_pipeline_s(ks)
    } else if c.batched {
        fuse_pass_s(ks)
    } else {
        ks
    }
}

/// The state a compute step returns: the optimised lowering of the
/// operation list, executed on the initial state.  Only the
/// `structure_aware` and `batched` features enter; `simd` and `parallel`
/// cannot change the result.
pub open spec fn compute_s(c: RuntimeConfig, n: u64, ops: Seq<GateOp>) -> Seq<Complex> {
    exec_kernels_s(pipeline_s(c, lower_s(ops)), initial_state_s(n), n)
}

impl RuntimeConfig {
    /// The configuration with no feature set.
    pub open spec fn base() -> RuntimeConfig {
        RuntimeConfig {
            parallel: false,
            simd: false,
            batched: false,
            structure_aware: false,
            parallel_threshold: PARALLEL_THRESHOLD,
        }
    }

    /// A fresh configuration with no feature set.
    pub fn new() -> (r: RuntimeConfig)
        ensures
            r == RuntimeConfig::base(),
    {
        RuntimeConfig {
            parallel: false,
            simd: false,
            batched: false,
            structure_aware: false,
            parallel_threshold: PARALLEL_THRESHOLD,
        }
    }

    /// Enable the parallel primitives.
    pub fn parallel(self) -> (r: RuntimeConfig)
        ensures
            r == (RuntimeConfig { parallel: true, ..self }),
    {
        RuntimeConfig { parallel: true, ..self }
    }

    /// Enable the single-qubit fast path.
    pub fn simd(self) -> (r: RuntimeConfig)
        ensures
            r == (RuntimeConfig { simd: true, ..self }),
    {
        RuntimeConfig { simd: true, ..self }
    }

    /// Enable the single-pass fusion optimiser.
    pub fn batched(self) -> (r: RuntimeConfig)
        ensures
            r == (RuntimeConfig { batched: true, ..self }),
    {
        RuntimeConfig { batched: true, ..self }
    }

    /// Enable the structure-aware optimiser.
    pub fn structure_aware(self) -> (r: RuntimeConfig)
        ensures
            r == (RuntimeConfig { structure_aware: true, ..self }),
    {
        RuntimeConfig { structure_aware: true, ..self }
    }

    /// Replace the parallel threshold.
    pub fn with_threshold(self, threshold: usize) -> (r: RuntimeConfig)
        ensures
            r == (RuntimeConfig { parallel_threshold: threshold, ..self }),
    {
        RuntimeConfig { parallel_threshold: threshold, ..self }
    }

    /// The preset enabling structure-aware optimisation, the fast path
    /// and the parallel primitives.
    pub fn optimal() -> (r: RuntimeConfig)
        ensures
            r == (RuntimeConfig {
                parallel: true,
                simd: true,
                batched: false,
                structure_aware: true,
                parallel_threshold: PARALLEL_THRESHOLD,
            }),
    {
        RuntimeConfig::new().structure_aware().simd().parallel()
    }

    /// Run a compute step: allocate the initial state, lower the
    /// operations to kernels, optimise per the configuration, execute.
    pub fn compute(&self, num_qubits: usize, operations: &Vec<GateOp>) -> (r: Vec<Complex>)
        requires
            num_qubits <= MAX_QUBITS,
            ops_wf(operations@, num_qubits as u64),
        ensures
            r@ == compute_s(*self, num_qubits as u64, operations@),
    {
        let ghost n = num_qubits as u64;
        let mut state = initial_state(num_qubits);
        let use_parallel = self.parallel && num_qubits >= self.parallel_threshold;
        proof {
            lemma_lower_wf(operations@, n);
        }
        if self.structure_aware {
            let mut batch = build_structure_aware_batch(num_qubits, operations);
            batch.optimise();
            proof {
                if lower_s(operations@).len() < 2 {
                    lemma_pipeline_short(lower_s(operations@));
                }
            }
            execute_kernel_list(&mut state, batch.kernels(), num_qubits, self.simd, use_parallel);
        } else if self.batched {
            let mut batch = build_kernel_batch(num_qubits, operations);
            batch.optimize();
            execute_kernel_list(&mut state, batch.kernels(), num_qubits, self.simd, use_parallel);
        } else {
            let batch = build_kernel_batch(num_qubits, operations);
            execute_kernel_list(&mut state, batch.kernels(), num_qubits, self.simd, use_parallel);
        }
        state
    }
}

/// On a kernel list shorter than two, the structure-aware pipeline
/// changes nothing.
proof fn lemma_pipeline_short(ks: Seq<KernelV>)
    requires
        ks.len() < 2,
    ensures
        optimise_pipeline_s(ks) == ks,
{
    assert(!crate::structure::scan_s(ks, 0).1);
    crate::batch::lemma_fuse_pass_trivial(ks);
}

/// Lower an operation list into a plain kernel batch.
pub fn build_kernel_batch(num_qubits: usize, operations: &Vec<GateOp>) -> (r: KernelBatch)
    requires
        num_qubits <= MAX_QUBITS,
        ops_wf(operations@, num_qubits as u64),
    ensures
        r.wf(),
        r.num_qubits == num_qubits,
        kvs(r.kernels@) == lower_s(operations@),
{
    let ghost n = num_qubits as u64;
    let mut batch = KernelBatch::new(num_qubits);
    let mut i: usize = 0;
    proof {
        assert(operations@.skip(0) =~= operations@);
        assert(lower_s(operations@) =~= kvs(batch.kernels@) + lower_s(operations@.skip(0)));
    }
    while i < operations.len()
        invariant
            i <= operations@.len(),
            n == num_qubits as u64,
            num_qubits <= MAX_QUBITS,
            ops_wf(operations@, n),
            batch.wf(),
            batch.num_qubits == num_qubits,
            lower_s(operations@) == kvs(batch.kernels@) + lower_s(operations@.skip(i as int)),
        decreases operations@.len() - i,
    {
        let op = &operations[i];
        proof {
            assert(op_wf(operations@[i as int], n));
            assert(operations@.skip(i as int)[0] == operations@[i as int]);
            assert(operations@.skip(i as int).skip(1) =~= operations@.skip(i as int + 1));
        }
        let kernel = op_to_kernel(op);
        match kernel {
            Some(k) => {
                proof {
                    lemma_op_kernel_wf(operations@[i as int], n);
                }
                let ghost prev = kvs(batch.kernels@);
                batch.add(k);
                proof {
                    assert(prev.push(k@) =~= prev + seq![op_kernel_s(operations@[i as int])]);
                    assert((prev + seq![op_kernel_s(operations@[i as int])]) + lower_s(
                        operations@.skip(i as int + 1),
                    ) =~= prev + (seq![op_kernel_s(operations@[i as int])] + lower_s(
                        operations@.skip(i as int + 1),
                    )));
                }
            },
            None => {},
        }
        i += 1;
    }
    proof {
        assert(operations@.skip(operations@.len() as int) =~= Seq::<GateOp>::empty());
        assert(kvs(batch.kernels@) + Seq::<KernelV>::empty() =~= kvs(batch.kernels@));
    }
    batch
}

/// Lower an operation list into a structure-aware batch.
pub fn build_structure_aware_batch(
    num_qubits: usize,
    operations: &Vec<GateOp>,
) -> (r: StructureAwareKernelBatch)
    requires
        num_qubits <= MAX_QUBITS,
        ops_wf(operations@, num_qubits as u64),
    ensures
        r.wf(),
        r.num_qubits == num_qubits,
        !r.optimised,
        kvs(r.kernels@) == lower_s(operations@),
{
    let ghost n = num_qubits as u64;
    let mut batch = StructureAwareKernelBatch::new(num_qubits);
    let mut i: usize = 0;
    proof {
        assert(operations@.skip(0) =~= operations@);
        assert(lower_s(operations@) =~= kvs(batch.kernels@) + lower_s(operations@.skip(0)));
    }
    while i < operations.len()
        invariant
            i <= operations@.len(),
            n == num_qubits as u64,
            num_qubits <= MAX_QUBITS,
            ops_wf(operations@, n),
            batch.wf(),
            batch.num_qubits == num_qubits,
            !batch.optimised,
            lower_s(operations@) == kvs(batch.kernels@) + lower_s(operations@.skip(i as int)),
        decreases operations@.len() - i,
    {
        let op = &operations[i];
        proof {
            assert(op_wf(operations@[i as int], n));
            assert(operations@.skip(i as int)[0] == operations@[i as int]);
            assert(operations@.skip(i as int).skip(1) =~= operations@.skip(i as int + 1));
        }
        let kernel = op_to_kernel(op);
        match kernel {
            Some(k) => {
                proof {
                    lemma_op_kernel_wf(operations@[i as int], n);
                }
                let ghost prev = kvs(batch.kernels@);
                batch.add(k);
                proof {
                    assert(prev.push(k@) =~= prev + seq![op_kernel_s(operations@[i as int])]);
                    assert((prev + seq![op_kernel_s(operations@[i as int])]) + lower_s(
                        operations@.skip(i as int + 1),
                    ) =~= prev + (seq![op_kernel_s(operations@[i as int])] + lower_s(
                        operations@.skip(i as int + 1),
                    )));
                }
            },
            None => {},
        }
        i += 1;
    }
    proof {
        assert(operations@.skip(operations@.len() as int) =~= Seq::<GateOp>::empty());
        assert(kvs(batch.kernels@) + Seq::<KernelV>::empty() =~= kvs(batch.kernels@));
    }
    batch
}


/// The state the basic register route returns for an operation list:
/// each non-measure operation is lifted to a full operator and multiplied
/// onto the state.
pub open spec fn basic_exec_s(ops: Seq<GateOp>, state: Seq<Complex>, n: u64) -> Seq<Complex>
    decreases ops.len(),
{
    if ops.len() == 0 {
        state
    } else if ops[0] is Measure {
        basic_exec_s(ops.skip(1), state, n)
    } else {
        basic_exec_s(
            ops.skip(1),
            matvec_s(lift_s(op_matrix_s(ops[0]), op_targets_s(ops[0]), n), state),
            n,
        )
    }
}

/// The basic runtime's result: the register route from the initial state.
pub open spec fn compute_basic_s(n: u64, ops: Seq<GateOp>) -> Seq<Complex> {
    basic_exec_s(ops, initial_state_s(n), n)
}

/// The multi-threaded basic runtime's result: the register route below the
/// parallel threshold, else the unoptimised kernel route.
pub open spec fn compute_basic_mt_s(n: u64, ops: Seq<GateOp>) -> Seq<Complex> {
    if n < PARALLEL_THRESHOLD {
        compute_basic_s(n, ops)
    } else {
        exec_kernels_s(lower_s(ops), initial_state_s(n), n)
    }
}

/// The runtime presets.
#[derive(Debug, Clone, Copy, PartialEq, Eq, Structural)]
pub enum Runtime {
    BasicRT,
    BasicRTMT,
    BatchedRT,
    BatchedRTMT,
    SimdRT,
    SimdRTMT,
    StructureAwareRT,
    StructureAwareMT,
    WFEvolution,
    WFEvolutionMT,
    GPUAccelerated,
    Custom(RuntimeConfig),
}

impl Default for Runtime {
    /// The default preset is the basic runtime.
    fn default() -> (r: Runtime)
        ensures
            r == Runtime::BasicRT,
    {
        Runtime::BasicRT
    }
}

/// The configuration a preset lowers to.
pub open spec fn to_config_s(rt: Runtime) -> RuntimeConfig {
    match rt {
        Runtime::BasicRT => RuntimeConfig::base(),
        Runtime::BasicRTMT => RuntimeConfig { parallel: true, ..RuntimeConfig::base() },
        Runtime::BatchedRT => RuntimeConfig { batched: true, ..RuntimeConfig::base() },
        Runtime::BatchedRTMT => RuntimeConfig {
            batched: true,
            parallel: true,
            ..RuntimeConfig::base()
        },
        Runtime::SimdRT => RuntimeConfig { batched: true, simd: true, ..RuntimeConfig::base() },
        Runtime::SimdRTMT => RuntimeConfig {
            batched: true,
            simd: true,
            parallel: true,
            ..RuntimeConfig::base()
        },
        Runtime::StructureAwareRT => RuntimeConfig {
            structure_aware: true,
            simd: true,
            ..RuntimeConfig::base()
        },
        Runtime::StructureAwareMT => RuntimeConfig {
            structure_aware: true,
            simd: true,
            parallel: true,
            ..RuntimeConfig::base()
        },
        Runtime::Custom(config) => config,
        _ => RuntimeConfig::base(),
    }
}

/// The state a preset's compute step returns.
pub open spec fn runtime_compute_s(rt: Runtime, n: u64, ops: Seq<GateOp>) -> Seq<Complex> {
    match rt {
        Runtime::BasicRT => compute_basic_s(n, ops),
        Runtime::BasicRTMT => compute_basic_mt_s(n, ops),
        _ => compute_s(to_config_s(rt), n, ops),
    }
}

impl Runtime {
    /// A fresh custom configuration.
    pub fn custom() -> (r: RuntimeConfig)
        ensures
            r == RuntimeConfig::base(),
    {
        RuntimeConfig::new()
    }

    /// The optimal preset configuration.
    pub fn optimal() -> (r: RuntimeConfig)
        ensures
            r == (RuntimeConfig {
                parallel: true,
                simd: true,
                batched: false,
                structure_aware: true,
                parallel_threshold: PARALLEL_THRESHOLD,
            }),
    {
        RuntimeConfig::optimal()
    }

    /// Lower the preset to a configuration.
    pub fn to_config(&self) -> (r: RuntimeConfig)
        ensures
            r == to_config_s(*self),
    {
        match self {
            Runtime::BasicRT => RuntimeConfig::new(),
            Runtime::BasicRTMT => RuntimeConfig::new().parallel(),
            Runtime::BatchedRT => RuntimeConfig::new().batched(),
            Runtime::BatchedRTMT => RuntimeConfig::new().batched().parallel(),
            Runtime::SimdRT => RuntimeConfig::new().batched().simd(),
            Runtime::SimdRTMT => RuntimeConfig::new().batched().simd().parallel(),
            Runtime::StructureAwareRT => RuntimeConfig::new().structure_aware().simd(),
            Runtime::StructureAwareMT => RuntimeConfig::new().structure_aware().simd().parallel(),
            Runtime::Custom(config) => *config,
            _ => RuntimeConfig::new(),
        }
    }

    /// Run the preset's compute step.  The wave-function-evolution and
    /// GPU presets are not implemented, so a caller may not select them.
    pub fn compute(&self, num_qubits: usize, operations: &Vec<GateOp>) -> (r: Vec<Complex>)
        requires
            !(*self is WFEvolution),
            !(*self is WFEvolutionMT),
            !(*self is GPUAccelerated),
            num_qubits <= MAX_QUBITS,
            *self is BasicRT ==> num_qubits <= MAX_DENSE_QUBITS,
            ops_wf(operations@, num_qubits as u64),
        ensures
            r@ == runtime_compute_s(*self, num_qubits as u64, operations@),
    {
        match self {
            Runtime::BasicRT => compute_basic(num_qubits, operations),
            Runtime::BasicRTMT => compute_basic_mt(num_qubits, operations),
            Runtime::Custom(config) => config.compute(num_qubits, operations),
            _ => {
                let config = self.to_config();
                config.compute(num_qubits, operations)
            },
        }
    }
}

/// The basic runtime: a register abstraction applying each gate through
/// the generic full-operator construction.  Slower than the kernel route,
/// retained for correctness cross-checks.
pub fn compute_basic(num_qubits: usize, operations: &Vec<GateOp>) -> (r: Vec<Complex>)
    requires
        num_qubits <= MAX_DENSE_QUBITS,
        ops_wf(operations@, num_qubits as u64),
    ensures
        r@ == compute_basic_s(num_qubits as u64, operations@),
{
    let ghost n = num_qubits as u64;
    let ghost full = operations@;
    let mut register = QuantumRegister::new("circuit", num_qubits);
    proof {
        assert(full.skip(0) =~= full);
    }
    let mut i: usize = 0;
    while i < operations.len()
        invariant
            i <= operations@.len(),
            n == num_qubits as u64,
            num_qubits <= MAX_DENSE_QUBITS,
            full == operations@,
            ops_wf(full, n),
            register.wf(),
            register.num_qubits == num_qubits,
            basic_exec_s(full, initial_state_s(n), n) == basic_exec_s(
                full.skip(i as int),
                register.state_vector@,
                n,
            ),
        decreases operations@.len() - i,
    {
        let op = &operations[i];
        proof {
            assert(op_wf(full[i as int], n));
            assert(full.skip(i as int)[0] == full[i as int]);
            assert(full.skip(i as int).skip(1) =~= full.skip(i as int + 1));
        }
        let kernel = op_to_kernel(op);
        match kernel {
            Some(k) => {
                proof {
                    lemma_op_kernel_wf(full[i as int], n);
                    lemma_small_pows2();
                }
                let arity = k.targets.len();
                let gate = QuantumGate::new("G", k.matrix, arity);
                register.apply_gate(&gate, &k.targets);
            },
            None => {},
        }
        i += 1;
    }
    proof {
        assert(full.skip(operations@.len() as int) =~= Seq::<GateOp>::empty());
    }
    register.get_state()
}

/// The multi-threaded basic runtime: below the parallel threshold it
/// falls back to the register route; at or above it, each lowered
/// operation is applied with the data-parallel indexing primitive.
pub fn compute_basic_mt(num_qubits: usize, operations: &Vec<GateOp>) -> (r: Vec<Complex>)
    requires
        num_qubits <= MAX_QUBITS,
        num_qubits < PARALLEL_THRESHOLD ==> num_qubits <= MAX_DENSE_QUBITS,
        ops_wf(operations@, num_qubits as u64),
    ensures
        r@ == compute_basic_mt_s(num_qubits as u64, operations@),
{
    if num_qubits < PARALLEL_THRESHOLD {
        return compute_basic(num_qubits, operations);
    }
    let ghost n = num_qubits as u64;
    let ghost full = operations@;
    let mut state = initial_state(num_qubits);
    proof {
        assert(full.skip(0) =~= full);
        lemma_lower_wf(full, n);
    }
    let mut i: usize = 0;
    while i < operations.len()
        invariant
            i <= operations@.len(),
            n == num_qubits as u64,
            num_qubits <= MAX_QUBITS,
            full == operations@,
            ops_wf(full, n),
            state@.len() == 1u64 << n,
            exec_kernels_s(lower_s(full), initial_state_s(n), n) == exec_kernels_s(
                lower_s(full.skip(i as int)),
                state@,
                n,
            ),
        decreases operations@.len() - i,
    {
        let op = &operations[i];
        proof {
            assert(op_wf(full[i as int], n));
            assert(full.skip(i as int)[0] == full[i as int]);
            assert(full.skip(i as int).skip(1) =~= full.skip(i as int + 1));
        }
        let kernel = op_to_kernel(op);
        match kernel {
            Some(k) => {
                proof {
                    lemma_op_kernel_wf(full[i as int], n);
                    let rest = lower_s(full.skip(i as int + 1));
                    assert(lower_s(full.skip(i as int)) == seq![op_kernel_s(full[i as int])]
                        + rest);
                    assert((seq![op_kernel_s(full[i as int])] + rest)[0] == op_kernel_s(
                        full[i as int],
                    ));
                    assert((seq![op_kernel_s(full[i as int])] + rest).skip(1) =~= rest);
                }
                let new_state = crate::apply::apply_gate_parallel(
                    &state,
                    &k.matrix,
                    &k.targets,
                    num_qubits,
                );
                proof {
                    assert(new_state@ =~= crate::apply::apply_gate_s(
                        state@,
                        k.matrix@,
                        k.targets@,
                        n,
                    ));
                }
                state = new_state;
            },
            None => {},
        }
        i += 1;
    }
    proof {
        assert(full.skip(operations@.len() as int) =~= Seq::<GateOp>::empty());
    }
    state
}


/// The display name of an operation.
pub open spec fn op_display_name_s(op: GateOp) -> Seq<char> {
    match op {
        GateOp::H(_) => "H"@,
        GateOp::X(_) => "X"@,
        GateOp::Y(_) => "Y"@,
        GateOp::Z(_) => "Z"@,
        GateOp::S(_) => "S"@,
        GateOp::T(_) => "T"@,
        GateOp::Sdg(_) => "S\u{2020}"@,
        GateOp::Tdg(_) => "T\u{2020}"@,
        GateOp::Sx(_) => "\u{221a}X"@,
        GateOp::Sxdg(_) => "\u{221a}X\u{2020}"@,
        GateOp::Rx(_, _) => "Rx"@,
        GateOp::Ry(_, _) => "Ry"@,
        GateOp::Rz(_, _) => "Rz"@,
        GateOp::P(_, _) => "P"@,
        GateOp::U1(_, _) => "U1"@,
        GateOp::U2(_, _, _) => "U2"@,
        GateOp::U3(_, _, _, _) => "U3"@,
        GateOp::CNOT(_, _) => "CNOT"@,
        GateOp::CZ(_, _) => "CZ"@,
        GateOp::SWAP(_, _) => "SWAP"@,
        GateOp::CRx(_, _, _) => "CRx"@,
        GateOp::CRy(_, _, _) => "CRy"@,
        GateOp::CRz(_, _, _) => "CRz"@,
        GateOp::CP(_, _, _) => "CP"@,
        GateOp::CCNOT(_, _, _) => "CCNOT"@,
        GateOp::CSWAP(_, _, _) => "CSWAP"@,
        GateOp::Measure(_, _) => "M"@,
        GateOp::Custom(g, _) => g.name@,
    }
}

/// The classical targets of an operation: only `Measure` has one.
pub open spec fn op_classical_targets_s(op: GateOp) -> Seq<usize> {
    match op {
        GateOp::Measure(_, c) => seq![c],
        _ => Seq::empty(),
    }
}

/// Whether an operation is outside the Clifford group (as a label for
/// stabiliser back ends; parametric families count as non-Clifford).
pub open spec fn op_non_clifford_s(op: GateOp) -> bool {
    match op {
        GateOp::T(_) => true,
        GateOp::Tdg(_) => true,
        GateOp::Sx(_) => true,
        GateOp::Sxdg(_) => true,
        GateOp::Rx(_, _) => true,
        GateOp::Ry(_, _) => true,
        GateOp::Rz(_, _) => true,
        GateOp::P(_, _) => true,
        GateOp::U1(_, _) => true,
        GateOp::U2(_, _, _) => true,
        GateOp::U3(_, _, _, _) => true,
        GateOp::CRx(_, _, _) => true,
        GateOp::CRy(_, _, _) => true,
        GateOp::CRz(_, _, _) => true,
        GateOp::CP(_, _, _) => true,
        _ => false,
    }
}

impl GateOp {
    /// The operation's display name.
    pub fn name(&self) -> (r: &str)
        ensures
            r@ == op_display_name_s(*self),
    {
        match self {
            GateOp::H(_) => "H",
            GateOp::X(_) => "X",
            GateOp::Y(_) => "Y",
            GateOp::Z(_) => "Z",
            GateOp::S(_) => "S",
            GateOp::T(_) => "T",
            GateOp::Sdg(_) => "S\u{2020}",
            GateOp::Tdg(_) => "T\u{2020}",
            GateOp::Sx(_) => "\u{221a}X",
            GateOp::Sxdg(_) => "\u{221a}X\u{2020}",
            GateOp::Rx(_, _) => "Rx",
            GateOp::Ry(_, _) => "Ry",
            GateOp::Rz(_, _) => "Rz",
            GateOp::P(_, _) => "P",
            GateOp::U1(_, _) => "U1",
            GateOp::U2(_, _, _) => "U2",
            GateOp::U3(_, _, _, _) => "U3",
            GateOp::CNOT(_, _) => "CNOT",
            GateOp::CZ(_, _) => "CZ",
            GateOp::SWAP(_, _) => "SWAP",
            GateOp::CRx(_, _, _) => "CRx",
            GateOp::CRy(_, _, _) => "CRy",
            GateOp::CRz(_, _, _) => "CRz",
            GateOp::CP(_, _, _) => "CP",
            GateOp::CCNOT(_, _, _) => "CCNOT",
            GateOp::CSWAP(_, _, _) => "CSWAP",
            GateOp::Measure(_, _) => "M",
            GateOp::Custom(gate, _) => gate.name.as_str(),
        }
    }

    /// The ordered quantum targets.
    pub fn quantum_targets(&self) -> (r: Vec<usize>)
        ensures
            r@ == op_targets_s(*self),
    {
        match self {
            GateOp::H(t) => one_target(*t),
            GateOp::X(t) => one_target(*t),
            GateOp::Y(t) => one_target(*t),
            GateOp::Z(t) => one_target(*t),
            GateOp::S(t) => one_target(*t),
            GateOp::T(t) => one_target(*t),
            GateOp::Sdg(t) => one_target(*t),
            GateOp::Tdg(t) => one_target(*t),
            GateOp::Sx(t) => one_target(*t),
            GateOp::Sxdg(t) => one_target(*t),
            GateOp::Rx(t, _) => one_target(*t),
            GateOp::Ry(t, _) => one_target(*t),
            GateOp::Rz(t, _) => one_target(*t),
            GateOp::P(t, _) => one_target(*t),
            GateOp::U1(t, _) => one_target(*t),
            GateOp::U2(t, _, _) => one_target(*t),
            GateOp::U3(t, _, _, _) => one_target(*t),
            GateOp::CNOT(c, t) => two_targets(*c, *t),
            GateOp::CZ(c, t) => two_targets(*c, *t),
            GateOp::SWAP(a, b) => two_targets(*a, *b),
            GateOp::CRx(c, t, _) => two_targets(*c, *t),
            GateOp::CRy(c, t, _) => two_targets(*c, *t),
            GateOp::CRz(c, t, _) => two_targets(*c, *t),
            GateOp::CP(c, t, _) => two_targets(*c, *t),
            GateOp::CCNOT(c1, c2, t) => three_targets(*c1, *c2, *t),
            GateOp::CSWAP(c, t1, t2) => three_targets(*c, *t1, *t2),
            GateOp::Measure(q, _) => one_target(*q),
            GateOp::Custom(_, targets) => crate::matrix::copy_targets(targets),
        }
    }

    /// The classical targets: only `Measure` has one.
    pub fn classical_targets(&self) -> (r: Vec<usize>)
        ensures
            r@ == op_classical_targets_s(*self),
    {
        match self {
            GateOp::Measure(_, c) => one_target(*c),
            _ => {
                let r: Vec<usize> = Vec::new();
                proof {
                    assert(r@ =~= Seq::<usize>::empty());
                }
                r
            },
        }
    }

    /// Whether the operation is a measurement.
    pub fn is_measurement(&self) -> (r: bool)
        ensures
            r == (*self is Measure),
    {
        matches!(self, GateOp::Measure(_, _))
    }

    /// Whether the operation is a user-defined gate.
    pub fn is_custom(&self) -> (r: bool)
        ensures
            r == (*self is Custom),
    {
        matches!(self, GateOp::Custom(_, _))
    }

    /// Whether the operation is outside the Clifford group.
    pub fn is_non_clifford(&self) -> (r: bool)
        ensures
            r == op_non_clifford_s(*self),
    {
        matches!(
            self,
            GateOp::T(_) | GateOp::Tdg(_) | GateOp::Sx(_) | GateOp::Sxdg(_) | GateOp::Rx(_, _)
                | GateOp::Ry(_, _) | GateOp::Rz(_, _) | GateOp::P(_, _) | GateOp::U1(_, _)
                | GateOp::U2(_, _, _) | GateOp::U3(_, _, _, _) | GateOp::CRx(_, _, _)
                | GateOp::CRy(_, _, _) | GateOp::CRz(_, _, _) | GateOp::CP(_, _, _)
        )
    }
}


/// The features a configuration renders, in order.
pub open spec fn config_features_s(c: RuntimeConfig) -> Seq<Seq<char>> {
    (if c.structure_aware {
        seq!["structure-aware"@]
    } else {
        Seq::empty()
    }) + (if c.batched && !c.structure_aware {
        seq!["batched"@]
    } else {
        Seq::empty()
    }) + (if c.simd {
        seq!["SIMD"@]
    } else {
        Seq::empty()
    }) + (if c.parallel {
        seq!["parallel"@]
    } else {
        Seq::empty()
    })
}

/// Feature names joined by `+`.
pub open spec fn join_plus_s(parts: Seq<Seq<char>>) -> Seq<char>
    decreases parts.len(),
{
    if parts.len() == 0 {
        Seq::empty()
    } else if parts.len() == 1 {
        parts[0]
    } else {
        join_plus_s(parts.drop_last()) + "+"@ + parts.last()
    }
}

/// The display label of a configuration: the feature set between
/// `Runtime[` and `]`, or `Runtime[basic]` when none is set.
pub open spec fn config_label_s(c: RuntimeConfig) -> Seq<char> {
    if config_features_s(c).len() == 0 {
        "Runtime["@ + "basic"@ + "]"@
    } else {
        "Runtime["@ + join_plus_s(config_features_s(c)) + "]"@
    }
}

impl RuntimeConfig {
    /// Render the feature set as `Runtime[structure-aware+SIMD+parallel]`,
    /// or `Runtime[basic]` when no feature is set.
    pub fn describe(&self) -> (r: String)
        ensures
            r@ == config_label_s(*self),
    {
        let ghost parts = config_features_s(*self);
        let mut features: Vec<&str> = Vec::new();
        proof {
            assert(features@.map_values(|f: &str| f@) =~= Seq::<Seq<char>>::empty());
        }
        if self.structure_aware {
            features.push("structure-aware");
        }
        if self.batched && !self.structure_aware {
            features.push("batched");
        }
        if self.simd {
            features.push("SIMD");
        }
        if self.parallel {
            features.push("parallel");
        }
        proof {
            assert(features@.map_values(|f: &str| f@) =~= parts);
        }
        let mut label = String::from_str("Runtime[");
        if features.len() == 0 {
            label.append("basic");
            label.append("]");
            proof {
                assert(label@ =~= config_label_s(*self));
            }
            return label;
        }
        let mut i: usize = 0;
        while i < features.len()
            invariant
                i <= features@.len(),
                features@.len() >= 1,
                parts == features@.map_values(|f: &str| f@),
                label@ == "Runtime["@ + join_plus_s(parts.take(i as int)),
            decreases features@.len() - i,
        {
            proof {
                assert(parts.take(i as int + 1).drop_last() =~= parts.take(i as int));
                assert(parts.take(i as int + 1).last() == parts[i as int]);
                assert(parts[i as int] == features@[i as int]@);
            }
            if i > 0 {
                label.append("+");
            }
            label.append(features[i]);
            proof {
                if i == 0 {
                    assert(label@ =~= "Runtime["@ + join_plus_s(parts.take(1)));
                } else {
                    assert(label@ =~= "Runtime["@ + join_plus_s(parts.take(i as int + 1)));
                }
            }
            i += 1;
        }
        label.append("]");
        proof {
            assert(parts.take(parts.len() as int) =~= parts);
            assert(label@ =~= config_label_s(*self));
        }
        label
    }
}

/// The two configurations agree on the optimisation features, so their
/// compute steps return the same state: the `simd` and `parallel`
/// features never change the result.
pub proof fn lemma_compute_feature_independent(
    c1: RuntimeConfig,
    c2: RuntimeConfig,
    n: u64,
    ops: Seq<GateOp>,
)
    requires
        c1.structure_aware == c2.structure_aware,
        c1.batched == c2.batched,
    ensures
        compute_s(c1, n, ops) == compute_s(c2, n, ops),
{
}

} // verus!
