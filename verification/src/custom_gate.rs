//! User-defined gates: either an explicit matrix, or a composite sequence
//! of catalogue operations with sub-target wirings, materialised to a
//! matrix by repeated full-operator lifting and left multiplication onto
//! the identity.

use vstd::prelude::*;
use crate::apply::MAX_QUBITS;
use crate::gates::{
    cnot, cz, fredkin, hadamard, pauli_x, pauli_y, pauli_z, s_gate, swap, t_gate, toffoli,
    cnot_s, cz_s, fredkin_s, hadamard_s, pauli_x_s, pauli_y_s, pauli_z_s, s_gate_s, swap_s,
    t_gate_s, toffoli_s,
};
use crate::matrix::{identity_s, matmul_s, ms_wf, Matrix, MatrixS};
use crate::register::{build_full_operator, gate_wf, lift_s, QuantumGate, MAX_DENSE_QUBITS};

verus! {

/// A catalogue operation usable inside a composite gate.
#[derive(Clone, Copy, Debug, PartialEq, Eq, Structural)]
pub enum CompositeOp {
    H,
    X,
    Y,
    Z,
    S,
    T,
    CNOT,
    CZ,
    SWAP,
    CCNOT,
    CSWAP,
}

/// The matrix of a composite operation.
pub open spec fn comp_matrix_s(op: CompositeOp) -> MatrixS {
    match op {
        CompositeOp::H => hadamard_s(),
        CompositeOp::X => pauli_x_s(),
        CompositeOp::Y => pauli_y_s(),
        CompositeOp::Z => pauli_z_s(),
        CompositeOp::S => s_gate_s(),
        CompositeOp::T => t_gate_s(),
        CompositeOp::CNOT => cnot_s(),
        CompositeOp::CZ => cz_s(),
        CompositeOp::SWAP => swap_s(),
        CompositeOp::CCNOT => toffoli_s(),
        CompositeOp::CSWAP => fredkin_s(),
    }
}

/// The arity of a composite operation.
pub open spec fn comp_arity_s(op: CompositeOp) -> int {
    match op {
        CompositeOp::H => 1,
        CompositeOp::X => 1,
        CompositeOp::Y => 1,
        CompositeOp::Z => 1,
        CompositeOp::S => 1,
        CompositeOp::T => 1,
        CompositeOp::CNOT => 2,
        CompositeOp::CZ => 2,
        CompositeOp::SWAP => 2,
        CompositeOp::CCNOT => 3,
        CompositeOp::CSWAP => 3,
    }
}

/// The catalogue gate of a composite operation.
fn comp_gate(op: &CompositeOp) -> (r: QuantumGate)
    ensures
        gate_wf(&r),
        r.matrix@ == comp_matrix_s(*op),
        r.num_qubits == comp_arity_s(*op),
{
    let g = match op {
        CompositeOp::H => hadamard(),
        CompositeOp::X => pauli_x(),
        CompositeOp::Y => pauli_y(),
        CompositeOp::Z => pauli_z(),
        CompositeOp::S => s_gate(),
        CompositeOp::T => t_gate(),
        CompositeOp::CNOT => cnot(),
        CompositeOp::CZ => cz(),
        CompositeOp::SWAP => swap(),
        CompositeOp::CCNOT => toffoli(),
        CompositeOp::CSWAP => fredkin(),
    };
    g
}

/// Well-formedness of a composite operation list over `arity` qubits:
/// the sub-targets of each operation match its arity, lie within
/// `[0, arity)` and are pairwise distinct.
pub open spec fn composite_ops_wf(ops: Seq<(CompositeOp, Vec<usize>)>, arity: int) -> bool {
    forall|i: int|
        0 <= i < ops.len() ==> {
            &&& (#[trigger] ops[i]).1@.len() == comp_arity_s(ops[i].0)
            &&& forall|t: int| 0 <= t < ops[i].1@.len() ==> (#[trigger] ops[i].1@[t]) < arity
            &&& forall|a: int, b: int|
                0 <= a < b < ops[i].1@.len() ==> ops[i].1@[a] != ops[i].1@[b]
        }
}

/// The materialised matrix of a composite: the product, in reverse order,
/// of the lifted operations, seeded by the identity.
pub open spec fn composite_matrix_s(ops: Seq<(CompositeOp, Vec<usize>)>, n: u64) -> MatrixS
    decreases ops.len(),
{
    if ops.len() == 0 {
        identity_s((1u64 << n) as int)
    } else {
        matmul_s(
            lift_s(comp_matrix_s(ops.last().0), ops.last().1@, n),
            composite_matrix_s(ops.drop_last(), n),
        )
    }
}

/// The definition of a user gate: an explicit matrix, or a composite
/// sequence of catalogue operations with sub-target wirings.
pub enum CustomGateDefinition {
    Matrix(Matrix),
    Composite(Vec<(CompositeOp, Vec<usize>)>),
}

/// A user-defined gate.
pub struct CustomGate {
    pub name: String,
    pub num_qubits: usize,
    pub definition: CustomGateDefinition,
}

/// The matrix a custom gate materialises to.
pub open spec fn custom_matrix_s(g: &CustomGate) -> MatrixS {
    match g.definition {
        CustomGateDefinition::Matrix(m) => m@,
        CustomGateDefinition::Composite(ops) => composite_matrix_s(ops@, g.num_qubits as u64),
    }
}

impl CustomGate {
    /// Well-formedness of a custom gate.
    pub open spec fn wf(&self) -> bool {
        match self.definition {
            CustomGateDefinition::Matrix(m) => {
                &&& self.num_qubits <= MAX_QUBITS
                &&& ms_wf(m@)
                &&& m@.rows == m@.cols
                &&& m@.cols == 1u64 << (self.num_qubits as u64)
            },
            CustomGateDefinition::Composite(ops) => {
                &&& self.num_qubits <= MAX_DENSE_QUBITS
                &&& composite_ops_wf(ops@, self.num_qubits as int)
                &&& forall|i: int|
                    0 <= i < ops@.len() ==> (#[trigger] ops@[i]).1@.len() <= self.num_qubits
            },
        }
    }

    /// Build a custom gate from an explicit matrix whose side is a known
    /// power of two.
    pub fn from_matrix(name: &str, matrix: Matrix) -> (r: CustomGate)
        requires
            ms_wf(matrix@),
            matrix@.rows == matrix@.cols,
            exists|k: u64| 0 <= k <= MAX_QUBITS && matrix@.rows == 1u64 << k,
        ensures
            r.wf(),
            r.name@ == name@,
            r.definition is Matrix,
            custom_matrix_s(&r) == matrix@,
            matrix@.rows == 1u64 << (r.num_qubits as u64),
    {
        let g = QuantumGate::from_matrix(name, matrix);
        CustomGate {
            name: g.name,
            num_qubits: g.num_qubits,
            definition: CustomGateDefinition::Matrix(g.matrix),
        }
    }

    /// Record a composite gate from a list of catalogue operations with
    /// sub-target wirings.
    pub fn from_composite(
        name: &str,
        num_qubits: usize,
        ops: Vec<(CompositeOp, Vec<usize>)>,
    ) -> (r: CustomGate)
        requires
            num_qubits <= MAX_DENSE_QUBITS,
            composite_ops_wf(ops@, num_qubits as int),
        ensures
            r.wf(),
            r.name@ == name@,
            r.num_qubits == num_qubits,
            r.definition is Composite,
            r.definition->Composite_0@ == ops@,
    {
        proof {
            assert forall|i: int| 0 <= i < ops@.len() implies (#[trigger] ops@[i]).1@.len()
                <= num_qubits by {
                assert(comp_arity_s(ops@[i].0) <= 3);
                if num_qubits < 3 {
                    if ops@[i].1@.len() > num_qubits {
                        if ops@[i].1@.len() == 2 {
                            assert(ops@[i].1@[0] != ops@[i].1@[1]);
                            assert(ops@[i].1@[0] < num_qubits && ops@[i].1@[1] < num_qubits);
                        } else {
                            assert(ops@[i].1@[0] != ops@[i].1@[1]);
                            assert(ops@[i].1@[0] != ops@[i].1@[2]);
                            assert(ops@[i].1@[1] != ops@[i].1@[2]);
                            assert(ops@[i].1@[0] < num_qubits);
                            assert(ops@[i].1@[1] < num_qubits);
                            assert(ops@[i].1@[2] < num_qubits);
                        }
                    }
                }
            }
        }
        CustomGate {
            name: name.to_owned(),
            num_qubits,
            definition: CustomGateDefinition::Composite(ops),
        }
    }

    /// Materialise to a named `QuantumGate`: an explicit matrix
    /// is used as it is; a composite is the reverse-order product of its
    /// lifted operations.
    pub fn to_quantum_gate(&self) -> (r: QuantumGate)
        requires
            self.wf(),
        ensures
            gate_wf(&r),
            r.name@ == self.name@,
            r.num_qubits == self.num_qubits,
            r.matrix@ == custom_matrix_s(self),
    {
        match &self.definition {
            CustomGateDefinition::Matrix(matrix) => {
                QuantumGate::new(self.name.as_str(), matrix.clone(), self.num_qubits)
            },
            CustomGateDefinition::Composite(ops) => {
                let matrix = compute_composite_matrix(ops, self.num_qubits);
                QuantumGate::new(self.name.as_str(), matrix, self.num_qubits)
            },
        }
    }
}

/// Materialise a composite operation list over `num_qubits` qubits.
fn compute_composite_matrix(
    ops: &Vec<(CompositeOp, Vec<usize>)>,
    num_qubits: usize,
) -> (r: Matrix)
    requires
        num_qubits <= MAX_DENSE_QUBITS,
        composite_ops_wf(ops@, num_qubits as int),
        forall|i: int| 0 <= i < ops@.len() ==> (#[trigger] ops@[i]).1@.len() <= num_qubits,
    ensures
        ms_wf(r@),
        r@.rows == 1u64 << (num_qubits as u64),
        r@.cols == 1u64 << (num_qubits as u64),
        r@ == composite_matrix_s(ops@, num_qubits as u64),
{
    let ghost n = num_qubits as u64;
    proof {
        crate::apply::lemma_pow_small(n);
        assert((1usize << num_qubits) == (1u64 << n) && (1u64 << n) <= 4096) by (bit_vector)
            requires
                num_qubits == n,
                n <= 12,
        ;
        assert(((1u64 << n) as int) * ((1u64 << n) as int) <= 4096 * 4096) by (nonlinear_arith)
            requires
                1 <= (1u64 << n) <= 4096,
        ;
    }
    let dim: usize = 1usize << num_qubits;
    let mut result = Matrix::identity(dim);
    let mut i: usize = 0;
    while i < ops.len()
        invariant
            i <= ops@.len(),
            n == num_qubits as u64,
            num_qubits <= MAX_DENSE_QUBITS,
            composite_ops_wf(ops@, num_qubits as int),
            forall|t: int| 0 <= t < ops@.len() ==> (#[trigger] ops@[t]).1@.len() <= num_qubits,
            dim == 1u64 << n,
            ((1u64 << n) as int) * ((1u64 << n) as int) <= usize::MAX,
            ms_wf(result@),
            result@.rows == 1u64 << n,
            result@.cols == 1u64 << n,
            result@ == composite_matrix_s(ops@.take(i as int), n),
        decreases ops@.len() - i,
    {
        let op = &ops[i].0;
        let targets = &ops[i].1;
        let gate = comp_gate(op);
        proof {
            assert(ops@[i as int].1@.len() == comp_arity_s(ops@[i as int].0));
            assert(gate.matrix@.cols == 1u64 << (targets@.len() as u64));
        }
        let full_gate = build_full_operator(&gate.matrix, targets, num_qubits);
        let product = full_gate.dot(&result);
        match product {
            Some(m) => {
                proof {
                    assert(ops@.take(i as int + 1).drop_last() =~= ops@.take(i as int));
                    assert(ops@.take(i as int + 1).last() == ops@[i as int]);
                    assert(m@ =~= matmul_s(
                        lift_s(comp_matrix_s(ops@[i as int].0), ops@[i as int].1@, n),
                        composite_matrix_s(ops@.take(i as int), n),
                    ));
                }
                result = m;
            },
            None => {
                proof {
                    assert(false);
                }
            },
        }
        i += 1;
    }
    proof {
        assert(ops@.take(ops@.len() as int) =~= ops@);
    }
    result
}

/// A fluent builder of composite custom gates.
pub struct CustomGateBuilder {
    pub name: String,
    pub num_qubits: usize,
    pub ops: Vec<(CompositeOp, Vec<usize>)>,
}

impl CustomGateBuilder {
    /// Start a builder for a gate over `num_qubits` qubits.
    pub fn new(name: &str, num_qubits: usize) -> (r: CustomGateBuilder)
        ensures
            r.name@ == name@,
            r.num_qubits == num_qubits,
            r.ops@.len() == 0,
    {
        CustomGateBuilder { name: name.to_owned(), num_qubits, ops: Vec::new() }
    }

    /// Append one operation with its sub-targets.
    fn push_op(self, op: CompositeOp, targets: Vec<usize>) -> (r: CustomGateBuilder)
        ensures
            r.name@ == self.name@,
            r.num_qubits == self.num_qubits,
            r.ops@.len() == self.ops@.len() + 1,
            r.ops@.take(self.ops@.len() as int) == self.ops@,
            r.ops@.last().0 == op,
            r.ops@.last().1@ == targets@,
    {
        let mut ops = self.ops;
        let ghost prev = ops@;
        ops.push((op, targets));
        proof {
            assert(ops@.take(prev.len() as int) =~= prev);
        }
        CustomGateBuilder { name: self.name, num_qubits: self.num_qubits, ops }
    }

    /// Append a Hadamard on `target`.
    pub fn h(self, target: usize) -> (r: CustomGateBuilder)
        ensures
            builder_step(&self, &r, CompositeOp::H, seq![target]),
    {
        let mut t: Vec<usize> = Vec::new();
        t.push(target);
        self.push_op(CompositeOp::H, t)
    }

    /// Append a Pauli X on `target`.
    pub fn x(self, target: usize) -> (r: CustomGateBuilder)
        ensures
            builder_step(&self, &r, CompositeOp::X, seq![target]),
    {
        let mut t: Vec<usize> = Vec::new();
        t.push(target);
        self.push_op(CompositeOp::X, t)
    }

    /// Append a Pauli Y on `target`.
    pub fn y(self, target: usize) -> (r: CustomGateBuilder)
        ensures
            builder_step(&self, &r, CompositeOp::Y, seq![target]),
    {
        let mut t: Vec<usize> = Vec::new();
        t.push(target);
        self.push_op(CompositeOp::Y, t)
    }

    /// Append a Pauli Z on `target`.
    pub fn z(self, target: usize) -> (r: CustomGateBuilder)
        ensures
            builder_step(&self, &r, CompositeOp::Z, seq![target]),
    {
        let mut t: Vec<usize> = Vec::new();
        t.push(target);
        self.push_op(CompositeOp::Z, t)
    }

    /// Append an S on `target`.
    pub fn s(self, target: usize) -> (r: CustomGateBuilder)
        ensures
            builder_step(&self, &r, CompositeOp::S, seq![target]),
    {
        let mut t: Vec<usize> = Vec::new();
        t.push(target);
        self.push_op(CompositeOp::S, t)
    }

    /// Append a T on `target`.
    pub fn t(self, target: usize) -> (r: CustomGateBuilder)
        ensures
            builder_step(&self, &r, CompositeOp::T, seq![target]),
    {
        let mut t: Vec<usize> = Vec::new();
        t.push(target);
        self.push_op(CompositeOp::T, t)
    }

    /// Append a CNOT on `(control, target)`.
    pub fn cnot(self, control: usize, target: usize) -> (r: CustomGateBuilder)
        ensures
            builder_step(&self, &r, CompositeOp::CNOT, seq![control, target]),
    {
        let mut t: Vec<usize> = Vec::new();
        t.push(control);
        t.push(target);
        proof {
            assert(t@ =~= seq![control, target]);
        }
        self.push_op(CompositeOp::CNOT, t)
    }

    /// Append a CZ on `(control, target)`.
    pub fn cz(self, control: usize, target: usize) -> (r: CustomGateBuilder)
        ensures
            builder_step(&self, &r, CompositeOp::CZ, seq![control, target]),
    {
        let mut t: Vec<usize> = Vec::new();
        t.push(control);
        t.push(target);
        proof {
            assert(t@ =~= seq![control, target]);
        }
        self.push_op(CompositeOp::CZ, t)
    }

    /// Append a SWAP on `(a, b)`.
    pub fn swap(self, a: usize, b: usize) -> (r: CustomGateBuilder)
        ensures
            builder_step(&self, &r, CompositeOp::SWAP, seq![a, b]),
    {
        let mut t: Vec<usize> = Vec::new();
        t.push(a);
        t.push(b);
        proof {
            assert(t@ =~= seq![a, b]);
        }
        self.push_op(CompositeOp::SWAP, t)
    }

    /// Append a Toffoli on `(c1, c2, target)`.
    pub fn ccnot(self, c1: usize, c2: usize, target: usize) -> (r: CustomGateBuilder)
        ensures
            builder_step(&self, &r, CompositeOp::CCNOT, seq![c1, c2, target]),
    {
        let mut t: Vec<usize> = Vec::new();
        t.push(c1);
        t.push(c2);
        t.push(target);
        proof {
            assert(t@ =~= seq![c1, c2, target]);
        }
        self.push_op(CompositeOp::CCNOT, t)
    }

    /// Append a Fredkin on `(control, t1, t2)`.
    pub fn cswap(self, control: usize, t1: usize, t2: usize) -> (r: CustomGateBuilder)
        ensures
            builder_step(&self, &r, CompositeOp::CSWAP, seq![control, t1, t2]),
    {
        let mut t: Vec<usize> = Vec::new();
        t.push(control);
        t.push(t1);
        t.push(t2);
        proof {
            assert(t@ =~= seq![control, t1, t2]);
        }
        self.push_op(CompositeOp::CSWAP, t)
    }

    /// Finish the builder into a composite custom gate.
    pub fn build(self) -> (r: CustomGate)
        requires
            self.num_qubits <= MAX_DENSE_QUBITS,
            composite_ops_wf(self.ops@, self.num_qubits as int),
        ensures
            r.wf(),
            r.name@ == self.name@,
            r.num_qubits == self.num_qubits,
            r.definition is Composite,
            r.definition->Composite_0@ == self.ops@,
    {
        CustomGate::from_composite(self.name.as_str(), self.num_qubits, self.ops)
    }
}

/// One builder step appended one operation and kept the rest.
pub open spec fn builder_step(
    before: &CustomGateBuilder,
    after: &CustomGateBuilder,
    op: CompositeOp,
    targets: Seq<usize>,
) -> bool {
    &&& after.name@ == before.name@
    &&& after.num_qubits == before.num_qubits
    &&& after.ops@.len() == before.ops@.len() + 1
    &&& after.ops@.take(before.ops@.len() as int) == before.ops@
    &&& after.ops@.last().0 == op
    &&& after.ops@.last().1@ == targets
}


/// The materialised composite matrix is square of side 2^n.
pub proof fn lemma_composite_dims(ops: Seq<(CompositeOp, Vec<usize>)>, n: u64)
    ensures
        composite_matrix_s(ops, n).rows == 1u64 << n,
        composite_matrix_s(ops, n).cols == 1u64 << n,
        ms_wf(composite_matrix_s(ops, n)),
    decreases ops.len(),
{
    if ops.len() == 0 {
    } else {
        lemma_composite_dims(ops.drop_last(), n);
    }
}

} // verus!
