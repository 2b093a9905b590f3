//! Kernel batches: sequential execution of a kernel list on an amplitude
//! buffer, and the single-pass fusion optimiser.

use vstd::prelude::*;
use crate::apply::{
    apply_gate_parallel, apply_gate_s, apply_gate_serial, apply_single_qubit_gate_simd,
    apply_single_qubit_gate_simd_parallel, MAX_QUBITS,
};
use crate::complex::Complex;
use crate::kernel::{can_fuse_s, fuse_s, kv_shape_wf, kv_targets_wf, kvs, Kernel, KernelV};

verus! {

/// A kernel can be applied to an `n`-qubit register.
pub open spec fn kv_app_wf(k: KernelV, n: u64) -> bool {
    kv_shape_wf(k) && kv_targets_wf(k, n)
}

/// Every kernel of the list can be applied to an `n`-qubit register.
pub open spec fn kvs_app_wf(ks: Seq<KernelV>, n: u64) -> bool {
    forall|i: int| 0 <= i < ks.len() ==> kv_app_wf(#[trigger] ks[i], n)
}

/// Every kernel of the list has a well-shaped matrix.
pub open spec fn kvs_shape_wf(ks: Seq<KernelV>) -> bool {
    forall|i: int| 0 <= i < ks.len() ==> kv_shape_wf(#[trigger] ks[i])
}

/// The state after applying every kernel of the list, left to right.
pub open spec fn exec_kernels_s(ks: Seq<KernelV>, state: Seq<Complex>, n: u64) -> Seq<Complex>
    decreases ks.len(),
{
    if ks.len() == 0 {
        state
    } else {
        exec_kernels_s(ks.skip(1), apply_gate_s(state, ks[0].matrix, ks[0].targets, n), n)
    }
}

/// One left-to-right fusion pass: each adjacent fusible pair is replaced by
/// its fusion and the cursor skips both; otherwise the kernel is kept and
/// the cursor advances by one.
pub open spec fn fuse_pass_s(ks: Seq<KernelV>) -> Seq<KernelV>
    decreases ks.len(),
{
    if ks.len() == 0 {
        Seq::empty()
    } else if ks.len() >= 2 && can_fuse_s(ks[0], ks[1]) {
        seq![fuse_s(ks[0], ks[1])] + fuse_pass_s(ks.skip(2))
    } else {
        seq![ks[0]] + fuse_pass_s(ks.skip(1))
    }
}

/// A fusion pass never lengthens the list, and shortens it exactly when
/// some pair fused.
pub proof fn lemma_fuse_pass_len(ks: Seq<KernelV>)
    ensures
        fuse_pass_s(ks).len() <= ks.len(),
        fuse_pass_s(ks) == ks <==> fuse_pass_s(ks).len() == ks.len(),
    decreases ks.len(),
{
    if ks.len() == 0 {
        assert(fuse_pass_s(ks) =~= ks);
    } else if ks.len() >= 2 && can_fuse_s(ks[0], ks[1]) {
        lemma_fuse_pass_len(ks.skip(2));
    } else {
        lemma_fuse_pass_len(ks.skip(1));
        if fuse_pass_s(ks.skip(1)) == ks.skip(1) {
            assert(seq![ks[0]] + ks.skip(1) =~= ks);
        }
        if fuse_pass_s(ks).len() == ks.len() {
            assert(fuse_pass_s(ks.skip(1)).len() == ks.skip(1).len());
            assert(fuse_pass_s(ks) =~= ks);
        }
    }
}

/// Apply one kernel to a buffer with the serial indexing primitive,
/// returning a freshly allocated buffer.
pub fn apply_kernel(state: &Vec<Complex>, kernel: &Kernel, num_qubits: usize) -> (r: Vec<Complex>)
    requires
        num_qubits <= MAX_QUBITS,
        state@.len() == 1u64 << (num_qubits as u64),
        kv_app_wf(kernel@, num_qubits as u64),
    ensures
        r@ == apply_gate_s(state@, kernel@.matrix, kernel@.targets, num_qubits as u64),
{
    apply_gate_serial(state, &kernel.matrix, &kernel.targets, num_qubits)
}

/// Apply one kernel with the data-parallel indexing primitive; the result
/// is the same buffer the serial primitive returns.
pub fn apply_kernel_parallel(
    state: &Vec<Complex>,
    kernel: &Kernel,
    num_qubits: usize,
) -> (r: Vec<Complex>)
    requires
        num_qubits <= MAX_QUBITS,
        state@.len() == 1u64 << (num_qubits as u64),
        kv_app_wf(kernel@, num_qubits as u64),
    ensures
        r@ == apply_gate_s(state@, kernel@.matrix, kernel@.targets, num_qubits as u64),
{
    let r = apply_gate_parallel(state, &kernel.matrix, &kernel.targets, num_qubits);
    proof {
        assert(r@ =~= apply_gate_s(state@, kernel@.matrix, kernel@.targets, num_qubits as u64));
    }
    r
}

/// Execute a kernel list left to right on a buffer.  When `use_simd` is
/// set, single-qubit kernels go through the in-place fast path; when
/// `use_parallel` is set, the data-parallel primitives are used.  Every
/// combination returns exactly the same buffer.
pub fn execute_kernel_list(
    state: &mut Vec<Complex>,
    kernels: &Vec<Kernel>,
    num_qubits: usize,
    use_simd: bool,
    use_parallel: bool,
)
    requires
        num_qubits <= MAX_QUBITS,
        old(state)@.len() == 1u64 << (num_qubits as u64),
        kvs_app_wf(kvs(kernels@), num_qubits as u64),
    ensures
        final(state)@ == exec_kernels_s(kvs(kernels@), old(state)@, num_qubits as u64),
{
    let ghost n = num_qubits as u64;
    let ghost full = kvs(kernels@);
    proof {
        assert(full.skip(0) =~= full);
    }
    let mut i: usize = 0;
    while i < kernels.len()
        invariant
            i <= kernels@.len(),
            n == num_qubits as u64,
            n <= MAX_QUBITS,
            full == kvs(kernels@),
            kvs_app_wf(full, n),
            state@.len() == 1u64 << n,
            exec_kernels_s(full, old(state)@, n) == exec_kernels_s(
                full.skip(i as int),
                state@,
                n,
            ),
        decreases kernels@.len() - i,
    {
        let kernel = &kernels[i];
        proof {
            assert(full[i as int] == kernel@);
            assert(full.skip(i as int)[0] == full[i as int]);
            assert(full.skip(i as int).skip(1) =~= full.skip(i as int + 1));
        }
        if use_simd && kernel.targets.len() == 1 {
            let t = kernel.targets[0];
            proof {
                assert(kernel@.targets =~= seq![t]);
            }
            if use_parallel {
                apply_single_qubit_gate_simd_parallel(state, &kernel.matrix, t, num_qubits);
            } else {
                apply_single_qubit_gate_simd(state, &kernel.matrix, t, num_qubits);
            }
        } else if use_parallel {
            let r = apply_kernel_parallel(state, kernel, num_qubits);
            *state = r;
        } else {
            let r = apply_kernel(state, kernel, num_qubits);
            *state = r;
        }
        i += 1;
    }
    proof {
        assert(full.skip(kernels@.len() as int) =~= Seq::<KernelV>::empty());
    }
}

/// A batch of kernels over a fixed register width, with the single-pass
/// fusion optimiser.
pub struct KernelBatch {
    pub kernels: Vec<Kernel>,
    pub num_qubits: usize,
}

impl KernelBatch {
    /// Whether every kernel of the batch fits the register.
    pub open spec fn wf(&self) -> bool {
        self.num_qubits <= MAX_QUBITS && kvs_app_wf(kvs(self.kernels@), self.num_qubits as u64)
    }

    /// An empty batch.
    pub fn new(num_qubits: usize) -> (r: KernelBatch)
        requires
            num_qubits <= MAX_QUBITS,
        ensures
            r.wf(),
            kvs(r.kernels@) == Seq::<KernelV>::empty(),
            r.num_qubits == num_qubits,
    {
        let r = KernelBatch { kernels: Vec::new(), num_qubits };
        proof {
            assert(kvs(r.kernels@) =~= Seq::<KernelV>::empty());
        }
        r
    }

    /// Append a kernel.
    pub fn add(&mut self, kernel: Kernel)
        requires
            old(self).wf(),
            kv_app_wf(kernel@, old(self).num_qubits as u64),
        ensures
            final(self).wf(),
            final(self).num_qubits == old(self).num_qubits,
            kvs(final(self).kernels@) == kvs(old(self).kernels@).push(kernel@),
    {
        self.kernels.push(kernel);
        proof {
            assert(kvs(self.kernels@) =~= kvs(old(self).kernels@).push(kernel@));
        }
    }

    /// The number of kernels.
    pub fn len(&self) -> (r: usize)
        ensures
            r == self.kernels@.len(),
    {
        self.kernels.len()
    }

    /// Whether the batch holds no kernel.
    pub fn is_empty(&self) -> (r: bool)
        ensures
            r == (self.kernels@.len() == 0),
    {
        self.kernels.is_empty()
    }

    /// The kernels, in order.
    pub fn kernels(&self) -> (r: &Vec<Kernel>)
        ensures
            r@ == self.kernels@,
    {
        &self.kernels
    }

    /// The register width.
    pub fn num_qubits(&self) -> (r: usize)
        ensures
            r == self.num_qubits,
    {
        self.num_qubits
    }

    /// One left-to-right fusion pass over the kernel list.
    pub fn optimize(&mut self)
        requires
            old(self).wf(),
        ensures
            final(self).wf(),
            final(self).num_qubits == old(self).num_qubits,
            kvs(final(self).kernels@) == fuse_pass_s(kvs(old(self).kernels@)),
    {
        if self.kernels.len() < 2 {
            proof {
                lemma_fuse_pass_trivial(kvs(self.kernels@));
            }
            return;
        }
        proof {
            assert forall|t: int| 0 <= t < kvs(self.kernels@).len() implies kv_shape_wf(
                #[trigger] kvs(self.kernels@)[t],
            ) by {
                assert(kv_app_wf(kvs(self.kernels@)[t], self.num_qubits as u64));
            }
        }
        let optimized = fuse_pass(&self.kernels);
        proof {
            lemma_fuse_pass_wf(kvs(self.kernels@), self.num_qubits as u64);
        }
        self.kernels = optimized;
    }

    /// Execute the batch serially on a buffer.
    pub fn execute(&self, state: &mut Vec<Complex>)
        requires
            self.wf(),
            old(state)@.len() == 1u64 << (self.num_qubits as u64),
        ensures
            final(state)@ == exec_kernels_s(kvs(self.kernels@), old(state)@, self.num_qubits as u64),
    {
        execute_kernel_list(state, &self.kernels, self.num_qubits, false, false);
    }

    /// Execute the batch with the data-parallel primitive.
    pub fn execute_parallel(&self, state: &mut Vec<Complex>)
        requires
            self.wf(),
            old(state)@.len() == 1u64 << (self.num_qubits as u64),
        ensures
            final(state)@ == exec_kernels_s(kvs(self.kernels@), old(state)@, self.num_qubits as u64),
    {
        execute_kernel_list(state, &self.kernels, self.num_qubits, false, true);
    }

    /// Execute the batch, routing single-qubit kernels through the
    /// in-place fast path.
    pub fn execute_simd(&self, state: &mut Vec<Complex>)
        requires
            self.wf(),
            old(state)@.len() == 1u64 << (self.num_qubits as u64),
        ensures
            final(state)@ == exec_kernels_s(kvs(self.kernels@), old(state)@, self.num_qubits as u64),
    {
        execute_kernel_list(state, &self.kernels, self.num_qubits, true, false);
    }

    /// Execute the batch with the fast path and the data-parallel
    /// primitives together.
    pub fn execute_simd_parallel(&self, state: &mut Vec<Complex>)
        requires
            self.wf(),
            old(state)@.len() == 1u64 << (self.num_qubits as u64),
        ensures
            final(state)@ == exec_kernels_s(kvs(self.kernels@), old(state)@, self.num_qubits as u64),
    {
        execute_kernel_list(state, &self.kernels, self.num_qubits, true, true);
    }
}

/// On lists shorter than two kernels a fusion pass changes nothing.
pub proof fn lemma_fuse_pass_trivial(ks: Seq<KernelV>)
    requires
        ks.len() < 2,
    ensures
        fuse_pass_s(ks) == ks,
{
    if ks.len() == 0 {
        assert(fuse_pass_s(ks) =~= ks);
    } else {
        assert(ks.skip(1) =~= Seq::<KernelV>::empty());
        assert(fuse_pass_s(Seq::<KernelV>::empty()) == Seq::<KernelV>::empty());
        assert(fuse_pass_s(ks) == seq![ks[0]] + fuse_pass_s(ks.skip(1)));
        assert(fuse_pass_s(ks) =~= ks);
    }
}

/// A fusion pass keeps every kernel applicable: fusing two single-qubit
/// kernels yields a single-qubit kernel on the same qubit.
pub proof fn lemma_fuse_pass_wf(ks: Seq<KernelV>, n: u64)
    requires
        kvs_app_wf(ks, n),
    ensures
        kvs_app_wf(fuse_pass_s(ks), n),
    decreases ks.len(),
{
    if ks.len() == 0 {
    } else if ks.len() >= 2 && can_fuse_s(ks[0], ks[1]) {
        assert(kvs_app_wf(ks.skip(2), n));
        lemma_fuse_pass_wf(ks.skip(2), n);
        let f = fuse_s(ks[0], ks[1]);
        assert(kv_app_wf(ks[0], n));
        assert(kv_app_wf(ks[1], n));
        assert(kv_app_wf(f, n));
    } else {
        assert(kvs_app_wf(ks.skip(1), n));
        lemma_fuse_pass_wf(ks.skip(1), n);
        assert(kv_app_wf(ks[0], n));
    }
}

/// A fusion pass keeps every matrix well-shaped.
pub proof fn lemma_fuse_pass_shape_wf(ks: Seq<KernelV>)
    requires
        kvs_shape_wf(ks),
    ensures
        kvs_shape_wf(fuse_pass_s(ks)),
    decreases ks.len(),
{
    if ks.len() == 0 {
    } else if ks.len() >= 2 && can_fuse_s(ks[0], ks[1]) {
        assert(kvs_shape_wf(ks.skip(2)));
        lemma_fuse_pass_shape_wf(ks.skip(2));
        assert(kv_shape_wf(ks[0]));
        assert(kv_shape_wf(ks[1]));
        assert(kv_shape_wf(fuse_s(ks[0], ks[1])));
    } else {
        assert(kvs_shape_wf(ks.skip(1)));
        lemma_fuse_pass_shape_wf(ks.skip(1));
        assert(kv_shape_wf(ks[0]));
    }
}

/// One fusion pass over a kernel vector.
pub fn fuse_pass(kernels: &Vec<Kernel>) -> (r: Vec<Kernel>)
    requires
        kvs_shape_wf(kvs(kernels@)),
    ensures
        kvs(r@) == fuse_pass_s(kvs(kernels@)),
{
    let ghost full = kvs(kernels@);
    let mut out: Vec<Kernel> = Vec::new();
    proof {
        assert(full.skip(0) =~= full);
        assert(kvs(out@) =~= Seq::<KernelV>::empty());
        assert(kvs(out@) + fuse_pass_s(full) =~= fuse_pass_s(full));
    }
    let mut i: usize = 0;
    while i < kernels.len()
        invariant
            i <= kernels@.len(),
            full == kvs(kernels@),
            kvs_shape_wf(full),
            fuse_pass_s(full) == kvs(out@) + fuse_pass_s(full.skip(i as int)),
        decreases kernels@.len() - i,
    {
        let current = &kernels[i];
        proof {
            assert(full[i as int] == current@);
            assert(full.skip(i as int)[0] == full[i as int]);
        }
        if i + 1 < kernels.len() {
            let next = &kernels[i + 1];
            proof {
                assert(full[i as int + 1] == next@);
                assert(full.skip(i as int)[1] == full[i as int + 1]);
            }
            let fused = current.fuse(next);
            match fused {
                Some(f) => {
                    let ghost prev = kvs(out@);
                    proof {
                        assert(full.skip(i as int).skip(2) =~= full.skip(i as int + 2));
                        assert(fuse_pass_s(full.skip(i as int)) == seq![fuse_s(
                            full[i as int],
                            full[i as int + 1],
                        )] + fuse_pass_s(full.skip(i as int + 2)));
                    }
                    out.push(f);
                    proof {
                        assert(kvs(out@) =~= prev + seq![fuse_s(
                            full[i as int],
                            full[i as int + 1],
                        )]);
                        assert((prev + seq![fuse_s(full[i as int], full[i as int + 1])])
                            + fuse_pass_s(full.skip(i as int + 2)) =~= prev + (seq![fuse_s(
                            full[i as int],
                            full[i as int + 1],
                        )] + fuse_pass_s(full.skip(i as int + 2))));
                    }
                    i += 2;
                    continue;
                },
                None => {},
            }
        }
        proof {
            assert(full.skip(i as int).skip(1) =~= full.skip(i as int + 1));
            assert(fuse_pass_s(full.skip(i as int)) == seq![full[i as int]] + fuse_pass_s(
                full.skip(i as int + 1),
            ));
        }
        let ghost prev = kvs(out@);
        out.push(current.clone());
        proof {
            assert(kvs(out@) =~= prev + seq![full[i as int]]);
            assert((prev + seq![full[i as int]]) + fuse_pass_s(full.skip(i as int + 1)) =~= prev
                + (seq![full[i as int]] + fuse_pass_s(full.skip(i as int + 1))));
        }
        i += 1;
    }
    proof {
        assert(full.skip(kernels@.len() as int) =~= Seq::<KernelV>::empty());
        assert(fuse_pass_s(Seq::<KernelV>::empty()) =~= Seq::<KernelV>::empty());
        assert(kvs(out@) =~= fuse_pass_s(full));
    }
    out
}

} // verus!
