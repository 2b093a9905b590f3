//! The structure-aware optimiser: commutation-driven reordering of
//! single-qubit kernels, multi-pass fusion to a fixed point, and greedy
//! partitioning into execution layers with pairwise-disjoint targets.

use vstd::prelude::*;
use crate::apply::MAX_QUBITS;
use crate::batch::{
    exec_kernels_s, execute_kernel_list, fuse_pass, fuse_pass_s, kv_app_wf, kvs_app_wf,
    kvs_shape_wf, lemma_fuse_pass_len, lemma_fuse_pass_shape_wf, lemma_fuse_pass_wf,
};
use crate::complex::Complex;
use crate::kernel::{commutes_s, kvs, shares_s, GateType, Kernel, KernelV};

verus! {

/// The iteration cap of the commutation-reordering pass.
pub const REORDER_MAX_ITERATIONS: usize = 100;

/// The iteration cap of the multi-pass fusion.
pub const FUSION_MAX_ITERATIONS: usize = 50;

/// The reordering trigger at position `i`: two adjacent single-qubit
/// kernels on different qubits that commute.
pub open spec fn reorder_trigger_s(ks: Seq<KernelV>, i: int) -> bool {
    &&& ks[i].targets.len() == 1
    &&& ks[i + 1].targets.len() == 1
    &&& ks[i].targets[0] != ks[i + 1].targets[0]
    &&& commutes_s(ks[i], ks[i + 1])
}

/// Every kernel strictly between `i` and `j` either does not share a qubit
/// with `ks[i]` or commutes with it.
pub open spec fn between_ok_s(ks: Seq<KernelV>, i: int, j: int) -> bool {
    forall|m: int|
        i + 1 <= m < j ==> !shares_s((#[trigger] ks[m]).targets, ks[i].targets) || commutes_s(
            ks[i],
            ks[m],
        )
}

/// A kernel at `j` may be moved next to `i`: a single-qubit kernel on
/// `ks[i]`'s qubit, every kernel in between movable past, and fusible.
pub open spec fn move_cond_s(ks: Seq<KernelV>, i: int, j: int) -> bool {
    &&& ks[j].targets.len() == 1
    &&& ks[j].targets[0] == ks[i].targets[0]
    &&& between_ok_s(ks, i, j)
    &&& crate::kernel::can_fuse_s(ks[i], ks[j])
}

/// The first position at or after `j` whose kernel may be moved next to
/// `i`, if any.
pub open spec fn find_move_s(ks: Seq<KernelV>, i: int, j: int) -> Option<int>
    decreases ks.len() - j,
{
    if j >= ks.len() || j < 0 {
        None
    } else if move_cond_s(ks, i, j) {
        Some(j)
    } else {
        find_move_s(ks, i, j + 1)
    }
}

/// Move the kernel at `j` into position `i + 1`, shifting the kernels in
/// between one place right.
pub open spec fn move_kernel_s(ks: Seq<KernelV>, i: int, j: int) -> Seq<KernelV> {
    Seq::new(ks.len(), |t: int| if t < i + 1 {
        ks[t]
    } else if t == i + 1 {
        ks[j]
    } else if t <= j {
        ks[t - 1]
    } else {
        ks[t]
    })
}

/// One reordering scan from position `i`: at each trigger position, the
/// first movable later kernel is moved next to it; the flag records
/// whether any move happened.
pub open spec fn scan_s(ks: Seq<KernelV>, i: nat) -> (Seq<KernelV>, bool)
    decreases ks.len() - i,
{
    if i + 1 >= ks.len() {
        (ks, false)
    } else if reorder_trigger_s(ks, i as int) {
        match find_move_s(ks, i as int, i as int + 2) {
            Some(j) => (scan_s(move_kernel_s(ks, i as int, j), i + 1).0, true),
            None => scan_s(ks, i + 1),
        }
    } else {
        scan_s(ks, i + 1)
    }
}

/// Repeated scans, up to `fuel` of them, stopping at the first scan that
/// moves nothing.
pub open spec fn reorder_s(ks: Seq<KernelV>, fuel: nat) -> Seq<KernelV>
    decreases fuel,
{
    if fuel == 0 {
        ks
    } else if scan_s(ks, 0).1 {
        reorder_s(scan_s(ks, 0).0, (fuel - 1) as nat)
    } else {
        ks
    }
}

/// Repeated fusion passes, up to `fuel` of them, stopping at the first
/// pass that fuses nothing.
pub open spec fn multi_fuse_s(ks: Seq<KernelV>, fuel: nat) -> Seq<KernelV>
    decreases fuel,
{
    if fuel == 0 {
        ks
    } else if fuse_pass_s(ks) != ks {
        multi_fuse_s(fuse_pass_s(ks), (fuel - 1) as nat)
    } else {
        ks
    }
}

/// The whole structure-aware rewriting of a kernel list: commutation
/// reordering, then multi-pass fusion.
pub open spec fn optimise_pipeline_s(ks: Seq<KernelV>) -> Seq<KernelV> {
    multi_fuse_s(reorder_s(ks, REORDER_MAX_ITERATIONS as nat), FUSION_MAX_ITERATIONS as nat)
}

/// A scan that moves nothing returns its input.
proof fn lemma_scan_nochange(ks: Seq<KernelV>, i: nat)
    requires
        !scan_s(ks, i).1,
    ensures
        scan_s(ks, i).0 == ks,
    decreases ks.len() - i,
{
    if i + 1 >= ks.len() {
    } else if reorder_trigger_s(ks, i as int) {
        match find_move_s(ks, i as int, i as int + 2) {
            Some(_) => {
                assert(false);
            },
            None => {
                lemma_scan_nochange(ks, i + 1);
            },
        }
    } else {
        lemma_scan_nochange(ks, i + 1);
    }
}

/// Moving a kernel preserves applicability of every kernel.
proof fn lemma_move_wf(ks: Seq<KernelV>, i: int, j: int, n: u64)
    requires
        kvs_app_wf(ks, n),
        0 <= i,
        i + 1 < j < ks.len(),
    ensures
        kvs_app_wf(move_kernel_s(ks, i, j), n),
{
    let moved = move_kernel_s(ks, i, j);
    assert forall|t: int| 0 <= t < moved.len() implies kv_app_wf(#[trigger] moved[t], n) by {
        if t < i + 1 {
            assert(moved[t] == ks[t]);
        } else if t == i + 1 {
            assert(moved[t] == ks[j]);
        } else if t <= j {
            assert(moved[t] == ks[t - 1]);
        } else {
            assert(moved[t] == ks[t]);
        }
    }
}

/// A found move position lies strictly between `i + 1` and the end.
proof fn lemma_find_move_range(ks: Seq<KernelV>, i: int, j: int)
    requires
        0 <= j,
    ensures
        find_move_s(ks, i, j) is Some ==> j <= find_move_s(ks, i, j)->Some_0 < ks.len()
            && move_cond_s(ks, i, find_move_s(ks, i, j)->Some_0),
    decreases ks.len() - j,
{
    if j >= ks.len() {
    } else if move_cond_s(ks, i, j) {
    } else {
        lemma_find_move_range(ks, i, j + 1);
    }
}

/// A scan preserves applicability of every kernel.
proof fn lemma_scan_wf(ks: Seq<KernelV>, i: nat, n: u64)
    requires
        kvs_app_wf(ks, n),
    ensures
        kvs_app_wf(scan_s(ks, i).0, n),
        scan_s(ks, i).0.len() == ks.len(),
    decreases ks.len() - i,
{
    if i + 1 >= ks.len() {
    } else if reorder_trigger_s(ks, i as int) {
        match find_move_s(ks, i as int, i as int + 2) {
            Some(j) => {
                lemma_find_move_range(ks, i as int, i as int + 2);
                lemma_move_wf(ks, i as int, j, n);
                lemma_scan_wf(move_kernel_s(ks, i as int, j), i + 1, n);
            },
            None => {
                lemma_scan_wf(ks, i + 1, n);
            },
        }
    } else {
        lemma_scan_wf(ks, i + 1, n);
    }
}

/// Reordering preserves applicability of every kernel.
pub proof fn lemma_reorder_wf(ks: Seq<KernelV>, fuel: nat, n: u64)
    requires
        kvs_app_wf(ks, n),
    ensures
        kvs_app_wf(reorder_s(ks, fuel), n),
    decreases fuel,
{
    if fuel == 0 {
    } else if scan_s(ks, 0).1 {
        lemma_scan_wf(ks, 0, n);
        lemma_reorder_wf(scan_s(ks, 0).0, (fuel - 1) as nat, n);
    }
}

/// Multi-pass fusion preserves applicability of every kernel.
pub proof fn lemma_multi_fuse_wf(ks: Seq<KernelV>, fuel: nat, n: u64)
    requires
        kvs_app_wf(ks, n),
    ensures
        kvs_app_wf(multi_fuse_s(ks, fuel), n),
    decreases fuel,
{
    if fuel == 0 {
    } else if fuse_pass_s(ks) != ks {
        lemma_fuse_pass_wf(ks, n);
        lemma_multi_fuse_wf(fuse_pass_s(ks), (fuel - 1) as nat, n);
    }
}

/// With at least as many passes available as there are kernels,
/// multi-pass fusion ends at a true fixed point: one more fusion pass
/// changes nothing.  (Each pass that fuses anything shortens the list.)
pub proof fn lemma_multi_fuse_fixpoint(ks: Seq<KernelV>, fuel: nat)
    requires
        ks.len() <= fuel,
    ensures
        fuse_pass_s(multi_fuse_s(ks, fuel)) == multi_fuse_s(ks, fuel),
        multi_fuse_s(multi_fuse_s(ks, fuel), fuel) == multi_fuse_s(ks, fuel),
    decreases fuel,
{
    if fuel == 0 {
        assert(ks.len() == 0);
        lemma_fuse_pass_len(ks);
        assert(fuse_pass_s(ks) == ks);
    } else if fuse_pass_s(ks) != ks {
        lemma_fuse_pass_len(ks);
        lemma_multi_fuse_fixpoint(fuse_pass_s(ks), (fuel - 1) as nat);
    }
    let r = multi_fuse_s(ks, fuel);
    if fuse_pass_s(r) == r {
        assert(multi_fuse_s(r, fuel) == r);
    }
}

/// A list that neither pass changes is left unchanged by the whole
/// structure-aware rewriting: optimisation is idempotent once both passes
/// have reached their fixed points.
pub proof fn lemma_optimise_fixpoint(ks: Seq<KernelV>)
    requires
        !scan_s(ks, 0).1,
        fuse_pass_s(ks) == ks,
    ensures
        optimise_pipeline_s(ks) == ks,
{
}

/// One exec reordering scan over the kernel list.
fn scan_once(kernels: &mut Vec<Kernel>) -> (changed: bool)
    ensures
        kvs(final(kernels)@) == scan_s(kvs(old(kernels)@), 0).0,
        changed == scan_s(kvs(old(kernels)@), 0).1,
        final(kernels)@.len() == old(kernels)@.len(),
{
    let ghost orig = kvs(old(kernels)@);
    let mut changed = false;
    let mut i: usize = 0;
    let len = kernels.len();
    while len > 0 && i < len - 1
        invariant
            i <= len,
            len == kernels@.len(),
            kernels@.len() == old(kernels)@.len(),
            scan_s(orig, 0).0 == scan_s(kvs(kernels@), i as nat).0,
            scan_s(orig, 0).1 == (changed || scan_s(kvs(kernels@), i as nat).1),
        decreases len - i,
    {
        let ghost pre = kvs(kernels@);
        let trig = kernels[i].targets.len() == 1 && kernels[i + 1].targets.len() == 1
            && kernels[i].targets[0] != kernels[i + 1].targets[0] && kernels[i].commutes_with(
            &kernels[i + 1],
        );
        proof {
            assert(pre[i as int] == kernels@[i as int]@);
            assert(pre[i as int + 1] == kernels@[i as int + 1]@);
            assert(trig == reorder_trigger_s(pre, i as int));
        }
        if trig {
            let mut j: usize = i + 2;
            let mut moved = false;
            let ghost mut jfound: int = 0;
            while j < len && !moved
                invariant
                    i + 2 <= j <= len,
                    len == kernels@.len(),
                    kernels@.len() == old(kernels)@.len(),
                    i + 1 < len,
                    reorder_trigger_s(pre, i as int),
                    pre.len() == len,
                    !moved ==> kvs(kernels@) == pre && find_move_s(pre, i as int, i as int + 2)
                        == find_move_s(pre, i as int, j as int),
                    moved ==> find_move_s(pre, i as int, i as int + 2) == Some(jfound)
                        && kvs(kernels@) == move_kernel_s(pre, i as int, jfound),
                decreases len - j, (if moved { 0int } else { 1int }),
            {
                let cand_ok = kernels[j].targets.len() == 1 && kernels[j].targets[0]
                    == kernels[i].targets[0];
                let mut full_ok = false;
                if cand_ok {
                    // Every kernel between i and j must be movable past.
                    let mut ok = true;
                    let mut m: usize = i + 1;
                    while ok && m < j
                        invariant
                            i + 1 <= m <= j,
                            j < len,
                            i + 1 < len,
                            len == kernels@.len(),
                            pre.len() == len,
                            reorder_trigger_s(pre, i as int),
                            kvs(kernels@) == pre,
                            ok ==> forall|mm: int|
                                i + 1 <= mm < m ==> !shares_s(
                                    (#[trigger] pre[mm]).targets,
                                    pre[i as int].targets,
                                ) || commutes_s(pre[i as int], pre[mm]),
                            !ok ==> !between_ok_s(pre, i as int, j as int),
                        decreases j - m, (if ok { 1int } else { 0int }),
                    {
                        let shares = kernels[m].shares_qubits(&kernels[i]);
                        let commutes = kernels[i].commutes_with(&kernels[m]);
                        proof {
                            assert(pre[m as int] == kernels@[m as int]@);
                        }
                        if shares && !commutes {
                            ok = false;
                        } else {
                            m += 1;
                        }
                    }
                    if ok {
                        full_ok = kernels[i].can_fuse_with(&kernels[j]);
                    }
                }
                proof {
                    assert(pre[j as int] == kernels@[j as int]@);
                    assert(full_ok == move_cond_s(pre, i as int, j as int));
                }
                if full_ok {
                    let moved_kernel = kernels.remove(j);
                    kernels.insert(i + 1, moved_kernel);
                    moved = true;
                    proof {
                        jfound = j as int;
                        assert(find_move_s(pre, i as int, j as int) == Some(j as int));
                        assert(kvs(kernels@) =~= move_kernel_s(pre, i as int, j as int));
                    }
                } else {
                    proof {
                        assert(find_move_s(pre, i as int, j as int) == find_move_s(
                            pre,
                            i as int,
                            j as int + 1,
                        ));
                    }
                    j += 1;
                }
            }
            proof {
                if !moved {
                    assert(find_move_s(pre, i as int, len as int) is None);
                    assert(find_move_s(pre, i as int, i as int + 2) is None);
                    assert(scan_s(pre, i as nat) == scan_s(pre, (i + 1) as nat));
                } else {
                    assert(scan_s(pre, i as nat).0 == scan_s(
                        move_kernel_s(pre, i as int, jfound),
                        (i + 1) as nat,
                    ).0);
                    assert(scan_s(pre, i as nat).1);
                }
            }
            if moved {
                changed = true;
            }
        } else {
            proof {
                assert(scan_s(pre, i as nat) == scan_s(pre, (i + 1) as nat));
            }
        }
        i += 1;
    }
    proof {
        assert(scan_s(kvs(kernels@), i as nat) == (kvs(kernels@), false));
    }
    changed
}

/// The commutation-reordering pass: scans until a scan moves nothing, up
/// to the iteration cap.
pub fn reorder_commuting_gates(kernels: &mut Vec<Kernel>)
    ensures
        kvs(final(kernels)@) == reorder_s(kvs(old(kernels)@), REORDER_MAX_ITERATIONS as nat),
{
    let ghost orig = kvs(old(kernels)@);
    let mut changed = true;
    let mut iterations: usize = 0;
    while changed && iterations < REORDER_MAX_ITERATIONS
        invariant
            iterations <= REORDER_MAX_ITERATIONS,
            changed ==> reorder_s(orig, REORDER_MAX_ITERATIONS as nat) == reorder_s(
                kvs(kernels@),
                (REORDER_MAX_ITERATIONS - iterations) as nat,
            ),
            !changed ==> reorder_s(orig, REORDER_MAX_ITERATIONS as nat) == kvs(kernels@),
        decreases REORDER_MAX_ITERATIONS - iterations,
    {
        let ghost pre = kvs(kernels@);
        iterations += 1;
        changed = scan_once(kernels);
        proof {
            if !changed {
                lemma_scan_nochange(pre, 0);
            }
        }
    }
}

/// The multi-pass fusion: fusion passes until one fuses nothing, up to the
/// iteration cap.
pub fn multi_pass_fusion(kernels: &mut Vec<Kernel>)
    requires
        kvs_shape_wf(kvs(old(kernels)@)),
    ensures
        kvs(final(kernels)@) == multi_fuse_s(kvs(old(kernels)@), FUSION_MAX_ITERATIONS as nat),
{
    let ghost orig = kvs(old(kernels)@);
    let mut changed = true;
    let mut iterations: usize = 0;
    while changed && iterations < FUSION_MAX_ITERATIONS
        invariant
            iterations <= FUSION_MAX_ITERATIONS,
            kvs_shape_wf(kvs(kernels@)),
            changed ==> multi_fuse_s(orig, FUSION_MAX_ITERATIONS as nat) == multi_fuse_s(
                kvs(kernels@),
                (FUSION_MAX_ITERATIONS - iterations) as nat,
            ),
            !changed ==> multi_fuse_s(orig, FUSION_MAX_ITERATIONS as nat) == kvs(kernels@),
        decreases FUSION_MAX_ITERATIONS - iterations,
    {
        let ghost pre = kvs(kernels@);
        iterations += 1;
        let out = fuse_pass(kernels);
        let changed_now = out.len() != kernels.len();
        proof {
            lemma_fuse_pass_len(pre);
            lemma_fuse_pass_shape_wf(pre);
        }
        changed = changed_now;
        *kernels = out;
    }
}

/// One execution layer: kernels whose target sets are pairwise disjoint,
/// so that within-layer order is free.
pub struct ExecutionLayer {
    pub kernels: Vec<Kernel>,
}

/// The views of a layer list.
pub open spec fn lvs(ls: Seq<ExecutionLayer>) -> Seq<Seq<KernelV>> {
    ls.map_values(|l: ExecutionLayer| kvs(l.kernels@))
}

/// A kernel fits a layer when it shares no qubit with any kernel already
/// in it.
pub open spec fn layer_fits_s(layer: Seq<KernelV>, k: KernelV) -> bool {
    forall|m: int| 0 <= m < layer.len() ==> !shares_s((#[trigger] layer[m]).targets, k.targets)
}

/// Greedy placement: the kernel joins the first fitting layer, else a new
/// layer is opened at the end.
pub open spec fn place_s(layers: Seq<Seq<KernelV>>, k: KernelV, idx: nat) -> Seq<Seq<KernelV>>
    decreases layers.len() - idx,
{
    if idx >= layers.len() {
        layers.push(seq![k])
    } else if layer_fits_s(layers[idx as int], k) {
        layers.update(idx as int, layers[idx as int].push(k))
    } else {
        place_s(layers, k, idx + 1)
    }
}

/// Greedy left-to-right layer assignment of a whole kernel list.
pub open spec fn build_layers_s(ks: Seq<KernelV>, acc: Seq<Seq<KernelV>>) -> Seq<Seq<KernelV>>
    decreases ks.len(),
{
    if ks.len() == 0 {
        acc
    } else {
        build_layers_s(ks.skip(1), place_s(acc, ks[0], 0))
    }
}

/// Within every layer, targets are pairwise disjoint.
pub open spec fn layers_disjoint_s(layers: Seq<Seq<KernelV>>) -> bool {
    forall|l: int, a: int, b: int|
        0 <= l < layers.len() && 0 <= a < layers[l].len() && 0 <= b < layers[l].len() && a != b
            ==> !shares_s((#[trigger] layers[l][a]).targets, (#[trigger] layers[l][b]).targets)
}

/// Every kernel of every layer is applicable.
pub open spec fn layers_app_wf(layers: Seq<Seq<KernelV>>, n: u64) -> bool {
    forall|l: int| 0 <= l < layers.len() ==> kvs_app_wf(#[trigger] layers[l], n)
}

/// Placement keeps every layer pairwise disjoint.
proof fn lemma_place_disjoint(layers: Seq<Seq<KernelV>>, k: KernelV, idx: nat)
    requires
        layers_disjoint_s(layers),
    ensures
        layers_disjoint_s(place_s(layers, k, idx)),
    decreases layers.len() - idx,
{
    if idx >= layers.len() {
        let r = layers.push(seq![k]);
        assert forall|l: int, a: int, b: int|
            0 <= l < r.len() && 0 <= a < r[l].len() && 0 <= b < r[l].len() && a != b
            implies !shares_s((#[trigger] r[l][a]).targets, (#[trigger] r[l][b]).targets) by {
            if l < layers.len() {
                assert(r[l] == layers[l]);
            } else {
                assert(r[l] == seq![k]);
            }
        }
    } else if layer_fits_s(layers[idx as int], k) {
        let old_layer = layers[idx as int];
        let r = layers.update(idx as int, old_layer.push(k));
        assert forall|l: int, a: int, b: int|
            0 <= l < r.len() && 0 <= a < r[l].len() && 0 <= b < r[l].len() && a != b
            implies !shares_s((#[trigger] r[l][a]).targets, (#[trigger] r[l][b]).targets) by {
            if l != idx {
                assert(r[l] == layers[l]);
            } else {
                let nl = old_layer.push(k);
                if a < old_layer.len() && b < old_layer.len() {
                    assert(nl[a] == old_layer[a] && nl[b] == old_layer[b]);
                } else if a < old_layer.len() {
                    assert(nl[b] == k && nl[a] == old_layer[a]);
                    crate::kernel::lemma_shares_symm(old_layer[a].targets, k.targets);
                } else {
                    assert(nl[a] == k && nl[b] == old_layer[b]);
                    crate::kernel::lemma_shares_symm(old_layer[b].targets, k.targets);
                }
            }
        }
    } else {
        lemma_place_disjoint(layers, k, idx + 1);
    }
}

/// Placement keeps every layer applicable.
proof fn lemma_place_app_wf(layers: Seq<Seq<KernelV>>, k: KernelV, idx: nat, n: u64)
    requires
        layers_app_wf(layers, n),
        kv_app_wf(k, n),
    ensures
        layers_app_wf(place_s(layers, k, idx), n),
    decreases layers.len() - idx,
{
    if idx >= layers.len() {
        let r = layers.push(seq![k]);
        assert forall|l: int| 0 <= l < r.len() implies kvs_app_wf(#[trigger] r[l], n) by {
            if l < layers.len() {
                assert(r[l] == layers[l]);
            } else {
                assert(r[l] == seq![k]);
                assert(forall|t: int| 0 <= t < 1 ==> kv_app_wf(#[trigger] seq![k][t], n));
            }
        }
    } else if layer_fits_s(layers[idx as int], k) {
        let r = layers.update(idx as int, layers[idx as int].push(k));
        assert forall|l: int| 0 <= l < r.len() implies kvs_app_wf(#[trigger] r[l], n) by {
            if l != idx {
                assert(r[l] == layers[l]);
            } else {
                let nl = layers[idx as int].push(k);
                assert forall|t: int| 0 <= t < nl.len() implies kv_app_wf(#[trigger] nl[t], n) by {
                    if t < nl.len() - 1 {
                        assert(nl[t] == layers[idx as int][t]);
                    } else {
                        assert(nl[t] == k);
                    }
                }
            }
        }
    } else {
        lemma_place_app_wf(layers, k, idx + 1, n);
    }
}

/// Building layers keeps disjointness and applicability.
proof fn lemma_build_layers_wf(ks: Seq<KernelV>, acc: Seq<Seq<KernelV>>, n: u64)
    requires
        kvs_app_wf(ks, n),
        layers_app_wf(acc, n),
        layers_disjoint_s(acc),
    ensures
        layers_app_wf(build_layers_s(ks, acc), n),
        layers_disjoint_s(build_layers_s(ks, acc)),
    decreases ks.len(),
{
    if ks.len() == 0 {
    } else {
        assert(kv_app_wf(ks[0], n));
        lemma_place_app_wf(acc, ks[0], 0, n);
        lemma_place_disjoint(acc, ks[0], 0);
        assert(kvs_app_wf(ks.skip(1), n));
        lemma_build_layers_wf(ks.skip(1), place_s(acc, ks[0], 0), n);
    }
}

/// A copy of a kernel list, view for view.
pub fn copy_kernels(v: &Vec<Kernel>) -> (r: Vec<Kernel>)
    ensures
        kvs(r@) == kvs(v@),
{
    let mut r: Vec<Kernel> = Vec::new();
    let mut i: usize = 0;
    while i < v.len()
        invariant
            i <= v@.len(),
            r@.len() == i,
            forall|t: int| 0 <= t < i ==> kvs(r@)[t] == kvs(v@)[t],
        decreases v@.len() - i,
    {
        r.push(v[i].clone());
        i += 1;
    }
    proof {
        assert(kvs(r@) =~= kvs(v@));
    }
    r
}

impl Clone for ExecutionLayer {
    /// A clone carries the same kernels, view for view.
    fn clone(&self) -> (r: Self)
        ensures
            kvs(r.kernels@) == kvs(self.kernels@),
    {
        ExecutionLayer { kernels: copy_kernels(&self.kernels) }
    }
}

impl Default for ExecutionLayer {
    /// The default layer is empty.
    fn default() -> (r: Self)
        ensures
            kvs(r.kernels@) == Seq::<KernelV>::empty(),
    {
        let r = ExecutionLayer { kernels: Vec::new() };
        proof {
            assert(kvs(r.kernels@) =~= Seq::<KernelV>::empty());
        }
        r
    }
}

impl ExecutionLayer {
    /// An empty layer.
    pub fn new() -> (r: ExecutionLayer)
        ensures
            kvs(r.kernels@) == Seq::<KernelV>::empty(),
    {
        let r = ExecutionLayer { kernels: Vec::new() };
        proof {
            assert(kvs(r.kernels@) =~= Seq::<KernelV>::empty());
        }
        r
    }

    /// Whether the kernel shares no qubit with any kernel of the layer.
    pub fn can_add(&self, kernel: &Kernel) -> (r: bool)
        ensures
            r == layer_fits_s(kvs(self.kernels@), kernel@),
    {
        let mut m: usize = 0;
        while m < self.kernels.len()
            invariant
                m <= self.kernels@.len(),
                forall|t: int|
                    0 <= t < m ==> !shares_s(
                        (#[trigger] kvs(self.kernels@)[t]).targets,
                        kernel@.targets,
                    ),
            decreases self.kernels@.len() - m,
        {
            if self.kernels[m].shares_qubits(kernel) {
                proof {
                    assert(kvs(self.kernels@)[m as int] == self.kernels@[m as int]@);
                }
                return false;
            }
            proof {
                assert(kvs(self.kernels@)[m as int] == self.kernels@[m as int]@);
            }
            m += 1;
        }
        true
    }

    /// Append a kernel to the layer.
    pub fn add(&mut self, kernel: Kernel)
        ensures
            kvs(final(self).kernels@) == kvs(old(self).kernels@).push(kernel@),
    {
        self.kernels.push(kernel);
        proof {
            assert(kvs(self.kernels@) =~= kvs(old(self).kernels@).push(kernel@));
        }
    }
}

/// Greedy left-to-right layer assignment of a kernel list.
pub fn build_execution_layers(kernels: &Vec<Kernel>) -> (r: Vec<ExecutionLayer>)
    ensures
        lvs(r@) == build_layers_s(kvs(kernels@), Seq::<Seq<KernelV>>::empty()),
{
    let ghost full = kvs(kernels@);
    let mut layers: Vec<ExecutionLayer> = Vec::new();
    proof {
        assert(lvs(layers@) =~= Seq::<Seq<KernelV>>::empty());
        assert(full.skip(0) =~= full);
    }
    let mut ki: usize = 0;
    while ki < kernels.len()
        invariant
            ki <= kernels@.len(),
            full == kvs(kernels@),
            build_layers_s(full, Seq::<Seq<KernelV>>::empty()) == build_layers_s(
                full.skip(ki as int),
                lvs(layers@),
            ),
        decreases kernels@.len() - ki,
    {
        let ghost acc = lvs(layers@);
        let ghost k = full[ki as int];
        proof {
            assert(full.skip(ki as int)[0] == k);
            assert(full.skip(ki as int).skip(1) =~= full.skip(ki as int + 1));
        }
        let kernel = &kernels[ki];
        let mut li: usize = 0;
        let mut placed = false;
        while li < layers.len() && !placed
            invariant
                li <= layers@.len(),
                k == kernel@,
                !placed ==> lvs(layers@) == acc && place_s(acc, k, 0) == place_s(acc, k, li as nat),
                placed ==> lvs(layers@) == place_s(acc, k, 0),
            decreases layers@.len() - li, (if placed { 0int } else { 1int }),
        {
            proof {
                assert(acc[li as int] == kvs(layers@[li as int].kernels@));
            }
            if layers[li].can_add(kernel) {
                let mut updated = layers[li].clone();
                updated.add(kernel.clone());
                layers[li] = updated;
                placed = true;
                proof {
                    assert(place_s(acc, k, li as nat) == acc.update(
                        li as int,
                        acc[li as int].push(k),
                    ));
                    assert(lvs(layers@) =~= acc.update(li as int, acc[li as int].push(k)));
                }
            } else {
                proof {
                    assert(place_s(acc, k, li as nat) == place_s(acc, k, li as nat + 1));
                }
                li += 1;
            }
        }
        if !placed {
            let mut new_layer = ExecutionLayer::new();
            new_layer.add(kernel.clone());
            layers.push(new_layer);
            proof {
                assert(place_s(acc, k, li as nat) == acc.push(seq![k]));
                assert(lvs(layers@) =~= acc.push(seq![k]));
            }
        }
        ki += 1;
    }
    proof {
        assert(full.skip(kernels@.len() as int) =~= Seq::<KernelV>::empty());
    }
    layers
}


/// Executing a concatenation is executing the parts in order.
pub proof fn lemma_exec_concat(a: Seq<KernelV>, b: Seq<KernelV>, s: Seq<Complex>, n: u64)
    ensures
        exec_kernels_s(a + b, s, n) == exec_kernels_s(b, exec_kernels_s(a, s, n), n),
    decreases a.len(),
{
    if a.len() == 0 {
        assert(a + b =~= b);
    } else {
        let s2 = crate::apply::apply_gate_s(s, a[0].matrix, a[0].targets, n);
        assert((a + b)[0] == a[0]);
        assert((a + b).skip(1) =~= a.skip(1) + b);
        lemma_exec_concat(a.skip(1), b, s2, n);
    }
}

/// Executing kernels preserves the buffer length.
pub proof fn lemma_exec_len(ks: Seq<KernelV>, s: Seq<Complex>, n: u64)
    ensures
        exec_kernels_s(ks, s, n).len() == s.len(),
    decreases ks.len(),
{
    if ks.len() == 0 {
    } else {
        lemma_exec_len(ks.skip(1), crate::apply::apply_gate_s(s, ks[0].matrix, ks[0].targets, n), n);
    }
}

/// Counting the kernels of a list that satisfy a predicate.
pub open spec fn count_s(ks: Seq<KernelV>, p: spec_fn(KernelV) -> bool) -> nat
    decreases ks.len(),
{
    if ks.len() == 0 {
        0
    } else {
        count_s(ks.drop_last(), p) + (if p(ks.last()) {
            1nat
        } else {
            0nat
        })
    }
}

/// Summary counts of a structure-aware batch.
#[derive(Clone, Copy, Debug, PartialEq, Eq, Structural)]
pub struct KernelStats {
    pub total_kernels: usize,
    pub single_qubit: usize,
    pub two_qubit: usize,
    pub multi_qubit: usize,
    pub diagonal: usize,
    pub execution_layers: usize,
}

/// A batch of kernels with the structure-aware optimiser: commutation
/// reordering, multi-pass fusion and layer partitioning.
pub struct StructureAwareKernelBatch {
    pub kernels: Vec<Kernel>,
    pub layers: Vec<ExecutionLayer>,
    pub num_qubits: usize,
    pub optimised: bool,
}

impl StructureAwareKernelBatch {
    /// Whether every kernel of the batch and of its layers fits the
    /// register.
    pub open spec fn wf(&self) -> bool {
        &&& self.num_qubits <= MAX_QUBITS
        &&& kvs_app_wf(kvs(self.kernels@), self.num_qubits as u64)
        &&& layers_app_wf(lvs(self.layers@), self.num_qubits as u64)
    }

    /// An empty batch.
    pub fn new(num_qubits: usize) -> (r: StructureAwareKernelBatch)
        requires
            num_qubits <= MAX_QUBITS,
        ensures
            r.wf(),
            kvs(r.kernels@) == Seq::<KernelV>::empty(),
            r.layers@.len() == 0,
            r.num_qubits == num_qubits,
            !r.optimised,
    {
        let r = StructureAwareKernelBatch {
            kernels: Vec::new(),
            layers: Vec::new(),
            num_qubits,
            optimised: false,
        };
        proof {
            assert(kvs(r.kernels@) =~= Seq::<KernelV>::empty());
        }
        r
    }

    /// Append a kernel; the batch is no longer optimised.
    pub fn add(&mut self, kernel: Kernel)
        requires
            old(self).wf(),
            kv_app_wf(kernel@, old(self).num_qubits as u64),
        ensures
            final(self).wf(),
            final(self).num_qubits == old(self).num_qubits,
            final(self).layers@ == old(self).layers@,
            !final(self).optimised,
            kvs(final(self).kernels@) == kvs(old(self).kernels@).push(kernel@),
    {
        self.kernels.push(kernel);
        self.optimised = false;
        proof {
            assert(kvs(self.kernels@) =~= kvs(old(self).kernels@).push(kernel@));
        }
    }

    /// The number of kernels.
    pub fn len(&self) -> (r: usize)
        ensures
            r == self.kernels@.len(),
    {
        self.kernels.len()
    }

    /// Whether the batch holds no kernel.
    pub fn is_empty(&self) -> (r: bool)
        ensures
            r == (self.kernels@.len() == 0),
    {
        self.kernels.is_empty()
    }

    /// The kernels, in order.
    pub fn kernels(&self) -> (r: &Vec<Kernel>)
        ensures
            r@ == self.kernels@,
    {
        &self.kernels
    }

    /// The execution layers, in order.
    pub fn layers(&self) -> (r: &Vec<ExecutionLayer>)
        ensures
            r@ == self.layers@,
    {
        &self.layers
    }

    /// The number of execution layers.
    pub fn num_layers(&self) -> (r: usize)
        ensures
            r == self.layers@.len(),
    {
        self.layers.len()
    }

    /// The three ordered sub-passes: commutation reordering, multi-pass
    /// fusion, layer partitioning.  A batch already optimised, or with
    /// fewer than two kernels, is left untouched.
    pub fn optimise(&mut self)
        requires
            old(self).wf(),
        ensures
            final(self).wf(),
            final(self).num_qubits == old(self).num_qubits,
            old(self).optimised || old(self).kernels@.len() < 2 ==> *final(self) == *old(self),
            !(old(self).optimised || old(self).kernels@.len() < 2) ==> {
                &&& kvs(final(self).kernels@) == optimise_pipeline_s(kvs(old(self).kernels@))
                &&& lvs(final(self).layers@) == build_layers_s(
                    kvs(final(self).kernels@),
                    Seq::<Seq<KernelV>>::empty(),
                )
                &&& layers_disjoint_s(lvs(final(self).layers@))
                &&& final(self).optimised
            },
    {
        if self.optimised || self.kernels.len() < 2 {
            return;
        }
        let ghost n = self.num_qubits as u64;
        let ghost initial = kvs(self.kernels@);
        reorder_commuting_gates(&mut self.kernels);
        proof {
            lemma_reorder_wf(initial, REORDER_MAX_ITERATIONS as nat, n);
            assert forall|t: int| 0 <= t < kvs(self.kernels@).len() implies crate::kernel::kv_shape_wf(
                #[trigger] kvs(self.kernels@)[t],
            ) by {
                assert(kv_app_wf(kvs(self.kernels@)[t], n));
            }
        }
        let ghost reordered = kvs(self.kernels@);
        multi_pass_fusion(&mut self.kernels);
        proof {
            lemma_multi_fuse_wf(reordered, FUSION_MAX_ITERATIONS as nat, n);
        }
        let layers = build_execution_layers(&self.kernels);
        proof {
            lemma_build_layers_wf(kvs(self.kernels@), Seq::<Seq<KernelV>>::empty(), n);
        }
        self.layers = layers;
        self.optimised = true;
    }

    /// Execute the kernels serially on a buffer.
    pub fn execute(&self, state: &mut Vec<Complex>)
        requires
            self.wf(),
            old(state)@.len() == 1u64 << (self.num_qubits as u64),
        ensures
            final(state)@ == exec_kernels_s(kvs(self.kernels@), old(state)@, self.num_qubits as u64),
    {
        execute_kernel_list(state, &self.kernels, self.num_qubits, false, false);
    }

    /// Execute the kernels with the data-parallel primitive.
    pub fn execute_parallel(&self, state: &mut Vec<Complex>)
        requires
            self.wf(),
            old(state)@.len() == 1u64 << (self.num_qubits as u64),
        ensures
            final(state)@ == exec_kernels_s(kvs(self.kernels@), old(state)@, self.num_qubits as u64),
    {
        execute_kernel_list(state, &self.kernels, self.num_qubits, false, true);
    }

    /// Execute the kernels, routing single-qubit kernels through the
    /// in-place fast path.
    pub fn execute_simd(&self, state: &mut Vec<Complex>)
        requires
            self.wf(),
            old(state)@.len() == 1u64 << (self.num_qubits as u64),
        ensures
            final(state)@ == exec_kernels_s(kvs(self.kernels@), old(state)@, self.num_qubits as u64),
    {
        execute_kernel_list(state, &self.kernels, self.num_qubits, true, false);
    }

    /// Execute the kernels with the fast path and the data-parallel
    /// primitives together.
    pub fn execute_simd_parallel(&self, state: &mut Vec<Complex>)
        requires
            self.wf(),
            old(state)@.len() == 1u64 << (self.num_qubits as u64),
        ensures
            final(state)@ == exec_kernels_s(kvs(self.kernels@), old(state)@, self.num_qubits as u64),
    {
        execute_kernel_list(state, &self.kernels, self.num_qubits, true, true);
    }

    /// Execute layer by layer, each layer's kernels in order: the result
    /// is executing the concatenation of the layers.
    pub fn execute_layered(&self, state: &mut Vec<Complex>)
        requires
            self.wf(),
            old(state)@.len() == 1u64 << (self.num_qubits as u64),
        ensures
            final(state)@ == exec_kernels_s(
                lvs(self.layers@).flatten(),
                old(state)@,
                self.num_qubits as u64,
            ),
    {
        self.execute_layers_inner(state, false);
    }

    /// The data-parallel flavour of layer-by-layer execution.
    pub fn execute_layered_parallel(&self, state: &mut Vec<Complex>)
        requires
            self.wf(),
            old(state)@.len() == 1u64 << (self.num_qubits as u64),
        ensures
            final(state)@ == exec_kernels_s(
                lvs(self.layers@).flatten(),
                old(state)@,
                self.num_qubits as u64,
            ),
    {
        self.execute_layers_inner(state, true);
    }

    /// Walk the layers in order, executing each one's kernels.
    fn execute_layers_inner(&self, state: &mut Vec<Complex>, use_parallel: bool)
        requires
            self.wf(),
            old(state)@.len() == 1u64 << (self.num_qubits as u64),
        ensures
            final(state)@ == exec_kernels_s(
                lvs(self.layers@).flatten(),
                old(state)@,
                self.num_qubits as u64,
            ),
    {
        let ghost n = self.num_qubits as u64;
        let ghost lv = lvs(self.layers@);
        let mut li: usize = 0;
        proof {
            assert(lv.skip(0) =~= lv);
        }
        while li < self.layers.len()
            invariant
                li <= self.layers@.len(),
                self.wf(),
                n == self.num_qubits as u64,
                lv == lvs(self.layers@),
                state@.len() == 1u64 << n,
                exec_kernels_s(lv.flatten(), old(state)@, n) == exec_kernels_s(
                    lv.skip(li as int).flatten(),
                    state@,
                    n,
                ),
            decreases self.layers@.len() - li,
        {
            let ghost layer = lv[li as int];
            proof {
                assert(lv[li as int] == kvs(self.layers@[li as int].kernels@));
                assert(lv.skip(li as int)[0] == layer);
                assert(lv.skip(li as int).drop_first() =~= lv.skip(li as int + 1));
                assert(lv.skip(li as int).flatten() == layer + lv.skip(li as int + 1).flatten());
                lemma_exec_concat(layer, lv.skip(li as int + 1).flatten(), state@, n);
                lemma_exec_len(layer, state@, n);
            }
            execute_kernel_list(state, &self.layers[li].kernels, self.num_qubits, false,
                use_parallel);
            li += 1;
        }
        proof {
            assert(lv.skip(self.layers@.len() as int) =~= Seq::<Seq<KernelV>>::empty());
            assert(Seq::<Seq<KernelV>>::empty().flatten() =~= Seq::<KernelV>::empty());
        }
    }

    /// Summary counts: totals by arity, diagonal count, layer count.
    pub fn stats(&self) -> (r: KernelStats)
        ensures
            r.total_kernels == self.kernels@.len(),
            r.single_qubit == count_s(kvs(self.kernels@), |k: KernelV| k.targets.len() == 1),
            r.two_qubit == count_s(kvs(self.kernels@), |k: KernelV| k.targets.len() == 2),
            r.multi_qubit == count_s(kvs(self.kernels@), |k: KernelV| k.targets.len() > 2),
            r.diagonal == count_s(
                kvs(self.kernels@),
                |k: KernelV| k.gate_type == GateType::Diagonal,
            ),
            r.execution_layers == self.layers@.len(),
    {
        let ghost full = kvs(self.kernels@);
        let ghost p1 = (|k: KernelV| k.targets.len() == 1);
        let ghost p2 = (|k: KernelV| k.targets.len() == 2);
        let ghost pm = (|k: KernelV| k.targets.len() > 2);
        let ghost pd = (|k: KernelV| k.gate_type == GateType::Diagonal);
        let mut single_qubit: usize = 0;
        let mut two_qubit: usize = 0;
        let mut multi_qubit: usize = 0;
        let mut diagonal: usize = 0;
        let mut i: usize = 0;
        proof {
            assert(full.take(0) =~= Seq::<KernelV>::empty());
        }
        while i < self.kernels.len()
            invariant
                i <= self.kernels@.len(),
                full == kvs(self.kernels@),
                single_qubit <= i,
                two_qubit <= i,
                multi_qubit <= i,
                diagonal <= i,
                single_qubit == count_s(full.take(i as int), p1),
                two_qubit == count_s(full.take(i as int), p2),
                multi_qubit == count_s(full.take(i as int), pm),
                diagonal == count_s(full.take(i as int), pd),
                p1 == (|k: KernelV| k.targets.len() == 1),
                p2 == (|k: KernelV| k.targets.len() == 2),
                pm == (|k: KernelV| k.targets.len() > 2),
                pd == (|k: KernelV| k.gate_type == GateType::Diagonal),
            decreases self.kernels@.len() - i,
        {
            proof {
                assert(full.take(i as int + 1).drop_last() =~= full.take(i as int));
                assert(full.take(i as int + 1).last() == full[i as int]);
                assert(full[i as int] == self.kernels@[i as int]@);
            }
            let arity = self.kernels[i].targets.len();
            if arity == 1 {
                single_qubit += 1;
            } else if arity == 2 {
                two_qubit += 1;
            } else if arity > 2 {
                multi_qubit += 1;
            }
            if self.kernels[i].gate_type == GateType::Diagonal {
                diagonal += 1;
            }
            i += 1;
        }
        proof {
            assert(full.take(self.kernels@.len() as int) =~= full);
        }
        KernelStats {
            total_kernels: self.kernels.len(),
            single_qubit,
            two_qubit,
            multi_qubit,
            diagonal,
            execution_layers: self.layers.len(),
        }
    }
}

} // verus!
