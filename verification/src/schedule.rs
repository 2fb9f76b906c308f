//! What holds of the order in which a sub-step queues its work.
//!
//! Every queued element has a stage: the start of pass `p` has stage `2p`,
//! a kernel that belongs to pass `p` has stage `2p + 1`. A sub-step queues
//! its elements in stage order, which places each kernel after the start of
//! its own pass and before the start of the next one.

use crate::grid::grid::{
    count_invocations, finalize_invocations, init_indirect_workgroups_invocation,
    touch_invocations,
};
use crate::grid::prefix_sum::{down_sweep, scan_invocations, up_sweep};
use crate::grid::sort::sort_rigid_particles_invocations;
use crate::pipeline::{marker, pass, step_invocations, step_kernels, step_pass, StepSizes};
use crate::queue::{Buffer, ComputePass, InvocationView, Pipeline};
use vstd::prelude::*;

verus! {

/// The pass in which the kernels of a pipeline run, for the pipelines of
/// the simulation step.
pub open spec fn home_pass(pipeline: Pipeline) -> Option<ComputePass> {
    match pipeline {
        Pipeline::UpdateWorldMassProperties
        | Pipeline::TransformSamplePoints
        | Pipeline::TransformShapePoints => Some(ComputePass::UpdateRigidParticles),
        Pipeline::ResetHmap
        | Pipeline::Reset
        | Pipeline::InitIndirectWorkgroups
        | Pipeline::TouchParticleBlocks
        | Pipeline::TouchRigidParticleBlocks
        | Pipeline::MarkRigidParticlesNeedingBlock
        | Pipeline::UpdateBlockParticleCount
        | Pipeline::CopyParticlesLenToScanValue
        | Pipeline::CopyScanValuesToFirstParticles
        | Pipeline::FinalizeParticlesSort
        | Pipeline::SortRigidParticles
        | Pipeline::PrefixSum
        | Pipeline::AddDataGrp => Some(ComputePass::GridSort),
        Pipeline::GridUpdateCdf => Some(ComputePass::GridUpdateCdf),
        Pipeline::P2GCdf => Some(ComputePass::P2GCdf),
        Pipeline::G2PCdf => Some(ComputePass::G2PCdf),
        Pipeline::P2G => Some(ComputePass::P2G),
        Pipeline::GridUpdate => Some(ComputePass::GridUpdate),
        Pipeline::G2P => Some(ComputePass::G2P),
        Pipeline::ParticleUpdate => Some(ComputePass::ParticlesUpdate),
        Pipeline::RigidImpulsesUpdate => Some(ComputePass::IntegrateBodies),
        Pipeline::PrepVertexBuffer | Pipeline::PrepVertexBufferRigidParticles => None,
    }
}

/// `x` is a kernel of a pipeline that runs in pass `p`.
pub open spec fn is_kernel_of(x: InvocationView, p: ComputePass) -> bool {
    x is Kernel && home_pass(x->Kernel_0.pipeline) == Some(p)
}

/// `x` is a kernel of the pipeline `pipeline`.
pub open spec fn runs(x: InvocationView, pipeline: Pipeline) -> bool {
    x is Kernel && x->Kernel_0.pipeline == pipeline
}

/// Every element of `s` is a kernel that runs in pass `p`.
pub open spec fn kernels_of(s: Seq<InvocationView>, p: ComputePass) -> bool {
    forall|i: int| 0 <= i < s.len() ==> is_kernel_of(#[trigger] s[i], p)
}

/// The stage of a queued element. Kernels that belong to no pass of the
/// step come after all of them.
pub open spec fn stage(x: InvocationView) -> int {
    match x {
        InvocationView::ComputePass { pass, .. } => 2 * pass.rank(),
        InvocationView::Kernel(k) => match home_pass(k.pipeline) {
            Some(pass) => 2 * pass.rank() + 1,
            None => 20,
        },
    }
}

/// The elements of `s` have stages from `lo` to `hi` and stand in stage
/// order.
pub open spec fn staged_within(s: Seq<InvocationView>, lo: int, hi: int) -> bool {
    &&& forall|i: int| 0 <= i < s.len() ==> lo <= #[trigger] stage(s[i]) <= hi
    &&& forall|i: int, j: int|
        0 <= i < j < s.len() ==> #[trigger] stage(s[i]) <= #[trigger] stage(s[j])
}

/// The passes that `s` starts, in the order in which it starts them.
pub open spec fn passes(s: Seq<InvocationView>) -> Seq<ComputePass>
    decreases s.len(),
{
    if s.len() == 0 {
        Seq::<ComputePass>::empty()
    } else {
        match s.last() {
            InvocationView::ComputePass { pass, .. } => passes(s.drop_last()).push(pass),
            InvocationView::Kernel(_) => passes(s.drop_last()),
        }
    }
}

/// The ten passes of a sub-step.
pub open spec fn substep_passes() -> Seq<ComputePass> {
    seq![
        ComputePass::UpdateRigidParticles,
        ComputePass::GridSort,
        ComputePass::GridUpdateCdf,
        ComputePass::P2GCdf,
        ComputePass::G2PCdf,
        ComputePass::P2G,
        ComputePass::GridUpdate,
        ComputePass::G2P,
        ComputePass::ParticlesUpdate,
        ComputePass::IntegrateBodies,
    ]
}

/// Two runs in stage order, the second of which starts no earlier than the
/// first one ends, make one run in stage order.
pub proof fn lemma_staged_concat(
    a: Seq<InvocationView>,
    b: Seq<InvocationView>,
    lo: int,
    mid_a: int,
    mid_b: int,
    hi: int,
)
    requires
        staged_within(a, lo, mid_a),
        staged_within(b, mid_b, hi),
        lo <= mid_a <= mid_b <= hi,
    ensures
        staged_within(a + b, lo, hi),
{
    let s = a + b;
    assert forall|i: int| 0 <= i < s.len() implies lo <= #[trigger] stage(s[i]) <= hi by {
        if i < a.len() {
            assert(s[i] == a[i]);
        } else {
            assert(s[i] == b[i - a.len()]);
        }
    }
    assert forall|i: int, j: int| 0 <= i < j < s.len() implies #[trigger] stage(s[i])
        <= #[trigger] stage(s[j]) by {
        if i < a.len() {
            assert(s[i] == a[i]);
        } else {
            assert(s[i] == b[i - a.len()]);
        }
        if j < a.len() {
            assert(s[j] == a[j]);
        } else {
            assert(s[j] == b[j - a.len()]);
        }
    }
}

/// The passes started by two runs, one after the other.
pub proof fn lemma_passes_concat(a: Seq<InvocationView>, b: Seq<InvocationView>)
    ensures
        passes(a + b) == passes(a) + passes(b),
    decreases b.len(),
{
    if b.len() == 0 {
        assert(a + b =~= a);
        assert(passes(a) + passes(b) =~= passes(a));
    } else {
        assert((a + b).drop_last() =~= a + b.drop_last());
        assert((a + b).last() == b.last());
        lemma_passes_concat(a, b.drop_last());
        match b.last() {
            InvocationView::ComputePass { pass, .. } => {
                assert(passes(a + b) =~= passes(a) + passes(b));
            },
            InvocationView::Kernel(_) => {},
        }
    }
}

/// A run of kernels starts no pass.
pub proof fn lemma_passes_of_kernels(s: Seq<InvocationView>, p: ComputePass)
    requires
        kernels_of(s, p),
    ensures
        passes(s) == Seq::<ComputePass>::empty(),
    decreases s.len(),
{
    if s.len() > 0 {
        assert(is_kernel_of(s[s.len() - 1], p));
        assert forall|i: int| 0 <= i < s.drop_last().len() implies is_kernel_of(
            #[trigger] s.drop_last()[i],
            p,
        ) by {
            assert(s.drop_last()[i] == s[i]);
        }
        lemma_passes_of_kernels(s.drop_last(), p);
    }
}

/// Kernels of one pass, one run after the other.
pub proof fn lemma_kernels_concat(a: Seq<InvocationView>, b: Seq<InvocationView>, p: ComputePass)
    requires
        kernels_of(a, p),
        kernels_of(b, p),
    ensures
        kernels_of(a + b, p),
{
    let s = a + b;
    assert forall|i: int| 0 <= i < s.len() implies is_kernel_of(#[trigger] s[i], p) by {
        if i < a.len() {
            assert(s[i] == a[i]);
        } else {
            assert(s[i] == b[i - a.len()]);
        }
    }
}

/// The kernels of a scan all belong to the grid sort.
pub proof fn lemma_scan_kernels(data: Buffer, stages: Seq<u32>, num_stages: int)
    requires
        num_stages >= 1,
    ensures
        kernels_of(scan_invocations(data, stages, num_stages), ComputePass::GridSort),
{
    let s = scan_invocations(data, stages, num_stages);
    assert forall|i: int| 0 <= i < s.len() implies is_kernel_of(
        #[trigger] s[i],
        ComputePass::GridSort,
    ) by {
        let up = up_sweep(stages, num_stages);
        let down = down_sweep(stages, num_stages);
        if i == 0 {
        } else if i < 1 + up.len() {
            assert(s[i] == up[i - 1]);
        } else if i < 1 + up.len() + down.len() {
            assert(s[i] == down[i - 1 - up.len()]);
        } else {
        }
    }
}

/// Every kernel that a sub-step queues in a pass runs in that pass.
pub proof fn lemma_step_kernels_home(sizes: StepSizes, p: ComputePass)
    requires
        sizes.num_stages >= 1,
    ensures
        kernels_of(step_kernels(sizes, p), p),
{
    match p {
        ComputePass::GridSort => {
            let touch = touch_invocations(
                sizes.grid.cpu_meta.hmap_capacity,
                sizes.num_particles,
                sizes.num_samples,
            );
            let count = count_invocations(sizes.num_particles);
            let scan = scan_invocations(Buffer::GridScanValues, sizes.stages, sizes.num_stages);
            let fin = finalize_invocations(sizes.num_particles);
            let rigid = sort_rigid_particles_invocations(sizes.num_samples);
            assert(kernels_of(touch, p));
            assert(kernels_of(count, p));
            assert(kernels_of(fin, p));
            assert(kernels_of(rigid, p));
            lemma_scan_kernels(Buffer::GridScanValues, sizes.stages, sizes.num_stages);
            lemma_kernels_concat(touch, count, p);
            lemma_kernels_concat(touch + count, scan, p);
            lemma_kernels_concat(touch + count + scan, fin, p);
            lemma_kernels_concat(touch + count + scan + fin, rigid, p);
        },
        _ => {},
    }
}

/// One pass of a sub-step starts that pass and no other, and stands in
/// stage order.
pub proof fn lemma_step_pass(sizes: StepSizes, p: ComputePass, add_timestamps: bool)
    requires
        sizes.num_stages >= 1,
    ensures
        passes(step_pass(sizes, p, add_timestamps)) == seq![p],
        staged_within(step_pass(sizes, p, add_timestamps), 2 * p.rank(), 2 * p.rank() + 1),
{
    let m = seq![marker(p, add_timestamps)];
    let k = step_kernels(sizes, p);
    lemma_step_kernels_home(sizes, p);
    lemma_passes_of_kernels(k, p);
    lemma_passes_concat(m, k);
    assert(passes(m) =~= seq![p]) by {
        assert(m.drop_last() =~= Seq::<InvocationView>::empty());
        assert(passes(m.drop_last()) =~= Seq::<ComputePass>::empty());
    }
    assert(passes(m) + passes(k) =~= seq![p]);
    assert(staged_within(m, 2 * p.rank(), 2 * p.rank()));
    assert(staged_within(k, 2 * p.rank() + 1, 2 * p.rank() + 1)) by {
        assert forall|i: int| 0 <= i < k.len() implies #[trigger] stage(k[i]) == 2 * p.rank()
            + 1 by {
            assert(is_kernel_of(k[i], p));
        }
    }
    lemma_staged_concat(m, k, 2 * p.rank(), 2 * p.rank(), 2 * p.rank() + 1, 2 * p.rank() + 1);
}

/// The first `k` passes of a sub-step, one after the other.
pub open spec fn step_through(sizes: StepSizes, add_timestamps: bool, k: nat) -> Seq<
    InvocationView,
>
    decreases k,
{
    if k == 0 {
        Seq::<InvocationView>::empty()
    } else {
        step_through(sizes, add_timestamps, (k - 1) as nat) + step_pass(
            sizes,
            substep_passes()[k - 1],
            add_timestamps,
        )
    }
}

/// A sub-step is its ten passes, one after the other, and the pass at
/// place `k` has the rank `k`.
pub proof fn lemma_step_is_its_passes(sizes: StepSizes, add_timestamps: bool)
    ensures
        step_invocations(sizes, add_timestamps) == step_through(sizes, add_timestamps, 10),
        substep_passes().len() == 10,
        forall|k: int| 0 <= k < 10 ==> (#[trigger] substep_passes()[k]).rank() == k,
{
    reveal_with_fuel(step_through, 11);
    assert(step_invocations(sizes, add_timestamps) =~= step_through(sizes, add_timestamps, 10));
}

/// The first `k` passes of a sub-step start these passes, each once, in
/// their order, and stand in stage order.
proof fn lemma_step_through(sizes: StepSizes, add_timestamps: bool, k: nat)
    requires
        sizes.num_stages >= 1,
        k <= 10,
    ensures
        passes(step_through(sizes, add_timestamps, k)) == substep_passes().take(k as int),
        staged_within(step_through(sizes, add_timestamps, k), 0, 2 * k - 1),
    decreases k,
{
    lemma_step_is_its_passes(sizes, add_timestamps);
    if k == 0 {
        assert(passes(step_through(sizes, add_timestamps, 0)) =~= substep_passes().take(0));
    } else {
        let p = substep_passes()[k - 1];
        let front = step_through(sizes, add_timestamps, (k - 1) as nat);
        let last = step_pass(sizes, p, add_timestamps);
        lemma_step_through(sizes, add_timestamps, (k - 1) as nat);
        lemma_step_pass(sizes, p, add_timestamps);
        lemma_passes_concat(front, last);
        assert(substep_passes().take(k - 1) + seq![p] =~= substep_passes().take(k as int));
        if k == 1 {
            assert(front + last =~= last);
        } else {
            lemma_staged_concat(front, last, 0, 2 * k - 3, 2 * k - 2, 2 * k - 1);
        }
    }
}

/// A sub-step starts the ten passes, each once, in their order.
pub proof fn lemma_step_passes(sizes: StepSizes, add_timestamps: bool)
    requires
        sizes.num_stages >= 1,
    ensures
        passes(step_invocations(sizes, add_timestamps)) == substep_passes(),
{
    lemma_step_is_its_passes(sizes, add_timestamps);
    lemma_step_through(sizes, add_timestamps, 10);
    assert(substep_passes().take(10) =~= substep_passes());
}

/// A sub-step queues its elements in stage order: every kernel stands
/// after the start of its own pass and before the start of the next pass.
pub proof fn lemma_step_staged(sizes: StepSizes, add_timestamps: bool)
    requires
        sizes.num_stages >= 1,
    ensures
        staged_within(step_invocations(sizes, add_timestamps), 0, 19),
{
    lemma_step_is_its_passes(sizes, add_timestamps);
    lemma_step_through(sizes, add_timestamps, 10);
}

/// The three passes of the compatibility field are over before a particle
/// deposits on the grid or gathers from it: in a sub-step, every kernel
/// that writes or hands over the compatibility field is queued before
/// every kernel of the two transfers.
pub proof fn lemma_cdf_before_transfer(sizes: StepSizes, add_timestamps: bool, i: int, j: int)
    requires
        sizes.num_stages >= 1,
        0 <= i < step_invocations(sizes, add_timestamps).len(),
        0 <= j < step_invocations(sizes, add_timestamps).len(),
        ({
            let x = step_invocations(sizes, add_timestamps)[i];
            runs(x, Pipeline::GridUpdateCdf) || runs(x, Pipeline::P2GCdf) || runs(
                x,
                Pipeline::G2PCdf,
            )
        }),
        ({
            let y = step_invocations(sizes, add_timestamps)[j];
            runs(y, Pipeline::P2G) || runs(y, Pipeline::G2P)
        }),
    ensures
        i < j,
{
    lemma_step_staged(sizes, add_timestamps);
    let s = step_invocations(sizes, add_timestamps);
    assert(stage(s[i]) <= 9);
    assert(stage(s[j]) >= 11);
}

/// Every element of `s` satisfies `f`.
pub open spec fn every(s: Seq<InvocationView>, f: spec_fn(InvocationView) -> bool) -> bool {
    forall|i: int| 0 <= i < s.len() ==> f(#[trigger] s[i])
}

/// What holds of every element of two runs holds of every element of both.
pub proof fn lemma_every_concat(
    a: Seq<InvocationView>,
    b: Seq<InvocationView>,
    f: spec_fn(InvocationView) -> bool,
)
    requires
        every(a, f),
        every(b, f),
    ensures
        every(a + b, f),
{
    let s = a + b;
    assert forall|i: int| 0 <= i < s.len() implies f(#[trigger] s[i]) by {
        if i < a.len() {
            assert(s[i] == a[i]);
        } else {
            assert(s[i] == b[i - a.len()]);
        }
    }
}

/// What holds of every element of each pass holds of every element of
/// the first `k` passes.
proof fn lemma_every_through(
    sizes: StepSizes,
    add_timestamps: bool,
    f: spec_fn(InvocationView) -> bool,
    k: nat,
)
    requires
        forall|p: ComputePass| every(#[trigger] step_pass(sizes, p, add_timestamps), f),
    ensures
        every(step_through(sizes, add_timestamps, k), f),
    decreases k,
{
    if k > 0 {
        lemma_every_through(sizes, add_timestamps, f, (k - 1) as nat);
        lemma_every_concat(
            step_through(sizes, add_timestamps, (k - 1) as nat),
            step_pass(sizes, substep_passes()[k - 1], add_timestamps),
            f,
        );
    }
}

/// What holds of every element of each of the ten passes holds of every
/// element of the sub-step.
pub proof fn lemma_every_of_step(
    sizes: StepSizes,
    add_timestamps: bool,
    f: spec_fn(InvocationView) -> bool,
)
    requires
        forall|p: ComputePass| every(#[trigger] step_pass(sizes, p, add_timestamps), f),
    ensures
        every(step_invocations(sizes, add_timestamps), f),
{
    lemma_step_is_its_passes(sizes, add_timestamps);
    lemma_every_through(sizes, add_timestamps, f, 10);
}

/// The kernels of a scan are group scans and additions with a work-group
/// count given directly.
pub proof fn lemma_scan_elements(data: Buffer, stages: Seq<u32>, num_stages: int)
    requires
        num_stages >= 1,
    ensures
        every(
            scan_invocations(data, stages, num_stages),
            |x: InvocationView|
                (runs(x, Pipeline::PrefixSum) || runs(x, Pipeline::AddDataGrp))
                    && x->Kernel_0.workgroups is Direct,
        ),
{
    let s = scan_invocations(data, stages, num_stages);
    let f = |x: InvocationView|
        (runs(x, Pipeline::PrefixSum) || runs(x, Pipeline::AddDataGrp))
            && x->Kernel_0.workgroups is Direct;
    assert forall|i: int| 0 <= i < s.len() implies f(#[trigger] s[i]) by {
        let up = up_sweep(stages, num_stages);
        let down = down_sweep(stages, num_stages);
        if i == 0 {
        } else if i < 1 + up.len() {
            assert(s[i] == up[i - 1]);
        } else if i < 1 + up.len() + down.len() {
            assert(s[i] == down[i - 1 - up.len()]);
        } else {
        }
    }
}

/// The kernels that run only for the sake of the rigid surface samples and
/// of the bodies that carry them.
pub open spec fn works_for_samples(pipeline: Pipeline) -> bool {
    pipeline == Pipeline::UpdateWorldMassProperties || pipeline == Pipeline::TransformSamplePoints
        || pipeline == Pipeline::TransformShapePoints || pipeline == Pipeline::SortRigidParticles
        || pipeline == Pipeline::P2GCdf || pipeline == Pipeline::RigidImpulsesUpdate
}

/// Without rigid surface samples, a sub-step queues none of the kernels
/// that run for their sake: they are left out, not queued with no work.
pub proof fn lemma_no_sample_work_without_samples(sizes: StepSizes, add_timestamps: bool)
    requires
        sizes.num_stages >= 1,
        sizes.num_samples == 0,
    ensures
        every(
            step_invocations(sizes, add_timestamps),
            |x: InvocationView| !(x is Kernel && works_for_samples(x->Kernel_0.pipeline)),
        ),
{
    let f = |x: InvocationView| !(x is Kernel && works_for_samples(x->Kernel_0.pipeline));
    assert forall|p: ComputePass| every(#[trigger] step_pass(sizes, p, add_timestamps), f) by {
        let m = seq![marker(p, add_timestamps)];
        let k = step_kernels(sizes, p);
        assert(every(m, f));
        assert(every(k, f)) by {
            match p {
                ComputePass::GridSort => {
                    lemma_sort_elements(sizes, f);
                },
                _ => {},
            }
        }
        lemma_every_concat(m, k, f);
    }
    lemma_every_of_step(sizes, add_timestamps, f);
}

/// What holds of the kernels of the touch passes, of the counting, of a
/// scan and of the final placement holds of every kernel of the grid sort.
proof fn lemma_sort_elements(sizes: StepSizes, f: spec_fn(InvocationView) -> bool)
    requires
        sizes.num_stages >= 1,
        every(
            touch_invocations(
                sizes.grid.cpu_meta.hmap_capacity,
                sizes.num_particles,
                sizes.num_samples,
            ),
            f,
        ),
        every(count_invocations(sizes.num_particles), f),
        every(finalize_invocations(sizes.num_particles), f),
        every(sort_rigid_particles_invocations(sizes.num_samples), f),
        forall|x: InvocationView|
            (runs(x, Pipeline::PrefixSum) || runs(x, Pipeline::AddDataGrp))
                && x->Kernel_0.workgroups is Direct ==> #[trigger] f(x),
    ensures
        every(step_kernels(sizes, ComputePass::GridSort), f),
{
    let touch = touch_invocations(
        sizes.grid.cpu_meta.hmap_capacity,
        sizes.num_particles,
        sizes.num_samples,
    );
    let count = count_invocations(sizes.num_particles);
    let scan = scan_invocations(Buffer::GridScanValues, sizes.stages, sizes.num_stages);
    let fin = finalize_invocations(sizes.num_particles);
    let rigid = sort_rigid_particles_invocations(sizes.num_samples);
    lemma_scan_elements(Buffer::GridScanValues, sizes.stages, sizes.num_stages);
    assert(every(scan, f)) by {
        let g = |x: InvocationView|
            (runs(x, Pipeline::PrefixSum) || runs(x, Pipeline::AddDataGrp))
                && x->Kernel_0.workgroups is Direct;
        assert forall|i: int| 0 <= i < scan.len() implies f(#[trigger] scan[i]) by {
            assert(g(scan[i]));
        }
    }
    lemma_every_concat(touch, count, f);
    lemma_every_concat(touch + count, scan, f);
    lemma_every_concat(touch + count + scan, fin, f);
    lemma_every_concat(touch + count + scan + fin, rigid, f);
}

/// `x` is a kernel whose work-group count the device reads from a buffer.
pub open spec fn is_indirect(x: InvocationView) -> bool {
    x is Kernel && x->Kernel_0.workgroups is Indirect
}

/// Where a sub-step queues the kernel that writes the indirect work-group
/// counts.
pub open spec fn sizing_index(sizes: StepSizes, add_timestamps: bool) -> int {
    step_pass(sizes, ComputePass::UpdateRigidParticles, add_timestamps).len() as int + 5
}

/// In a sub-step, the kernel that writes the indirect work-group counts
/// is queued before every kernel that is dispatched with them, and such a
/// kernel reads its count from one of the two buffers that this kernel
/// writes.
pub proof fn lemma_indirect_after_sizing(sizes: StepSizes, add_timestamps: bool, j: int)
    requires
        sizes.num_stages >= 1,
        0 <= j < step_invocations(sizes, add_timestamps).len(),
        is_indirect(step_invocations(sizes, add_timestamps)[j]),
    ensures
        0 <= sizing_index(sizes, add_timestamps) < j,
        step_invocations(sizes, add_timestamps)[sizing_index(sizes, add_timestamps)]
            == init_indirect_workgroups_invocation(),
        ({
            let b = step_invocations(sizes, add_timestamps)[j]->Kernel_0.workgroups->Indirect_0;
            b == Buffer::GridIndirectNBlocksGroups || b == Buffer::GridIndirectNG2pP2gGroups
        }),
{
    let s = step_invocations(sizes, add_timestamps);
    let s0 = step_pass(sizes, ComputePass::UpdateRigidParticles, add_timestamps);
    let s1 = step_pass(sizes, ComputePass::GridSort, add_timestamps);
    let touch = touch_invocations(
        sizes.grid.cpu_meta.hmap_capacity,
        sizes.num_particles,
        sizes.num_samples,
    );
    let count = count_invocations(sizes.num_particles);
    let scan = scan_invocations(Buffer::GridScanValues, sizes.stages, sizes.num_stages);
    let fin = finalize_invocations(sizes.num_particles);
    let rigid = sort_rigid_particles_invocations(sizes.num_samples);
    let kernels = step_kernels(sizes, ComputePass::GridSort);
    let at = sizing_index(sizes, add_timestamps);

    // The first six elements of the grid sort: its start, the four touch
    // kernels and the kernel that writes the counts.
    assert forall|k: int| 0 <= k <= 4 implies #[trigger] kernels[k] == (touch + count)[k] by {
        assert((touch + count + scan)[k] == (touch + count)[k]);
        assert((touch + count + scan + fin)[k] == (touch + count)[k]);
    }
    assert forall|k: int| 0 <= k < s0.len() + 6 implies #[trigger] s[k] == (s0 + s1)[k] by {
        assert(s1.len() >= 6);
    }
    assert(s[at] == init_indirect_workgroups_invocation()) by {
        assert((s0 + s1)[at] == s1[5]);
        assert(s1[5] == kernels[4]);
        assert((touch + count)[4] == count[0]);
    }
    if j <= at {
        assert(s[j] == (s0 + s1)[j]);
        if j < s0.len() {
            assert((s0 + s1)[j] == s0[j]);
        } else {
            let k = j - s0.len();
            assert((s0 + s1)[j] == s1[k]);
            if k > 0 {
                assert(s1[k] == kernels[k - 1]);
                if k - 1 < 4 {
                    assert((touch + count)[k - 1] == touch[k - 1]);
                }
            }
        }
        assert(false);
    }
    // Every indirect dispatch reads one of the two buffers of counts.
    let f = |x: InvocationView|
        is_indirect(x) ==> x->Kernel_0.workgroups->Indirect_0 == Buffer::GridIndirectNBlocksGroups
            || x->Kernel_0.workgroups->Indirect_0 == Buffer::GridIndirectNG2pP2gGroups;
    assert forall|p: ComputePass| every(#[trigger] step_pass(sizes, p, add_timestamps), f) by {
        let m = seq![marker(p, add_timestamps)];
        let k = step_kernels(sizes, p);
        assert(every(m, f));
        assert(every(k, f)) by {
            match p {
                ComputePass::GridSort => {
                    lemma_sort_elements(sizes, f);
                },
                _ => {},
            }
        }
        lemma_every_concat(m, k, f);
    }
    lemma_every_of_step(sizes, add_timestamps, f);
    assert(f(s[j]));
}

} // verus!
