//! What the queued kernels of a grid sort compute.
//!
//! The kernels of the sort are given their meaning on host values, with
//! the lanes of a kernel taken one after the other in the order of the
//! particles. Run in the order in which they are queued, on a grid that
//! holds the blocks asked for, they leave a permutation of the particle
//! indices in the sorted ids, every particle in the range of the block in
//! which it lies, and block counts that add up to the number of particles.

use crate::arith::{div_ceil_spec, lemma_div_ceil_covers};
use crate::grid::blocks::BlockVirtualId;
use crate::grid::grid::{
    copy_particles_len_to_scan_value_invocation, copy_scan_values_to_first_particles_invocation,
    count_invocations, finalize_invocations, finalize_particles_sort_invocation,
    init_indirect_workgroups_invocation, mark_rigid_particles_invocation, reset_hmap_invocation,
    reset_invocation, sort_invocations, touch_invocations, touch_particle_blocks_invocation,
    touch_rigid_particle_blocks_invocation, update_block_particle_count_invocation, GpuGrid,
};
use crate::grid::particle_sort::{
    count_in, lemma_count_in_monotonic, lemma_find_range, lemma_nth_occurrence,
    lemma_prefix_total_increment, lemma_prefix_total_zero, lemma_touched_blocks_grow,
    touched_blocks,
};
use crate::grid::prefix_sum::{
    exclusive_scan, lemma_prefix_total_monotonic, prefix_total, reserved, scan_invocations,
    stage_chain, PrefixSumWorkspace,
};
use crate::grid::scan_plan::{
    fits, laid_out, lemma_prefix_total_agrees, lemma_queued_scan_is_exclusive_scan,
    lemma_reserved_fits, ScanBuffers,
};
use crate::queue::{Buffer, InvocationView, Pipeline, Workgroups};
use crate::schedule::{lemma_scan_elements, runs};
use vstd::prelude::*;

verus! {

/// No block stands twice in `ids`.
pub open spec fn distinct(ids: Seq<BlockVirtualId>) -> bool {
    forall|a: int, b: int| 0 <= a < ids.len() && 0 <= b < ids.len() && a != b ==> ids[a] != ids[b]
}

/// The slot of the block `id` among `ids`.
pub open spec fn slot_of(ids: Seq<BlockVirtualId>, id: BlockVirtualId) -> int {
    choose|b: int| 0 <= b < ids.len() && ids[b] == id
}

/// For every block of `ids`, the number of the first `m` particles that
/// lie in it.
pub open spec fn block_counts(ids: Seq<BlockVirtualId>, blocks: Seq<BlockVirtualId>, m: int) -> Seq<
    u32,
> {
    Seq::new(ids.len(), |b: int| count_in(blocks, m, ids[b]) as u32)
}

/// The place of particle `p` among the sorted particles: behind the
/// particles of the blocks with smaller slots, and behind the particles of
/// its own block that come before it.
pub open spec fn place(ids: Seq<BlockVirtualId>, blocks: Seq<BlockVirtualId>, p: int) -> int {
    prefix_total(block_counts(ids, blocks, blocks.len() as int), slot_of(ids, blocks[p]))
        + count_in(blocks, p, blocks[p])
}

/// The blocks touched are touched once.
pub proof fn lemma_touched_distinct(asked: Seq<BlockVirtualId>, n: int)
    ensures
        distinct(touched_blocks(asked, n)),
    decreases n,
{
    if n > 0 {
        lemma_touched_distinct(asked, n - 1);
    }
}

/// The slot of a block that stands in `ids`.
pub proof fn lemma_slot_of(ids: Seq<BlockVirtualId>, b: int)
    requires
        distinct(ids),
        0 <= b < ids.len(),
    ensures
        slot_of(ids, ids[b]) == b,
{
}

/// The counts of the blocks add up to the number of the particles.
pub proof fn lemma_counts_total(ids: Seq<BlockVirtualId>, blocks: Seq<BlockVirtualId>, m: int)
    requires
        distinct(ids),
        0 <= m <= blocks.len() <= u32::MAX,
        forall|q: int| 0 <= q < blocks.len() ==> ids.contains(#[trigger] blocks[q]),
    ensures
        prefix_total(block_counts(ids, blocks, m), ids.len() as int) == m,
    decreases m,
{
    if m == 0 {
        lemma_prefix_total_zero(block_counts(ids, blocks, 0), ids.len() as int);
    } else {
        lemma_counts_total(ids, blocks, m - 1);
        let before = block_counts(ids, blocks, m - 1);
        let after = block_counts(ids, blocks, m);
        let id = blocks[m - 1];
        assert(ids.contains(id));
        let b = slot_of(ids, id);
        lemma_count_in_monotonic(blocks, 0, m - 1, id);
        lemma_prefix_total_increment(before, b, ids.len() as int);
        assert forall|c: int| 0 <= c < ids.len() implies after[c] == before.update(
            b,
            (before[b] + 1) as u32,
        )[c] by {
            lemma_count_in_monotonic(blocks, 0, m - 1, ids[c]);
            if c != b {
                assert(ids[c] != ids[b]);
            }
        }
        assert(after =~= before.update(b, (before[b] + 1) as u32));
    }
}

/// Every particle has its place in the range of its block.
pub proof fn lemma_place_in_range(ids: Seq<BlockVirtualId>, blocks: Seq<BlockVirtualId>, p: int)
    requires
        distinct(ids),
        blocks.len() <= u32::MAX,
        forall|q: int| 0 <= q < blocks.len() ==> ids.contains(#[trigger] blocks[q]),
        0 <= p < blocks.len(),
    ensures
        ({
            let counts = block_counts(ids, blocks, blocks.len() as int);
            let b = slot_of(ids, blocks[p]);
            &&& 0 <= b < ids.len()
            &&& ids[b] == blocks[p]
            &&& prefix_total(counts, b) <= place(ids, blocks, p) < prefix_total(counts, b)
                + counts[b]
            &&& prefix_total(counts, b) + counts[b] <= blocks.len()
            &&& 0 <= prefix_total(counts, b)
        }),
{
    let n = blocks.len() as int;
    let counts = block_counts(ids, blocks, n);
    assert(ids.contains(blocks[p]));
    let b = slot_of(ids, blocks[p]);
    lemma_count_in_monotonic(blocks, 0, p, blocks[p]);
    lemma_count_in_monotonic(blocks, p + 1, n, blocks[p]);
    lemma_count_in_monotonic(blocks, 0, n, blocks[p]);
    lemma_counts_total(ids, blocks, n);
    assert(prefix_total(counts, b + 1) == prefix_total(counts, b) + counts[b]);
    lemma_prefix_total_monotonic(counts, b + 1, ids.len() as int);
    lemma_prefix_total_monotonic(counts, 0, b);
}

/// Two particles have two places.
pub proof fn lemma_place_injective(
    ids: Seq<BlockVirtualId>,
    blocks: Seq<BlockVirtualId>,
    p: int,
    q: int,
)
    requires
        distinct(ids),
        blocks.len() <= u32::MAX,
        forall|q: int| 0 <= q < blocks.len() ==> ids.contains(#[trigger] blocks[q]),
        0 <= p < q < blocks.len(),
    ensures
        place(ids, blocks, p) != place(ids, blocks, q),
{
    let n = blocks.len() as int;
    let counts = block_counts(ids, blocks, n);
    lemma_place_in_range(ids, blocks, p);
    lemma_place_in_range(ids, blocks, q);
    let a = slot_of(ids, blocks[p]);
    let b = slot_of(ids, blocks[q]);
    if a == b {
        lemma_count_in_monotonic(blocks, p + 1, q, blocks[p]);
    } else if a < b {
        assert(prefix_total(counts, a + 1) == prefix_total(counts, a) + counts[a]);
        lemma_prefix_total_monotonic(counts, a + 1, b);
    } else {
        assert(prefix_total(counts, b + 1) == prefix_total(counts, b) + counts[b]);
        lemma_prefix_total_monotonic(counts, b + 1, a);
    }
}

/// Every place is the place of a particle.
pub proof fn lemma_place_onto(ids: Seq<BlockVirtualId>, blocks: Seq<BlockVirtualId>, k: int) -> (p:
    int)
    requires
        distinct(ids),
        blocks.len() <= u32::MAX,
        forall|q: int| 0 <= q < blocks.len() ==> ids.contains(#[trigger] blocks[q]),
        0 <= k < blocks.len(),
    ensures
        0 <= p < blocks.len(),
        place(ids, blocks, p) == k,
{
    let n = blocks.len() as int;
    let counts = block_counts(ids, blocks, n);
    lemma_counts_total(ids, blocks, n);
    let b = lemma_find_range(counts, ids.len() as int, k);
    lemma_count_in_monotonic(blocks, 0, n, ids[b]);
    let p = lemma_nth_occurrence(blocks, n, ids[b], k - prefix_total(counts, b));
    lemma_slot_of(ids, b);
    p
}

/// What a grid sort is run on: the block in which each particle lies, the
/// blocks that the flagged rigid samples need, the number of rigid
/// samples, and the number of blocks that the grid holds.
pub struct SortInput {
    pub blocks: Seq<BlockVirtualId>,
    pub sample_blocks: Seq<BlockVirtualId>,
    pub num_samples: int,
    pub capacity: int,
}

/// The values that the buffers of a grid sort hold.
pub struct SortBuffers {
    /// The blocks that were asked for since the hash map was cleared.
    pub asked: Seq<BlockVirtualId>,
    /// The particle count of each active block.
    pub num_particles: Seq<u32>,
    /// The start of the range of each active block.
    pub first_particle: Seq<u32>,
    /// The work-group count of the kernels that run a lane per block.
    pub n_block_groups: int,
    /// The scan values and the workspace of the prefix sum.
    pub scan: ScanBuffers,
    pub sorted_ids: Seq<u32>,
}

/// The active blocks, in slot order: the blocks asked for, each once, in
/// the order in which they were asked for first.
pub open spec fn active_ids(b: SortBuffers) -> Seq<BlockVirtualId> {
    touched_blocks(b.asked, b.asked.len() as int)
}

/// The place that the final kernel gives particle `p`: the start of the
/// range of its block, and one more for every particle of the block that
/// came before.
pub open spec fn stored_place(b: SortBuffers, blocks: Seq<BlockVirtualId>, p: int) -> int {
    b.first_particle[slot_of(active_ids(b), blocks[p])] + count_in(blocks, p, blocks[p])
}

/// The kernel is launched with a work-group count given directly, and its
/// lanes, 64 to a work group, cover `n` items.
pub open spec fn covers(x: InvocationView, n: int) -> bool {
    x is Kernel && x->Kernel_0.workgroups is Direct && x->Kernel_0.workgroups->Direct_0 * 64 >= n
}

/// The kernel is launched with the work-group count that was written for
/// the kernels that run a lane per block, and these lanes cover the
/// active blocks.
pub open spec fn covers_blocks(x: InvocationView, b: SortBuffers) -> bool {
    x is Kernel && x->Kernel_0.workgroups == Workgroups::Indirect(
        Buffer::GridIndirectNBlocksGroups,
    ) && b.n_block_groups * 64 >= active_ids(b).len()
}

/// What one queued kernel of the grid sort does to the buffers. The lanes
/// of a kernel take their turns in the order of the particles.
pub open spec fn apply_sort(x: InvocationView, input: SortInput, b: SortBuffers) -> SortBuffers {
    let n = input.blocks.len() as int;
    if runs(x, Pipeline::ResetHmap) && covers(x, input.capacity) {
        SortBuffers { asked: Seq::<BlockVirtualId>::empty(), ..b }
    } else if runs(x, Pipeline::TouchParticleBlocks) && covers(x, n) {
        SortBuffers { asked: b.asked + input.blocks, ..b }
    } else if runs(x, Pipeline::TouchRigidParticleBlocks) && covers(x, input.num_samples) {
        SortBuffers { asked: b.asked + input.sample_blocks, ..b }
    } else if runs(x, Pipeline::InitIndirectWorkgroups) {
        SortBuffers { n_block_groups: div_ceil_spec(active_ids(b).len() as int, 64), ..b }
    } else if runs(x, Pipeline::UpdateBlockParticleCount) && covers(x, n) {
        SortBuffers { num_particles: block_counts(active_ids(b), input.blocks, n), ..b }
    } else if runs(x, Pipeline::CopyParticlesLenToScanValue) && covers_blocks(x, b) {
        SortBuffers {
            scan: ScanBuffers {
                data: Seq::new(
                    b.scan.data.len(),
                    |i: int|
                        if i < active_ids(b).len() {
                            b.num_particles[i]
                        } else {
                            b.scan.data[i]
                        },
                ),
                stages: b.scan.stages,
            },
            ..b
        }
    } else if runs(x, Pipeline::PrefixSum) || runs(x, Pipeline::AddDataGrp) {
        SortBuffers { scan: crate::grid::scan_plan::apply(x, Buffer::GridScanValues, b.scan), ..b }
    } else if runs(x, Pipeline::CopyScanValuesToFirstParticles) && covers_blocks(x, b) {
        SortBuffers {
            first_particle: Seq::new(active_ids(b).len(), |i: int| b.scan.data[i]),
            ..b
        }
    } else if runs(x, Pipeline::FinalizeParticlesSort) && covers(x, n) {
        SortBuffers {
            sorted_ids: Seq::new(
                n as nat,
                |k: int|
                    (choose|p: int| 0 <= p < n && stored_place(b, input.blocks, p) == k) as u32,
            ),
            ..b
        }
    } else {
        b
    }
}

/// What the queued kernels do to the buffers, one after the other.
pub open spec fn run_sort(plan: Seq<InvocationView>, input: SortInput, b: SortBuffers)
    -> SortBuffers
    decreases plan.len(),
{
    if plan.len() == 0 {
        b
    } else {
        apply_sort(plan.last(), input, run_sort(plan.drop_last(), input, b))
    }
}

/// Running one more kernel.
pub proof fn lemma_run_sort_push(
    a: Seq<InvocationView>,
    x: InvocationView,
    input: SortInput,
    b: SortBuffers,
)
    ensures
        run_sort(a.push(x), input, b) == apply_sort(x, input, run_sort(a, input, b)),
{
    assert(a.push(x).drop_last() =~= a);
}

/// Running two runs of kernels, one after the other.
pub proof fn lemma_run_sort_concat(
    a: Seq<InvocationView>,
    c: Seq<InvocationView>,
    input: SortInput,
    b: SortBuffers,
)
    ensures
        run_sort(a + c, input, b) == run_sort(c, input, run_sort(a, input, b)),
    decreases c.len(),
{
    if c.len() == 0 {
        assert(a + c =~= a);
    } else {
        assert((a + c).drop_last() =~= a + c.drop_last());
        lemma_run_sort_concat(a, c.drop_last(), input, b);
    }
}

/// The kernels of a scan change the scan buffers as the scan says, and
/// nothing else.
pub proof fn lemma_run_sort_of_scan(plan: Seq<InvocationView>, input: SortInput, b: SortBuffers)
    requires
        forall|i: int|
            0 <= i < plan.len() ==> runs(#[trigger] plan[i], Pipeline::PrefixSum) || runs(
                plan[i],
                Pipeline::AddDataGrp,
            ),
    ensures
        run_sort(plan, input, b) == (SortBuffers {
            scan: crate::grid::scan_plan::run(plan, Buffer::GridScanValues, b.scan),
            ..b
        }),
    decreases plan.len(),
{
    if plan.len() > 0 {
        assert forall|i: int| 0 <= i < plan.drop_last().len() implies runs(
            #[trigger] plan.drop_last()[i],
            Pipeline::PrefixSum,
        ) || runs(plan.drop_last()[i], Pipeline::AddDataGrp) by {
            assert(plan.drop_last()[i] == plan[i]);
        }
        lemma_run_sort_of_scan(plan.drop_last(), input, b);
        assert(runs(plan[plan.len() - 1], Pipeline::PrefixSum) || runs(
            plan[plan.len() - 1],
            Pipeline::AddDataGrp,
        ));
    }
}

/// The touch passes leave the blocks of the particles and of the flagged
/// samples asked for, and nothing else changed.
proof fn lemma_touch_phase(
    hmap_capacity: u32,
    num_particles: u32,
    num_samples: u32,
    input: SortInput,
    b: SortBuffers,
)
    requires
        input.capacity == hmap_capacity,
        input.blocks.len() == num_particles,
        input.num_samples == num_samples,
    ensures
        ({
            let after = run_sort(
                touch_invocations(hmap_capacity, num_particles, num_samples),
                input,
                b,
            );
            &&& after.asked == input.blocks + input.sample_blocks
            &&& after.scan == b.scan
        }),
{
    lemma_div_ceil_covers(hmap_capacity as int, 64);
    lemma_div_ceil_covers(num_particles as int, 64);
    lemma_div_ceil_covers(num_samples as int, 64);
    let e = Seq::<InvocationView>::empty();
    let x0 = reset_hmap_invocation(hmap_capacity);
    let x1 = touch_particle_blocks_invocation(num_particles);
    let x2 = mark_rigid_particles_invocation(num_samples);
    let x3 = touch_rigid_particle_blocks_invocation(num_samples);
    lemma_run_sort_push(e, x0, input, b);
    lemma_run_sort_push(e.push(x0), x1, input, b);
    lemma_run_sort_push(e.push(x0).push(x1), x2, input, b);
    lemma_run_sort_push(e.push(x0).push(x1).push(x2), x3, input, b);
    assert(run_sort(e, input, b) == b);
    let s0 = apply_sort(x0, input, b);
    assert(covers(x0, input.capacity));
    assert(s0.asked =~= Seq::<BlockVirtualId>::empty());
    let s1 = apply_sort(x1, input, s0);
    assert(covers(x1, input.blocks.len() as int));
    assert(s1.asked =~= input.blocks);
    let s2 = apply_sort(x2, input, s1);
    assert(s2 == s1);
    let s3 = apply_sort(x3, input, s2);
    assert(covers(x3, input.num_samples));
    assert(s3.asked == input.blocks + input.sample_blocks);
    assert(touch_invocations(hmap_capacity, num_particles, num_samples) == e.push(x0).push(
        x1,
    ).push(x2).push(x3));
}

/// The counting passes leave the particle count of every active block in
/// its header and in its scan value.
proof fn lemma_count_phase(num_particles: u32, input: SortInput, b: SortBuffers)
    requires
        input.blocks.len() == num_particles,
        active_ids(b).len() <= b.scan.data.len(),
    ensures
        ({
            let after = run_sort(count_invocations(num_particles), input, b);
            let ids = active_ids(b);
            let counts = block_counts(ids, input.blocks, input.blocks.len() as int);
            &&& after.asked == b.asked
            &&& after.num_particles == counts
            &&& after.n_block_groups * 64 >= ids.len()
            &&& after.scan.stages == b.scan.stages
            &&& after.scan.data.len() == b.scan.data.len()
            &&& forall|i: int| 0 <= i < ids.len() ==> #[trigger] after.scan.data[i] == counts[i]
        }),
{
    let n = input.blocks.len() as int;
    let ids = active_ids(b);
    lemma_div_ceil_covers(n, 64);
    lemma_div_ceil_covers(ids.len() as int, 64);
    let e = Seq::<InvocationView>::empty();
    let x0 = init_indirect_workgroups_invocation();
    let x1 = update_block_particle_count_invocation(num_particles);
    let x2 = copy_particles_len_to_scan_value_invocation();
    lemma_run_sort_push(e, x0, input, b);
    lemma_run_sort_push(e.push(x0), x1, input, b);
    lemma_run_sort_push(e.push(x0).push(x1), x2, input, b);
    assert(run_sort(e, input, b) == b);
    let s0 = apply_sort(x0, input, b);
    assert(s0.n_block_groups == div_ceil_spec(ids.len() as int, 64));
    assert(active_ids(s0) == ids);
    let s1 = apply_sort(x1, input, s0);
    assert(covers(x1, n));
    assert(s1.num_particles == block_counts(ids, input.blocks, n));
    assert(active_ids(s1) == ids);
    let s2 = apply_sort(x2, input, s1);
    assert(covers_blocks(x2, s1));
    assert(count_invocations(num_particles) == e.push(x0).push(x1).push(x2));
}

/// The buffers with the scan values of the active blocks as the starts of
/// their ranges.
pub open spec fn with_ranges(b: SortBuffers) -> SortBuffers {
    SortBuffers { first_particle: Seq::new(active_ids(b).len(), |i: int| b.scan.data[i]), ..b }
}

/// The last passes leave the scan values of the active blocks as the
/// starts of their ranges, and every particle at the place that these
/// starts give it.
proof fn lemma_finalize_phase(num_particles: u32, input: SortInput, b: SortBuffers)
    requires
        input.blocks.len() == num_particles,
        b.n_block_groups * 64 >= active_ids(b).len(),
    ensures
        ({
            let after = run_sort(finalize_invocations(num_particles), input, b);
            let ids = active_ids(b);
            let n = input.blocks.len() as int;
            &&& after.asked == b.asked
            &&& after.num_particles == b.num_particles
            &&& after.first_particle == Seq::new(ids.len(), |i: int| b.scan.data[i])
            &&& after.sorted_ids.len() == n
            &&& forall|k: int|
                0 <= k < n ==> #[trigger] after.sorted_ids[k] == (choose|p: int|
                    0 <= p < n && stored_place(with_ranges(b), input.blocks, p) == k) as u32
        }),
{
    let n = input.blocks.len() as int;
    lemma_div_ceil_covers(n, 64);
    let e = Seq::<InvocationView>::empty();
    let x0 = copy_scan_values_to_first_particles_invocation();
    let x1 = reset_invocation();
    let x2 = finalize_particles_sort_invocation(num_particles);
    lemma_run_sort_push(e, x0, input, b);
    lemma_run_sort_push(e.push(x0), x1, input, b);
    lemma_run_sort_push(e.push(x0).push(x1), x2, input, b);
    assert(run_sort(e, input, b) == b);
    let s0 = apply_sort(x0, input, b);
    assert(covers_blocks(x0, b));
    assert(s0 == with_ranges(b));
    let s1 = apply_sort(x1, input, s0);
    assert(s1 == s0);
    let s2 = apply_sort(x2, input, s1);
    assert(covers(x2, n));
    assert(s2.first_particle == s1.first_particle);
    assert(s2.asked == s1.asked);
    assert(finalize_invocations(num_particles) == e.push(x0).push(x1).push(x2));
}

/// The kernels of a grid sort, run in the order in which they are queued,
/// sort the particles by block, provided that the grid holds the blocks
/// asked for. The active blocks are the blocks asked for; their counts are
/// the numbers of particles that lie in them and add up to the number of
/// particles; their ranges follow each other from zero; and the sorted ids
/// hold every particle index once, each at its place in the range of its
/// block.
pub proof fn lemma_queued_sort_sorts(
    grid: GpuGrid,
    num_particles: u32,
    num_samples: u32,
    stages: Seq<u32>,
    input: SortInput,
    b: SortBuffers,
)
    requires
        grid.wf(),
        input.capacity == grid.cpu_meta.hmap_capacity,
        input.blocks.len() == num_particles,
        input.num_samples == num_samples,
        touched_blocks(
            input.blocks + input.sample_blocks,
            (input.blocks + input.sample_blocks).len() as int,
        ).len() <= input.capacity,
        fits(stages, input.capacity),
        b.scan.data.len() == input.capacity,
        laid_out(b.scan.data, stages, b.scan),
    ensures
        sorted_by_plan(
            input,
            run_sort(
                sort_invocations(
                    grid,
                    num_particles,
                    num_samples,
                    stages,
                    stage_chain(div_ceil_spec(input.capacity, 256)).len() as int,
                ),
                input,
                b,
            ),
        ),
{
    let n = input.blocks.len() as int;
    let cap = input.capacity;
    let blocks = input.blocks;
    let asked = blocks + input.sample_blocks;
    let m = stage_chain(div_ceil_spec(cap, 256)).len() as int;
    let touch = touch_invocations(grid.cpu_meta.hmap_capacity, num_particles, num_samples);
    let count = count_invocations(num_particles);
    let scan = scan_invocations(Buffer::GridScanValues, stages, m);
    let fin = finalize_invocations(num_particles);

    lemma_touch_phase(grid.cpu_meta.hmap_capacity, num_particles, num_samples, input, b);
    let s1 = run_sort(touch, input, b);
    let ids = touched_blocks(asked, asked.len() as int);
    assert(active_ids(s1) == ids);
    lemma_touched_distinct(asked, asked.len() as int);
    lemma_touched_blocks_grow(asked, asked.len() as int, asked.len() as int);
    assert forall|q: int| 0 <= q < blocks.len() implies ids.contains(#[trigger] blocks[q]) by {
        assert(asked[q] == blocks[q]);
    }

    lemma_count_phase(num_particles, input, s1);
    let s2 = run_sort(count, input, s1);
    let counts = block_counts(ids, blocks, n);
    let values = s2.scan.data;
    lemma_counts_total(ids, blocks, n);

    lemma_scan_elements(Buffer::GridScanValues, stages, m);
    assert forall|i: int| 0 <= i < scan.len() implies runs(
        #[trigger] scan[i],
        Pipeline::PrefixSum,
    ) || runs(scan[i], Pipeline::AddDataGrp) by {
        let f = |x: InvocationView|
            (runs(x, Pipeline::PrefixSum) || runs(x, Pipeline::AddDataGrp))
                && x->Kernel_0.workgroups is Direct;
        assert(f(scan[i]));
    }
    lemma_run_sort_of_scan(scan, input, s2);
    assert(laid_out(values, stages, s2.scan));
    lemma_queued_scan_is_exclusive_scan(values, stages, Buffer::GridScanValues, s2.scan);
    let s3 = run_sort(scan, input, s2);
    assert(s3.scan.data == exclusive_scan(values));
    assert(active_ids(s3) == ids);
    assert forall|c: int| 0 <= c < ids.len() implies #[trigger] s3.scan.data[c] == prefix_total(
        counts,
        c,
    ) by {
        lemma_prefix_total_agrees(values, counts, c);
        lemma_prefix_total_monotonic(counts, c, ids.len() as int);
        lemma_prefix_total_monotonic(counts, 0, c);
    }

    lemma_finalize_phase(num_particles, input, s3);
    let s4 = run_sort(fin, input, s3);
    assert(active_ids(s4) == ids);
    let ranged = with_ranges(s3);
    assert(active_ids(ranged) == ids);
    assert forall|p: int| 0 <= p < n implies stored_place(ranged, blocks, p) == place(
        ids,
        blocks,
        p,
    ) by {
        lemma_place_in_range(ids, blocks, p);
    }
    assert forall|k: int| 0 <= k < n implies (#[trigger] s4.sorted_ids[k]) < n && place(
        ids,
        blocks,
        s4.sorted_ids[k] as int,
    ) == k by {
        let w = lemma_place_onto(ids, blocks, k);
        assert(0 <= w < n && stored_place(ranged, blocks, w) == k);
    }
    assert forall|p: int| 0 <= p < n implies 0 <= #[trigger] place(ids, blocks, p) < n
        && s4.sorted_ids[place(ids, blocks, p)] == p && in_own_range(s4, ids, blocks, p) by {
        lemma_place_in_range(ids, blocks, p);
        assert(s4.first_particle[slot_of(ids, blocks[p])] == prefix_total(
            counts,
            slot_of(ids, blocks[p]),
        ));
        let k = place(ids, blocks, p);
        let q = s4.sorted_ids[k] as int;
        assert(place(ids, blocks, q) == k);
        if q < p {
            lemma_place_injective(ids, blocks, q, p);
        } else if p < q {
            lemma_place_injective(ids, blocks, p, q);
        }
    }

    lemma_run_sort_concat(touch, count, input, b);
    lemma_run_sort_concat(touch + count, scan, input, b);
    lemma_run_sort_concat(touch + count + scan, fin, input, b);
}

/// The place of particle `p` lies in the range of the active block that
/// has the coordinates of the block in which the particle lies.
pub open spec fn in_own_range(
    after: SortBuffers,
    ids: Seq<BlockVirtualId>,
    blocks: Seq<BlockVirtualId>,
    p: int,
) -> bool {
    let c = slot_of(ids, blocks[p]);
    &&& 0 <= c < ids.len()
    &&& ids[c] == blocks[p]
    &&& after.first_particle[c] <= place(ids, blocks, p) < after.first_particle[c]
        + after.num_particles[c]
}

/// The buffers hold the particles of `input` sorted by block.
pub open spec fn sorted_by_plan(input: SortInput, after: SortBuffers) -> bool {
    let ids = active_ids(after);
    let blocks = input.blocks;
    &&& ids == touched_blocks(
        blocks + input.sample_blocks,
        (blocks + input.sample_blocks).len() as int,
    )
    &&& after.num_particles == block_counts(ids, blocks, blocks.len() as int)
    &&& prefix_total(after.num_particles, ids.len() as int) == blocks.len()
    &&& after.first_particle.len() == ids.len()
    &&& forall|c: int|
        0 <= c < ids.len() ==> #[trigger] after.first_particle[c] == prefix_total(
            after.num_particles,
            c,
        )
    &&& after.sorted_ids.len() == blocks.len()
    &&& forall|p: int|
        0 <= p < blocks.len() ==> 0 <= #[trigger] place(ids, blocks, p) < blocks.len()
            && after.sorted_ids[place(ids, blocks, p)] == p && in_own_range(
            after,
            ids,
            blocks,
            p,
        )
    &&& forall|k: int|
        0 <= k < blocks.len() ==> (#[trigger] after.sorted_ids[k]) < blocks.len() && place(
            ids,
            blocks,
            after.sorted_ids[k] as int,
        ) == k
}

/// What a grid sort queues sorts the particles, whatever the workspace of
/// the prefix sum was used for before: the kernels that it queues after
/// the workspace is made to fit the scan values, run in their order on a
/// grid that holds the blocks asked for, leave the particles sorted by
/// block.
pub proof fn lemma_queue_sort_sorts(
    grid: GpuGrid,
    num_particles: u32,
    num_samples: u32,
    before: PrefixSumWorkspace,
    after: PrefixSumWorkspace,
    input: SortInput,
    b: SortBuffers,
)
    requires
        grid.wf(),
        before.wf(),
        reserved(before, grid.scan_values_len, after),
        input.capacity == grid.cpu_meta.hmap_capacity,
        input.blocks.len() == num_particles,
        input.num_samples == num_samples,
        touched_blocks(
            input.blocks + input.sample_blocks,
            (input.blocks + input.sample_blocks).len() as int,
        ).len() <= input.capacity,
        b.scan.data.len() == grid.scan_values_len,
        laid_out(b.scan.data, after.capacities(), b.scan),
    ensures
        sorted_by_plan(
            input,
            run_sort(
                sort_invocations(
                    grid,
                    num_particles,
                    num_samples,
                    after.capacities(),
                    after.num_stages as int,
                ),
                input,
                b,
            ),
        ),
{
    lemma_reserved_fits(before, grid.scan_values_len, after);
    lemma_queued_sort_sorts(grid, num_particles, num_samples, after.capacities(), input, b);
}

} // verus!
