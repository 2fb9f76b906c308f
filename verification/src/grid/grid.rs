//! Layout of the sparse grid and the queueing of its per-step rebuild.

use crate::arith::{div_ceil, div_ceil_spec, is_next_power_of_two, next_power_of_two};
use crate::grid::blocks::GridError;
use crate::grid::prefix_sum::{reserved, scan_invocations, PrefixSumWorkspace, WgPrefixSum};
use crate::grid::sort::{WgSort, GRID_WORKGROUP_SIZE};
use crate::queue::{
    at, direct, group, group_at, indirect, BindGroupEntry, Buffer, InvocationView,
    KernelInvocationBuilder, KernelInvocationQueue, Pipeline,
};
use crate::solver::particle::{GpuParticles, GpuRigidParticles};
use vstd::prelude::*;

verus! {

/// Number of nodes in one block: 8 x 8 in two dimensions, 4 x 4 x 4 in three.
pub const NODES_PER_BLOCK: u32 = 64;

/// Largest block capacity that a grid can be asked for: with more blocks the
/// node count would not fit a 32-bit buffer length.
pub const MAX_GRID_CAPACITY: u32 = 0x200_0000;

/// Host copy of the grid's header.
#[derive(Clone, Copy, PartialEq, Eq, Structural, Debug)]
pub struct GpuGridMetadata {
    pub num_active_blocks: u32,
    pub hmap_capacity: u32,
    pub capacity: u32,
}

/// The buffers of the sparse grid, by length.
#[derive(Clone, Copy, PartialEq, Eq, Structural, Debug)]
pub struct GpuGrid {
    pub cpu_meta: GpuGridMetadata,
    /// Entries of the block hash map.
    pub hmap_entries_len: u32,
    /// Grid nodes, block after block.
    pub nodes_len: u32,
    /// Headers of the active blocks.
    pub active_blocks_len: u32,
    /// Per-block values that the prefix sum turns into block offsets.
    pub scan_values_len: u32,
    /// Heads of the per-node lists of deformable particles.
    pub nodes_linked_lists_len: u32,
    /// Heads of the per-node lists of rigid samples.
    pub nodes_rigid_linked_lists_len: u32,
    /// Words of the debug buffer.
    pub debug_len: u32,
}

impl GpuGrid {
    /// The block capacity is a power of two, the hash map has one entry per
    /// block, and every per-block and per-node buffer is sized by it.
    pub open spec fn wf(&self) -> bool {
        let capacity = self.cpu_meta.capacity;
        &&& crate::arith::is_power_of_two(capacity as int)
        &&& capacity * NODES_PER_BLOCK <= u32::MAX
        &&& self.cpu_meta.hmap_capacity == capacity
        &&& self.cpu_meta.num_active_blocks == 0
        &&& self.hmap_entries_len == capacity
        &&& self.active_blocks_len == capacity
        &&& self.scan_values_len == capacity
        &&& self.nodes_len == capacity * NODES_PER_BLOCK
        &&& self.nodes_linked_lists_len == capacity * NODES_PER_BLOCK
        &&& self.nodes_rigid_linked_lists_len == capacity * NODES_PER_BLOCK
        &&& self.debug_len == 2
    }

    /// The layout of a grid with room for at least `capacity` blocks: the
    /// block capacity is rounded up to a power of two.
    pub fn with_capacity(capacity: u32) -> (grid: GpuGrid)
        requires
            capacity <= MAX_GRID_CAPACITY,
        ensures
            grid.wf(),
            is_next_power_of_two(capacity as int, grid.cpu_meta.capacity as int),
    {
        let capacity: u32 = next_power_of_two(capacity);
        proof {
            // 2^25 is a power of two, so the rounded capacity stays below it.
            assert(crate::arith::is_power_of_two(0x200_0000)) by {
                reveal_with_fuel(crate::arith::is_power_of_two, 27);
            }
        }
        let cpu_meta = GpuGridMetadata {
            num_active_blocks: 0,
            hmap_capacity: capacity,
            capacity,
        };
        GpuGrid {
            cpu_meta,
            hmap_entries_len: capacity,
            nodes_len: capacity * NODES_PER_BLOCK,
            active_blocks_len: capacity,
            scan_values_len: capacity,
            nodes_linked_lists_len: capacity * NODES_PER_BLOCK,
            nodes_rigid_linked_lists_len: capacity * NODES_PER_BLOCK,
            debug_len: 2,
        }
    }
}

impl GpuGrid {
    /// Whether the layout is consistent.
    pub fn is_wf(&self) -> (b: bool)
        ensures
            b == self.wf(),
    {
        let capacity: u32 = self.cpu_meta.capacity;
        crate::arith::check_power_of_two(capacity) && capacity <= u32::MAX / NODES_PER_BLOCK
            && self.cpu_meta.hmap_capacity == capacity && self.cpu_meta.num_active_blocks == 0
            && self.hmap_entries_len == capacity && self.active_blocks_len == capacity
            && self.scan_values_len == capacity && self.nodes_len == capacity * NODES_PER_BLOCK
            && self.nodes_linked_lists_len == capacity * NODES_PER_BLOCK
            && self.nodes_rigid_linked_lists_len == capacity * NODES_PER_BLOCK && self.debug_len
            == 2
    }

    /// Holds the number of blocks that the touch passes asked for, as read
    /// back from the device, against the capacity of the grid.
    ///
    /// The capacity is a fixed ceiling: where more blocks were asked for
    /// than the hash map has entries, the step has failed and must not go
    /// on with a part of the blocks.
    pub fn check_active_blocks(&self, num_active_blocks: u32) -> (r: Result<(), GridError>)
        ensures
            r is Ok <==> num_active_blocks <= self.cpu_meta.hmap_capacity,
            r is Err ==> r == Err::<(), GridError>(GridError::CapacityExceeded),
    {
        if num_active_blocks > self.cpu_meta.hmap_capacity {
            Err(GridError::CapacityExceeded)
        } else {
            Ok(())
        }
    }
}

/// Bindings of the grid header and the block hash map.
pub open spec fn hmap_bindings() -> Seq<BindGroupEntry> {
    seq![at(Buffer::GridMeta, 0), at(Buffer::GridHmapEntries, 1)]
}

/// Bindings of the kernels that insert blocks into the hash map.
pub open spec fn touch_bindings() -> Seq<BindGroupEntry> {
    seq![
        at(Buffer::GridMeta, 0),
        at(Buffer::GridHmapEntries, 1),
        at(Buffer::GridActiveBlocks, 2),
        at(Buffer::GridDebug, 8),
    ]
}

/// Bindings of the rigid samples and of their needs-a-block flags.
pub open spec fn rigid_touch_bindings() -> Seq<BindGroupEntry> {
    seq![at(Buffer::RigidSamplePoints, 0), at(Buffer::RigidParticleNeedsBlock, 6)]
}

/// Clears the hash map and sets the number of active blocks to zero.
pub open spec fn reset_hmap_invocation(hmap_capacity: u32) -> InvocationView {
    direct(
        Pipeline::ResetHmap,
        seq![group(0, seq![Buffer::GridMeta, Buffer::GridHmapEntries])],
        div_ceil_spec(hmap_capacity as int, 64) as u32,
    )
}

/// Every deformable particle inserts the block that holds it.
pub open spec fn touch_particle_blocks_invocation(num_particles: u32) -> InvocationView {
    direct(
        Pipeline::TouchParticleBlocks,
        seq![group_at(0, touch_bindings()), group(1, seq![Buffer::ParticlePositions])],
        div_ceil_spec(num_particles as int, 64) as u32,
    )
}

/// Every rigid sample is flagged if a block that it can reach is missing.
pub open spec fn mark_rigid_particles_invocation(num_samples: u32) -> InvocationView {
    direct(
        Pipeline::MarkRigidParticlesNeedingBlock,
        seq![group_at(0, hmap_bindings()), group_at(1, rigid_touch_bindings())],
        div_ceil_spec(num_samples as int, 64) as u32,
    )
}

/// Every flagged rigid sample inserts its block.
pub open spec fn touch_rigid_particle_blocks_invocation(num_samples: u32) -> InvocationView {
    direct(
        Pipeline::TouchRigidParticleBlocks,
        seq![group_at(0, touch_bindings()), group_at(1, rigid_touch_bindings())],
        div_ceil_spec(num_samples as int, 64) as u32,
    )
}

/// The discovery of the active blocks: the reset of the hash map, then the
/// blocks touched by deformable particles, then those that rigid samples add.
pub open spec fn touch_invocations(hmap_capacity: u32, num_particles: u32, num_samples: u32) -> Seq<
    InvocationView,
> {
    seq![
        reset_hmap_invocation(hmap_capacity),
        touch_particle_blocks_invocation(num_particles),
        mark_rigid_particles_invocation(num_samples),
        touch_rigid_particle_blocks_invocation(num_samples),
    ]
}

/// Writes the work-group counts of the per-block passes from the number of
/// active blocks.
pub open spec fn init_indirect_workgroups_invocation() -> InvocationView {
    direct(
        Pipeline::InitIndirectWorkgroups,
        seq![
            group_at(
                0,
                seq![
                    at(Buffer::GridMeta, 0),
                    at(Buffer::GridIndirectNBlocksGroups, 5),
                    at(Buffer::GridIndirectNG2pP2gGroups, 7),
                ],
            ),
        ],
        1,
    )
}

/// Every particle adds one to the particle count of its block.
pub open spec fn update_block_particle_count_invocation(num_particles: u32) -> InvocationView {
    direct(
        Pipeline::UpdateBlockParticleCount,
        seq![
            group(0, seq![Buffer::GridMeta, Buffer::GridHmapEntries, Buffer::GridActiveBlocks]),
            group(1, seq![Buffer::ParticlePositions]),
        ],
        div_ceil_spec(num_particles as int, 64) as u32,
    )
}

/// Bind groups of the two kernels that copy between block headers and scan
/// values.
pub open spec fn scan_value_groups() -> Seq<crate::queue::BindGroupView> {
    seq![
        group_at(0, seq![at(Buffer::GridMeta, 0), at(Buffer::GridActiveBlocks, 2)]),
        group_at(1, seq![at(Buffer::GridScanValues, 1)]),
    ]
}

/// Every active block writes its particle count to its scan value.
pub open spec fn copy_particles_len_to_scan_value_invocation() -> InvocationView {
    indirect(
        Pipeline::CopyParticlesLenToScanValue,
        scan_value_groups(),
        Buffer::GridIndirectNBlocksGroups,
    )
}

/// Every active block reads its first particle index from its scan value.
pub open spec fn copy_scan_values_to_first_particles_invocation() -> InvocationView {
    indirect(
        Pipeline::CopyScanValuesToFirstParticles,
        scan_value_groups(),
        Buffer::GridIndirectNBlocksGroups,
    )
}

/// Clears the nodes of the active blocks and the heads of their lists.
pub open spec fn reset_invocation() -> InvocationView {
    indirect(
        Pipeline::Reset,
        seq![
            group_at(
                0,
                seq![
                    at(Buffer::GridMeta, 0),
                    at(Buffer::GridNodes, 3),
                    at(Buffer::GridNodesLinkedLists, 6),
                    at(Buffer::GridNodesRigidLinkedLists, 10),
                ],
            ),
        ],
        Buffer::GridIndirectNBlocksGroups,
    )
}

/// Every particle claims a place in the range of its block and is linked
/// into the list of its node.
pub open spec fn finalize_particles_sort_invocation(num_particles: u32) -> InvocationView {
    direct(
        Pipeline::FinalizeParticlesSort,
        seq![
            group_at(
                0,
                seq![
                    at(Buffer::GridMeta, 0),
                    at(Buffer::GridHmapEntries, 1),
                    at(Buffer::GridNodesLinkedLists, 6),
                ],
            ),
            group(
                1,
                seq![
                    Buffer::ParticlePositions,
                    Buffer::GridScanValues,
                    Buffer::ParticleSortedIds,
                    Buffer::ParticleNodeLinkedLists,
                ],
            ),
        ],
        div_ceil_spec(num_particles as int, 64) as u32,
    )
}

/// The kernels that follow the touch passes up to the prefix sum.
pub open spec fn count_invocations(num_particles: u32) -> Seq<InvocationView> {
    seq![
        init_indirect_workgroups_invocation(),
        update_block_particle_count_invocation(num_particles),
        copy_particles_len_to_scan_value_invocation(),
    ]
}

/// The kernels that follow the prefix sum.
pub open spec fn finalize_invocations(num_particles: u32) -> Seq<InvocationView> {
    seq![
        copy_scan_values_to_first_particles_invocation(),
        reset_invocation(),
        finalize_particles_sort_invocation(num_particles),
    ]
}

/// Everything that one grid sort queues.
pub open spec fn sort_invocations(
    grid: GpuGrid,
    num_particles: u32,
    num_samples: u32,
    stages: Seq<u32>,
    num_stages: int,
) -> Seq<InvocationView> {
    touch_invocations(grid.cpu_meta.hmap_capacity, num_particles, num_samples) + count_invocations(
        num_particles,
    ) + scan_invocations(Buffer::GridScanValues, stages, num_stages) + finalize_invocations(
        num_particles,
    )
}

/// Compute kernels of the grid.
pub struct WgGrid {}

impl WgGrid {
    /// Queues the rebuild of the sparse grid for the current particle
    /// positions: the discovery of the active blocks, the particle count of
    /// each block, the prefix sum that turns the counts into block offsets,
    /// and the placement of each particle in the range of its block.
    ///
    /// The touch passes are queued once: the block capacity of the grid is a
    /// fixed ceiling, and nothing is queued to grow it.
    pub fn queue_sort(
        &self,
        particles: &GpuParticles,
        rigid_particles: &GpuRigidParticles,
        grid: &GpuGrid,
        prefix_sum: &mut PrefixSumWorkspace,
        sort_module: &WgSort,
        prefix_sum_module: &WgPrefixSum,
        queue: &mut KernelInvocationQueue,
    )
        requires
            grid.wf(),
            old(prefix_sum).wf(),
        ensures
            final(prefix_sum).wf(),
            reserved(*old(prefix_sum), grid.scan_values_len, *final(prefix_sum)),
            final(queue)@ == old(queue)@ + sort_invocations(
                *grid,
                particles.num_particles,
                rigid_particles.num_samples,
                final(prefix_sum).capacities(),
                final(prefix_sum).num_stages as int,
            ),
    {
        let ghost q0 = queue@;
        let n_groups: u32 = div_ceil(particles.num_particles, GRID_WORKGROUP_SIZE);
        let n_rigid_groups: u32 = div_ceil(rigid_particles.num_samples, GRID_WORKGROUP_SIZE);

        // The number of active blocks is set to zero with the hash map.
        KernelInvocationBuilder::new(Pipeline::ResetHmap).bind0(
            vec![Buffer::GridMeta, Buffer::GridHmapEntries],
        ).queue(queue, div_ceil(grid.cpu_meta.hmap_capacity, GRID_WORKGROUP_SIZE));

        KernelInvocationBuilder::new(Pipeline::TouchParticleBlocks).bind_at(
            0,
            vec![
                BindGroupEntry { binding: 0, buffer: Buffer::GridMeta },
                BindGroupEntry { binding: 1, buffer: Buffer::GridHmapEntries },
                BindGroupEntry { binding: 2, buffer: Buffer::GridActiveBlocks },
                BindGroupEntry { binding: 8, buffer: Buffer::GridDebug },
            ],
        ).bind(1, vec![Buffer::ParticlePositions]).queue(queue, n_groups);

        // Blocks must also exist wherever a rigid sample can reach one. The
        // samples are first marked, then the marked ones touch their block.
        KernelInvocationBuilder::new(Pipeline::MarkRigidParticlesNeedingBlock).bind_at(
            0,
            vec![
                BindGroupEntry { binding: 0, buffer: Buffer::GridMeta },
                BindGroupEntry { binding: 1, buffer: Buffer::GridHmapEntries },
            ],
        ).bind_at(
            1,
            vec![
                BindGroupEntry { binding: 0, buffer: Buffer::RigidSamplePoints },
                BindGroupEntry { binding: 6, buffer: Buffer::RigidParticleNeedsBlock },
            ],
        ).queue(queue, n_rigid_groups);

        KernelInvocationBuilder::new(Pipeline::TouchRigidParticleBlocks).bind_at(
            0,
            vec![
                BindGroupEntry { binding: 0, buffer: Buffer::GridMeta },
                BindGroupEntry { binding: 1, buffer: Buffer::GridHmapEntries },
                BindGroupEntry { binding: 2, buffer: Buffer::GridActiveBlocks },
                BindGroupEntry { binding: 8, buffer: Buffer::GridDebug },
            ],
        ).bind_at(
            1,
            vec![
                BindGroupEntry { binding: 0, buffer: Buffer::RigidSamplePoints },
                BindGroupEntry { binding: 6, buffer: Buffer::RigidParticleNeedsBlock },
            ],
        ).queue(queue, n_rigid_groups);
        let ghost q1 = q0 + touch_invocations(
            grid.cpu_meta.hmap_capacity,
            particles.num_particles,
            rigid_particles.num_samples,
        );
        assert(queue@ =~~= q1);

        // The per-block passes are sized on the device from the number of
        // active blocks.
        KernelInvocationBuilder::new(Pipeline::InitIndirectWorkgroups).bind_at(
            0,
            vec![
                BindGroupEntry { binding: 0, buffer: Buffer::GridMeta },
                BindGroupEntry { binding: 5, buffer: Buffer::GridIndirectNBlocksGroups },
                BindGroupEntry { binding: 7, buffer: Buffer::GridIndirectNG2pP2gGroups },
            ],
        ).queue(queue, 1);

        KernelInvocationBuilder::new(Pipeline::UpdateBlockParticleCount).bind(
            0,
            vec![Buffer::GridMeta, Buffer::GridHmapEntries, Buffer::GridActiveBlocks],
        ).bind(1, vec![Buffer::ParticlePositions]).queue(queue, n_groups);

        KernelInvocationBuilder::new(Pipeline::CopyParticlesLenToScanValue).bind_at(
            0,
            vec![
                BindGroupEntry { binding: 0, buffer: Buffer::GridMeta },
                BindGroupEntry { binding: 2, buffer: Buffer::GridActiveBlocks },
            ],
        ).bind_at(1, vec![BindGroupEntry { binding: 1, buffer: Buffer::GridScanValues }])
            .queue_indirect(queue, Buffer::GridIndirectNBlocksGroups);
        let ghost q2 = q1 + count_invocations(particles.num_particles);
        assert(queue@ =~~= q2);

        assert(grid.scan_values_len >= 1);
        prefix_sum_module.queue(queue, prefix_sum, Buffer::GridScanValues, grid.scan_values_len);
        let ghost q3 = q2 + scan_invocations(
            Buffer::GridScanValues,
            prefix_sum.capacities(),
            prefix_sum.num_stages as int,
        );
        assert(queue@ =~= q3);

        KernelInvocationBuilder::new(Pipeline::CopyScanValuesToFirstParticles).bind_at(
            0,
            vec![
                BindGroupEntry { binding: 0, buffer: Buffer::GridMeta },
                BindGroupEntry { binding: 2, buffer: Buffer::GridActiveBlocks },
            ],
        ).bind_at(1, vec![BindGroupEntry { binding: 1, buffer: Buffer::GridScanValues }])
            .queue_indirect(queue, Buffer::GridIndirectNBlocksGroups);

        // The list heads are cleared before the last kernel, which sets up
        // the per-node lists.
        KernelInvocationBuilder::new(Pipeline::Reset).bind_at(
            0,
            vec![
                BindGroupEntry { binding: 0, buffer: Buffer::GridMeta },
                BindGroupEntry { binding: 3, buffer: Buffer::GridNodes },
                BindGroupEntry { binding: 6, buffer: Buffer::GridNodesLinkedLists },
                BindGroupEntry { binding: 10, buffer: Buffer::GridNodesRigidLinkedLists },
            ],
        ).queue_indirect(queue, Buffer::GridIndirectNBlocksGroups);

        KernelInvocationBuilder::new(Pipeline::FinalizeParticlesSort).bind_at(
            0,
            vec![
                BindGroupEntry { binding: 0, buffer: Buffer::GridMeta },
                BindGroupEntry { binding: 1, buffer: Buffer::GridHmapEntries },
                BindGroupEntry { binding: 6, buffer: Buffer::GridNodesLinkedLists },
            ],
        ).bind(
            1,
            vec![
                Buffer::ParticlePositions,
                Buffer::GridScanValues,
                Buffer::ParticleSortedIds,
                Buffer::ParticleNodeLinkedLists,
            ],
        ).queue(queue, n_groups);
        assert(queue@ =~~= q3 + finalize_invocations(particles.num_particles));
    }
}

} // verus!
