//! Sorting particles into grid blocks.

use crate::arith::{div_ceil, div_ceil_spec};
use crate::grid::grid::GpuGrid;
use crate::queue::{
    at, direct, group_at, BindGroupEntry, Buffer, InvocationView, KernelInvocationBuilder,
    KernelInvocationQueue, Pipeline,
};
use crate::solver::particle::GpuRigidParticles;
use vstd::prelude::*;

verus! {

/// Number of lanes in one work group of the grid and sort kernels.
pub const GRID_WORKGROUP_SIZE: u32 = 64;

/// The kernel that links each rigid sample into the list of its grid node.
pub open spec fn sort_rigid_particles_invocation(num_samples: u32) -> InvocationView {
    direct(
        Pipeline::SortRigidParticles,
        seq![
            group_at(
                0,
                seq![
                    at(Buffer::GridMeta, 0),
                    at(Buffer::GridHmapEntries, 1),
                    at(Buffer::GridNodesRigidLinkedLists, 10),
                ],
            ),
            group_at(
                1,
                seq![at(Buffer::RigidSamplePoints, 4), at(Buffer::RigidNodeLinkedLists, 5)],
            ),
        ],
        div_ceil_spec(num_samples as int, 64) as u32,
    )
}

/// What sorting the rigid samples queues: nothing for an empty sample set,
/// else one kernel over all samples.
pub open spec fn sort_rigid_particles_invocations(num_samples: u32) -> Seq<InvocationView> {
    if num_samples == 0 {
        Seq::<InvocationView>::empty()
    } else {
        seq![sort_rigid_particles_invocation(num_samples)]
    }
}

/// Compute kernels of the particle sort.
pub struct WgSort {}

impl WgSort {
    /// Queues the sort of the rigid samples into per-node lists.
    pub fn queue_sort_rigid_particles(
        &self,
        particles: &GpuRigidParticles,
        grid: &GpuGrid,
        queue: &mut KernelInvocationQueue,
    )
        ensures
            final(queue)@ == old(queue)@ + sort_rigid_particles_invocations(particles.num_samples),
    {
        if particles.is_empty() {
            // No work needed.
            assert(queue@ =~= old(queue)@ + sort_rigid_particles_invocations(
                particles.num_samples,
            ));
            return ;
        }
        let n_groups: u32 = div_ceil(particles.num_samples, GRID_WORKGROUP_SIZE);
        KernelInvocationBuilder::new(Pipeline::SortRigidParticles).bind_at(
            0,
            vec![
                BindGroupEntry { binding: 0, buffer: Buffer::GridMeta },
                BindGroupEntry { binding: 1, buffer: Buffer::GridHmapEntries },
                BindGroupEntry { binding: 10, buffer: Buffer::GridNodesRigidLinkedLists },
            ],
        ).bind_at(
            1,
            vec![
                BindGroupEntry { binding: 4, buffer: Buffer::RigidSamplePoints },
                BindGroupEntry { binding: 5, buffer: Buffer::RigidNodeLinkedLists },
            ],
        ).queue(queue, n_groups);
        assert(queue@ =~~= old(queue)@ + sort_rigid_particles_invocations(particles.num_samples));
    }
}

} // verus!
