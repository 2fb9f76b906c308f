//! Transfer of the rigid surface samples to the compatibility field of the
//! grid nodes.

use crate::queue::{
    at, group, group_at, indirect, BindGroupEntry, Buffer, InvocationView,
    KernelInvocationBuilder, KernelInvocationQueue, Pipeline,
};
use crate::solver::particle::GpuRigidParticles;
use vstd::prelude::*;

verus! {

/// Every node takes body and side from the closest rigid sample in its list,
/// one work group per active block.
pub open spec fn p2g_cdf_invocation() -> InvocationView {
    indirect(
        Pipeline::P2GCdf,
        seq![
            group_at(
                0,
                seq![
                    at(Buffer::GridMeta, 0),
                    at(Buffer::GridHmapEntries, 1),
                    at(Buffer::GridActiveBlocks, 2),
                    at(Buffer::GridNodesCdf, 9),
                ],
            ),
            group(
                1,
                seq![
                    Buffer::GridNodesRigidLinkedLists,
                    Buffer::RigidNodeLinkedLists,
                    Buffer::RigidSampleIds,
                    Buffer::BodyShapesVertexBuffers,
                ],
            ),
        ],
        Buffer::GridIndirectNG2pP2gGroups,
    )
}

/// What the pass queues: nothing for an empty sample set, else one kernel.
pub open spec fn p2g_cdf_invocations(num_samples: u32) -> Seq<InvocationView> {
    if num_samples == 0 {
        Seq::<InvocationView>::empty()
    } else {
        seq![p2g_cdf_invocation()]
    }
}

/// Compute kernel that deposits the rigid samples on the grid.
pub struct WgP2GCdf {}

impl WgP2GCdf {
    /// Queues the deposit of the rigid samples, unless there is none.
    pub fn queue(&self, queue: &mut KernelInvocationQueue, particles: &GpuRigidParticles)
        ensures
            final(queue)@ == old(queue)@ + p2g_cdf_invocations(particles.num_samples),
    {
        if particles.is_empty() {
            assert(queue@ =~= old(queue)@ + p2g_cdf_invocations(particles.num_samples));
            return ;
        }
        KernelInvocationBuilder::new(Pipeline::P2GCdf).bind_at(
            0,
            vec![
                BindGroupEntry { binding: 0, buffer: Buffer::GridMeta },
                BindGroupEntry { binding: 1, buffer: Buffer::GridHmapEntries },
                BindGroupEntry { binding: 2, buffer: Buffer::GridActiveBlocks },
                BindGroupEntry { binding: 9, buffer: Buffer::GridNodesCdf },
            ],
        ).bind(
            1,
            vec![
                Buffer::GridNodesRigidLinkedLists,
                Buffer::RigidNodeLinkedLists,
                Buffer::RigidSampleIds,
                Buffer::BodyShapesVertexBuffers,
            ],
        ).queue_indirect(queue, Buffer::GridIndirectNG2pP2gGroups);
        assert(queue@ =~~= old(queue)@ + p2g_cdf_invocations(particles.num_samples));
    }
}

} // verus!
