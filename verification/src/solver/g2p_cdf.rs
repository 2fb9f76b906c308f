//! Transfer of the compatibility field from the grid to the particles.

use crate::queue::{
    at, group, group_at, indirect, BindGroupEntry, Buffer, InvocationView,
    KernelInvocationBuilder, KernelInvocationQueue, Pipeline,
};
use vstd::prelude::*;

verus! {

/// Every particle reads from the nodes around it on which side of the rigid
/// bodies it lies, one work group per active block.
pub open spec fn g2p_cdf_invocation() -> InvocationView {
    indirect(
        Pipeline::G2PCdf,
        seq![
            group_at(
                0,
                seq![
                    at(Buffer::GridMeta, 0),
                    at(Buffer::GridHmapEntries, 1),
                    at(Buffer::GridActiveBlocks, 2),
                    at(Buffer::GridNodes, 3),
                ],
            ),
            group(
                1,
                seq![
                    Buffer::ParticlePositions,
                    Buffer::ParticleDynamics,
                    Buffer::ParticleSortedIds,
                    Buffer::SimulationParams,
                ],
            ),
        ],
        Buffer::GridIndirectNG2pP2gGroups,
    )
}

/// Compute kernel that hands the compatibility field of the nodes to the
/// particles.
pub struct WgG2PCdf {}

impl WgG2PCdf {
    /// Queues the transfer of the compatibility field to the particles.
    pub fn queue(&self, queue: &mut KernelInvocationQueue)
        ensures
            final(queue)@ == old(queue)@.push(g2p_cdf_invocation()),
    {
        KernelInvocationBuilder::new(Pipeline::G2PCdf).bind_at(
            0,
            vec![
                BindGroupEntry { binding: 0, buffer: Buffer::GridMeta },
                BindGroupEntry { binding: 1, buffer: Buffer::GridHmapEntries },
                BindGroupEntry { binding: 2, buffer: Buffer::GridActiveBlocks },
                BindGroupEntry { binding: 3, buffer: Buffer::GridNodes },
            ],
        ).bind(
            1,
            vec![
                Buffer::ParticlePositions,
                Buffer::ParticleDynamics,
                Buffer::ParticleSortedIds,
                Buffer::SimulationParams,
            ],
        )
            .queue_indirect(queue, Buffer::GridIndirectNG2pP2gGroups);
        assert(queue@ =~~= old(queue)@.push(g2p_cdf_invocation()));
    }
}

} // verus!
