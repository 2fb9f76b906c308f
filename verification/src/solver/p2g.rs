//! Particle-to-grid transfer.

use crate::queue::{
    at, group, group_at, indirect, BindGroupEntry, Buffer, InvocationView,
    KernelInvocationBuilder, KernelInvocationQueue, Pipeline,
};
use vstd::prelude::*;

verus! {

/// Every node collects mass and momentum from the particles in its list, one
/// work group per active block.
pub open spec fn p2g_invocation() -> InvocationView {
    indirect(
        Pipeline::P2G,
        seq![
            group_at(
                0,
                seq![
                    at(Buffer::GridMeta, 0),
                    at(Buffer::GridHmapEntries, 1),
                    at(Buffer::GridActiveBlocks, 2),
                    at(Buffer::GridNodes, 3),
                    at(Buffer::GridNodesCdf, 9),
                ],
            ),
            group(
                1,
                seq![
                    Buffer::ParticlePositions,
                    Buffer::ParticleDynamics,
                    Buffer::GridNodesLinkedLists,
                    Buffer::ParticleNodeLinkedLists,
                    Buffer::IncrementalImpulses,
                ],
            ),
            group(2, seq![Buffer::BodyVels, Buffer::BodyMprops]),
        ],
        Buffer::GridIndirectNG2pP2gGroups,
    )
}

/// Compute kernel of the particle-to-grid transfer.
pub struct WgP2G {}

impl WgP2G {
    /// Queues the transfer from the particles to the grid nodes.
    pub fn queue(&self, queue: &mut KernelInvocationQueue)
        ensures
            final(queue)@ == old(queue)@.push(p2g_invocation()),
    {
        KernelInvocationBuilder::new(Pipeline::P2G).bind_at(
            0,
            vec![
                BindGroupEntry { binding: 0, buffer: Buffer::GridMeta },
                BindGroupEntry { binding: 1, buffer: Buffer::GridHmapEntries },
                BindGroupEntry { binding: 2, buffer: Buffer::GridActiveBlocks },
                BindGroupEntry { binding: 3, buffer: Buffer::GridNodes },
                BindGroupEntry { binding: 9, buffer: Buffer::GridNodesCdf },
            ],
        ).bind(
            1,
            vec![
                Buffer::ParticlePositions,
                Buffer::ParticleDynamics,
                Buffer::GridNodesLinkedLists,
                Buffer::ParticleNodeLinkedLists,
                Buffer::IncrementalImpulses,
            ],
        ).bind(2, vec![Buffer::BodyVels, Buffer::BodyMprops])
            .queue_indirect(queue, Buffer::GridIndirectNG2pP2gGroups);
        assert(queue@ =~~= old(queue)@.push(p2g_invocation()));
    }
}

} // verus!
