//! Grid-to-particle transfer.

use crate::queue::{
    at, group, group_at, indirect, BindGroupEntry, Buffer, InvocationView,
    KernelInvocationBuilder, KernelInvocationQueue, Pipeline,
};
use vstd::prelude::*;

verus! {

/// Every particle gathers the velocities of the nodes around it, one work
/// group per active block.
pub open spec fn g2p_invocation() -> InvocationView {
    indirect(
        Pipeline::G2P,
        seq![
            group_at(
                0,
                seq![
                    at(Buffer::GridMeta, 0),
                    at(Buffer::GridHmapEntries, 1),
                    at(Buffer::GridActiveBlocks, 2),
                    at(Buffer::GridNodes, 3),
                ],
            ),
            group(
                1,
                seq![
                    Buffer::ParticlePositions,
                    Buffer::ParticleDynamics,
                    Buffer::ParticleSortedIds,
                    Buffer::SimulationParams,
                ],
            ),
            group(2, seq![Buffer::BodyVels, Buffer::BodyMprops]),
        ],
        Buffer::GridIndirectNG2pP2gGroups,
    )
}

/// Compute kernel of the grid-to-particle transfer.
pub struct WgG2P {}

impl WgG2P {
    /// Queues the transfer from the grid nodes back to the particles.
    pub fn queue(&self, queue: &mut KernelInvocationQueue)
        ensures
            final(queue)@ == old(queue)@.push(g2p_invocation()),
    {
        KernelInvocationBuilder::new(Pipeline::G2P).bind_at(
            0,
            vec![
                BindGroupEntry { binding: 0, buffer: Buffer::GridMeta },
                BindGroupEntry { binding: 1, buffer: Buffer::GridHmapEntries },
                BindGroupEntry { binding: 2, buffer: Buffer::GridActiveBlocks },
                BindGroupEntry { binding: 3, buffer: Buffer::GridNodes },
            ],
        ).bind(
            1,
            vec![
                Buffer::ParticlePositions,
                Buffer::ParticleDynamics,
                Buffer::ParticleSortedIds,
                Buffer::SimulationParams,
            ],
        ).bind(2, vec![Buffer::BodyVels, Buffer::BodyMprops])
            .queue_indirect(queue, Buffer::GridIndirectNG2pP2gGroups);
        assert(queue@ =~~= old(queue)@.push(g2p_invocation()));
    }
}

} // verus!
