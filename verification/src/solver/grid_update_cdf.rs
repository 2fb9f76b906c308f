//! Seeding of the compatibility field on the grid nodes.

use crate::queue::{
    at, group, group_at, indirect, BindGroupEntry, Buffer, InvocationView,
    KernelInvocationBuilder, KernelInvocationQueue, Pipeline,
};
use vstd::prelude::*;

verus! {

/// Every node of an active block measures its distance to the nearby rigid
/// shapes, one work group per active block.
pub open spec fn grid_update_cdf_invocation() -> InvocationView {
    indirect(
        Pipeline::GridUpdateCdf,
        seq![
            group_at(
                0,
                seq![
                    at(Buffer::GridMeta, 0),
                    at(Buffer::GridActiveBlocks, 2),
                    at(Buffer::GridNodes, 3),
                ],
            ),
            group(1, Seq::<Buffer>::empty()),
            group(2, seq![Buffer::BodyShapes, Buffer::BodyPoses]),
        ],
        Buffer::GridIndirectNG2pP2gGroups,
    )
}

/// Compute kernel that measures the distance from the nodes to the rigid
/// shapes.
pub struct WgGridUpdateCdf {}

impl WgGridUpdateCdf {
    /// Queues the seeding of the compatibility field of the nodes.
    pub fn queue(&self, queue: &mut KernelInvocationQueue)
        ensures
            final(queue)@ == old(queue)@.push(grid_update_cdf_invocation()),
    {
        KernelInvocationBuilder::new(Pipeline::GridUpdateCdf).bind_at(
            0,
            vec![
                BindGroupEntry { binding: 0, buffer: Buffer::GridMeta },
                BindGroupEntry { binding: 2, buffer: Buffer::GridActiveBlocks },
                BindGroupEntry { binding: 3, buffer: Buffer::GridNodes },
            ],
        ).bind(1, Vec::new()).bind(2, vec![Buffer::BodyShapes, Buffer::BodyPoses])
            .queue_indirect(queue, Buffer::GridIndirectNG2pP2gGroups);
        assert(queue@ =~~= old(queue)@.push(grid_update_cdf_invocation()));
    }
}

} // verus!
