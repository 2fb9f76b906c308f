//! Integration of the grid nodes.

use crate::queue::{
    at, group, group_at, indirect, BindGroupEntry, Buffer, InvocationView,
    KernelInvocationBuilder, KernelInvocationQueue, Pipeline,
};
use vstd::prelude::*;

verus! {

/// Every node of an active block turns its momentum into a velocity, one work
/// group per active block.
pub open spec fn grid_update_invocation() -> InvocationView {
    indirect(
        Pipeline::GridUpdate,
        seq![
            group_at(
                0,
                seq![
                    at(Buffer::GridMeta, 0),
                    at(Buffer::GridActiveBlocks, 2),
                    at(Buffer::GridNodes, 3),
                    at(Buffer::SimulationParams, 4),
                ],
            ),
        ],
        Buffer::GridIndirectNG2pP2gGroups,
    )
}

/// Compute kernel of the grid update.
pub struct WgGridUpdate {}

impl WgGridUpdate {
    /// Queues the update of the grid nodes.
    pub fn queue(&self, queue: &mut KernelInvocationQueue)
        ensures
            final(queue)@ == old(queue)@.push(grid_update_invocation()),
    {
        KernelInvocationBuilder::new(Pipeline::GridUpdate).bind_at(
            0,
            vec![
                BindGroupEntry { binding: 0, buffer: Buffer::GridMeta },
                BindGroupEntry { binding: 2, buffer: Buffer::GridActiveBlocks },
                BindGroupEntry { binding: 3, buffer: Buffer::GridNodes },
                BindGroupEntry { binding: 4, buffer: Buffer::SimulationParams },
            ],
        )
            .queue_indirect(queue, Buffer::GridIndirectNG2pP2gGroups);
        assert(queue@ =~~= old(queue)@.push(grid_update_invocation()));
    }
}

} // verus!
