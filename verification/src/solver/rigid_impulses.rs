//! Impulses that the particles exert on the coupled rigid bodies.

use crate::queue::{
    at, direct, group, group_at, BindGroupEntry, Buffer, InvocationView,
    KernelInvocationBuilder, KernelInvocationQueue, Pipeline,
};
use vstd::prelude::*;

verus! {

/// Number of impulse slots, one per coupled body. The coupling scheme does
/// not support more bodies.
pub const MAX_BODY_COUNT: usize = 16;

/// The impulse accumulators: the impulses of the current sub-step, their
/// running total, and a staging copy of the total, by length.
#[derive(Clone, Copy, PartialEq, Eq, Structural, Debug)]
pub struct GpuImpulses {
    pub incremental_impulses_len: usize,
    pub total_impulses_len: usize,
    pub total_impulses_staging_len: usize,
}

impl GpuImpulses {
    /// Accumulators with one slot for each body that can be coupled.
    pub fn new() -> (impulses: GpuImpulses)
        ensures
            impulses.incremental_impulses_len == MAX_BODY_COUNT,
            impulses.total_impulses_len == MAX_BODY_COUNT,
            impulses.total_impulses_staging_len == MAX_BODY_COUNT,
    {
        GpuImpulses {
            incremental_impulses_len: MAX_BODY_COUNT,
            total_impulses_len: MAX_BODY_COUNT,
            total_impulses_staging_len: MAX_BODY_COUNT,
        }
    }
}

/// The impulses of the sub-step are applied to the velocities of the bodies.
pub open spec fn rigid_impulses_invocation() -> InvocationView {
    direct(
        Pipeline::RigidImpulsesUpdate,
        seq![
            group(
                0,
                seq![
                    Buffer::GridMeta,
                    Buffer::IncrementalImpulses,
                    Buffer::BodyVels,
                    Buffer::BodyLocalMprops,
                    Buffer::BodyMprops,
                    Buffer::BodyPoses,
                    Buffer::SimulationParams,
                ],
            ),
        ],
        1,
    )
}

/// The mass properties of the bodies are brought to their current poses.
pub open spec fn update_world_mass_properties_invocation() -> InvocationView {
    direct(
        Pipeline::UpdateWorldMassProperties,
        seq![
            group_at(
                0,
                seq![
                    at(Buffer::IncrementalImpulses, 1),
                    at(Buffer::BodyLocalMprops, 3),
                    at(Buffer::BodyMprops, 4),
                    at(Buffer::BodyPoses, 5),
                ],
            ),
        ],
        1,
    )
}

/// Compute kernels of the rigid impulses.
pub struct WgRigidImpulses {}

impl WgRigidImpulses {
    /// Queues the integration of the impulses into the body velocities.
    pub fn queue(&self, queue: &mut KernelInvocationQueue)
        ensures
            final(queue)@ == old(queue)@.push(rigid_impulses_invocation()),
    {
        KernelInvocationBuilder::new(Pipeline::RigidImpulsesUpdate).bind0(
            vec![
                Buffer::GridMeta,
                Buffer::IncrementalImpulses,
                Buffer::BodyVels,
                Buffer::BodyLocalMprops,
                Buffer::BodyMprops,
                Buffer::BodyPoses,
                Buffer::SimulationParams,
            ],
        ).queue(queue, 1);
        assert(queue@ =~~= old(queue)@.push(rigid_impulses_invocation()));
    }

    /// Queues the update of the world-space mass properties of the bodies.
    pub fn queue_update_world_mass_properties(&self, queue: &mut KernelInvocationQueue)
        ensures
            final(queue)@ == old(queue)@.push(update_world_mass_properties_invocation()),
    {
        KernelInvocationBuilder::new(Pipeline::UpdateWorldMassProperties).bind_at(
            0,
            vec![
                BindGroupEntry { binding: 1, buffer: Buffer::IncrementalImpulses },
                BindGroupEntry { binding: 3, buffer: Buffer::BodyLocalMprops },
                BindGroupEntry { binding: 4, buffer: Buffer::BodyMprops },
                BindGroupEntry { binding: 5, buffer: Buffer::BodyPoses },
            ],
        ).queue(queue, 1);
        assert(queue@ =~~= old(queue)@.push(update_world_mass_properties_invocation()));
    }
}

} // verus!
