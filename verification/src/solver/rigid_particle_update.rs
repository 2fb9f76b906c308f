//! Transport of the rigid surface samples by the poses of their bodies.

use crate::arith::{div_ceil, div_ceil_spec};
use crate::queue::{
    at, direct, group_at, BindGroupEntry, Buffer, InvocationView, KernelInvocationBuilder,
    KernelInvocationQueue, Pipeline,
};
use crate::solver::body::GpuBodySet;
use crate::solver::particle::GpuRigidParticles;
use vstd::prelude::*;

verus! {

/// Every sample point is moved from body space to world space, 64 samples
/// to a work group.
pub open spec fn transform_sample_points_invocation(num_samples: u32) -> InvocationView {
    direct(
        Pipeline::TransformSamplePoints,
        seq![
            group_at(
                0,
                seq![
                    at(Buffer::RigidLocalSamplePoints, 0),
                    at(Buffer::RigidSamplePoints, 1),
                    at(Buffer::RigidSampleIds, 2),
                    at(Buffer::BodyPoses, 4),
                ],
            ),
        ],
        div_ceil_spec(num_samples as int, 64) as u32,
    )
}

/// Every shape vertex is moved from body space to world space, 64 vertices
/// to a work group.
pub open spec fn transform_shape_points_invocation(num_shape_vertices: u32) -> InvocationView {
    direct(
        Pipeline::TransformShapePoints,
        seq![
            group_at(
                0,
                seq![
                    at(Buffer::BodyShapesLocalVertexBuffers, 0),
                    at(Buffer::BodyShapesVertexBuffers, 1),
                    at(Buffer::BodyShapesVertexColliderId, 3),
                    at(Buffer::BodyPoses, 4),
                ],
            ),
        ],
        div_ceil_spec(num_shape_vertices as int, 64) as u32,
    )
}

/// The two kernels of the pass, samples first.
pub open spec fn rigid_particle_update_invocations(num_samples: u32, num_shape_vertices: u32)
    -> Seq<InvocationView> {
    seq![
        transform_sample_points_invocation(num_samples),
        transform_shape_points_invocation(num_shape_vertices),
    ]
}

/// Compute kernels that move samples and shape vertices with their bodies.
pub struct WgRigidParticleUpdate {}

impl WgRigidParticleUpdate {
    /// Queues the transport of the samples and of the shape vertices.
    pub fn queue(
        &self,
        queue: &mut KernelInvocationQueue,
        bodies: &GpuBodySet,
        rigid_particles: &GpuRigidParticles,
    )
        ensures
            final(queue)@ == old(queue)@ + rigid_particle_update_invocations(
                rigid_particles.num_samples,
                bodies.num_shape_vertices,
            ),
    {
        KernelInvocationBuilder::new(Pipeline::TransformSamplePoints).bind_at(
            0,
            vec![
                BindGroupEntry { binding: 0, buffer: Buffer::RigidLocalSamplePoints },
                BindGroupEntry { binding: 1, buffer: Buffer::RigidSamplePoints },
                BindGroupEntry { binding: 2, buffer: Buffer::RigidSampleIds },
                BindGroupEntry { binding: 4, buffer: Buffer::BodyPoses },
            ],
        ).queue(queue, div_ceil(rigid_particles.num_samples, 64));

        KernelInvocationBuilder::new(Pipeline::TransformShapePoints).bind_at(
            0,
            vec![
                BindGroupEntry { binding: 0, buffer: Buffer::BodyShapesLocalVertexBuffers },
                BindGroupEntry { binding: 1, buffer: Buffer::BodyShapesVertexBuffers },
                BindGroupEntry { binding: 3, buffer: Buffer::BodyShapesVertexColliderId },
                BindGroupEntry { binding: 4, buffer: Buffer::BodyPoses },
            ],
        ).queue(queue, div_ceil(bodies.num_shape_vertices, 64));
        assert(queue@ =~~= old(queue)@ + rigid_particle_update_invocations(
            rigid_particles.num_samples,
            bodies.num_shape_vertices,
        ));
    }
}

} // verus!
