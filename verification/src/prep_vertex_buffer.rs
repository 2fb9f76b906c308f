//! The render feed: what is shown of the particles, and the kernels that
//! fill the vertex buffers.

use crate::arith::{div_ceil, div_ceil_spec};
use crate::queue::{
    direct, group, Buffer, InvocationView, KernelInvocationBuilder, KernelInvocationQueue,
    Pipeline,
};
use crate::solver::particle::{GpuParticles, GpuRigidParticles};
use vstd::prelude::*;

verus! {

/// What the colors of the rendered particles show.
#[derive(Clone, Copy, PartialEq, Eq, Structural, Debug)]
pub enum RenderMode {
    Default,
    Volume,
    Velocity,
    CdfNormals,
    CdfDistances,
    CdfSigns,
}

impl RenderMode {
    /// The number that stands for the mode in the render configuration.
    pub open spec fn code(self) -> u32 {
        match self {
            RenderMode::Default => 0,
            RenderMode::Volume => 1,
            RenderMode::Velocity => 2,
            RenderMode::CdfNormals => 3,
            RenderMode::CdfDistances => 4,
            RenderMode::CdfSigns => 5,
        }
    }

    /// The name shown for the mode.
    pub open spec fn text_spec(self) -> Seq<char> {
        match self {
            RenderMode::Default => "default"@,
            RenderMode::Volume => "volume"@,
            RenderMode::Velocity => "velocity"@,
            RenderMode::CdfNormals => "cdf (normals)"@,
            RenderMode::CdfDistances => "cdf (distances)"@,
            RenderMode::CdfSigns => "cdf (signs)"@,
        }
    }

    /// The name shown for the mode.
    pub fn text(&self) -> (s: &'static str)
        ensures
            s@ == self.text_spec(),
    {
        match self {
            RenderMode::Default => "default",
            RenderMode::Volume => "volume",
            RenderMode::Velocity => "velocity",
            RenderMode::CdfNormals => "cdf (normals)",
            RenderMode::CdfDistances => "cdf (distances)",
            RenderMode::CdfSigns => "cdf (signs)",
        }
    }

    /// The mode that `val` stands for. There are six modes, numbered from
    /// zero.
    pub fn from_u32(val: u32) -> (mode: RenderMode)
        requires
            val <= 5,
        ensures
            mode.code() == val,
    {
        if val == 0 {
            RenderMode::Default
        } else if val == 1 {
            RenderMode::Volume
        } else if val == 2 {
            RenderMode::Velocity
        } else if val == 3 {
            RenderMode::CdfNormals
        } else if val == 4 {
            RenderMode::CdfDistances
        } else {
            RenderMode::CdfSigns
        }
    }
}

/// The render configuration as the device reads it.
#[derive(Clone, Copy, PartialEq, Eq, Structural, Debug)]
pub struct RenderConfig {
    pub mode: u32,
}

impl RenderConfig {
    /// The configuration that shows `mode`.
    pub fn new(mode: RenderMode) -> (config: RenderConfig)
        ensures
            config.mode == mode.code(),
    {
        let code: u32 = match mode {
            RenderMode::Default => 0,
            RenderMode::Volume => 1,
            RenderMode::Velocity => 2,
            RenderMode::CdfNormals => 3,
            RenderMode::CdfDistances => 4,
            RenderMode::CdfSigns => 5,
        };
        RenderConfig { mode: code }
    }
}

impl Default for RenderConfig {
    fn default() -> (config: RenderConfig)
        ensures
            config.mode == 0,
    {
        RenderConfig { mode: 0 }
    }
}

/// Every particle writes its vertex, 64 particles to a work group.
pub open spec fn prep_vertex_buffer_invocation(num_particles: u32) -> InvocationView {
    direct(
        Pipeline::PrepVertexBuffer,
        seq![
            group(
                0,
                seq![
                    Buffer::VertexBuffer,
                    Buffer::ParticlePositions,
                    Buffer::ParticleVolumes,
                    Buffer::ParticleVelocities,
                    Buffer::ParticleCdf,
                    Buffer::GridMeta,
                    Buffer::SimulationParams,
                    Buffer::RenderConfig,
                ],
            ),
        ],
        div_ceil_spec(num_particles as int, 64) as u32,
    )
}

/// Every rigid surface sample writes its vertex, 64 samples to a work
/// group.
pub open spec fn prep_rigid_vertex_buffer_invocation(num_samples: u32) -> InvocationView {
    direct(
        Pipeline::PrepVertexBufferRigidParticles,
        seq![group(0, seq![Buffer::VertexBufferRigidParticles, Buffer::RigidSamplePoints])],
        div_ceil_spec(num_samples as int, 64) as u32,
    )
}

/// What the render feed queues: the kernel of the particles, then that of
/// the rigid samples where they have a vertex buffer.
pub open spec fn prep_vertex_buffer_invocations(
    num_particles: u32,
    num_samples: u32,
    with_rigid_particles: bool,
) -> Seq<InvocationView> {
    if with_rigid_particles {
        seq![
            prep_vertex_buffer_invocation(num_particles),
            prep_rigid_vertex_buffer_invocation(num_samples),
        ]
    } else {
        seq![prep_vertex_buffer_invocation(num_particles)]
    }
}

/// Compute kernels of the render feed.
pub struct WgPrepVertexBuffer {}

impl WgPrepVertexBuffer {
    /// Queues the filling of the vertex buffers from the current state.
    pub fn queue(
        &self,
        queue: &mut KernelInvocationQueue,
        particles: &GpuParticles,
        rigid_particles: &GpuRigidParticles,
        with_rigid_particles: bool,
    )
        ensures
            final(queue)@ == old(queue)@ + prep_vertex_buffer_invocations(
                particles.num_particles,
                rigid_particles.num_samples,
                with_rigid_particles,
            ),
    {
        KernelInvocationBuilder::new(Pipeline::PrepVertexBuffer).bind0(
            vec![
                Buffer::VertexBuffer,
                Buffer::ParticlePositions,
                Buffer::ParticleVolumes,
                Buffer::ParticleVelocities,
                Buffer::ParticleCdf,
                Buffer::GridMeta,
                Buffer::SimulationParams,
                Buffer::RenderConfig,
            ],
        ).queue(queue, div_ceil(particles.num_particles, 64));

        if with_rigid_particles {
            KernelInvocationBuilder::new(Pipeline::PrepVertexBufferRigidParticles).bind0(
                vec![Buffer::VertexBufferRigidParticles, Buffer::RigidSamplePoints],
            ).queue(queue, div_ceil(rigid_particles.num_samples, 64));
        }
        assert(queue@ =~~= old(queue)@ + prep_vertex_buffer_invocations(
            particles.num_particles,
            rigid_particles.num_samples,
            with_rigid_particles,
        ));
    }
}

} // verus!
