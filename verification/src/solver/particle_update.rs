//! Constitutive update of the particles.

use crate::arith::{div_ceil, div_ceil_spec};
use crate::queue::{
    direct, group, Buffer, InvocationView, KernelInvocationBuilder, KernelInvocationQueue,
    Pipeline,
};
use crate::solver::particle::GpuParticles;
use vstd::prelude::*;

verus! {

/// Every particle advances its deformation gradient and stress state, 64
/// particles to a work group.
pub open spec fn particle_update_invocation(num_particles: u32) -> InvocationView {
    direct(
        Pipeline::ParticleUpdate,
        seq![
            group(0, seq![Buffer::GridMeta]),
            group(
                1,
                seq![
                    Buffer::ParticlePositions,
                    Buffer::ParticleVelocities,
                    Buffer::ParticleVolumes,
                    Buffer::ParticleAffines,
                    Buffer::ModelLinearElasticity,
                    Buffer::ModelDruckerPragerPlasticity,
                    Buffer::ModelDruckerPragerPlasticState,
                    Buffer::ModelPhases,
                    Buffer::SimulationParams,
                ],
            ),
        ],
        div_ceil_spec(num_particles as int, 64) as u32,
    )
}

/// Compute kernel of the particle update.
pub struct WgParticleUpdate {}

impl WgParticleUpdate {
    /// Queues the constitutive update of all particles.
    pub fn queue(&self, queue: &mut KernelInvocationQueue, particles: &GpuParticles)
        ensures
            final(queue)@ == old(queue)@.push(particle_update_invocation(particles.num_particles)),
    {
        KernelInvocationBuilder::new(Pipeline::ParticleUpdate).bind(0, vec![Buffer::GridMeta]).bind(
            1,
            vec![
                Buffer::ParticlePositions,
                Buffer::ParticleVelocities,
                Buffer::ParticleVolumes,
                Buffer::ParticleAffines,
                Buffer::ModelLinearElasticity,
                Buffer::ModelDruckerPragerPlasticity,
                Buffer::ModelDruckerPragerPlasticState,
                Buffer::ModelPhases,
                Buffer::SimulationParams,
            ],
        ).queue(queue, div_ceil(particles.num_particles, 64));
        assert(queue@ =~~= old(queue)@.push(particle_update_invocation(particles.num_particles)));
    }
}

} // verus!
