//! Sizes of the particle buffers.

use crate::arith::{div_ceil, div_ceil_spec};
use vstd::prelude::*;

verus! {

/// The buffers of the deformable particles: positions, dynamics, sorted ids
/// and node-list links, one entry per particle each.
#[derive(Clone, Copy, PartialEq, Eq, Structural, Debug)]
pub struct GpuParticles {
    /// Number of particles.
    pub num_particles: u32,
}

impl GpuParticles {
    /// The buffers for `num_particles` particles.
    ///
    /// Buffer lengths are 32-bit: the count must fit.
    pub fn from_particles(num_particles: usize) -> (p: GpuParticles)
        requires
            num_particles <= u32::MAX,
        ensures
            p.num_particles == num_particles,
    {
        GpuParticles { num_particles: num_particles as u32 }
    }

    /// Whether there is no particle.
    pub fn is_empty(&self) -> (b: bool)
        ensures
            b == (self.num_particles == 0),
    {
        self.num_particles == 0
    }

    /// Number of particles.
    pub fn len(&self) -> (n: usize)
        ensures
            n == self.num_particles,
    {
        self.num_particles as usize
    }
}

/// The buffers of the rigid surface samples: local and world sample points,
/// sample ids and node-list links, one entry per sample each, and one flag
/// bit per sample that says whether the sample needs a grid block.
#[derive(Clone, Copy, PartialEq, Eq, Structural, Debug)]
pub struct GpuRigidParticles {
    /// Number of samples.
    pub num_samples: u32,
    /// Number of 32-bit words that hold the flags.
    pub needs_block_words: u32,
}

impl GpuRigidParticles {
    /// The flag words cover the samples, 32 flags to a word.
    pub open spec fn wf(&self) -> bool {
        self.needs_block_words == div_ceil_spec(self.num_samples as int, 32)
    }

    /// Whether the flag words cover the samples.
    pub fn is_wf(&self) -> (b: bool)
        ensures
            b == self.wf(),
    {
        self.needs_block_words == div_ceil(self.num_samples, 32)
    }

    /// The buffers of an empty sample set.
    pub fn new() -> (p: GpuRigidParticles)
        ensures
            p.wf(),
            p.num_samples == 0,
    {
        GpuRigidParticles { num_samples: 0, needs_block_words: 0 }
    }

    /// The buffers for `num_samples` samples.
    ///
    /// Buffer lengths are 32-bit: the count must fit.
    pub fn with_samples(num_samples: usize) -> (p: GpuRigidParticles)
        requires
            num_samples <= u32::MAX,
        ensures
            p.wf(),
            p.num_samples == num_samples,
    {
        let n: u32 = num_samples as u32;
        GpuRigidParticles { num_samples: n, needs_block_words: div_ceil(n, 32) }
    }

    /// Number of samples.
    pub fn len(&self) -> (n: u64)
        ensures
            n == self.num_samples,
    {
        self.num_samples as u64
    }

    /// Whether there is no sample.
    pub fn is_empty(&self) -> (b: bool)
        ensures
            b == (self.num_samples == 0),
    {
        self.len() == 0
    }
}

} // verus!
