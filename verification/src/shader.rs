//! The shader modules of the solver and the order in which they compose.
//!
//! A module can only be composed once the modules that it imports are
//! composed. Every import of a module has a smaller rank than the module,
//! so composing in rank order is always possible, and no module imports
//! itself through others.

use vstd::prelude::*;

verus! {

/// A shader module.
#[derive(Clone, Copy, PartialEq, Eq, Structural, Debug)]
pub enum ShaderModule {
    /// Rigid-body definitions of the physics backend.
    Body,
    /// Shape definitions of the geometry backend.
    Shape,
    Segment,
    Triangle,
    /// Similarities in two and in three dimensions.
    Sim2,
    Sim3,
    /// Singular value decompositions in two and in three dimensions.
    Svd2,
    Svd3,
    /// Matrix inverses.
    Inv,
    Params,
    Particle,
    Kernel,
    PrefixSum,
    Grid,
    Sort,
    Collide,
    LinearElasticity,
    NeoHookeanElasticity,
    DruckerPrager,
    RigidImpulses,
    RigidParticleUpdate,
    GridUpdate,
    GridUpdateCdf,
    P2G,
    P2GCdf,
    G2P,
    G2PCdf,
    ParticleUpdate,
}

impl ShaderModule {
    /// Place of the module in the composition order.
    pub open spec fn rank(self) -> int {
        match self {
            ShaderModule::Body => 0,
            ShaderModule::Shape => 1,
            ShaderModule::Segment => 2,
            ShaderModule::Triangle => 3,
            ShaderModule::Sim2 => 4,
            ShaderModule::Sim3 => 5,
            ShaderModule::Svd2 => 6,
            ShaderModule::Svd3 => 7,
            ShaderModule::Inv => 8,
            ShaderModule::Params => 9,
            ShaderModule::Particle => 10,
            ShaderModule::Kernel => 11,
            ShaderModule::PrefixSum => 12,
            ShaderModule::Grid => 13,
            ShaderModule::Sort => 14,
            ShaderModule::Collide => 15,
            ShaderModule::LinearElasticity => 16,
            ShaderModule::NeoHookeanElasticity => 17,
            ShaderModule::DruckerPrager => 18,
            ShaderModule::RigidImpulses => 19,
            ShaderModule::RigidParticleUpdate => 20,
            ShaderModule::GridUpdate => 21,
            ShaderModule::GridUpdateCdf => 22,
            ShaderModule::P2G => 23,
            ShaderModule::P2GCdf => 24,
            ShaderModule::G2P => 25,
            ShaderModule::G2PCdf => 26,
            ShaderModule::ParticleUpdate => 27,
        }
    }

    /// The modules that the module imports, in the order in which they are
    /// composed before it.
    pub open spec fn imports(self) -> Seq<ShaderModule> {
        match self {
            ShaderModule::Grid => seq![ShaderModule::Params],
            ShaderModule::Sort => seq![ShaderModule::Particle, ShaderModule::Grid],
            ShaderModule::Collide => seq![
                ShaderModule::Shape,
                ShaderModule::Body,
                ShaderModule::Grid,
            ],
            ShaderModule::LinearElasticity
            | ShaderModule::NeoHookeanElasticity
            | ShaderModule::DruckerPrager => seq![ShaderModule::Svd2, ShaderModule::Svd3],
            ShaderModule::RigidImpulses => seq![
                ShaderModule::Body,
                ShaderModule::Sim2,
                ShaderModule::Sim3,
                ShaderModule::Params,
                ShaderModule::Grid,
            ],
            ShaderModule::RigidParticleUpdate => seq![
                ShaderModule::Body,
                ShaderModule::Sim2,
                ShaderModule::Sim3,
                ShaderModule::Particle,
            ],
            ShaderModule::GridUpdate => seq![ShaderModule::Grid],
            ShaderModule::GridUpdateCdf => seq![ShaderModule::Grid, ShaderModule::Collide],
            ShaderModule::P2G => seq![
                ShaderModule::Params,
                ShaderModule::Particle,
                ShaderModule::Grid,
                ShaderModule::LinearElasticity,
                ShaderModule::Kernel,
                ShaderModule::Body,
                ShaderModule::RigidImpulses,
            ],
            ShaderModule::P2GCdf => seq![
                ShaderModule::Params,
                ShaderModule::Particle,
                ShaderModule::Kernel,
                ShaderModule::Grid,
                ShaderModule::Body,
                ShaderModule::Segment,
                ShaderModule::Triangle,
            ],
            ShaderModule::G2P => seq![
                ShaderModule::Params,
                ShaderModule::Particle,
                ShaderModule::Grid,
                ShaderModule::Kernel,
                ShaderModule::Body,
            ],
            ShaderModule::G2PCdf => seq![
                ShaderModule::Params,
                ShaderModule::Particle,
                ShaderModule::Grid,
                ShaderModule::Kernel,
                ShaderModule::Inv,
            ],
            ShaderModule::ParticleUpdate => seq![
                ShaderModule::Params,
                ShaderModule::Particle,
                ShaderModule::Grid,
                ShaderModule::NeoHookeanElasticity,
                ShaderModule::LinearElasticity,
                ShaderModule::DruckerPrager,
                ShaderModule::Kernel,
                ShaderModule::Collide,
            ],
            _ => Seq::<ShaderModule>::empty(),
        }
    }

    /// The modules that the module imports.
    pub fn dependencies(&self) -> (deps: Vec<ShaderModule>)
        ensures
            deps@ == self.imports(),
    {
        match self {
            ShaderModule::Grid => vec![ShaderModule::Params],
            ShaderModule::Sort => vec![ShaderModule::Particle, ShaderModule::Grid],
            ShaderModule::Collide => vec![
                ShaderModule::Shape,
                ShaderModule::Body,
                ShaderModule::Grid,
            ],
            ShaderModule::LinearElasticity
            | ShaderModule::NeoHookeanElasticity
            | ShaderModule::DruckerPrager => vec![ShaderModule::Svd2, ShaderModule::Svd3],
            ShaderModule::RigidImpulses => vec![
                ShaderModule::Body,
                ShaderModule::Sim2,
                ShaderModule::Sim3,
                ShaderModule::Params,
                ShaderModule::Grid,
            ],
            ShaderModule::RigidParticleUpdate => vec![
                ShaderModule::Body,
                ShaderModule::Sim2,
                ShaderModule::Sim3,
                ShaderModule::Particle,
            ],
            ShaderModule::GridUpdate => vec![ShaderModule::Grid],
            ShaderModule::GridUpdateCdf => vec![ShaderModule::Grid, ShaderModule::Collide],
            ShaderModule::P2G => vec![
                ShaderModule::Params,
                ShaderModule::Particle,
                ShaderModule::Grid,
                ShaderModule::LinearElasticity,
                ShaderModule::Kernel,
                ShaderModule::Body,
                ShaderModule::RigidImpulses,
            ],
            ShaderModule::P2GCdf => vec![
                ShaderModule::Params,
                ShaderModule::Particle,
                ShaderModule::Kernel,
                ShaderModule::Grid,
                ShaderModule::Body,
                ShaderModule::Segment,
                ShaderModule::Triangle,
            ],
            ShaderModule::G2P => vec![
                ShaderModule::Params,
                ShaderModule::Particle,
                ShaderModule::Grid,
                ShaderModule::Kernel,
                ShaderModule::Body,
            ],
            ShaderModule::G2PCdf => vec![
                ShaderModule::Params,
                ShaderModule::Particle,
                ShaderModule::Grid,
                ShaderModule::Kernel,
                ShaderModule::Inv,
            ],
            ShaderModule::ParticleUpdate => vec![
                ShaderModule::Params,
                ShaderModule::Particle,
                ShaderModule::Grid,
                ShaderModule::NeoHookeanElasticity,
                ShaderModule::LinearElasticity,
                ShaderModule::DruckerPrager,
                ShaderModule::Kernel,
                ShaderModule::Collide,
            ],
            _ => Vec::new(),
        }
    }
}

/// Every module that a module imports comes before it in the composition
/// order.
pub proof fn lemma_imports_come_first(m: ShaderModule, i: int)
    requires
        0 <= i < m.imports().len(),
    ensures
        m.imports()[i].rank() < m.rank(),
{
}

} // verus!
