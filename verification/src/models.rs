//! The constitutive models of the particles.

use crate::shader::ShaderModule;
use vstd::prelude::*;

verus! {

/// Shader module of linear elasticity.
pub struct WgLinearElasticity {}

impl WgLinearElasticity {
    /// The module, for composition.
    pub fn module(&self) -> (m: ShaderModule)
        ensures
            m == ShaderModule::LinearElasticity,
    {
        ShaderModule::LinearElasticity
    }
}

/// Shader module of Neo-Hookean elasticity.
pub struct WgNeoHookeanElasticity {}

impl WgNeoHookeanElasticity {
    /// The module, for composition.
    pub fn module(&self) -> (m: ShaderModule)
        ensures
            m == ShaderModule::NeoHookeanElasticity,
    {
        ShaderModule::NeoHookeanElasticity
    }
}

/// Shader module of Drucker-Prager plasticity.
pub struct WgDruckerPrager {}

impl WgDruckerPrager {
    /// The module, for composition.
    pub fn module(&self) -> (m: ShaderModule)
        ensures
            m == ShaderModule::DruckerPrager,
    {
        ShaderModule::DruckerPrager
    }
}

} // verus!
