//! The parameters of the simulation.

use crate::shader::ShaderModule;
use vstd::prelude::*;

verus! {

/// Shader module of the simulation parameters.
pub struct WgParams {}

impl WgParams {
    /// The module, for composition.
    pub fn module(&self) -> (m: ShaderModule)
        ensures
            m == ShaderModule::Params,
    {
        ShaderModule::Params
    }
}

} // verus!
