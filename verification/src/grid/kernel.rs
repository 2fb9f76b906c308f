//! The interpolation kernel between particles and grid nodes.

use crate::shader::ShaderModule;
use vstd::prelude::*;

verus! {

/// Shader module of the interpolation weights.
pub struct WgKernel {}

impl WgKernel {
    /// The module, for composition.
    pub fn module(&self) -> (m: ShaderModule)
        ensures
            m == ShaderModule::Kernel,
    {
        ShaderModule::Kernel
    }
}

} // verus!
