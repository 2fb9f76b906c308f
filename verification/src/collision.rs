//! Collision of grid nodes with rigid shapes.

use crate::shader::ShaderModule;
use vstd::prelude::*;

verus! {

/// Shader module of the collision response on the grid.
pub struct WgCollide {}

impl WgCollide {
    /// The module, for composition.
    pub fn module(&self) -> (m: ShaderModule)
        ensures
            m == ShaderModule::Collide,
    {
        ShaderModule::Collide
    }
}

} // verus!
