//! Sizes of the rigid-body buffers that the passes bind.

use vstd::prelude::*;

verus! {

/// The device mirror of the coupled rigid bodies, by length.
#[derive(Clone, Copy, PartialEq, Eq, Structural, Debug)]
pub struct GpuBodySet {
    /// Number of coupled bodies.
    pub num_bodies: u32,
    /// Number of vertices in the buffers of the bodies' shapes.
    pub num_shape_vertices: u32,
}

impl GpuBodySet {
    /// Number of coupled bodies.
    pub fn len(&self) -> (n: u32)
        ensures
            n == self.num_bodies,
    {
        self.num_bodies
    }

    /// Whether no body is coupled.
    pub fn is_empty(&self) -> (b: bool)
        ensures
            b == (self.num_bodies == 0),
    {
        self.num_bodies == 0
    }
}

} // verus!
