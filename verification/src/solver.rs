//! The passes of one sub-step and the data they run on.

pub mod affinity;
pub mod body;
pub mod g2p;
pub mod g2p_cdf;
pub mod grid_update;
pub mod grid_update_cdf;
pub mod p2g;
pub mod p2g_cdf;
pub mod params;
pub mod particle;
pub mod particle2d;
pub mod particle3d;
pub mod particle_update;
pub mod rigid_impulses;
pub mod rigid_particle_update;
