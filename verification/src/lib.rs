//! Host-side core of a material point method solver: work sizing, pass
//! scheduling and the integer algorithms of the sparse simulation grid.

pub mod arith;
pub mod collision;
pub mod dvector;
pub mod grid;
pub mod models;
pub mod pipeline;
pub mod prep_vertex_buffer;
pub mod queue;
pub mod schedule;
pub mod shader;
pub mod solver;
