//! The sparse simulation grid and the primitives it is built from.

pub mod blocks;
pub mod cascade;
pub mod grid;
pub mod kernel;
pub mod node_lists;
pub mod particle_sort;
pub mod prefix_sum;
pub mod scan_plan;
pub mod sort;
pub mod sort_plan;
