pub mod buffer;
pub mod geometry;
pub mod mesh_generator;
