//! Compiles a fixed-size grid of voxels into the textured quads of its visible faces,
//! and packs those quads into the per-instance records of an instanced draw.
pub mod float_bits;
pub mod cube;
pub mod quad;
pub mod chunk;
pub mod mesh;
pub mod occlusion;
