//! A sparse voxel octree for sculpting, with a compact word buffer for
//! ray-marched rendering.
pub mod geometry;
pub mod brush;
pub mod octree;
pub mod node;
pub mod buffer;
pub mod material;
pub mod sculpt;
pub mod editor;
pub mod decode;
