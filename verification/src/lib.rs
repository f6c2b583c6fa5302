//! Surface extraction for a cubic chunk of voxels.
//!
//! A [`grid::VoxelGrid`] holds one occupancy code per cell. A
//! [`chunkmesh::ChunkMesh`] walks the grid and emits, for every solid cell,
//! one textured quad per face that borders empty space, together with the
//! triangle indices that draw it.

pub mod grid;

pub mod cubemesh;
pub mod surface;
pub mod chunkmesh;
pub mod laws;
pub mod debug;
pub mod viewer;
