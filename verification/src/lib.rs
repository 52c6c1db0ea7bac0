//! The logic of an orbital-density viewer: reading OBJ models and their
//! wireframe edges, laying out the sampling grid and the cube meshes of the
//! selected cells, and the viewer's decisions about input and the window
//! surface.

pub mod controls;
pub mod gpu_bytes;
pub mod mesh_edges;
pub mod obj_text;
pub mod surface;
pub mod voxel_grid;
