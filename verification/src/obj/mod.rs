//! Wavefront OBJ geometry parsing.

pub use error::ObjError;
pub use export::{add_vertex, export_faces};
pub use face::{parse_face, Face};
pub use index::{VertexIndices, MISSING_INDEX};
pub use loader::{parse_obj, parse_vertex_data, ObjLoader};
pub use material::{parse_mtl, Material};
pub use mesh::{Mesh, Model};

pub mod error;
pub mod export;
pub mod face;
pub mod index;
pub mod index_map;
pub mod laws;
pub mod loader;
pub mod material;
pub mod mesh;
pub mod number;
pub mod scalar;
pub mod text;
