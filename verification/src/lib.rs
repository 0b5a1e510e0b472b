//! The verified core of a 3D model viewer: a Wavefront OBJ geometry parser,
//! a TGA image decoder and the rules by which the viewer chooses among what
//! a graphics device offers. The parsers turn an untrusted byte stream into
//! validated plain data (meshes, headers, pixels); what each function
//! returns is stated by its contract and proved.

pub mod gpu;
pub mod obj;
pub mod tga;
