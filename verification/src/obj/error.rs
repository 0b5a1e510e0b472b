//! Why loading an OBJ file can fail.

use vstd::prelude::*;

verus! {

/// The ways in which loading geometry fails.
#[derive(Debug, Clone, Copy, PartialEq, Eq, Structural)]
pub enum ObjError {
    /// The file could not be opened.
    OpenFileFailed,
    /// A line could not be read.
    ParseFailed,
    /// A material was declared without a name.
    InvalidMaterialName,
    /// The name of an object or group is not valid UTF-8.
    InvalidObjectName,
    /// A face directive names something that is not a face vertex.
    FaceParseError,
    /// A face vertex names a position that was not declared.
    FaceVertexOutOfBounds,
    /// A face vertex names a texture coordinate that was not declared.
    FaceTexCoordOutOfBounds,
    /// A face vertex names a normal that was not declared.
    FaceNormalOutOfBounds,
    /// A polygon has fewer than three vertices.
    InvalidPolygon,
}

} // verus!
