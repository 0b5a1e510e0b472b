//! Why decoding a TGA image can fail.

use vstd::prelude::*;

verus! {

/// The ways in which decoding a TGA image fails.
#[derive(Copy, Clone, Eq, PartialEq, Ord, PartialOrd, Hash, Debug, Structural)]
pub enum TgaError {
    /// A field of the header is missing or cannot be decoded.
    Header,
    /// The color-map flag or the color map itself is not valid.
    ColorMap,
    /// The image-type byte has a bit set that has no meaning.
    UnknownImageType(u8),
    /// The image is run-length encoded.
    CompressedNotImplemented,
    /// The image data cannot be decoded.
    ParseImageData,
}

} // verus!
