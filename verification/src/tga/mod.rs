//! TGA image container decoding.

pub use color_map::ColorMap;
pub use error::TgaError;
pub use footer::TgaFooter;
pub use header::{Bpp, DataType, ImageOrigin, TgaHeader};
pub use image::Tga;
pub use pixels::{Pixel, Pixels};
pub use point::Point;
pub use size::Size;

pub mod color_map;
pub mod error;
pub mod footer;
pub mod header;
pub mod image;
pub mod pixels;
pub mod point;
pub mod size;
