//! The fixed 18-byte header of a TGA image.

use vstd::prelude::*;
use vstd::slice::slice_subrange;
use crate::tga::error::TgaError;

verus! {

/// The length of the header in bytes.
pub const HEADER_LEN: usize = 18;

/// Bits per pixel.
#[derive(Copy, Clone, Eq, PartialEq, Ord, PartialOrd, Hash, Debug, Structural)]
pub enum Bpp {
    Bits8,
    Bits16,
    Bits24,
    Bits32,
}

impl Bpp {
    /// The depth that the byte `value` names, if it names one.
    pub open spec fn from_bits(value: u8) -> Option<Bpp> {
        if value == 8 {
            Some(Bpp::Bits8)
        } else if value == 16 {
            Some(Bpp::Bits16)
        } else if value == 24 {
            Some(Bpp::Bits24)
        } else if value == 32 {
            Some(Bpp::Bits32)
        } else {
            None
        }
    }

    /// The number of bits of a pixel of this depth.
    pub open spec fn bit_count(self) -> u8 {
        match self {
            Bpp::Bits8 => 8,
            Bpp::Bits16 => 16,
            Bpp::Bits24 => 24,
            Bpp::Bits32 => 32,
        }
    }

    /// The number of bytes of a pixel of this depth.
    pub open spec fn byte_count(self) -> u8 {
        match self {
            Bpp::Bits8 => 1,
            Bpp::Bits16 => 2,
            Bpp::Bits24 => 3,
            Bpp::Bits32 => 4,
        }
    }

    /// Decodes a depth byte: 8, 16, 24 or 32.
    pub fn new(value: u8) -> (r: Option<Self>)
        ensures
            r == Self::from_bits(value),
    {
        if value == 8 {
            Some(Bpp::Bits8)
        } else if value == 16 {
            Some(Bpp::Bits16)
        } else if value == 24 {
            Some(Bpp::Bits24)
        } else if value == 32 {
            Some(Bpp::Bits32)
        } else {
            None
        }
    }

    /// Returns the number of bits.
    pub fn bits(&self) -> (r: u8)
        ensures
            r == self.bit_count(),
            Self::from_bits(r) == Some(*self),
    {
        match self {
            Bpp::Bits8 => 8,
            Bpp::Bits16 => 16,
            Bpp::Bits24 => 24,
            Bpp::Bits32 => 32,
        }
    }

    /// Returns the number of bytes.
    pub fn bytes(&self) -> (r: u8)
        ensures
            r == self.byte_count(),
            r * 8 == self.bit_count(),
    {
        match self {
            Bpp::Bits8 => 1,
            Bpp::Bits16 => 2,
            Bpp::Bits24 => 3,
            Bpp::Bits32 => 4,
        }
    }
}

/// Image data type.
#[derive(Copy, Clone, Eq, PartialEq, Ord, PartialOrd, Hash, Debug, Structural)]
pub enum DataType {
    /// No image data.
    NoData,
    /// Color mapped.
    ColorMapped,
    /// True color.
    TrueColor,
    /// Black and white or grayscale.
    BlackAndWhite,
}

impl DataType {
    /// The data type that the low two bits of `value` name.
    pub open spec fn from_bits(value: u8) -> DataType {
        if value & 0x3 == 1 {
            DataType::ColorMapped
        } else if value & 0x3 == 2 {
            DataType::TrueColor
        } else if value & 0x3 == 3 {
            DataType::BlackAndWhite
        } else {
            DataType::NoData
        }
    }

    /// Decodes the low two bits of an image-type byte.
    pub fn new(value: u8) -> (r: Self)
        ensures
            r == Self::from_bits(value),
    {
        let low = value & 0x3;
        if low == 1 {
            DataType::ColorMapped
        } else if low == 2 {
            DataType::TrueColor
        } else if low == 3 {
            DataType::BlackAndWhite
        } else {
            DataType::NoData
        }
    }
}

/// Image origin
#[derive(Copy, Clone, Eq, PartialEq, Ord, PartialOrd, Hash, Debug, Structural)]
pub enum ImageOrigin {
    /// Bottom left
    BottomLeft,
    /// Bottom right
    BottomRight,
    /// Top left
    TopLeft,
    /// Top right
    TopRight,
}

impl ImageOrigin {
    /// The corner that the low two bits of `value` name.
    pub open spec fn from_bits(value: u8) -> ImageOrigin {
        if value & 0x3 == 0 {
            ImageOrigin::BottomLeft
        } else if value & 0x3 == 1 {
            ImageOrigin::BottomRight
        } else if value & 0x3 == 2 {
            ImageOrigin::TopLeft
        } else {
            ImageOrigin::TopRight
        }
    }

    /// Decodes the low two bits of `value`, which are bits 4 and 5 of the
    /// image descriptor.
    pub fn new(value: u8) -> (r: Self)
        ensures
            r == Self::from_bits(value),
    {
        let low = value & 0x3;
        if low == 0 {
            ImageOrigin::BottomLeft
        } else if low == 1 {
            ImageOrigin::BottomRight
        } else if low == 2 {
            ImageOrigin::TopLeft
        } else {
            ImageOrigin::TopRight
        }
    }
}

/// TGA header.
#[derive(Copy, Clone, Eq, PartialEq, Ord, PartialOrd, Hash, Debug)]
pub struct TgaHeader {
    /// Size of Image ID field
    pub id_len: u8,
    /// Has Color map type
    pub has_color_map: bool,
    /// Data Type
    pub data_type: DataType,
    /// Compressed, not implemented
    pub compressed: bool,
    /// Color Map start
    pub color_map_start: u16,
    /// Color Map length
    pub color_map_len: u16,
    /// Depth of color map entries
    pub color_map_depth: Option<Bpp>,
    /// X Origin
    pub x_origin: u16,
    /// Y Origin
    pub y_origin: u16,
    /// Image width in pixels
    pub width: u16,
    /// Image height in pixels
    pub height: u16,
    /// Pixel bit depth
    pub pixel_depth: Bpp,
    /// Image origin
    pub image_origin: ImageOrigin,
    /// Alpha channel depth
    pub alpha_channel_depth: u8,
}

/// Whether the image-type byte `value` has a bit set other than the two
/// data-type bits and the compression bit.
pub open spec fn has_reserved_bits(value: u8) -> bool {
    value & 0xF4 != 0
}

/// Whether the image-type byte `value` has the compression bit, bit 3, set.
pub open spec fn is_compressed(value: u8) -> bool {
    value & 0x08 != 0
}

/// What an image-type byte decodes to: an error for a byte with a reserved
/// bit and for one with the compression bit, the data type of the low two
/// bits otherwise.
pub open spec fn image_type_spec(value: u8) -> Result<(DataType, bool), TgaError> {
    if has_reserved_bits(value) {
        Err(TgaError::UnknownImageType(value))
    } else if is_compressed(value) {
        Err(TgaError::CompressedNotImplemented)
    } else {
        Ok((DataType::from_bits(value), false))
    }
}

/// Decodes the image-type byte into the data type and the compression
/// flag. Run-length encoded images are refused.
pub fn parse_image_type(value: u8) -> (r: Result<(DataType, bool), TgaError>)
    ensures
        r == image_type_spec(value),
{
    if value & 0xF4 != 0 {
        return Err(TgaError::UnknownImageType(value));
    }
    let data_type = DataType::new(value);
    let compressed = value & 0x8 != 0;
    if compressed {
        return Err(TgaError::CompressedNotImplemented);
    }
    Ok((data_type, compressed))
}

/// What the color-map flag at the head of `input` decodes to.
pub open spec fn color_map_flag_spec(input: Seq<u8>) -> Result<bool, TgaError> {
    if input.len() == 0 {
        Err(TgaError::Header)
    } else if input[0] == 0 {
        Ok(false)
    } else if input[0] == 1 {
        Ok(true)
    } else {
        Err(TgaError::ColorMap)
    }
}

/// Decodes the color-map flag, one byte that must be 0 or 1, and returns
/// the input that follows it.
pub fn parse_color_map(input: &[u8]) -> (r: Result<(&[u8], bool), TgaError>)
    ensures
        match r {
            Ok((rest, flag)) => color_map_flag_spec(input@) == Ok::<bool, TgaError>(flag)
                && rest@ == input@.skip(1),
            Err(e) => color_map_flag_spec(input@) == Err::<bool, TgaError>(e),
        },
{
    if input.len() == 0 {
        return Err(TgaError::Header);
    }
    let flag = input[0];
    if flag > 1 {
        return Err(TgaError::ColorMap);
    }
    let rest = slice_subrange(input, 1, input.len());
    Ok((rest, flag == 1))
}

/// The 16-bit number whose little-endian bytes stand at `at` in `s`.
pub open spec fn le_u16(s: Seq<u8>, at: int) -> u16 {
    (s[at] + 256 * s[at + 1]) as u16
}

/// Reads a little-endian 16-bit number.
pub fn read_le_u16(input: &[u8], at: usize) -> (r: u16)
    requires
        at + 1 < input@.len(),
    ensures
        r == le_u16(input@, at as int),
{
    let lo: u16 = input[at] as u16;
    let hi: u16 = input[at + 1] as u16;
    lo + 256 * hi
}

impl TgaHeader {
    /// The header that the bytes `input` begin with. The fields are decoded
    /// in the order in which they are stored, and the first that is missing
    /// or not valid decides the error:
    ///
    /// | offset | field | error |
    /// |---|---|---|
    /// | 0 | length of the image id | |
    /// | 1 | color-map flag | `ColorMap` unless 0 or 1 |
    /// | 2 | image type | `UnknownImageType`, `CompressedNotImplemented` |
    /// | 3, 5 | first entry and length of the color map | |
    /// | 7 | depth of a color-map entry | |
    /// | 8, 10 | x and y origin | |
    /// | 12, 14 | width and height | |
    /// | 16 | pixel depth | `Header` unless 8, 16, 24 or 32 |
    /// | 17 | image descriptor | |
    ///
    /// A field that lies beyond the end of `input` gives `Header`. The
    /// 16-bit fields are little-endian. Bits 4 and 5 of the image descriptor
    /// give the origin, its low four bits the depth of the alpha channel.
    pub open spec fn parse_spec(input: Seq<u8>) -> Result<TgaHeader, TgaError> {
        if input.len() < 2 {
            Err(TgaError::Header)
        } else if input[1] > 1 {
            Err(TgaError::ColorMap)
        } else if input.len() < 3 {
            Err(TgaError::Header)
        } else if image_type_spec(input[2]) is Err {
            Err(image_type_spec(input[2])->Err_0)
        } else if input.len() < 17 {
            Err(TgaError::Header)
        } else if Bpp::from_bits(input[16]) is None {
            Err(TgaError::Header)
        } else if input.len() < 18 {
            Err(TgaError::Header)
        } else {
            Ok(
                TgaHeader {
                    id_len: input[0],
                    has_color_map: input[1] == 1,
                    data_type: DataType::from_bits(input[2]),
                    compressed: false,
                    color_map_start: le_u16(input, 3),
                    color_map_len: le_u16(input, 5),
                    color_map_depth: Bpp::from_bits(input[7]),
                    x_origin: le_u16(input, 8),
                    y_origin: le_u16(input, 10),
                    width: le_u16(input, 12),
                    height: le_u16(input, 14),
                    pixel_depth: Bpp::from_bits(input[16])->0,
                    image_origin: ImageOrigin::from_bits(input[17] >> 4),
                    alpha_channel_depth: input[17] & 0xF,
                },
            )
        }
    }

    /// Decodes the header at the head of `input` and returns the input that
    /// follows it.
    pub fn parse(input: &[u8]) -> (r: Result<(&[u8], TgaHeader), TgaError>)
        ensures
            match r {
                Ok((rest, header)) => Self::parse_spec(input@) == Ok::<TgaHeader, TgaError>(header)
                    && rest@ == input@.skip(HEADER_LEN as int),
                Err(e) => Self::parse_spec(input@) == Err::<TgaHeader, TgaError>(e),
            },
    {
        let n = input.len();
        if n < 1 {
            return Err(TgaError::Header);
        }
        let id_len = input[0];
        let (_, has_color_map) = match parse_color_map(slice_subrange(input, 1, n)) {
            Ok(flag) => flag,
            Err(e) => {
                return Err(e);
            },
        };
        if n < 3 {
            return Err(TgaError::Header);
        }
        let (data_type, compressed) = match parse_image_type(input[2]) {
            Ok(decoded) => decoded,
            Err(e) => {
                return Err(e);
            },
        };
        if n < 17 {
            return Err(TgaError::Header);
        }
        let color_map_start = read_le_u16(input, 3);
        let color_map_len = read_le_u16(input, 5);
        let color_map_depth = Bpp::new(input[7]);
        let x_origin = read_le_u16(input, 8);
        let y_origin = read_le_u16(input, 10);
        let width = read_le_u16(input, 12);
        let height = read_le_u16(input, 14);
        let pixel_depth = match Bpp::new(input[16]) {
            Some(depth) => depth,
            None => {
                return Err(TgaError::Header);
            },
        };
        if n < 18 {
            return Err(TgaError::Header);
        }
        let image_descriptor = input[17];
        let image_origin = ImageOrigin::new(image_descriptor >> 4);
        let alpha_channel_depth = image_descriptor & 0xF;
        let rest = slice_subrange(input, HEADER_LEN, n);
        Ok(
            (
                rest,
                TgaHeader {
                    id_len,
                    has_color_map,
                    data_type,
                    compressed,
                    color_map_start,
                    color_map_len,
                    color_map_depth,
                    x_origin,
                    y_origin,
                    width,
                    height,
                    pixel_depth,
                    image_origin,
                    alpha_channel_depth,
                },
            ),
        )
    }
}

} // verus!
