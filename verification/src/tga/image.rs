//! A TGA image: its header and where its pixel data lies.

use vstd::prelude::*;
use vstd::slice::slice_subrange;
use crate::tga::color_map::{color_map_size, ColorMap};
use crate::tga::error::TgaError;
use crate::tga::footer::{footer_len, TgaFooter};
use crate::tga::header::{TgaHeader, HEADER_LEN};
use crate::tga::pixels::{pixels_of, Pixel, Pixels};

verus! {

/// A decoded TGA file: the header and the bytes of the pixel data, which
/// are borrowed from the file.
#[derive(Copy, Clone, Eq, PartialEq, Debug)]
pub struct Tga<'a> {
    header: TgaHeader,
    pixels: &'a [u8],
    width: u16,
    height: u16,
}

/// What follows the color map that `header` declares at the head of
/// `input`, or `ColorMap` when the map is not all there.
pub open spec fn after_color_map(input: Seq<u8>, header: TgaHeader) -> Result<Seq<u8>, TgaError> {
    if !header.has_color_map {
        Ok(input)
    } else {
        match color_map_size(header) {
            Some(size) => if size <= input.len() {
                Ok(input.skip(size))
            } else {
                Err(TgaError::ColorMap)
            },
            None => Err(TgaError::ColorMap),
        }
    }
}

/// The pixel data within `rest`, the part of a file that follows the color
/// map: all of it but a footer at its end.
pub open spec fn pixel_region(rest: Seq<u8>) -> Seq<u8> {
    rest.take(rest.len() - footer_len(rest))
}

/// The header and the pixel data of the file `data`. The header comes
/// first, then the image id, whose length the header gives, then the color
/// map if the header declares one; what is left, without a footer at its
/// end, is the pixel data.
pub open spec fn decode_spec(data: Seq<u8>) -> Result<(TgaHeader, Seq<u8>), TgaError> {
    match TgaHeader::parse_spec(data) {
        Err(e) => Err(e),
        Ok(header) => {
            let after_header = data.skip(HEADER_LEN as int);
            if after_header.len() < header.id_len {
                Err(TgaError::Header)
            } else {
                match after_color_map(after_header.skip(header.id_len as int), header) {
                    Err(e) => Err(e),
                    Ok(rest) => Ok((header, pixel_region(rest))),
                }
            }
        },
    }
}

impl<'a> Tga<'a> {
    /// The header of the image.
    pub closed spec fn header_view(&self) -> TgaHeader {
        self.header
    }

    /// The bytes of the pixel data.
    pub closed spec fn data_view(&self) -> Seq<u8> {
        self.pixels@
    }

    /// The invariant of the image: the width and height it keeps are those
    /// of its header.
    #[verifier::type_invariant]
    spec fn wf(&self) -> bool {
        self.width == self.header.width && self.height == self.header.height
    }

    /// Decodes a TGA file.
    pub fn from_slice(data: &'a [u8]) -> (r: Result<Self, TgaError>)
        ensures
            match r {
                Ok(tga) => decode_spec(data@) == Ok::<(TgaHeader, Seq<u8>), TgaError>(
                    (tga.header_view(), tga.data_view()),
                ),
                Err(e) => decode_spec(data@) == Err::<(TgaHeader, Seq<u8>), TgaError>(e),
            },
    {
        let (input, header) = match TgaHeader::parse(data) {
            Ok(parsed) => parsed,
            Err(e) => {
                return Err(e);
            },
        };
        let id_len: usize = header.id_len as usize;
        if input.len() < id_len {
            return Err(TgaError::Header);
        }
        let input = slice_subrange(input, id_len, input.len());
        let (input, _color_map) = match ColorMap::parse(input, &header) {
            Ok(parsed) => parsed,
            Err(e) => {
                return Err(e);
            },
        };
        let footer_length = match TgaFooter::parse(input) {
            Some(footer) => footer.length(),
            None => 0,
        };
        let pixel_data = slice_subrange(input, 0, input.len() - footer_length);
        Ok(Self { header, pixels: pixel_data, width: header.width, height: header.height })
    }

    /// The header of the image.
    pub fn header(&self) -> (r: TgaHeader)
        ensures
            r == self.header_view(),
    {
        self.header
    }

    /// The width of the image in pixels.
    pub fn width(&self) -> (r: u16)
        ensures
            r == self.header_view().width,
    {
        proof {
            use_type_invariant(self);
        }
        self.width
    }

    /// The height of the image in pixels.
    pub fn height(&self) -> (r: u16)
        ensures
            r == self.header_view().height,
    {
        proof {
            use_type_invariant(self);
        }
        self.height
    }

    /// The bytes of the pixel data, as they stand in the file.
    pub fn image_data(&self) -> (r: &'a [u8])
        ensures
            r@ == self.data_view(),
    {
        self.pixels
    }

    /// The pixels of the image, to be decoded one at a time.
    pub fn pixels(&self) -> (r: Pixels<'a>)
        ensures
            r@ == pixels_of(
                self.data_view(),
                self.header_view().pixel_depth,
                self.header_view().compressed,
                self.header_view().width,
                self.header_view().height,
            ),
    {
        Pixels::new(self.pixels, &self.header)
    }

    /// All pixels of the image.
    pub fn decode_pixels(&self) -> (r: Vec<Pixel>)
        ensures
            r@ == pixels_of(
                self.data_view(),
                self.header_view().pixel_depth,
                self.header_view().compressed,
                self.header_view().width,
                self.header_view().height,
            ),
    {
        self.pixels().collect()
    }
}

} // verus!
