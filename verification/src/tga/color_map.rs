//! The optional color map that follows the header and the image id.

use vstd::prelude::*;
use vstd::slice::slice_subrange;
use crate::tga::error::TgaError;
use crate::tga::header::TgaHeader;

verus! {

/// The bytes of a color map, as they stand in the file.
#[derive(Copy, Clone, Eq, PartialEq, Ord, PartialOrd, Hash, Debug)]
pub struct ColorMap<'a> {
    data: &'a [u8],
}

/// The length in bytes of the color map that `header` declares: the number
/// of entries times the bytes of one entry. `None` when the depth of an
/// entry is not known.
pub open spec fn color_map_size(header: TgaHeader) -> Option<int> {
    match header.color_map_depth {
        Some(depth) => Some(header.color_map_len * depth.byte_count()),
        None => None,
    }
}

impl<'a> View for ColorMap<'a> {
    type V = Seq<u8>;

    closed spec fn view(&self) -> Seq<u8> {
        self.data@
    }
}

impl<'a> ColorMap<'a> {
    /// Takes the color map that `header` declares from the head of `input`
    /// and returns it with the input that follows.
    ///
    /// A header without a color map takes nothing. Otherwise the depth of
    /// an entry must be known and `input` must hold the whole map; if not,
    /// the error is `ColorMap`.
    pub fn parse(input: &'a [u8], header: &TgaHeader) -> (r: Result<
        (&'a [u8], Option<Self>),
        TgaError,
    >)
        ensures
            match r {
                Ok((rest, None)) => !header.has_color_map && rest@ == input@,
                Ok((rest, Some(map))) => {
                    &&& header.has_color_map
                    &&& color_map_size(*header) matches Some(size)
                    &&& size <= input@.len()
                    &&& map@ == input@.take(size)
                    &&& rest@ == input@.skip(size)
                },
                Err(e) => {
                    &&& e == TgaError::ColorMap
                    &&& header.has_color_map
                    &&& color_map_size(*header) matches Some(size) ==> size > input@.len()
                },
            },
    {
        if !header.has_color_map {
            return Ok((input, None));
        }
        let entry_bpp = match header.color_map_depth {
            Some(depth) => depth,
            None => {
                return Err(TgaError::ColorMap);
            },
        };
        let entries: usize = header.color_map_len as usize;
        let width: usize = entry_bpp.bytes() as usize;
        assert(entries * width <= 65535 * 4) by (nonlinear_arith)
            requires
                entries <= 65535,
                width <= 4,
        ;
        let length: usize = entries * width;
        if input.len() < length {
            return Err(TgaError::ColorMap);
        }
        let data = slice_subrange(input, 0, length);
        let rest = slice_subrange(input, length, input.len());
        Ok((rest, Some(ColorMap { data })))
    }

    /// The bytes of the color map.
    pub fn data(&self) -> (r: &'a [u8])
        ensures
            r@ == self@,
    {
        self.data
    }
}

} // verus!
