//! Decoding the pixel data of a TGA image, one pixel at a time.

use vstd::prelude::*;
use crate::tga::header::{Bpp, TgaHeader};
use crate::tga::point::Point;

verus! {

/// A pixel: where it stands in scan order and its raw color.
#[derive(Copy, Clone, Ord, PartialOrd, Eq, PartialEq, Hash, Debug, Structural)]
pub struct Pixel {
    /// The column and row of the pixel, counted in the order in which the
    /// file stores the pixels.
    pub position: Point,
    /// The raw pixel color: the bytes of the pixel as a little-endian
    /// number.
    pub color: u32,
}

impl Pixel {
    /// The pixel of the given position and color.
    pub fn new(position: Point, color: u32) -> (r: Self)
        ensures
            r.position == position,
            r.color == color,
    {
        Self { position, color }
    }
}

impl Default for Pixel {
    fn default() -> (r: Self)
        ensures
            r.position == (Point { x: 0, y: 0 }),
            r.color == 0,
    {
        Pixel::new(Point::zero(), 0)
    }
}

/// The color whose `bytes` bytes stand at `at` in `data`, least significant
/// byte first.
pub open spec fn color_at(data: Seq<u8>, at: int, bytes: int) -> u32 {
    if bytes == 1 {
        data[at] as u32
    } else if bytes == 2 {
        (data[at] + 256 * data[at + 1]) as u32
    } else if bytes == 3 {
        (data[at] + 256 * data[at + 1] + 65536 * data[at + 2]) as u32
    } else {
        (data[at] + 256 * data[at + 1] + 65536 * data[at + 2] + 16777216 * data[at + 3]) as u32
    }
}

/// The colors of uncompressed pixel data from index `at` on: one color for
/// every `bytes` bytes, as long as a whole pixel is left.
pub open spec fn raw_colors_from(data: Seq<u8>, bytes: int, at: int) -> Seq<u32>
    decreases data.len() - at,
{
    if bytes > 0 && 0 <= at && at + bytes <= data.len() {
        seq![color_at(data, at, bytes)] + raw_colors_from(data, bytes, at + bytes)
    } else {
        Seq::empty()
    }
}

/// The colors that a run-length decoder has still to give when it stands at
/// index `at` of `data` with `left` pixels of the current packet to come.
///
/// A packet begins with a header byte, whose low seven bits plus one count
/// the pixels of the packet. With the high bit of the header set, one color
/// follows and stands for all of them (`repeat`, with the color in
/// `color`); otherwise that many colors follow. Data that ends inside a
/// packet gives the colors that are complete.
pub open spec fn rle_colors_from(
    data: Seq<u8>,
    bytes: int,
    at: int,
    left: nat,
    repeat: bool,
    color: u32,
) -> Seq<u32>
    decreases data.len() - at, left,
{
    if bytes <= 0 || at < 0 {
        Seq::empty()
    } else if left > 0 {
        if repeat {
            seq![color] + rle_colors_from(data, bytes, at, (left - 1) as nat, true, color)
        } else if at + bytes <= data.len() {
            seq![color_at(data, at, bytes)] + rle_colors_from(
                data,
                bytes,
                at + bytes,
                (left - 1) as nat,
                false,
                color,
            )
        } else {
            Seq::empty()
        }
    } else if at < data.len() {
        let count = (data[at] % 128 + 1) as nat;
        if data[at] >= 128 {
            if at + 1 + bytes <= data.len() {
                rle_colors_from(
                    data,
                    bytes,
                    at + 1 + bytes,
                    count,
                    true,
                    color_at(data, at + 1, bytes),
                )
            } else {
                Seq::empty()
            }
        } else {
            rle_colors_from(data, bytes, at + 1, count, false, color)
        }
    } else {
        Seq::empty()
    }
}

/// The colors of the pixel data `data` of the given depth and encoding.
pub open spec fn colors_of(data: Seq<u8>, depth: Bpp, compressed: bool) -> Seq<u32> {
    if compressed {
        rle_colors_from(data, depth.byte_count() as int, 0, 0, false, 0)
    } else {
        raw_colors_from(data, depth.byte_count() as int, 0)
    }
}

/// The pixel at place `index` in scan order of an image `width` pixels
/// wide.
pub open spec fn pixel_at(width: int, index: int, color: u32) -> Pixel {
    Pixel { position: Point { x: (index % width) as i32, y: (index / width) as i32 }, color }
}

/// The pixels number `first` and up of an image of `total` pixels, given
/// the colors of those pixels: as many as there are colors, and no more
/// than the image has.
pub open spec fn pixels_from(colors: Seq<u32>, width: int, total: int, first: int) -> Seq<Pixel> {
    Seq::new(
        if total - first <= colors.len() {
            if total >= first {
                (total - first) as nat
            } else {
                0
            }
        } else {
            colors.len()
        },
        |i: int| pixel_at(width, first + i, colors[i]),
    )
}

/// The pixels of an image of the given size whose pixel data is `data`.
pub open spec fn pixels_of(
    data: Seq<u8>,
    depth: Bpp,
    compressed: bool,
    width: u16,
    height: u16,
) -> Seq<Pixel> {
    pixels_from(colors_of(data, depth, compressed), width as int, width * height, 0)
}

/// Uncompressed data holds one color for every whole pixel, each at its own
/// place.
pub proof fn lemma_raw_colors(data: Seq<u8>, bytes: int, at: int)
    requires
        bytes > 0,
        0 <= at <= data.len(),
    ensures
        raw_colors_from(data, bytes, at).len() == (data.len() - at) / bytes,
        forall|i: int|
            0 <= i < (data.len() - at) / bytes ==> #[trigger] raw_colors_from(data, bytes, at)[i]
                == color_at(data, at + i * bytes, bytes),
    decreases data.len() - at,
{
    let n = data.len() - at;
    if at + bytes <= data.len() {
        lemma_raw_colors(data, bytes, at + bytes);
        assert((n - bytes) / bytes == n / bytes - 1) by (nonlinear_arith)
            requires
                bytes > 0,
                n >= bytes,
        ;
        let here = raw_colors_from(data, bytes, at);
        let next = raw_colors_from(data, bytes, at + bytes);
        assert(here == seq![color_at(data, at, bytes)] + next);
        assert(next.len() == n / bytes - 1);
        assert forall|i: int| 0 <= i < n / bytes implies #[trigger] here[i] == color_at(
            data,
            at + i * bytes,
            bytes,
        ) by {
            if i == 0 {
                assert(at + 0 * bytes == at);
                assert(here[0] == color_at(data, at, bytes));
            } else {
                assert(here[i] == next[i - 1]);
                assert(0 <= i - 1 < (data.len() - (at + bytes)) / bytes);
                assert(next[i - 1] == color_at(data, at + bytes + (i - 1) * bytes, bytes));
                assert(at + bytes + (i - 1) * bytes == at + i * bytes) by (nonlinear_arith);
            }
        }
    } else {
        assert(n / bytes == 0) by (nonlinear_arith)
            requires
                bytes > 0,
                0 <= n < bytes,
        ;
    }
}

/// Reads the color of `depth` at index `at`.
pub fn read_color(data: &[u8], at: usize, depth: Bpp) -> (r: u32)
    requires
        at + depth.byte_count() <= data@.len(),
    ensures
        r == color_at(data@, at as int, depth.byte_count() as int),
{
    match depth {
        Bpp::Bits8 => data[at] as u32,
        Bpp::Bits16 => (data[at] as u32) + 256 * (data[at + 1] as u32),
        Bpp::Bits24 => (data[at] as u32) + 256 * (data[at + 1] as u32) + 65536 * (data[at
            + 2] as u32),
        Bpp::Bits32 => (data[at] as u32) + 256 * (data[at + 1] as u32) + 65536 * (data[at
            + 2] as u32) + 16777216 * (data[at + 3] as u32),
    }
}

/// The pixels of an image, decoded one at a time in scan order. The
/// sequence is finite and is walked once.
#[derive(Copy, Clone, Debug)]
pub struct Pixels<'a> {
    data: &'a [u8],
    cursor: usize,
    depth: Bpp,
    compressed: bool,
    width: u16,
    height: u16,
    index: u32,
    run_left: u8,
    run_repeat: bool,
    run_color: u32,
}

impl<'a> View for Pixels<'a> {
    type V = Seq<Pixel>;

    /// The pixels that are still to come.
    closed spec fn view(&self) -> Seq<Pixel> {
        pixels_from(self.colors_left(), self.width as int, self.width * self.height, self.index as int)
    }
}

impl<'a> Pixels<'a> {
    /// The colors that the decoder has still to give.
    pub closed spec fn colors_left(&self) -> Seq<u32> {
        if self.compressed {
            rle_colors_from(
                self.data@,
                self.depth.byte_count() as int,
                self.cursor as int,
                self.run_left as nat,
                self.run_repeat,
                self.run_color,
            )
        } else {
            raw_colors_from(self.data@, self.depth.byte_count() as int, self.cursor as int)
        }
    }

    /// The invariant of the decoder: it stands inside the data and has not
    /// given more pixels than the image has.
    #[verifier::type_invariant]
    spec fn wf(&self) -> bool {
        &&& self.cursor <= self.data@.len()
        &&& self.index <= self.width * self.height
        &&& self.run_left <= 128
    }

    /// The pixels of an image of the size, depth and encoding that `header`
    /// gives, whose pixel data is `data`.
    pub fn new(data: &'a [u8], header: &TgaHeader) -> (r: Self)
        ensures
            r@ == pixels_of(
                data@,
                header.pixel_depth,
                header.compressed,
                header.width,
                header.height,
            ),
    {
        Pixels {
            data,
            cursor: 0,
            depth: header.pixel_depth,
            compressed: header.compressed,
            width: header.width,
            height: header.height,
            index: 0,
            run_left: 0,
            run_repeat: false,
            run_color: 0,
        }
    }

    /// Whether the decoders `self` and `other` walk the same image.
    spec fn same_image(&self, other: &Self) -> bool {
        &&& self.data == other.data
        &&& self.depth == other.depth
        &&& self.compressed == other.compressed
        &&& self.width == other.width
        &&& self.height == other.height
    }

    /// Decodes the next color.
    fn next_color(&mut self) -> (r: Option<u32>)
        ensures
            final(self).same_image(old(self)),
            final(self).index == old(self).index,
            match r {
                Some(c) => old(self).colors_left() == seq![c] + final(self).colors_left(),
                None => old(self).colors_left().len() == 0 && final(self).colors_left().len() == 0,
            },
    {
        proof {
            use_type_invariant(&*self);
        }
        let bytes: usize = self.depth.bytes() as usize;
        let n = self.data.len();
        if !self.compressed {
            if n - self.cursor < bytes {
                return None;
            }
            let c = read_color(self.data, self.cursor, self.depth);
            self.cursor = self.cursor + bytes;
            return Some(c);
        }
        if self.run_left == 0 {
            if self.cursor >= n {
                return None;
            }
            let header = self.data[self.cursor];
            let count: u8 = header % 128 + 1;
            if header >= 128 {
                if n - self.cursor - 1 < bytes {
                    return None;
                }
                self.run_color = read_color(self.data, self.cursor + 1, self.depth);
                self.cursor = self.cursor + 1 + bytes;
                self.run_repeat = true;
            } else {
                self.cursor = self.cursor + 1;
                self.run_repeat = false;
            }
            self.run_left = count;
            assert(self.colors_left() == old(self).colors_left());
        }
        if self.run_repeat {
            self.run_left = self.run_left - 1;
            Some(self.run_color)
        } else {
            if n - self.cursor < bytes {
                return None;
            }
            let c = read_color(self.data, self.cursor, self.depth);
            self.cursor = self.cursor + bytes;
            self.run_left = self.run_left - 1;
            Some(c)
        }
    }

    /// Decodes the next pixel; `None` when the image is complete or the
    /// data holds no further pixel.
    pub fn next(&mut self) -> (r: Option<Pixel>)
        ensures
            match r {
                Some(pixel) => old(self)@.len() > 0 && pixel == old(self)@[0] && final(self)@
                    == old(self)@.skip(1),
                None => old(self)@.len() == 0 && final(self)@.len() == 0,
            },
    {
        proof {
            use_type_invariant(&*self);
        }
        let width: u32 = self.width as u32;
        let height: u32 = self.height as u32;
        assert(width * height <= 65535 * 65535) by (nonlinear_arith)
            requires
                width <= 65535,
                height <= 65535,
        ;
        let total: u32 = width * height;
        if self.index >= total {
            return None;
        }
        let index = self.index;
        let color = match self.next_color() {
            Some(color) => color,
            None => {
                return None;
            },
        };
        assert(width > 0) by (nonlinear_arith)
            requires
                index < width * height,
                index >= 0,
                height >= 0,
        ;
        let x: u32 = index % width;
        let y: u32 = index / width;
        assert(y <= 65535) by (nonlinear_arith)
            requires
                y == index / width,
                index < width * height,
                0 < width,
                height <= 65535,
        ;
        proof {
            use_type_invariant(&*self);
        }
        self.index = index + 1;
        let pixel = Pixel::new(Point::new(x as i32, y as i32), color);
        assert(self@ =~= old(self)@.skip(1));
        Some(pixel)
    }

    /// Decodes all pixels that are still to come.
    pub fn collect(self) -> (r: Vec<Pixel>)
        ensures
            r@ == self@,
    {
        let mut rest = self;
        let mut out: Vec<Pixel> = Vec::new();
        loop
            invariant_except_break
                out@ + rest@ == self@,
            ensures
                out@ == self@,
            decreases rest@.len(),
        {
            let ghost before = rest@;
            match rest.next() {
                Some(pixel) => {
                    out.push(pixel);
                    assert(out@ + rest@ =~= self@);
                },
                None => {
                    assert(out@ + before =~= out@);
                    break ;
                },
            }
        }
        out
    }
}

} // verus!
