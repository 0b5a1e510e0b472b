//! The size of an image.

use vstd::prelude::*;
use vstd::std_specs::ops::{AddSpecImpl, DivSpecImpl, MulSpecImpl, SubSpecImpl};

verus! {

/// A width and a height in pixels.
#[derive(Copy, Clone, Eq, PartialEq, Ord, PartialOrd, Hash, Debug, Structural)]
pub struct Size {
    /// The width.
    pub width: u32,
    /// The height.
    pub height: u32,
}

/// Whether `v` is a value of `u32`.
pub open spec fn fits_u32(v: int) -> bool {
    0 <= v <= u32::MAX
}

impl Size {
    /// The size of the given width and height.
    pub fn new(width: u32, height: u32) -> (r: Self)
        ensures
            r.width == width,
            r.height == height,
    {
        Size { width, height }
    }

    /// The empty size.
    pub fn zero() -> (r: Self)
        ensures
            r.width == 0,
            r.height == 0,
    {
        Size { width: 0, height: 0 }
    }
}

impl Default for Size {
    fn default() -> (r: Self)
        ensures
            r.width == 0,
            r.height == 0,
    {
        Size::zero()
    }
}

impl AddSpecImpl for Size {
    open spec fn obeys_add_spec() -> bool {
        true
    }

    open spec fn add_req(self, other: Size) -> bool {
        fits_u32(self.width + other.width) && fits_u32(self.height + other.height)
    }

    open spec fn add_spec(self, other: Size) -> Size {
        Size {
            width: (self.width + other.width) as u32,
            height: (self.height + other.height) as u32,
        }
    }
}

impl core::ops::Add for Size {
    type Output = Size;

    fn add(self, other: Size) -> Size {
        Size::new(self.width + other.width, self.height + other.height)
    }
}

impl SubSpecImpl for Size {
    open spec fn obeys_sub_spec() -> bool {
        true
    }

    open spec fn sub_req(self, other: Size) -> bool {
        fits_u32(self.width - other.width) && fits_u32(self.height - other.height)
    }

    open spec fn sub_spec(self, other: Size) -> Size {
        Size {
            width: (self.width - other.width) as u32,
            height: (self.height - other.height) as u32,
        }
    }
}

impl core::ops::Sub for Size {
    type Output = Size;

    fn sub(self, other: Size) -> Size {
        Size::new(self.width - other.width, self.height - other.height)
    }
}

impl MulSpecImpl for Size {
    open spec fn obeys_mul_spec() -> bool {
        true
    }

    open spec fn mul_req(self, other: Size) -> bool {
        fits_u32(self.width * other.width) && fits_u32(self.height * other.height)
    }

    open spec fn mul_spec(self, other: Size) -> Size {
        Size {
            width: (self.width * other.width) as u32,
            height: (self.height * other.height) as u32,
        }
    }
}

impl core::ops::Mul for Size {
    type Output = Size;

    fn mul(self, other: Size) -> Size {
        Size::new(self.width * other.width, self.height * other.height)
    }
}

impl DivSpecImpl for Size {
    open spec fn obeys_div_spec() -> bool {
        true
    }

    open spec fn div_req(self, other: Size) -> bool {
        other.width != 0 && other.height != 0
    }

    open spec fn div_spec(self, other: Size) -> Size {
        Size { width: self.width / other.width, height: self.height / other.height }
    }
}

impl core::ops::Div for Size {
    type Output = Size;

    fn div(self, other: Size) -> Size {
        Size::new(self.width / other.width, self.height / other.height)
    }
}

impl vstd::std_specs::core::IndexSpecImpl<usize> for Size {
    open spec fn index_req(&self, index: &usize) -> bool {
        *index < 2
    }
}

impl core::ops::Index<usize> for Size {
    type Output = u32;

    /// The width at index 0 and the height at index 1.
    fn index(&self, index: usize) -> (r: &u32)
        ensures
            *r == if index == 0 {
                self.width
            } else {
                self.height
            },
    {
        if index == 0 {
            &self.width
        } else {
            &self.height
        }
    }
}

} // verus!
