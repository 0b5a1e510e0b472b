//! Integer points of an image.

use vstd::prelude::*;
use vstd::std_specs::ops::{AddSpecImpl, DivSpecImpl, MulSpecImpl, SubSpecImpl};

verus! {

/// A pixel coordinate: `x` counts columns, `y` counts rows.
#[derive(Copy, Clone, Ord, PartialOrd, Eq, PartialEq, Hash, Debug, Structural)]
pub struct Point {
    pub x: i32,
    pub y: i32,
}

/// Whether `v` is a value of `i32`.
pub open spec fn fits_i32(v: int) -> bool {
    i32::MIN <= v <= i32::MAX
}

/// The quotient of `a` by `b` rounded towards zero, as the machine divides
/// signed integers.
pub open spec fn quotient(a: int, b: int) -> int {
    if a >= 0 {
        if b > 0 {
            a / b
        } else {
            -(a / (-b))
        }
    } else {
        if b > 0 {
            -((-a) / b)
        } else {
            (-a) / (-b)
        }
    }
}

/// Divides `a` by `b`, rounding towards zero.
pub fn divide(a: i32, b: i32) -> (r: i32)
    requires
        b != 0,
        fits_i32(quotient(a as int, b as int)),
    ensures
        r == quotient(a as int, b as int),
{
    let wide_a: i64 = a as i64;
    let wide_b: i64 = b as i64;
    let q: i64 = if wide_a >= 0 {
        if wide_b > 0 {
            wide_a / wide_b
        } else {
            -(wide_a / (-wide_b))
        }
    } else {
        if wide_b > 0 {
            -((-wide_a) / wide_b)
        } else {
            (-wide_a) / (-wide_b)
        }
    };
    q as i32
}

impl Point {
    /// The point of the given coordinates.
    pub fn new(x: i32, y: i32) -> (r: Self)
        ensures
            r.x == x,
            r.y == y,
    {
        Self { x, y }
    }

    /// The origin.
    pub fn zero() -> (r: Self)
        ensures
            r.x == 0,
            r.y == 0,
    {
        Self { x: 0, y: 0 }
    }
}

impl Default for Point {
    fn default() -> (r: Self)
        ensures
            r.x == 0,
            r.y == 0,
    {
        Point::zero()
    }
}

impl AddSpecImpl for Point {
    open spec fn obeys_add_spec() -> bool {
        true
    }

    open spec fn add_req(self, other: Point) -> bool {
        fits_i32(self.x + other.x) && fits_i32(self.y + other.y)
    }

    open spec fn add_spec(self, other: Point) -> Point {
        Point { x: (self.x + other.x) as i32, y: (self.y + other.y) as i32 }
    }
}

impl core::ops::Add for Point {
    type Output = Point;

    fn add(self, other: Point) -> Point {
        Point::new(self.x + other.x, self.y + other.y)
    }
}

impl SubSpecImpl for Point {
    open spec fn obeys_sub_spec() -> bool {
        true
    }

    open spec fn sub_req(self, other: Point) -> bool {
        fits_i32(self.x - other.x) && fits_i32(self.y - other.y)
    }

    open spec fn sub_spec(self, other: Point) -> Point {
        Point { x: (self.x - other.x) as i32, y: (self.y - other.y) as i32 }
    }
}

impl core::ops::Sub for Point {
    type Output = Point;

    fn sub(self, other: Point) -> Point {
        Point::new(self.x - other.x, self.y - other.y)
    }
}

impl MulSpecImpl for Point {
    open spec fn obeys_mul_spec() -> bool {
        true
    }

    open spec fn mul_req(self, other: Point) -> bool {
        fits_i32(self.x * other.x) && fits_i32(self.y * other.y)
    }

    open spec fn mul_spec(self, other: Point) -> Point {
        Point { x: (self.x * other.x) as i32, y: (self.y * other.y) as i32 }
    }
}

impl core::ops::Mul for Point {
    type Output = Point;

    fn mul(self, other: Point) -> Point {
        Point::new(self.x * other.x, self.y * other.y)
    }
}

impl DivSpecImpl for Point {
    open spec fn obeys_div_spec() -> bool {
        true
    }

    open spec fn div_req(self, other: Point) -> bool {
        &&& other.x != 0
        &&& other.y != 0
        &&& fits_i32(quotient(self.x as int, other.x as int))
        &&& fits_i32(quotient(self.y as int, other.y as int))
    }

    open spec fn div_spec(self, other: Point) -> Point {
        Point {
            x: quotient(self.x as int, other.x as int) as i32,
            y: quotient(self.y as int, other.y as int) as i32,
        }
    }
}

impl core::ops::Div for Point {
    type Output = Point;

    fn div(self, other: Point) -> Point {
        Point::new(divide(self.x, other.x), divide(self.y, other.y))
    }
}

impl AddSpecImpl<i32> for Point {
    open spec fn obeys_add_spec() -> bool {
        true
    }

    open spec fn add_req(self, other: i32) -> bool {
        fits_i32(self.x + other) && fits_i32(self.y + other)
    }

    open spec fn add_spec(self, other: i32) -> Point {
        Point { x: (self.x + other) as i32, y: (self.y + other) as i32 }
    }
}

impl core::ops::Add<i32> for Point {
    type Output = Point;

    fn add(self, other: i32) -> Point {
        Point::new(self.x + other, self.y + other)
    }
}

impl SubSpecImpl<i32> for Point {
    open spec fn obeys_sub_spec() -> bool {
        true
    }

    open spec fn sub_req(self, other: i32) -> bool {
        fits_i32(self.x - other) && fits_i32(self.y - other)
    }

    open spec fn sub_spec(self, other: i32) -> Point {
        Point { x: (self.x - other) as i32, y: (self.y - other) as i32 }
    }
}

impl core::ops::Sub<i32> for Point {
    type Output = Point;

    fn sub(self, other: i32) -> Point {
        Point::new(self.x - other, self.y - other)
    }
}

impl MulSpecImpl<i32> for Point {
    open spec fn obeys_mul_spec() -> bool {
        true
    }

    open spec fn mul_req(self, other: i32) -> bool {
        fits_i32(self.x * other) && fits_i32(self.y * other)
    }

    open spec fn mul_spec(self, other: i32) -> Point {
        Point { x: (self.x * other) as i32, y: (self.y * other) as i32 }
    }
}

impl core::ops::Mul<i32> for Point {
    type Output = Point;

    fn mul(self, other: i32) -> Point {
        Point::new(self.x * other, self.y * other)
    }
}

impl DivSpecImpl<i32> for Point {
    open spec fn obeys_div_spec() -> bool {
        true
    }

    open spec fn div_req(self, other: i32) -> bool {
        &&& other != 0
        &&& fits_i32(quotient(self.x as int, other as int))
        &&& fits_i32(quotient(self.y as int, other as int))
    }

    open spec fn div_spec(self, other: i32) -> Point {
        Point {
            x: quotient(self.x as int, other as int) as i32,
            y: quotient(self.y as int, other as int) as i32,
        }
    }
}

impl core::ops::Div<i32> for Point {
    type Output = Point;

    fn div(self, other: i32) -> Point {
        Point::new(divide(self.x, other), divide(self.y, other))
    }
}

} // verus!
