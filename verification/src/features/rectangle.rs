use vstd::prelude::*;

verus! {

/// An axis-aligned rectangle given by its top-left corner and its size.
#[derive(Debug, Clone, Copy, PartialEq, Eq, Structural)]
pub struct Rectangle {
    pub x: i32,
    pub y: i32,
    pub width: i32,
    pub height: i32,
}

impl Rectangle {
    /// The area `width * height` as a mathematical integer.
    pub open spec fn area_spec(&self) -> int {
        self.width * self.height
    }

    pub fn new(x: i32, y: i32, width: i32, height: i32) -> (r: Rectangle)
        ensures
            r == (Rectangle { x, y, width, height }),
    {
        Rectangle { x, y, width, height }
    }

    /// The area; the product of two `i32` values always fits in an `i64`.
    pub fn area(&self) -> (a: i64)
        ensures
            a == self.area_spec(),
    {
        assert(-0x8000_0000 * 0x7fff_ffff <= self.width * self.height <= 0x8000_0000 * 0x8000_0000)
            by (nonlinear_arith)
            requires
                -0x8000_0000 <= self.width <= 0x7fff_ffff,
                -0x8000_0000 <= self.height <= 0x7fff_ffff,
        ;
        (self.width as i64) * (self.height as i64)
    }

    /// Whether `other` fits inside this rectangle without rotation.
    pub fn fits(&self, other: &Rectangle) -> (b: bool)
        ensures
            b == (self.width >= other.width && self.height >= other.height),
    {
        self.width >= other.width && self.height >= other.height
    }
}

} // verus!
