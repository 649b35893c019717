use vstd::prelude::*;

verus! {

/// A straight guillotine cut from `(x1, y1)` to `(x2, y2)` made while
/// splitting a node of the cutting tree.
#[derive(Debug, Clone, Copy, PartialEq, Eq, Structural)]
pub struct Cut {
    pub x1: i32,
    pub y1: i32,
    pub x2: i32,
    pub y2: i32,
    pub is_horizontal: bool,
}

impl Cut {
    pub fn new(x1: i32, y1: i32, x2: i32, y2: i32, is_horizontal: bool) -> (c: Cut)
        ensures
            c == (Cut { x1, y1, x2, y2, is_horizontal }),
    {
        Cut { x1, y1, x2, y2, is_horizontal }
    }

    /// A vertical cut of the given length going down from `(x, y)`.
    pub open spec fn vertical_spec(x: int, y: int, length: int) -> Cut {
        Cut { x1: x as i32, y1: y as i32, x2: x as i32, y2: (y + length) as i32, is_horizontal: false }
    }

    /// A horizontal cut of the given length going right from `(x, y)`.
    pub open spec fn horizontal_spec(x: int, y: int, length: int) -> Cut {
        Cut { x1: x as i32, y1: y as i32, x2: (x + length) as i32, y2: y as i32, is_horizontal: true }
    }

    pub fn new_vertical(x: i32, y: i32, length: i32) -> (c: Cut)
        requires
            i32::MIN <= y + length <= i32::MAX,
        ensures
            c == Self::vertical_spec(x as int, y as int, length as int),
    {
        Cut { x1: x, y1: y, x2: x, y2: y + length, is_horizontal: false }
    }

    pub fn new_horizontal(x: i32, y: i32, length: i32) -> (c: Cut)
        requires
            i32::MIN <= x + length <= i32::MAX,
        ensures
            c == Self::horizontal_spec(x as int, y as int, length as int),
    {
        Cut { x1: x, y1: y, x2: x + length, y2: y, is_horizontal: true }
    }
}

} // verus!
