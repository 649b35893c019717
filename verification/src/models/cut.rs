//! A guillotine cut in a stock tile, with the ids of the tile it divides
//! and of the two tiles it produces.
use vstd::prelude::*;
use crate::text::{int_decimal, push_i64, push_str};

verus! {

/// A cut from `(x1, y1)` to `(x2, y2)` dividing tile `original_tile_id`
/// into `child1_tile_id` and `child2_tile_id`.
#[derive(Debug, Clone, Copy, PartialEq, Eq, Hash, Structural)]
pub struct Cut {
    pub x1: i32,
    pub y1: i32,
    pub x2: i32,
    pub y2: i32,
    pub original_width: i32,
    pub original_height: i32,
    pub is_horizontal: bool,
    pub cut_coord: i32,
    pub original_tile_id: i32,
    pub child1_tile_id: i32,
    pub child2_tile_id: i32,
}

/// Absolute value.
pub open spec fn abs_spec(v: int) -> int {
    if v < 0 { -v } else { v }
}

pub open spec fn min_spec(a: int, b: int) -> int {
    if a <= b { a } else { b }
}

pub open spec fn max_spec(a: int, b: int) -> int {
    if a >= b { a } else { b }
}

fn abs_diff_i32(a: i32, b: i32) -> (r: i32)
    requires
        i32::MIN < a - b <= i32::MAX,
    ensures
        r == abs_spec(a - b),
{
    let d = a - b;
    if d < 0 { -d } else { d }
}

fn min_i32(a: i32, b: i32) -> (r: i32)
    ensures
        r == min_spec(a as int, b as int),
{
    if a <= b { a } else { b }
}

fn max_i32(a: i32, b: i32) -> (r: i32)
    ensures
        r == max_spec(a as int, b as int),
{
    if a >= b { a } else { b }
}

impl Cut {
    /// The signed differences `x2 - x1` and `y2 - y1` can be taken and
    /// their absolute values formed in `i32` without overflow.
    pub open spec fn extent_ok(self) -> bool {
        &&& i32::MIN < self.x2 - self.x1 <= i32::MAX
        &&& i32::MIN < self.y2 - self.y1 <= i32::MAX
    }

    pub open spec fn width_spec(self) -> int {
        abs_spec(self.x2 - self.x1)
    }

    pub open spec fn height_spec(self) -> int {
        abs_spec(self.y2 - self.y1)
    }

    /// The text form:
    /// `Cut[(x1,y1) -> (x2,y2), horizontal|vertical, coord=c, original_tile=t, children=(a,b)]`.
    pub open spec fn text_spec(self) -> Seq<char> {
        "Cut[("@ + int_decimal(self.x1 as int) + ","@ + int_decimal(self.y1 as int) + ") -> ("@
            + int_decimal(self.x2 as int) + ","@ + int_decimal(self.y2 as int) + "), "@ + (if self.is_horizontal {
            "horizontal"@
        } else {
            "vertical"@
        }) + ", coord="@ + int_decimal(self.cut_coord as int) + ", original_tile="@ + int_decimal(
            self.original_tile_id as int,
        ) + ", children=("@ + int_decimal(self.child1_tile_id as int) + ","@ + int_decimal(
            self.child2_tile_id as int,
        ) + ")]"@
    }

    pub fn new(
        x1: i32,
        y1: i32,
        x2: i32,
        y2: i32,
        original_width: i32,
        original_height: i32,
        is_horizontal: bool,
        cut_coord: i32,
        original_tile_id: i32,
        child1_tile_id: i32,
        child2_tile_id: i32,
    ) -> (c: Cut)
        ensures
            c == (Cut {
                x1,
                y1,
                x2,
                y2,
                original_width,
                original_height,
                is_horizontal,
                cut_coord,
                original_tile_id,
                child1_tile_id,
                child2_tile_id,
            }),
    {
        Cut {
            x1,
            y1,
            x2,
            y2,
            original_width,
            original_height,
            is_horizontal,
            cut_coord,
            original_tile_id,
            child1_tile_id,
            child2_tile_id,
        }
    }

    /// A copy of `cut`.
    pub fn from_cut(cut: &Cut) -> (c: Cut)
        ensures
            c == *cut,
    {
        *cut
    }

    /// The cut described by a builder's settings.
    pub fn from_builder(builder: CutBuilder) -> (c: Cut)
        ensures
            c == builder.cut_spec(),
    {
        Cut {
            x1: builder.x1,
            y1: builder.y1,
            x2: builder.x2,
            y2: builder.y2,
            original_width: builder.original_width,
            original_height: builder.original_height,
            is_horizontal: builder.is_horizontal,
            cut_coord: builder.cut_coord,
            original_tile_id: builder.original_tile_id,
            child1_tile_id: builder.child1_tile_id,
            child2_tile_id: builder.child2_tile_id,
        }
    }

    /// A builder holding the default settings.
    pub fn builder() -> (b: CutBuilder)
        ensures
            b == CutBuilder::default_spec(),
    {
        CutBuilder::new()
    }

    /// The default cut: everything zero, horizontal.
    pub open spec fn default_spec() -> Cut {
        Cut {
            x1: 0,
            y1: 0,
            x2: 0,
            y2: 0,
            original_width: 0,
            original_height: 0,
            is_horizontal: true,
            cut_coord: 0,
            original_tile_id: 0,
            child1_tile_id: 0,
            child2_tile_id: 0,
        }
    }

    pub fn x1(&self) -> (r: i32)
        ensures
            r == self.x1,
    {
        self.x1
    }

    pub fn y1(&self) -> (r: i32)
        ensures
            r == self.y1,
    {
        self.y1
    }

    pub fn x2(&self) -> (r: i32)
        ensures
            r == self.x2,
    {
        self.x2
    }

    pub fn y2(&self) -> (r: i32)
        ensures
            r == self.y2,
    {
        self.y2
    }

    pub fn original_tile_id(&self) -> (r: i32)
        ensures
            r == self.original_tile_id,
    {
        self.original_tile_id
    }

    pub fn child1_tile_id(&self) -> (r: i32)
        ensures
            r == self.child1_tile_id,
    {
        self.child1_tile_id
    }

    pub fn child2_tile_id(&self) -> (r: i32)
        ensures
            r == self.child2_tile_id,
    {
        self.child2_tile_id
    }

    pub fn original_width(&self) -> (r: i32)
        ensures
            r == self.original_width,
    {
        self.original_width
    }

    pub fn original_height(&self) -> (r: i32)
        ensures
            r == self.original_height,
    {
        self.original_height
    }

    pub fn is_horizontal(&self) -> (r: bool)
        ensures
            r == self.is_horizontal,
    {
        self.is_horizontal
    }

    pub fn cut_coord(&self) -> (r: i32)
        ensures
            r == self.cut_coord,
    {
        self.cut_coord
    }

    /// The Manhattan length `|x2 - x1| + |y2 - y1|`.
    pub fn length(&self) -> (r: u32)
        requires
            self.extent_ok(),
            self.width_spec() + self.height_spec() <= i32::MAX,
        ensures
            r == self.width_spec() + self.height_spec(),
    {
        (abs_diff_i32(self.x2, self.x1) + abs_diff_i32(self.y2, self.y1)) as u32
    }

    /// `|x2 - x1|`
    pub fn width(&self) -> (r: u32)
        requires
            i32::MIN < self.x2 - self.x1 <= i32::MAX,
        ensures
            r == self.width_spec(),
    {
        abs_diff_i32(self.x2, self.x1) as u32
    }

    /// `|y2 - y1|`
    pub fn height(&self) -> (r: u32)
        requires
            i32::MIN < self.y2 - self.y1 <= i32::MAX,
        ensures
            r == self.height_spec(),
    {
        abs_diff_i32(self.y2, self.y1) as u32
    }

    /// The area of the bounding box of the cut's end points.
    pub fn area(&self) -> (r: u32)
        requires
            self.extent_ok(),
            self.width_spec() * self.height_spec() <= u32::MAX,
        ensures
            r == self.width_spec() * self.height_spec(),
    {
        self.width() * self.height()
    }

    pub fn is_vertical(&self) -> (r: bool)
        ensures
            r == !self.is_horizontal,
    {
        !self.is_horizontal
    }

    pub fn coordinates(&self) -> (r: (i32, i32, i32, i32))
        ensures
            r == (self.x1, self.y1, self.x2, self.y2),
    {
        (self.x1, self.y1, self.x2, self.y2)
    }

    pub fn child_tile_ids(&self) -> (r: (i32, i32))
        ensures
            r == (self.child1_tile_id, self.child2_tile_id),
    {
        (self.child1_tile_id, self.child2_tile_id)
    }

    pub fn original_dimensions(&self) -> (r: (i32, i32))
        ensures
            r == (self.original_width, self.original_height),
    {
        (self.original_width, self.original_height)
    }

    /// Whether `(x, y)` lies in the closed bounding box of the end points.
    pub open spec fn contains_point_spec(self, x: int, y: int) -> bool {
        &&& min_spec(self.x1 as int, self.x2 as int) <= x <= max_spec(self.x1 as int, self.x2 as int)
        &&& min_spec(self.y1 as int, self.y2 as int) <= y <= max_spec(self.y1 as int, self.y2 as int)
    }

    pub fn contains_point(&self, x: i32, y: i32) -> (r: bool)
        ensures
            r == self.contains_point_spec(x as int, y as int),
    {
        let min_x = min_i32(self.x1, self.x2);
        let max_x = max_i32(self.x1, self.x2);
        let min_y = min_i32(self.y1, self.y2);
        let max_y = max_i32(self.y1, self.y2);
        x >= min_x && x <= max_x && y >= min_y && y <= max_y
    }

    /// Whether the closed bounding boxes of the two cuts overlap.
    pub open spec fn intersects_spec(self, other: Cut) -> bool {
        !(max_spec(self.x1 as int, self.x2 as int) < min_spec(other.x1 as int, other.x2 as int)
            || max_spec(other.x1 as int, other.x2 as int) < min_spec(self.x1 as int, self.x2 as int)
            || max_spec(self.y1 as int, self.y2 as int) < min_spec(other.y1 as int, other.y2 as int)
            || max_spec(other.y1 as int, other.y2 as int) < min_spec(self.y1 as int, self.y2 as int))
    }

    pub fn intersects_with(&self, other: &Cut) -> (r: bool)
        ensures
            r == self.intersects_spec(*other),
    {
        let min_x1 = min_i32(self.x1, self.x2);
        let max_x1 = max_i32(self.x1, self.x2);
        let min_y1 = min_i32(self.y1, self.y2);
        let max_y1 = max_i32(self.y1, self.y2);
        let min_x2 = min_i32(other.x1, other.x2);
        let max_x2 = max_i32(other.x1, other.x2);
        let min_y2 = min_i32(other.y1, other.y2);
        let max_y2 = max_i32(other.y1, other.y2);
        !(max_x1 < min_x2 || max_x2 < min_x1 || max_y1 < min_y2 || max_y2 < min_y1)
    }

    /// The text form of the cut (see `text_spec`).
    pub fn to_string(&self) -> (s: String)
        ensures
            s@ == self.text_spec(),
    {
        let mut s = String::from_str("Cut[(");
        push_i64(&mut s, self.x1 as i64);
        push_str(&mut s, ",");
        push_i64(&mut s, self.y1 as i64);
        push_str(&mut s, ") -> (");
        push_i64(&mut s, self.x2 as i64);
        push_str(&mut s, ",");
        push_i64(&mut s, self.y2 as i64);
        push_str(&mut s, "), ");
        if self.is_horizontal {
            push_str(&mut s, "horizontal");
        } else {
            push_str(&mut s, "vertical");
        }
        push_str(&mut s, ", coord=");
        push_i64(&mut s, self.cut_coord as i64);
        push_str(&mut s, ", original_tile=");
        push_i64(&mut s, self.original_tile_id as i64);
        push_str(&mut s, ", children=(");
        push_i64(&mut s, self.child1_tile_id as i64);
        push_str(&mut s, ",");
        push_i64(&mut s, self.child2_tile_id as i64);
        push_str(&mut s, ")]");
        s
    }
}

impl Default for Cut {
    fn default() -> (c: Cut)
        ensures
            c == Cut::default_spec(),
    {
        Cut::new(0, 0, 0, 0, 0, 0, true, 0, 0, 0, 0)
    }
}

/// Fluent construction of a `Cut`.
#[derive(Debug, Clone, Copy, PartialEq, Eq, Structural)]
pub struct CutBuilder {
    pub x1: i32,
    pub y1: i32,
    pub x2: i32,
    pub y2: i32,
    pub original_width: i32,
    pub original_height: i32,
    pub is_horizontal: bool,
    pub cut_coord: i32,
    pub original_tile_id: i32,
    pub child1_tile_id: i32,
    pub child2_tile_id: i32,
}

impl CutBuilder {
    /// The builder's settings all zero, horizontal.
    pub open spec fn default_spec() -> CutBuilder {
        CutBuilder {
            x1: 0,
            y1: 0,
            x2: 0,
            y2: 0,
            original_width: 0,
            original_height: 0,
            is_horizontal: true,
            cut_coord: 0,
            original_tile_id: 0,
            child1_tile_id: 0,
            child2_tile_id: 0,
        }
    }

    /// The cut these settings describe.
    pub open spec fn cut_spec(self) -> Cut {
        Cut {
            x1: self.x1,
            y1: self.y1,
            x2: self.x2,
            y2: self.y2,
            original_width: self.original_width,
            original_height: self.original_height,
            is_horizontal: self.is_horizontal,
            cut_coord: self.cut_coord,
            original_tile_id: self.original_tile_id,
            child1_tile_id: self.child1_tile_id,
            child2_tile_id: self.child2_tile_id,
        }
    }

    pub fn new() -> (b: CutBuilder)
        ensures
            b == Self::default_spec(),
    {
        CutBuilder {
            x1: 0,
            y1: 0,
            x2: 0,
            y2: 0,
            original_width: 0,
            original_height: 0,
            is_horizontal: true,
            cut_coord: 0,
            original_tile_id: 0,
            child1_tile_id: 0,
            child2_tile_id: 0,
        }
    }

    pub fn x1(self, x1: i32) -> (b: CutBuilder)
        ensures
            b == (CutBuilder { x1: x1, ..self }),
    {
        CutBuilder { x1: x1, ..self }
    }

    pub fn y1(self, y1: i32) -> (b: CutBuilder)
        ensures
            b == (CutBuilder { y1: y1, ..self }),
    {
        CutBuilder { y1: y1, ..self }
    }

    pub fn x2(self, x2: i32) -> (b: CutBuilder)
        ensures
            b == (CutBuilder { x2: x2, ..self }),
    {
        CutBuilder { x2: x2, ..self }
    }

    pub fn y2(self, y2: i32) -> (b: CutBuilder)
        ensures
            b == (CutBuilder { y2: y2, ..self }),
    {
        CutBuilder { y2: y2, ..self }
    }

    pub fn original_width(self, width: i32) -> (b: CutBuilder)
        ensures
            b == (CutBuilder { original_width: width, ..self }),
    {
        CutBuilder { original_width: width, ..self }
    }

    pub fn original_height(self, height: i32) -> (b: CutBuilder)
        ensures
            b == (CutBuilder { original_height: height, ..self }),
    {
        CutBuilder { original_height: height, ..self }
    }

    pub fn horizontal(self, is_horizontal: bool) -> (b: CutBuilder)
        ensures
            b == (CutBuilder { is_horizontal: is_horizontal, ..self }),
    {
        CutBuilder { is_horizontal: is_horizontal, ..self }
    }

    pub fn cut_coord(self, coord: i32) -> (b: CutBuilder)
        ensures
            b == (CutBuilder { cut_coord: coord, ..self }),
    {
        CutBuilder { cut_coord: coord, ..self }
    }

    pub fn original_tile_id(self, id: i32) -> (b: CutBuilder)
        ensures
            b == (CutBuilder { original_tile_id: id, ..self }),
    {
        CutBuilder { original_tile_id: id, ..self }
    }

    pub fn child1_tile_id(self, id: i32) -> (b: CutBuilder)
        ensures
            b == (CutBuilder { child1_tile_id: id, ..self }),
    {
        CutBuilder { child1_tile_id: id, ..self }
    }

    pub fn child2_tile_id(self, id: i32) -> (b: CutBuilder)
        ensures
            b == (CutBuilder { child2_tile_id: id, ..self }),
    {
        CutBuilder { child2_tile_id: id, ..self }
    }

    pub fn set_x1(self, x1: i32) -> (b: CutBuilder)
        ensures
            b == (CutBuilder { x1, ..self }),
    {
        CutBuilder { x1, ..self }
    }

    pub fn set_y1(self, y1: i32) -> (b: CutBuilder)
        ensures
            b == (CutBuilder { y1, ..self }),
    {
        CutBuilder { y1, ..self }
    }

    pub fn set_x2(self, x2: i32) -> (b: CutBuilder)
        ensures
            b == (CutBuilder { x2, ..self }),
    {
        CutBuilder { x2, ..self }
    }

    pub fn set_y2(self, y2: i32) -> (b: CutBuilder)
        ensures
            b == (CutBuilder { y2, ..self }),
    {
        CutBuilder { y2, ..self }
    }

    pub fn set_original_width(self, original_width: i32) -> (b: CutBuilder)
        ensures
            b == (CutBuilder { original_width, ..self }),
    {
        CutBuilder { original_width, ..self }
    }

    pub fn set_original_height(self, original_height: i32) -> (b: CutBuilder)
        ensures
            b == (CutBuilder { original_height, ..self }),
    {
        CutBuilder { original_height, ..self }
    }

    pub fn set_horizontal(self, is_horizontal: bool) -> (b: CutBuilder)
        ensures
            b == (CutBuilder { is_horizontal, ..self }),
    {
        CutBuilder { is_horizontal, ..self }
    }

    pub fn set_cut_coord(self, cut_coord: i32) -> (b: CutBuilder)
        ensures
            b == (CutBuilder { cut_coord, ..self }),
    {
        CutBuilder { cut_coord, ..self }
    }

    pub fn set_original_tile_id(self, original_tile_id: i32) -> (b: CutBuilder)
        ensures
            b == (CutBuilder { original_tile_id, ..self }),
    {
        CutBuilder { original_tile_id, ..self }
    }

    pub fn set_child1_tile_id(self, child1_tile_id: i32) -> (b: CutBuilder)
        ensures
            b == (CutBuilder { child1_tile_id, ..self }),
    {
        CutBuilder { child1_tile_id, ..self }
    }

    pub fn set_child2_tile_id(self, child2_tile_id: i32) -> (b: CutBuilder)
        ensures
            b == (CutBuilder { child2_tile_id, ..self }),
    {
        CutBuilder { child2_tile_id, ..self }
    }

    pub fn get_x1(&self) -> (r: i32)
        ensures
            r == self.x1,
    {
        self.x1
    }

    pub fn get_y1(&self) -> (r: i32)
        ensures
            r == self.y1,
    {
        self.y1
    }

    pub fn get_x2(&self) -> (r: i32)
        ensures
            r == self.x2,
    {
        self.x2
    }

    pub fn get_y2(&self) -> (r: i32)
        ensures
            r == self.y2,
    {
        self.y2
    }

    pub fn get_original_width(&self) -> (r: i32)
        ensures
            r == self.original_width,
    {
        self.original_width
    }

    pub fn get_original_height(&self) -> (r: i32)
        ensures
            r == self.original_height,
    {
        self.original_height
    }

    pub fn get_is_horizontal(&self) -> (r: bool)
        ensures
            r == self.is_horizontal,
    {
        self.is_horizontal
    }

    /// Whether the cut being built is horizontal.
    pub fn is_horizontal(&self) -> (r: bool)
        ensures
            r == self.is_horizontal,
    {
        self.is_horizontal
    }

    pub fn get_cut_coord(&self) -> (r: i32)
        ensures
            r == self.cut_coord,
    {
        self.cut_coord
    }

    pub fn get_original_tile_id(&self) -> (r: i32)
        ensures
            r == self.original_tile_id,
    {
        self.original_tile_id
    }

    pub fn get_child1_tile_id(&self) -> (r: i32)
        ensures
            r == self.child1_tile_id,
    {
        self.child1_tile_id
    }

    pub fn get_child2_tile_id(&self) -> (r: i32)
        ensures
            r == self.child2_tile_id,
    {
        self.child2_tile_id
    }

    pub fn child_tile_ids(self, child1: i32, child2: i32) -> (b: CutBuilder)
        ensures
            b == (CutBuilder { child1_tile_id: child1, child2_tile_id: child2, ..self }),
    {
        CutBuilder { child1_tile_id: child1, child2_tile_id: child2, ..self }
    }

    pub fn coordinates(self, x1: i32, y1: i32, x2: i32, y2: i32) -> (b: CutBuilder)
        ensures
            b == (CutBuilder { x1, y1, x2, y2, ..self }),
    {
        CutBuilder { x1, y1, x2, y2, ..self }
    }

    pub fn original_dimensions(self, width: i32, height: i32) -> (b: CutBuilder)
        ensures
            b == (CutBuilder { original_width: width, original_height: height, ..self }),
    {
        CutBuilder { original_width: width, original_height: height, ..self }
    }

    /// The cut described by the current settings.
    pub fn build(self) -> (c: Cut)
        ensures
            c == self.cut_spec(),
    {
        Cut::from_builder(self)
    }
}

impl Default for CutBuilder {
    fn default() -> (b: CutBuilder)
        ensures
            b == CutBuilder::default_spec(),
    {
        CutBuilder::new()
    }
}

/// Whether two cuts' bounding boxes meet does not depend on which one asks.
pub proof fn law_intersection_is_symmetric(a: Cut, b: Cut)
    ensures
        a.intersects_spec(b) == b.intersects_spec(a),
{
}

/// A cut's bounding box holds both of its end points.
pub proof fn law_cut_contains_its_end_points(c: Cut)
    ensures
        c.contains_point_spec(c.x1 as int, c.y1 as int),
        c.contains_point_spec(c.x2 as int, c.y2 as int),
{
}

} // verus!
