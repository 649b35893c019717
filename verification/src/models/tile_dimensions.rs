//! The dimensions of a tile (a panel to cut or a stock sheet) with its
//! identity, material, grain orientation and label.
use vstd::prelude::*;
use std::hash::{Hash, Hasher};
use crate::text::{int_decimal, push_str, push_u64};

verus! {

/// The size and identity of a rectangular tile.
#[derive(Debug, Clone)]
pub struct TileDimensions {
    pub id: i32,
    pub width: u32,
    pub height: u32,
    pub material: String,
    pub orientation: u32,
    pub label: Option<String>,
    pub is_rotated: bool,
}

/// The text form `WxH` of a width and height.
pub open spec fn dims_text(w: u32, h: u32) -> Seq<char> {
    int_decimal(w as int) + "x"@ + int_decimal(h as int)
}

/// Appends `WxH` to a string.
pub fn push_dims(s: &mut String, w: u32, h: u32)
    ensures
        final(s)@ == old(s)@ + dims_text(w, h),
{
    push_u64(s, w as u64);
    push_str(s, "x");
    push_u64(s, h as u64);
    proof {
        assert(final(s)@ =~= old(s)@ + dims_text(w, h));
    }
}

impl TileDimensions {
    /// Two tiles are the same tile when id and size agree; material,
    /// orientation, label and rotation do not take part.
    pub open spec fn same_tile(self, other: TileDimensions) -> bool {
        self.id == other.id && self.width == other.width && self.height == other.height
    }

    pub fn new(
        id: i32,
        width: u32,
        height: u32,
        material: String,
        orientation: u32,
        label: Option<String>,
        is_rotated: bool,
    ) -> (t: Self)
        ensures
            t == (TileDimensions { id, width, height, material, orientation, label, is_rotated }),
    {
        TileDimensions { id, width, height, material, orientation, label, is_rotated }
    }

    /// A tile with only a size: id -1, default material, orientation 0,
    /// no label, not rotated.
    pub fn simple(width: u32, height: u32) -> (t: Self)
        ensures
            t.id == -1,
            t.width == width,
            t.height == height,
            t.material@ == "DEFAULT_MATERIAL"@,
            t.orientation == 0,
            t.label is None,
            !t.is_rotated,
    {
        TileDimensions {
            id: -1,
            width,
            height,
            material: String::from_str("DEFAULT_MATERIAL"),
            orientation: 0,
            label: None,
            is_rotated: false,
        }
    }

    /// An exact copy of the tile.
    pub fn duplicate(&self) -> (r: Self)
        ensures
            r == *self,
    {
        TileDimensions {
            id: self.id,
            width: self.width,
            height: self.height,
            material: self.material.clone(),
            orientation: self.orientation,
            label: match &self.label {
                Some(l) => Some(l.clone()),
                None => None,
            },
            is_rotated: self.is_rotated,
        }
    }

    pub fn id(&self) -> (r: i32)
        ensures
            r == self.id,
    {
        self.id
    }

    pub fn width(&self) -> (r: u32)
        ensures
            r == self.width,
    {
        self.width
    }

    pub fn height(&self) -> (r: u32)
        ensures
            r == self.height,
    {
        self.height
    }

    pub fn material(&self) -> (r: &str)
        ensures
            r@ == self.material@,
    {
        self.material.as_str()
    }

    pub fn orientation(&self) -> (r: u32)
        ensures
            r == self.orientation,
    {
        self.orientation
    }

    pub fn label(&self) -> (r: Option<&str>)
        ensures
            match r {
                Some(l) => self.label matches Some(s) && l@ == s@,
                None => self.label is None,
            },
    {
        match &self.label {
            Some(l) => Some(l.as_str()),
            None => None,
        }
    }

    pub fn is_rotated(&self) -> (r: bool)
        ensures
            r == self.is_rotated,
    {
        self.is_rotated
    }

    /// The larger of width and height.
    pub fn max_dimension(&self) -> (r: u32)
        ensures
            r == if self.width >= self.height { self.width } else { self.height },
    {
        if self.width >= self.height {
            self.width
        } else {
            self.height
        }
    }

    pub fn area(&self) -> (r: u64)
        ensures
            r == self.width * self.height,
    {
        assert(self.width * self.height <= 0xffff_ffff * 0xffff_ffff) by (nonlinear_arith)
            requires
                self.width <= 0xffff_ffff,
                self.height <= 0xffff_ffff,
        ;
        (self.width as u64) * (self.height as u64)
    }

    /// The tile turned a quarter: width and height swapped, orientation 1
    /// becomes 2 and any other becomes 1, marked rotated.
    pub open spec fn rotated_spec(self) -> TileDimensions {
        TileDimensions {
            width: self.height,
            height: self.width,
            orientation: if self.orientation == 1 { 2 } else { 1 },
            is_rotated: true,
            ..self
        }
    }

    pub fn rotate_90(&self) -> (r: Self)
        ensures
            r == self.rotated_spec(),
    {
        TileDimensions {
            id: self.id,
            width: self.height,
            height: self.width,
            material: self.material.clone(),
            orientation: if self.orientation == 1 { 2 } else { 1 },
            label: match &self.label {
                Some(l) => Some(l.clone()),
                None => None,
            },
            is_rotated: true,
        }
    }

    pub fn is_square(&self) -> (r: bool)
        ensures
            r == (self.width == self.height),
    {
        self.width == self.height
    }

    pub fn is_horizontal(&self) -> (r: bool)
        ensures
            r == (self.width > self.height),
    {
        self.width > self.height
    }

    /// `WxH`
    pub fn dimensions_to_string(&self) -> (s: String)
        ensures
            s@ == dims_text(self.width, self.height),
    {
        let mut s = String::new();
        push_dims(&mut s, self.width, self.height);
        assert(s@ =~= dims_text(self.width, self.height));
        s
    }

    /// Same size, possibly turned a quarter.
    pub open spec fn same_dimensions_spec(self, other: TileDimensions) -> bool {
        (self.width == other.width && self.height == other.height) || (self.width == other.height
            && self.height == other.width)
    }

    pub fn has_same_dimensions(&self, other: &TileDimensions) -> (r: bool)
        ensures
            r == self.same_dimensions_spec(*other),
    {
        (self.width == other.width && self.height == other.height) || (self.width == other.height
            && self.height == other.width)
    }

    /// `other` fits inside this tile, possibly turned a quarter.
    pub open spec fn fits_spec(self, other: TileDimensions) -> bool {
        (self.width >= other.width && self.height >= other.height) || (self.height >= other.width
            && self.width >= other.height)
    }

    pub fn fits(&self, other: &TileDimensions) -> (r: bool)
        ensures
            r == self.fits_spec(*other),
    {
        (self.width >= other.width && self.height >= other.height) || (self.height >= other.width
            && self.width >= other.height)
    }

    /// `width * 31 + height` in wrapping `i32` arithmetic.
    pub open spec fn dimensions_hash_spec(self) -> i32 {
        (self.width as i32).wrapping_mul(31).wrapping_add(self.height as i32)
    }

    /// A hash of the size alone: `width * 31 + height`, wrapping in `i32`.
    pub fn dimensions_based_hash_code(&self) -> (r: i32)
        ensures
            r == self.dimensions_hash_spec(),
    {
        let w: i32 = #[verifier::truncate] (self.width as i32);
        let h: i32 = #[verifier::truncate] (self.height as i32);
        w.wrapping_mul(31).wrapping_add(h)
    }
}

impl PartialEq for TileDimensions {
    fn eq(&self, other: &Self) -> (r: bool) {
        self.id == other.id && self.width == other.width && self.height == other.height
    }
}

impl vstd::std_specs::cmp::PartialEqSpecImpl for TileDimensions {
    open spec fn obeys_eq_spec() -> bool {
        true
    }

    open spec fn eq_spec(&self, other: &Self) -> bool {
        self.same_tile(*other)
    }
}

impl Eq for TileDimensions {
}

impl Hash for TileDimensions {
    /// Feeds the identity used by `==` (id and size) to the hasher.
    #[verifier::external_body]
    fn hash<H: Hasher>(&self, state: &mut H) {
        (self.id, self.width, self.height).hash(state);
    }
}

/// Rotating twice gives back a tile equal to the one it started from (same
/// id, width and height).
pub proof fn law_rotate_twice(t: TileDimensions)
    ensures
        t.rotated_spec().rotated_spec().same_tile(t),
        t.rotated_spec().width == t.height,
        t.rotated_spec().height == t.width,
{
}

} // verus!
