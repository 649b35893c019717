//! Tile dimensions tagged with the group they were assigned to when equal
//! tiles are gathered for permutation.
use vstd::prelude::*;
use std::collections::hash_map::DefaultHasher;
use std::hash::{Hash, Hasher};
use vstd::std_specs::hash::DefaultHasherAdditionalSpecFns;
use crate::models::tile_dimensions::{dims_text, push_dims, TileDimensions};
use crate::text::{int_decimal, push_i64, push_str};

verus! {

/// A tile with the group it belongs to.
#[derive(Debug, Clone)]
pub struct GroupedTileDimensions {
    pub tile_dimensions: TileDimensions,
    pub group: i32,
}

/// The bytes fed to the hasher for a grouped tile: the little-endian bytes
/// of `id`, `width`, `height` and `group` (the signed values by their
/// two's-complement bits), one write each, in that order.
pub open spec fn hash_writes(id: i32, width: u32, height: u32, group: i32) -> Seq<Seq<u8>> {
    seq![
        vstd::bytes::spec_u32_to_le_bytes(id as u32),
        vstd::bytes::spec_u32_to_le_bytes(width),
        vstd::bytes::spec_u32_to_le_bytes(height),
        vstd::bytes::spec_u32_to_le_bytes(group as u32),
    ]
}

impl GroupedTileDimensions {
    /// Same tile (id and size) in the same group.
    pub open spec fn same_grouped(self, other: GroupedTileDimensions) -> bool {
        self.tile_dimensions.same_tile(other.tile_dimensions) && self.group == other.group
    }

    /// The text form `id=I, gropup=G[WxH]` (the label is spelled `gropup`).
    pub open spec fn text_spec(self) -> Seq<char> {
        "id="@ + int_decimal(self.tile_dimensions.id as int) + ", gropup="@ + int_decimal(self.group as int)
            + "["@ + dims_text(self.tile_dimensions.width, self.tile_dimensions.height) + "]"@
    }

    /// A copy of `other`.
    pub fn from_grouped(other: &GroupedTileDimensions) -> (r: Self)
        ensures
            r.tile_dimensions == other.tile_dimensions,
            r.group == other.group,
    {
        GroupedTileDimensions { tile_dimensions: other.tile_dimensions.duplicate(), group: other.group }
    }

    pub fn from_tile_dimensions(tile_dimensions: TileDimensions, group: i32) -> (r: Self)
        ensures
            r.tile_dimensions == tile_dimensions,
            r.group == group,
    {
        GroupedTileDimensions { tile_dimensions, group }
    }

    /// A size-only tile (see `TileDimensions::simple`) in the given group.
    pub fn new(width: u32, height: u32, group: i32) -> (r: Self)
        ensures
            r.tile_dimensions.id == -1,
            r.tile_dimensions.width == width,
            r.tile_dimensions.height == height,
            r.tile_dimensions.material@ == "DEFAULT_MATERIAL"@,
            r.tile_dimensions.orientation == 0,
            r.tile_dimensions.label is None,
            !r.tile_dimensions.is_rotated,
            r.group == group,
    {
        GroupedTileDimensions { tile_dimensions: TileDimensions::simple(width, height), group }
    }

    /// A size-only tile with id 0 in the given group.
    pub fn with_dimensions(width: u32, height: u32, group: i32) -> (r: Self)
        ensures
            r.tile_dimensions.id == 0,
            r.tile_dimensions.width == width,
            r.tile_dimensions.height == height,
            r.tile_dimensions.material@ == "DEFAULT_MATERIAL"@,
            r.tile_dimensions.orientation == 0,
            r.tile_dimensions.label is None,
            !r.tile_dimensions.is_rotated,
            r.group == group,
    {
        let mut t = TileDimensions::simple(width, height);
        t.id = 0;
        GroupedTileDimensions { tile_dimensions: t, group }
    }

    pub fn new_with_full_params(
        id: i32,
        width: u32,
        height: u32,
        material: String,
        orientation: u32,
        label: Option<String>,
        is_rotated: bool,
        group: i32,
    ) -> (r: Self)
        ensures
            r.tile_dimensions == (TileDimensions { id, width, height, material, orientation, label, is_rotated }),
            r.group == group,
    {
        GroupedTileDimensions {
            tile_dimensions: TileDimensions::new(id, width, height, material, orientation, label, is_rotated),
            group,
        }
    }

    pub fn group(&self) -> (r: i32)
        ensures
            r == self.group,
    {
        self.group
    }

    pub fn get_group(&self) -> (r: i32)
        ensures
            r == self.group,
    {
        self.group
    }

    pub fn tile_dimensions(&self) -> (r: &TileDimensions)
        ensures
            *r == self.tile_dimensions,
    {
        &self.tile_dimensions
    }

    pub fn id(&self) -> (r: i32)
        ensures
            r == self.tile_dimensions.id,
    {
        self.tile_dimensions.id()
    }

    pub fn width(&self) -> (r: u32)
        ensures
            r == self.tile_dimensions.width,
    {
        self.tile_dimensions.width()
    }

    pub fn height(&self) -> (r: u32)
        ensures
            r == self.tile_dimensions.height,
    {
        self.tile_dimensions.height()
    }

    pub fn material(&self) -> (r: &str)
        ensures
            r@ == self.tile_dimensions.material@,
    {
        self.tile_dimensions.material()
    }

    pub fn orientation(&self) -> (r: u32)
        ensures
            r == self.tile_dimensions.orientation,
    {
        self.tile_dimensions.orientation()
    }

    pub fn label(&self) -> (r: Option<&str>)
        ensures
            match r {
                Some(l) => self.tile_dimensions.label matches Some(s) && l@ == s@,
                None => self.tile_dimensions.label is None,
            },
    {
        self.tile_dimensions.label()
    }

    pub fn is_rotated(&self) -> (r: bool)
        ensures
            r == self.tile_dimensions.is_rotated,
    {
        self.tile_dimensions.is_rotated()
    }

    pub fn max_dimension(&self) -> (r: u32)
        ensures
            r == if self.tile_dimensions.width >= self.tile_dimensions.height {
                self.tile_dimensions.width
            } else {
                self.tile_dimensions.height
            },
    {
        self.tile_dimensions.max_dimension()
    }

    pub fn area(&self) -> (r: u64)
        ensures
            r == self.tile_dimensions.width * self.tile_dimensions.height,
    {
        self.tile_dimensions.area()
    }

    pub fn get_area(&self) -> (r: u64)
        ensures
            r == self.tile_dimensions.width * self.tile_dimensions.height,
    {
        self.tile_dimensions.area()
    }

    /// The tile turned a quarter (see `TileDimensions::rotate_90`), same group.
    pub fn rotate_90(&self) -> (r: Self)
        ensures
            r.tile_dimensions == self.tile_dimensions.rotated_spec(),
            r.group == self.group,
    {
        GroupedTileDimensions { tile_dimensions: self.tile_dimensions.rotate_90(), group: self.group }
    }

    pub fn is_square(&self) -> (r: bool)
        ensures
            r == (self.tile_dimensions.width == self.tile_dimensions.height),
    {
        self.tile_dimensions.is_square()
    }

    pub fn is_horizontal(&self) -> (r: bool)
        ensures
            r == (self.tile_dimensions.width > self.tile_dimensions.height),
    {
        self.tile_dimensions.is_horizontal()
    }

    pub fn dimensions_to_string(&self) -> (s: String)
        ensures
            s@ == dims_text(self.tile_dimensions.width, self.tile_dimensions.height),
    {
        self.tile_dimensions.dimensions_to_string()
    }

    pub fn has_same_dimensions(&self, other: &GroupedTileDimensions) -> (r: bool)
        ensures
            r == self.tile_dimensions.same_dimensions_spec(other.tile_dimensions),
    {
        self.tile_dimensions.has_same_dimensions(&other.tile_dimensions)
    }

    pub fn fits(&self, other: &GroupedTileDimensions) -> (r: bool)
        ensures
            r == self.tile_dimensions.fits_spec(other.tile_dimensions),
    {
        self.tile_dimensions.fits(&other.tile_dimensions)
    }

    /// The `DefaultHasher` hash of the identity used by `==`: id, size and
    /// group.
    pub fn hash_code(&self) -> (r: u64)
        ensures
            r == DefaultHasher::spec_finish(
                hash_writes(self.tile_dimensions.id, self.tile_dimensions.width, self.tile_dimensions.height, self.group),
            ),
    {
        let mut hasher = DefaultHasher::new();
        let id_bytes = vstd::bytes::u32_to_le_bytes(self.tile_dimensions.id as u32);
        hasher.write(id_bytes.as_slice());
        let width_bytes = vstd::bytes::u32_to_le_bytes(self.tile_dimensions.width);
        hasher.write(width_bytes.as_slice());
        let height_bytes = vstd::bytes::u32_to_le_bytes(self.tile_dimensions.height);
        hasher.write(height_bytes.as_slice());
        let group_bytes = vstd::bytes::u32_to_le_bytes(self.group as u32);
        hasher.write(group_bytes.as_slice());
        proof {
            assert(hasher@ =~= hash_writes(
                self.tile_dimensions.id,
                self.tile_dimensions.width,
                self.tile_dimensions.height,
                self.group,
            ));
        }
        hasher.finish()
    }

    /// The text form (see `text_spec`).
    pub fn to_string(&self) -> (s: String)
        ensures
            s@ == self.text_spec(),
    {
        let mut s = String::from_str("id=");
        push_i64(&mut s, self.tile_dimensions.id as i64);
        push_str(&mut s, ", gropup=");
        push_i64(&mut s, self.group as i64);
        push_str(&mut s, "[");
        push_dims(&mut s, self.tile_dimensions.width, self.tile_dimensions.height);
        push_str(&mut s, "]");
        s
    }
}

impl std::ops::Deref for GroupedTileDimensions {
    type Target = TileDimensions;

    /// The tile itself, so that its methods can be called directly.
    fn deref(&self) -> (r: &TileDimensions)
        ensures
            *r == self.tile_dimensions,
    {
        &self.tile_dimensions
    }
}

impl PartialEq for GroupedTileDimensions {
    fn eq(&self, other: &Self) -> (r: bool) {
        self.tile_dimensions == other.tile_dimensions && self.group == other.group
    }
}

impl vstd::std_specs::cmp::PartialEqSpecImpl for GroupedTileDimensions {
    open spec fn obeys_eq_spec() -> bool {
        true
    }

    open spec fn eq_spec(&self, other: &Self) -> bool {
        self.same_grouped(*other)
    }
}

impl Eq for GroupedTileDimensions {
}

impl Hash for GroupedTileDimensions {
    /// Feeds the identity used by `==` (id, size, group) to the hasher, in
    /// the same order as `hash_code`.
    #[verifier::external_body]
    fn hash<H: Hasher>(&self, state: &mut H) {
        (self.tile_dimensions.id, self.tile_dimensions.width, self.tile_dimensions.height, self.group).hash(state);
    }
}

proof fn lemma_bits_determine_i32(x: i32, y: i32)
    requires
        x as u32 == y as u32,
    ensures
        x == y,
{
    assert(x == y) by (bit_vector)
        requires
            x as u32 == y as u32,
    ;
}

/// Equal grouped tiles feed the hasher the same bytes, so their hash codes
/// are equal; and the bytes fed differ whenever the id, size or group
/// differ (whether the final 64-bit values then differ rests on the hash
/// function, which is not stated).
pub proof fn law_equal_means_equal_hash(a: GroupedTileDimensions, b: GroupedTileDimensions)
    ensures
        a.same_grouped(b) ==> DefaultHasher::spec_finish(
            hash_writes(a.tile_dimensions.id, a.tile_dimensions.width, a.tile_dimensions.height, a.group),
        ) == DefaultHasher::spec_finish(
            hash_writes(b.tile_dimensions.id, b.tile_dimensions.width, b.tile_dimensions.height, b.group),
        ),
        hash_writes(a.tile_dimensions.id, a.tile_dimensions.width, a.tile_dimensions.height, a.group)
            == hash_writes(b.tile_dimensions.id, b.tile_dimensions.width, b.tile_dimensions.height, b.group)
            ==> a.same_grouped(b),
{
    let wa = hash_writes(a.tile_dimensions.id, a.tile_dimensions.width, a.tile_dimensions.height, a.group);
    let wb = hash_writes(b.tile_dimensions.id, b.tile_dimensions.width, b.tile_dimensions.height, b.group);
    if wa == wb {
        vstd::bytes::lemma_auto_spec_u32_to_from_le_bytes();
        assert(wa[0] == wb[0] && wa[1] == wb[1] && wa[2] == wb[2] && wa[3] == wb[3]);
        let ia = #[verifier::truncate] (a.tile_dimensions.id as u32);
        let ib = #[verifier::truncate] (b.tile_dimensions.id as u32);
        let ga = #[verifier::truncate] (a.group as u32);
        let gb = #[verifier::truncate] (b.group as u32);
        assert(vstd::bytes::spec_u32_to_le_bytes(ia) == vstd::bytes::spec_u32_to_le_bytes(ib));
        assert(ia == vstd::bytes::spec_u32_from_le_bytes(vstd::bytes::spec_u32_to_le_bytes(ia)));
        assert(ib == vstd::bytes::spec_u32_from_le_bytes(vstd::bytes::spec_u32_to_le_bytes(ib)));
        assert(vstd::bytes::spec_u32_to_le_bytes(ga) == vstd::bytes::spec_u32_to_le_bytes(gb));
        assert(ga == vstd::bytes::spec_u32_from_le_bytes(vstd::bytes::spec_u32_to_le_bytes(ga)));
        assert(gb == vstd::bytes::spec_u32_from_le_bytes(vstd::bytes::spec_u32_to_le_bytes(gb)));
        let (wa1, wb1) = (a.tile_dimensions.width, b.tile_dimensions.width);
        assert(vstd::bytes::spec_u32_to_le_bytes(wa1).len() == 4);
        assert(wa1 == vstd::bytes::spec_u32_from_le_bytes(vstd::bytes::spec_u32_to_le_bytes(wa1)));
        assert(vstd::bytes::spec_u32_to_le_bytes(wb1).len() == 4);
        assert(wb1 == vstd::bytes::spec_u32_from_le_bytes(vstd::bytes::spec_u32_to_le_bytes(wb1)));
        let (ha, hb) = (a.tile_dimensions.height, b.tile_dimensions.height);
        assert(vstd::bytes::spec_u32_to_le_bytes(ha).len() == 4);
        assert(ha == vstd::bytes::spec_u32_from_le_bytes(vstd::bytes::spec_u32_to_le_bytes(ha)));
        assert(vstd::bytes::spec_u32_to_le_bytes(hb).len() == 4);
        assert(hb == vstd::bytes::spec_u32_from_le_bytes(vstd::bytes::spec_u32_to_le_bytes(hb)));
        lemma_bits_determine_i32(a.tile_dimensions.id, b.tile_dimensions.id);
        lemma_bits_determine_i32(a.group, b.group);
        assert(wa1 == wb1 && ha == hb);
    }
}

} // verus!
