//! The cutting tree: each node is a rectangle of stock that is either a
//! placed panel (final), an unused leaf, or split into two children by a
//! guillotine cut.
use vstd::prelude::*;
use crate::features::cut::Cut;
use crate::features::panel::Panel;
use crate::features::placed_panel::{PlacedPanel, PlacedPanelView};
use crate::features::rectangle::Rectangle;
use crate::text::{nat_decimal, push_u64};

verus! {

/// A node of the cutting tree.
#[derive(Debug)]
pub struct Node {
    pub id: i32,
    pub rect: Rectangle,
    pub child1: Option<Box<Node>>,
    pub child2: Option<Box<Node>>,
    pub external_id: Option<u16>,
    pub panel_label: Option<String>,
    pub is_final: bool,
    pub is_rotated: bool,
}

/// Whether an integer is representable as an `i32`.
pub open spec fn in_i32(v: int) -> bool {
    i32::MIN <= v <= i32::MAX
}

/// The sum of an optional child's value under `f`, 0 for a missing child.
pub open spec fn opt_node(c: Option<Box<Node>>) -> Option<Node> {
    match c {
        Some(b) => Some(*b),
        None => None,
    }
}

impl Node {
    /// A fresh leaf with the given id and rectangle.
    pub open spec fn leaf(id: i32, rect: Rectangle) -> Node {
        Node {
            id,
            rect,
            child1: None,
            child2: None,
            external_id: None,
            panel_label: None,
            is_final: false,
            is_rotated: false,
        }
    }

    pub open spec fn is_leaf(self) -> bool {
        self.child1 is None && self.child2 is None
    }

    /// The id given to children created by a split of this node.
    pub open spec fn next_id_spec(self) -> int {
        (self.id + 1) * 10 + 1
    }

    /// Total area of the final (placed) nodes of the subtree.
    pub open spec fn used_area_spec(self) -> int
        decreases self,
    {
        if self.is_final {
            self.rect.area_spec()
        } else {
            (match self.child1 {
                Some(c) => c.used_area_spec(),
                None => 0,
            }) + (match self.child2 {
                Some(c) => c.used_area_spec(),
                None => 0,
            })
        }
    }

    /// Every subtree's used area fits in an `i64`.
    pub open spec fn used_area_fits(self) -> bool
        decreases self,
    {
        &&& i64::MIN <= self.used_area_spec() <= i64::MAX
        &&& (match self.child1 {
            Some(c) => c.used_area_fits(),
            None => true,
        })
        &&& (match self.child2 {
            Some(c) => c.used_area_fits(),
            None => true,
        })
    }

    /// Number of unused leaves: non-final nodes without children.
    pub open spec fn unused_count_spec(self) -> int
        decreases self,
    {
        if self.is_final {
            0
        } else if self.is_leaf() {
            1
        } else {
            (match self.child1 {
                Some(c) => c.unused_count_spec(),
                None => 0,
            }) + (match self.child2 {
                Some(c) => c.unused_count_spec(),
                None => 0,
            })
        }
    }

    /// The largest area of an unused leaf, or 0 when there is none or all
    /// unused leaves have a non-positive area.
    pub open spec fn biggest_unused_spec(self) -> int
        decreases self,
    {
        if self.is_final {
            0
        } else if self.is_leaf() {
            self.rect.area_spec()
        } else {
            let a = match &self.child1 {
                Some(c) => c.biggest_unused_spec(),
                None => 0,
            };
            let b = match &self.child2 {
                Some(c) => c.biggest_unused_spec(),
                None => 0,
            };
            vstd::math::max(vstd::math::max(0, a), b)
        }
    }

    pub fn new(id: i32, rect: Rectangle) -> (n: Node)
        ensures
            n == Node::leaf(id, rect),
    {
        Node {
            id,
            rect,
            child1: None,
            child2: None,
            external_id: None,
            panel_label: None,
            is_final: false,
            is_rotated: false,
        }
    }

    pub fn width(&self) -> (w: i32)
        ensures
            w == self.rect.width,
    {
        self.rect.width
    }

    pub fn height(&self) -> (h: i32)
        ensures
            h == self.rect.height,
    {
        self.rect.height
    }

    pub fn area(&self) -> (a: i64)
        ensures
            a == self.rect.area_spec(),
    {
        self.rect.area()
    }

    pub fn set_final(&mut self, is_final: bool)
        ensures
            *final(self) == (Node { is_final, ..*old(self) }),
    {
        self.is_final = is_final;
    }

    /// Records the placed panel's id, truncated to 16 bits as `as u16` does.
    pub fn set_panel_id(&mut self, panel_id: i32)
        ensures
            *final(self) == (Node { external_id: Some(panel_id as u16), ..*old(self) }),
    {
        self.external_id = Some(panel_id as u16);
    }

    fn get_next_id(&self) -> (r: i32)
        requires
            in_i32(self.next_id_spec()),
        ensures
            r == self.next_id_spec(),
    {
        (self.id + 1) * 10 + 1
    }

    /// Total area covered by placed panels in this subtree.
    pub fn get_used_area(&self) -> (a: i64)
        requires
            self.used_area_fits(),
        ensures
            a == self.used_area_spec(),
        decreases self,
    {
        if self.is_final {
            return self.rect.area();
        }
        let mut total_area: i64 = 0;
        if let Some(child1) = &self.child1 {
            total_area = child1.get_used_area();
        }
        if let Some(child2) = &self.child2 {
            total_area = total_area + child2.get_used_area();
        }
        total_area
    }

    /// Number of unused leaves in this subtree.
    pub fn get_unused_tiles_count(&self) -> (n: i32)
        requires
            self.unused_count_spec() <= i32::MAX,
        ensures
            n == self.unused_count_spec(),
        decreases self,
    {
        proof {
            self.lemma_unused_count_nonneg();
            if let Some(c) = &self.child1 {
                c.lemma_unused_count_nonneg();
            }
            if let Some(c) = &self.child2 {
                c.lemma_unused_count_nonneg();
            }
        }
        if self.is_final {
            return 0;
        }
        if self.child1.is_none() && self.child2.is_none() {
            return 1;
        }
        let mut count: i32 = 0;
        if let Some(child1) = &self.child1 {
            count = child1.get_unused_tiles_count();
        }
        if let Some(child2) = &self.child2 {
            count = count + child2.get_unused_tiles_count();
        }
        count
    }

    proof fn lemma_unused_count_nonneg(self)
        ensures
            self.unused_count_spec() >= 0,
        decreases self,
    {
        if let Some(c) = self.child1 {
            c.lemma_unused_count_nonneg();
        }
        if let Some(c) = self.child2 {
            c.lemma_unused_count_nonneg();
        }
    }

    /// Largest area of an unused leaf in this subtree (0 if none).
    pub fn get_biggest_unused_area(&self) -> (a: i64)
        ensures
            a == self.biggest_unused_spec(),
        decreases self,
    {
        if self.is_final {
            return 0;
        }
        if self.child1.is_none() && self.child2.is_none() {
            return self.rect.area();
        }
        let mut max_area: i64 = 0;
        if let Some(child1) = &self.child1 {
            let a = child1.get_biggest_unused_area();
            if a > max_area {
                max_area = a;
            }
        }
        if let Some(child2) = &self.child2 {
            let b = child2.get_biggest_unused_area();
            if b > max_area {
                max_area = b;
            }
        }
        max_area
    }

    /// The two rectangles produced by a cut at `pos` from the left edge with
    /// a kerf of `thick`: the left part and the part right of the kerf.
    pub open spec fn split_h_rects(self, pos: i32, thick: i32) -> (Rectangle, Rectangle) {
        (
            Rectangle { x: self.rect.x, y: self.rect.y, width: pos, height: self.rect.height },
            Rectangle {
                x: (self.rect.x + pos + thick) as i32,
                y: self.rect.y,
                width: (self.rect.width - pos - thick) as i32,
                height: self.rect.height,
            },
        )
    }

    /// The two rectangles produced by a cut at `pos` from the top edge with
    /// a kerf of `thick`: the top part and the part below the kerf.
    pub open spec fn split_v_rects(self, pos: i32, thick: i32) -> (Rectangle, Rectangle) {
        (
            Rectangle { x: self.rect.x, y: self.rect.y, width: self.rect.width, height: pos },
            Rectangle {
                x: self.rect.x,
                y: (self.rect.y + pos + thick) as i32,
                width: self.rect.width,
                height: (self.rect.height - pos - thick) as i32,
            },
        )
    }

    /// This node with each of the given rectangles installed as a fresh
    /// child leaf when its area is positive; a child slot whose rectangle
    /// has no positive area keeps its previous content.
    pub open spec fn with_children(self, r1: Rectangle, r2: Rectangle) -> Node {
        Node {
            child1: if r1.area_spec() > 0 {
                Some(Box::new(Node::leaf(self.next_id_spec() as i32, r1)))
            } else {
                self.child1
            },
            child2: if r2.area_spec() > 0 {
                Some(Box::new(Node::leaf(self.next_id_spec() as i32, r2)))
            } else {
                self.child2
            },
            ..self
        }
    }

    pub open spec fn split_h_spec(self, pos: i32, thick: i32) -> Node {
        self.with_children(self.split_h_rects(pos, thick).0, self.split_h_rects(pos, thick).1)
    }

    pub open spec fn split_v_spec(self, pos: i32, thick: i32) -> Node {
        self.with_children(self.split_v_rects(pos, thick).0, self.split_v_rects(pos, thick).1)
    }

    /// The arithmetic of a split (coordinates, sizes and child ids) stays
    /// within `i32`; outside it the split would overflow.
    pub open spec fn split_ok(self, rects: (Rectangle, Rectangle)) -> bool {
        (rects.0.area_spec() > 0 || rects.1.area_spec() > 0) ==> in_i32(self.next_id_spec())
    }

    pub open spec fn split_h_ok(self, pos: i32, thick: i32) -> bool {
        &&& in_i32(self.rect.x + pos)
        &&& in_i32(self.rect.x + pos + thick)
        &&& in_i32(self.rect.width - pos)
        &&& in_i32(self.rect.width - pos - thick)
        &&& in_i32(self.rect.y + self.rect.height)
        &&& self.split_ok(self.split_h_rects(pos, thick))
    }

    pub open spec fn split_v_ok(self, pos: i32, thick: i32) -> bool {
        &&& in_i32(self.rect.y + pos)
        &&& in_i32(self.rect.y + pos + thick)
        &&& in_i32(self.rect.height - pos)
        &&& in_i32(self.rect.height - pos - thick)
        &&& in_i32(self.rect.x + self.rect.width)
        &&& self.split_ok(self.split_v_rects(pos, thick))
    }

    /// Splits the node by a vertical cut at `cut_position` from its left
    /// edge; returns that cut.
    pub fn split_horizontal(&mut self, cut_position: i32, cut_thickness: i32) -> (c: Cut)
        requires
            old(self).split_h_ok(cut_position, cut_thickness),
        ensures
            *final(self) == old(self).split_h_spec(cut_position, cut_thickness),
            c == Cut::vertical_spec(
                old(self).rect.x + cut_position,
                old(self).rect.y as int,
                old(self).rect.height as int,
            ),
    {
        let rect = self.rect;
        let child1_rect = Rectangle::new(rect.x, rect.y, cut_position, rect.height);
        let child2_rect = Rectangle::new(
            rect.x + cut_position + cut_thickness,
            rect.y,
            rect.width - cut_position - cut_thickness,
            rect.height,
        );
        if child1_rect.area() > 0 {
            self.child1 = Some(Box::new(Node::new(self.get_next_id(), child1_rect)));
        }
        if child2_rect.area() > 0 {
            self.child2 = Some(Box::new(Node::new(self.get_next_id(), child2_rect)));
        }
        Cut::new_vertical(rect.x + cut_position, rect.y, rect.height)
    }

    /// Splits the node by a horizontal cut at `cut_position` from its top
    /// edge; returns that cut.
    pub fn split_vertical(&mut self, cut_position: i32, cut_thickness: i32) -> (c: Cut)
        requires
            old(self).split_v_ok(cut_position, cut_thickness),
        ensures
            *final(self) == old(self).split_v_spec(cut_position, cut_thickness),
            c == Cut::horizontal_spec(
                old(self).rect.x as int,
                old(self).rect.y + cut_position,
                old(self).rect.width as int,
            ),
    {
        let rect = self.rect;
        let child1_rect = Rectangle::new(rect.x, rect.y, rect.width, cut_position);
        let child2_rect = Rectangle::new(
            rect.x,
            rect.y + cut_position + cut_thickness,
            rect.width,
            rect.height - cut_position - cut_thickness,
        );
        if child1_rect.area() > 0 {
            self.child1 = Some(Box::new(Node::new(self.get_next_id(), child1_rect)));
        }
        if child2_rect.area() > 0 {
            self.child2 = Some(Box::new(Node::new(self.get_next_id(), child2_rect)));
        }
        Cut::new_horizontal(rect.x, rect.y + cut_position, rect.width)
    }

    /// This node holding the given panel.
    pub open spec fn placed(self, panel: Panel) -> Node {
        Node { is_final: true, external_id: Some(panel.id), panel_label: Some(panel.label), ..self }
    }

    /// This node with its first child, if any, holding the given panel.
    pub open spec fn place_in_child1(self, panel: Panel) -> Node {
        match self.child1 {
            Some(c) => Node { child1: Some(Box::new(c.placed(panel))), ..self },
            None => self,
        }
    }

    pub open spec fn fits_panel(self, panel: Panel) -> bool {
        self.rect.width >= panel.width && self.rect.height >= panel.height
    }

    pub open spec fn exact_fit(self, panel: Panel) -> bool {
        self.rect.width == panel.width && self.rect.height == panel.height
    }

    /// The tree after placing `panel` at the top-left corner by cutting
    /// first across the width, then across the height (HV order).
    pub open spec fn hv_spec(self, panel: Panel, t: i32) -> Node {
        if self.rect.width > panel.width {
            let s1 = self.split_h_spec(panel.width, t);
            if self.rect.height > panel.height {
                match s1.child1 {
                    Some(c1) => Node {
                        child1: Some(Box::new(c1.split_v_spec(panel.height, t).place_in_child1(panel))),
                        ..s1
                    },
                    None => s1,
                }
            } else {
                s1.place_in_child1(panel)
            }
        } else {
            self.split_v_spec(panel.height, t).place_in_child1(panel)
        }
    }

    /// The cuts made by the HV placement, in order.
    pub open spec fn hv_cuts(self, panel: Panel, t: i32) -> Seq<Cut> {
        let x = self.rect.x as int;
        let y = self.rect.y as int;
        if self.rect.width > panel.width {
            let c1 = Cut::vertical_spec(x + panel.width, y, self.rect.height as int);
            if self.rect.height > panel.height {
                match self.split_h_spec(panel.width, t).child1 {
                    Some(n) => seq![
                        c1,
                        Cut::horizontal_spec(n.rect.x as int, n.rect.y + panel.height, n.rect.width as int),
                    ],
                    None => seq![c1],
                }
            } else {
                seq![c1]
            }
        } else {
            seq![Cut::horizontal_spec(x, y + panel.height, self.rect.width as int)]
        }
    }

    /// The HV placement's arithmetic stays within `i32`.
    pub open spec fn hv_ok(self, panel: Panel, t: i32) -> bool {
        if self.rect.width > panel.width {
            &&& self.split_h_ok(panel.width, t)
            &&& self.rect.height > panel.height ==> match self.split_h_spec(panel.width, t).child1 {
                Some(c1) => c1.split_v_ok(panel.height, t),
                None => true,
            }
        } else {
            self.split_v_ok(panel.height, t)
        }
    }

    /// The tree after placing `panel` at the top-left corner by cutting
    /// first across the height, then across the width (VH order).
    pub open spec fn vh_spec(self, panel: Panel, t: i32) -> Node {
        if self.rect.height > panel.height {
            let s1 = self.split_v_spec(panel.height, t);
            if self.rect.width > panel.width {
                match s1.child1 {
                    Some(c1) => Node {
                        child1: Some(Box::new(c1.split_h_spec(panel.width, t).place_in_child1(panel))),
                        ..s1
                    },
                    None => s1,
                }
            } else {
                s1.place_in_child1(panel)
            }
        } else {
            self.split_h_spec(panel.width, t).place_in_child1(panel)
        }
    }

    /// The cuts made by the VH placement, in order.
    pub open spec fn vh_cuts(self, panel: Panel, t: i32) -> Seq<Cut> {
        let x = self.rect.x as int;
        let y = self.rect.y as int;
        if self.rect.height > panel.height {
            let c1 = Cut::horizontal_spec(x, y + panel.height, self.rect.width as int);
            if self.rect.width > panel.width {
                match self.split_v_spec(panel.height, t).child1 {
                    Some(n) => seq![
                        c1,
                        Cut::vertical_spec(n.rect.x + panel.width, n.rect.y as int, n.rect.height as int),
                    ],
                    None => seq![c1],
                }
            } else {
                seq![c1]
            }
        } else {
            seq![Cut::vertical_spec(x + panel.width, y, self.rect.height as int)]
        }
    }

    /// The VH placement's arithmetic stays within `i32`.
    pub open spec fn vh_ok(self, panel: Panel, t: i32) -> bool {
        if self.rect.height > panel.height {
            &&& self.split_v_ok(panel.height, t)
            &&& self.rect.width > panel.width ==> match self.split_v_spec(panel.height, t).child1 {
                Some(c1) => c1.split_h_ok(panel.width, t),
                None => true,
            }
        } else {
            self.split_h_ok(panel.width, t)
        }
    }

    fn mark_placed(&mut self, panel: &Panel)
        ensures
            *final(self) == old(self).placed(*panel),
    {
        self.is_final = true;
        self.external_id = Some(panel.id);
        self.panel_label = Some(panel.label.clone());
    }

    fn mark_child1_placed(&mut self, panel: &Panel)
        ensures
            *final(self) == old(self).place_in_child1(*panel),
    {
        if let Some(child1) = &mut self.child1 {
            child1.mark_placed(panel);
        }
    }

    fn apply_hv_placement(&mut self, panel: &Panel, cut_thickness: i32) -> (cuts: Vec<Cut>)
        requires
            old(self).hv_ok(*panel, cut_thickness),
        ensures
            *final(self) == old(self).hv_spec(*panel, cut_thickness),
            cuts@ == old(self).hv_cuts(*panel, cut_thickness),
    {
        let panel_width = panel.width;
        let panel_height = panel.height;
        let mut cuts: Vec<Cut> = Vec::new();
        if self.rect.width > panel_width {
            let cut = self.split_horizontal(panel_width, cut_thickness);
            cuts.push(cut);
            if self.rect.height > panel_height {
                if let Some(child1) = &mut self.child1 {
                    let cut2 = child1.split_vertical(panel_height, cut_thickness);
                    cuts.push(cut2);
                    child1.mark_child1_placed(panel);
                }
            } else {
                self.mark_child1_placed(panel);
            }
        } else {
            let cut = self.split_vertical(panel_height, cut_thickness);
            cuts.push(cut);
            self.mark_child1_placed(panel);
        }
        cuts
    }

    fn apply_vh_placement(&mut self, panel: &Panel, cut_thickness: i32) -> (cuts: Vec<Cut>)
        requires
            old(self).vh_ok(*panel, cut_thickness),
        ensures
            *final(self) == old(self).vh_spec(*panel, cut_thickness),
            cuts@ == old(self).vh_cuts(*panel, cut_thickness),
    {
        let panel_width = panel.width;
        let panel_height = panel.height;
        let mut cuts: Vec<Cut> = Vec::new();
        if self.rect.height > panel_height {
            let cut = self.split_vertical(panel_height, cut_thickness);
            cuts.push(cut);
            if self.rect.width > panel_width {
                if let Some(child1) = &mut self.child1 {
                    let cut2 = child1.split_horizontal(panel_width, cut_thickness);
                    cuts.push(cut2);
                    child1.mark_child1_placed(panel);
                }
            } else {
                self.mark_child1_placed(panel);
            }
        } else {
            let cut = self.split_horizontal(panel_width, cut_thickness);
            cuts.push(cut);
            self.mark_child1_placed(panel);
        }
        cuts
    }

    /// What `place_panel`, `place_panel_hv` and `place_panel_vh` share: the
    /// refusal when the panel does not fit and the exact-fit case.
    pub open spec fn placement_outcome(
        self,
        after: Node,
        panel: Panel,
        r: Result<Vec<Cut>, String>,
        split_tree: Node,
        split_cuts: Seq<Cut>,
    ) -> bool {
        &&& (r is Err <==> !self.fits_panel(panel))
        &&& (r matches Err(e) ==> e@ == "Panel doesn't fit"@ && after == self)
        &&& (self.fits_panel(panel) && self.exact_fit(panel) ==> {
            &&& r matches Ok(v) && v@ == Seq::<Cut>::empty()
            &&& after == self.placed(panel)
        })
        &&& (self.fits_panel(panel) && !self.exact_fit(panel) ==> {
            &&& r matches Ok(v) && v@ == split_cuts
            &&& after == split_tree
        })
    }

    /// Places `panel` at the top-left corner of this node, splitting it in
    /// HV order unless the panel fits exactly.
    pub fn place_panel(&mut self, panel: &Panel, cut_thickness: i32) -> (r: Result<Vec<Cut>, String>)
        requires
            old(self).fits_panel(*panel) && !old(self).exact_fit(*panel) ==> old(self).hv_ok(
                *panel,
                cut_thickness,
            ),
        ensures
            old(self).placement_outcome(
                *final(self),
                *panel,
                r,
                old(self).hv_spec(*panel, cut_thickness),
                old(self).hv_cuts(*panel, cut_thickness),
            ),
    {
        self.place_panel_hv(panel, cut_thickness)
    }

    /// Places `panel` in HV order (first cut across the width).
    pub fn place_panel_hv(&mut self, panel: &Panel, cut_thickness: i32) -> (r: Result<Vec<Cut>, String>)
        requires
            old(self).fits_panel(*panel) && !old(self).exact_fit(*panel) ==> old(self).hv_ok(
                *panel,
                cut_thickness,
            ),
        ensures
            old(self).placement_outcome(
                *final(self),
                *panel,
                r,
                old(self).hv_spec(*panel, cut_thickness),
                old(self).hv_cuts(*panel, cut_thickness),
            ),
    {
        if self.rect.width < panel.width || self.rect.height < panel.height {
            return Err(String::from_str("Panel doesn't fit"));
        }
        if self.rect.width == panel.width && self.rect.height == panel.height {
            self.mark_placed(panel);
            return Ok(Vec::new());
        }
        Ok(self.apply_hv_placement(panel, cut_thickness))
    }

    /// Places `panel` in VH order (first cut across the height).
    pub fn place_panel_vh(&mut self, panel: &Panel, cut_thickness: i32) -> (r: Result<Vec<Cut>, String>)
        requires
            old(self).fits_panel(*panel) && !old(self).exact_fit(*panel) ==> old(self).vh_ok(
                *panel,
                cut_thickness,
            ),
        ensures
            old(self).placement_outcome(
                *final(self),
                *panel,
                r,
                old(self).vh_spec(*panel, cut_thickness),
                old(self).vh_cuts(*panel, cut_thickness),
            ),
    {
        if self.rect.width < panel.width || self.rect.height < panel.height {
            return Err(String::from_str("Panel doesn't fit"));
        }
        if self.rect.width == panel.width && self.rect.height == panel.height {
            self.mark_placed(panel);
            return Ok(Vec::new());
        }
        Ok(self.apply_vh_placement(panel, cut_thickness))
    }

    /// The label recorded for a placed node: its panel label, or
    /// `Panel_<id>` when none was recorded.
    pub open spec fn label_of(self, panel_id: u16) -> Seq<char> {
        match self.panel_label {
            Some(l) => l@,
            None => "Panel_"@ + nat_decimal(panel_id as nat),
        }
    }

    /// The placed panels of the subtree in pre-order (first child first).
    /// A final node without a panel id contributes nothing.
    pub open spec fn final_panels_spec(self) -> Seq<PlacedPanelView>
        decreases self,
    {
        if self.is_final {
            match self.external_id {
                Some(pid) => seq![
                    PlacedPanelView {
                        panel_id: pid as i32,
                        x: self.rect.x,
                        y: self.rect.y,
                        width: self.rect.width,
                        height: self.rect.height,
                        is_rotated: self.is_rotated,
                        label: self.label_of(pid),
                    },
                ],
                None => Seq::empty(),
            }
        } else {
            (match self.child1 {
                Some(c) => c.final_panels_spec(),
                None => Seq::empty(),
            }) + (match self.child2 {
                Some(c) => c.final_panels_spec(),
                None => Seq::empty(),
            })
        }
    }

    /// All placed panels of this subtree, in pre-order.
    pub fn get_final_panels(&self) -> (panels: Vec<PlacedPanel>)
        ensures
            panels@.map_values(|p: PlacedPanel| p@) == self.final_panels_spec(),
    {
        let mut panels: Vec<PlacedPanel> = Vec::new();
        self.collect_final_panels(&mut panels);
        assert(panels@.map_values(|p: PlacedPanel| p@) =~= Seq::<PlacedPanelView>::empty()
            + self.final_panels_spec());
        panels
    }

    fn collect_final_panels(&self, panels: &mut Vec<PlacedPanel>)
        ensures
            final(panels)@.map_values(|p: PlacedPanel| p@) == old(panels)@.map_values(
                |p: PlacedPanel| p@,
            ) + self.final_panels_spec(),
        decreases self,
    {
        let ghost start = panels@.map_values(|p: PlacedPanel| p@);
        if self.is_final {
            if let Some(panel_id) = self.external_id {
                let label = match &self.panel_label {
                    Some(l) => l.clone(),
                    None => {
                        let mut s = String::from_str("Panel_");
                        push_u64(&mut s, panel_id as u64);
                        s
                    },
                };
                let placed = PlacedPanel {
                    panel_id: panel_id as i32,
                    x: self.rect.x,
                    y: self.rect.y,
                    width: self.rect.width,
                    height: self.rect.height,
                    label,
                    is_rotated: self.is_rotated,
                };
                panels.push(placed);
                assert(panels@.map_values(|p: PlacedPanel| p@) =~= start + self.final_panels_spec());
            } else {
                assert(panels@.map_values(|p: PlacedPanel| p@) =~= start + self.final_panels_spec());
            }
            return;
        }
        let ghost s1: Seq<PlacedPanelView> = match &self.child1 {
            Some(c) => c.final_panels_spec(),
            None => Seq::empty(),
        };
        let ghost s2: Seq<PlacedPanelView> = match &self.child2 {
            Some(c) => c.final_panels_spec(),
            None => Seq::empty(),
        };
        if let Some(child1) = &self.child1 {
            child1.collect_final_panels(panels);
        }
        assert(panels@.map_values(|p: PlacedPanel| p@) =~= start + s1);
        if let Some(child2) = &self.child2 {
            child2.collect_final_panels(panels);
        }
        assert(panels@.map_values(|p: PlacedPanel| p@) =~= start + s1 + s2);
        assert(start + s1 + s2 =~= start + self.final_panels_spec());
    }

    /// Whether an unused leaf can take a `w` x `h` panel: each side either
    /// matches exactly or leaves at least `trim` of offcut.
    pub open spec fn leaf_accepts(self, w: i32, h: i32, trim: i32) -> bool {
        &&& (self.rect.width == w || self.rect.width >= trim + w)
        &&& (self.rect.height == h || self.rect.height >= trim + h)
    }

    /// The candidate leaves for a `w` x `h` panel in pre-order: unused
    /// leaves at least as large that accept the panel, searched below
    /// non-final nodes that are themselves large enough.
    pub open spec fn candidates_spec(self, w: i32, h: i32, trim: i32) -> Seq<Node>
        decreases self,
    {
        if self.is_final || self.rect.width < w || self.rect.height < h {
            Seq::empty()
        } else if self.is_leaf() {
            if self.leaf_accepts(w, h, trim) {
                seq![self]
            } else {
                Seq::empty()
            }
        } else {
            (match self.child1 {
                Some(c) => c.candidates_spec(w, h, trim),
                None => Seq::empty(),
            }) + (match self.child2 {
                Some(c) => c.candidates_spec(w, h, trim),
                None => Seq::empty(),
            })
        }
    }

    /// Unused leaves where a `panel_width` x `panel_height` panel can be
    /// placed, in pre-order.
    pub fn find_candidates(&self, panel_width: i32, panel_height: i32) -> (candidates: Vec<&Node>)
        ensures
            candidates@.map_values(|n: &Node| *n) == self.candidates_spec(panel_width, panel_height, 0),
    {
        let mut candidates: Vec<&Node> = Vec::new();
        self.find_candidates_recursive(panel_width, panel_height, &mut candidates, 0);
        assert(candidates@.map_values(|n: &Node| *n) =~= Seq::<Node>::empty()
            + self.candidates_spec(panel_width, panel_height, 0));
        candidates
    }

    fn find_candidates_recursive<'a>(
        &'a self,
        panel_width: i32,
        panel_height: i32,
        candidates: &mut Vec<&'a Node>,
        min_trim_dimension: i32,
    )
        requires
            in_i32(min_trim_dimension + panel_width),
            in_i32(min_trim_dimension + panel_height),
        ensures
            final(candidates)@.map_values(|n: &Node| *n) == old(candidates)@.map_values(|n: &Node| *n)
                + self.candidates_spec(panel_width, panel_height, min_trim_dimension),
        decreases self,
    {
        let ghost start = candidates@.map_values(|n: &Node| *n);
        if self.is_final || self.rect.width < panel_width || self.rect.height < panel_height {
            assert(candidates@.map_values(|n: &Node| *n) =~= start + Seq::<Node>::empty());
            return;
        }
        if self.child1.is_none() && self.child2.is_none() {
            let width_fits = self.rect.width == panel_width || self.rect.width >= min_trim_dimension
                + panel_width;
            let height_fits = self.rect.height == panel_height || self.rect.height
                >= min_trim_dimension + panel_height;
            if width_fits && height_fits {
                candidates.push(self);
            }
            assert(candidates@.map_values(|n: &Node| *n) =~= start + self.candidates_spec(
                panel_width,
                panel_height,
                min_trim_dimension,
            ));
            return;
        }
        let ghost s1: Seq<Node> = match &self.child1 {
            Some(c) => c.candidates_spec(panel_width, panel_height, min_trim_dimension),
            None => Seq::empty(),
        };
        let ghost s2: Seq<Node> = match &self.child2 {
            Some(c) => c.candidates_spec(panel_width, panel_height, min_trim_dimension),
            None => Seq::empty(),
        };
        if let Some(child1) = &self.child1 {
            child1.find_candidates_recursive(panel_width, panel_height, candidates, min_trim_dimension);
        }
        assert(candidates@.map_values(|n: &Node| *n) =~= start + s1);
        if let Some(child2) = &self.child2 {
            child2.find_candidates_recursive(panel_width, panel_height, candidates, min_trim_dimension);
        }
        assert(candidates@.map_values(|n: &Node| *n) =~= start + s1 + s2);
        assert(start + s1 + s2 =~= start + self.candidates_spec(panel_width, panel_height, min_trim_dimension));
    }

    /// The path (`false` = first child, `true` = second child) to the first
    /// node in pre-order whose top-left corner is `(x, y)`.
    pub open spec fn path_to(self, x: i32, y: i32) -> Option<Seq<bool>>
        decreases self,
    {
        if self.rect.x == x && self.rect.y == y {
            Some(Seq::empty())
        } else {
            let p1 = match self.child1 {
                Some(c) => match c.path_to(x, y) {
                    Some(p) => Some(seq![false] + p),
                    None => None,
                },
                None => None,
            };
            match p1 {
                Some(p) => Some(p),
                None => match self.child2 {
                    Some(c) => match c.path_to(x, y) {
                        Some(p) => Some(seq![true] + p),
                        None => None,
                    },
                    None => None,
                },
            }
        }
    }

    /// The subtree reached by following `path`.
    pub open spec fn at_path(self, path: Seq<bool>) -> Node
        decreases path.len(),
    {
        if path.len() == 0 {
            self
        } else {
            let c = if path[0] { self.child2 } else { self.child1 };
            match c {
                Some(b) => (*b).at_path(path.drop_first()),
                None => self,
            }
        }
    }

    /// This tree with the subtree at `path` replaced by `n`.
    pub open spec fn replace_at(self, path: Seq<bool>, n: Node) -> Node
        decreases path.len(),
    {
        if path.len() == 0 {
            n
        } else if path[0] {
            match self.child2 {
                Some(b) => Node { child2: Some(Box::new((*b).replace_at(path.drop_first(), n))), ..self },
                None => self,
            }
        } else {
            match self.child1 {
                Some(b) => Node { child1: Some(Box::new((*b).replace_at(path.drop_first(), n))), ..self },
                None => self,
            }
        }
    }

    /// A mutable handle to the first node in pre-order whose top-left corner
    /// is `(x, y)`; changes made through it land at that place in the tree.
    pub fn find_node_by_coordinates(&mut self, x: i32, y: i32) -> (r: Option<&mut Node>)
        ensures
            r is None <==> old(self).path_to(x, y) is None,
            r is None ==> *final(self) == *old(self),
            r matches Some(n) ==> {
                let path = old(self).path_to(x, y)->0;
                &&& *n == old(self).at_path(path)
                &&& *final(self) == old(self).replace_at(path, *final(n))
            },
        decreases *old(self),
    {
        if self.rect.x == x && self.rect.y == y {
            return Some(self);
        }
        if let Some(child1) = &mut self.child1 {
            let ghost sub = child1.path_to(x, y);
            if let Some(found) = child1.find_node_by_coordinates(x, y) {
                proof {
                    let p = sub->0;
                    assert((seq![false] + p).drop_first() =~= p);
                }
                return Some(found);
            }
        }
        if let Some(child2) = &mut self.child2 {
            let ghost sub = child2.path_to(x, y);
            if let Some(found) = child2.find_node_by_coordinates(x, y) {
                proof {
                    let p = sub->0;
                    assert((seq![true] + p).drop_first() =~= p);
                }
                return Some(found);
            }
        }
        None
    }

    /// The cuts an HV placement of a `pw` x `ph` panel would make, computed
    /// without changing the tree.
    pub open spec fn planned_hv_cuts(self, pw: i32, ph: i32) -> Seq<Cut> {
        let r = self.rect;
        if r.width > pw {
            let c1 = Cut { x1: (r.x + pw) as i32, y1: r.y, x2: (r.x + pw) as i32, y2: (r.y + r.height) as i32, is_horizontal: false };
            if r.height > ph {
                seq![c1, Cut { x1: r.x, y1: (r.y + ph) as i32, x2: (r.x + pw) as i32, y2: (r.y + ph) as i32, is_horizontal: true }]
            } else {
                seq![c1]
            }
        } else if r.height > ph {
            seq![Cut { x1: r.x, y1: (r.y + ph) as i32, x2: (r.x + r.width) as i32, y2: (r.y + ph) as i32, is_horizontal: true }]
        } else {
            Seq::empty()
        }
    }

    /// The cuts a VH placement of a `pw` x `ph` panel would make, computed
    /// without changing the tree.
    pub open spec fn planned_vh_cuts(self, pw: i32, ph: i32) -> Seq<Cut> {
        let r = self.rect;
        if r.height > ph {
            let c1 = Cut { x1: r.x, y1: (r.y + ph) as i32, x2: (r.x + r.width) as i32, y2: (r.y + ph) as i32, is_horizontal: true };
            if r.width > pw {
                seq![c1, Cut { x1: (r.x + pw) as i32, y1: r.y, x2: (r.x + pw) as i32, y2: (r.y + ph) as i32, is_horizontal: false }]
            } else {
                seq![c1]
            }
        } else if r.width > pw {
            seq![Cut { x1: (r.x + pw) as i32, y1: r.y, x2: (r.x + pw) as i32, y2: (r.y + r.height) as i32, is_horizontal: false }]
        } else {
            Seq::empty()
        }
    }

    /// The coordinates a planned placement computes stay within `i32`.
    pub open spec fn plan_ok(self, pw: i32, ph: i32) -> bool {
        &&& in_i32(self.rect.x + pw)
        &&& in_i32(self.rect.y + ph)
        &&& in_i32(self.rect.x + self.rect.width)
        &&& in_i32(self.rect.y + self.rect.height)
    }

    #[allow(dead_code)]
    fn try_place_hv(&self, panel: &Panel, cut_thickness: i32) -> (r: Result<Vec<Cut>, String>)
        requires
            self.plan_ok(panel.width, panel.height),
        ensures
            r matches Ok(v) && v@ == self.planned_hv_cuts(panel.width, panel.height),
    {
        let panel_width = panel.width;
        let panel_height = panel.height;
        let r = self.rect;
        let mut cuts: Vec<Cut> = Vec::new();
        if r.width > panel_width {
            cuts.push(Cut::new(r.x + panel_width, r.y, r.x + panel_width, r.y + r.height, false));
            if r.height > panel_height {
                cuts.push(Cut::new(r.x, r.y + panel_height, r.x + panel_width, r.y + panel_height, true));
            }
        } else if r.height > panel_height {
            cuts.push(Cut::new(r.x, r.y + panel_height, r.x + r.width, r.y + panel_height, true));
        }
        proof {
            assert(cuts@ =~= self.planned_hv_cuts(panel.width, panel.height));
        }
        Ok(cuts)
    }

    #[allow(dead_code)]
    fn try_place_vh(&self, panel: &Panel, cut_thickness: i32) -> (r: Result<Vec<Cut>, String>)
        requires
            self.plan_ok(panel.width, panel.height),
        ensures
            r matches Ok(v) && v@ == self.planned_vh_cuts(panel.width, panel.height),
    {
        let panel_width = panel.width;
        let panel_height = panel.height;
        let r = self.rect;
        let mut cuts: Vec<Cut> = Vec::new();
        if r.height > panel_height {
            cuts.push(Cut::new(r.x, r.y + panel_height, r.x + r.width, r.y + panel_height, true));
            if r.width > panel_width {
                cuts.push(Cut::new(r.x + panel_width, r.y, r.x + panel_width, r.y + panel_height, false));
            }
        } else if r.width > panel_width {
            cuts.push(Cut::new(r.x + panel_width, r.y, r.x + panel_width, r.y + r.height, false));
        }
        proof {
            assert(cuts@ =~= self.planned_vh_cuts(panel.width, panel.height));
        }
        Ok(cuts)
    }

    /// The placed-panel record of `panel` at this node's corner.
    pub open spec fn panel_record(self, panel: Panel, is_rotated: bool) -> PlacedPanelView {
        PlacedPanelView {
            panel_id: panel.id as i32,
            x: self.rect.x,
            y: self.rect.y,
            width: panel.width,
            height: panel.height,
            is_rotated,
            label: panel.label@,
        }
    }

    /// Placing a panel of non-negative size into an unused leaf that it fits
    /// leaves exactly the panel's area used, whichever cut order is taken.
    pub proof fn lemma_placement_uses_panel_area(self, panel: Panel, t: i32)
        requires
            self.is_leaf(),
            !self.is_final,
            self.fits_panel(panel),
            panel.width >= 0,
            panel.height >= 0,
        ensures
            self.exact_fit(panel) ==> self.placed(panel).used_area_spec() == panel.width * panel.height,
            self.hv_spec(panel, t).used_area_spec() == panel.width * panel.height,
            self.vh_spec(panel, t).used_area_spec() == panel.width * panel.height,
    {
        let pw = panel.width;
        let ph = panel.height;
        assert(pw * ph >= 0) by (nonlinear_arith)
            requires pw >= 0, ph >= 0;
        assert(pw * self.rect.height >= 0) by (nonlinear_arith)
            requires pw >= 0, self.rect.height >= ph, ph >= 0;
        assert(self.rect.width * ph >= 0) by (nonlinear_arith)
            requires ph >= 0, self.rect.width >= pw, pw >= 0;
        assert(pw * self.rect.height == 0 ==> pw * ph == 0) by (nonlinear_arith)
            requires pw >= 0, self.rect.height >= ph, ph >= 0;
        assert(self.rect.width * ph == 0 ==> pw * ph == 0) by (nonlinear_arith)
            requires ph >= 0, self.rect.width >= pw, pw >= 0;
        let s1 = self.split_h_spec(pw, t);
        let v1 = self.split_v_spec(ph, t);
        assert(s1.child2 is Some ==> s1.child2->0.used_area_spec() == 0);
        assert(v1.child2 is Some ==> v1.child2->0.used_area_spec() == 0);
        assert(s1.child1 is None ==> pw * ph == 0);
        assert(v1.child1 is None ==> pw * ph == 0);
        if let Some(c1) = s1.child1 {
            assert(c1.is_leaf() && !c1.is_final && c1.rect.width == pw && c1.rect.height == self.rect.height);
            assert(c1.placed(panel).used_area_spec() == pw * self.rect.height);
            let g = c1.split_v_spec(ph, t);
            assert(g.child2 is Some ==> g.child2->0.used_area_spec() == 0);
            assert(g.child1 is Some ==> g.child1->0.rect.area_spec() == pw * ph);
            assert(g.child1 is None ==> pw * ph <= 0);
            assert(g.child1 is Some ==> g.child1->0.placed(panel).used_area_spec() == pw * ph);
            assert(g.place_in_child1(panel).used_area_spec() == pw * ph);
            if self.rect.width > pw && self.rect.height > ph {
                let r = Node { child1: Some(Box::new(g.place_in_child1(panel))), ..s1 };
                assert(r.used_area_spec() == pw * ph);
            }
            assert(s1.place_in_child1(panel).used_area_spec() == pw * self.rect.height);
        } else {
            assert(s1.used_area_spec() == 0);
            assert(s1.place_in_child1(panel) == s1);
        }
        if let Some(c1) = v1.child1 {
            assert(c1.is_leaf() && !c1.is_final && c1.rect.height == ph && c1.rect.width == self.rect.width);
            assert(c1.placed(panel).used_area_spec() == self.rect.width * ph);
            let g = c1.split_h_spec(pw, t);
            assert(g.child2 is Some ==> g.child2->0.used_area_spec() == 0);
            assert(g.child1 is Some ==> g.child1->0.rect.area_spec() == pw * ph);
            assert(g.child1 is None ==> pw * ph <= 0);
            assert(g.child1 is Some ==> g.child1->0.placed(panel).used_area_spec() == pw * ph);
            assert(g.place_in_child1(panel).used_area_spec() == pw * ph);
            if self.rect.width > pw && self.rect.height > ph {
                let r = Node { child1: Some(Box::new(g.place_in_child1(panel))), ..v1 };
                assert(r.used_area_spec() == pw * ph);
            }
            assert(v1.place_in_child1(panel).used_area_spec() == self.rect.width * ph);
        } else {
            assert(v1.used_area_spec() == 0);
            assert(v1.place_in_child1(panel) == v1);
        }
    }

    /// Placing a panel of positive size into an unused leaf that it fits
    /// records exactly that panel, at the leaf's top-left corner.
    pub proof fn lemma_placement_records_panel(self, panel: Panel, t: i32)
        requires
            self.is_leaf(),
            !self.is_final,
            self.fits_panel(panel),
            panel.width > 0,
            panel.height > 0,
        ensures
            self.exact_fit(panel) ==> self.placed(panel).final_panels_spec() == seq![
                self.panel_record(panel, self.is_rotated),
            ],
            !self.exact_fit(panel) ==> self.hv_spec(panel, t).final_panels_spec() == seq![
                self.panel_record(panel, false),
            ],
            !self.exact_fit(panel) ==> self.vh_spec(panel, t).final_panels_spec() == seq![
                self.panel_record(panel, false),
            ],
    {
        let pw = panel.width;
        let ph = panel.height;
        assert(pw * self.rect.height > 0) by (nonlinear_arith)
            requires pw > 0, self.rect.height >= ph, ph > 0;
        assert(self.rect.width * ph > 0) by (nonlinear_arith)
            requires ph > 0, self.rect.width >= pw, pw > 0;
        assert(pw * ph > 0) by (nonlinear_arith)
            requires pw > 0, ph > 0;
        let rec = self.panel_record(panel, false);
        let s1 = self.split_h_spec(pw, t);
        let v1 = self.split_v_spec(ph, t);
        assert(s1.child2 is Some ==> s1.child2->0.final_panels_spec() =~= Seq::<PlacedPanelView>::empty());
        assert(v1.child2 is Some ==> v1.child2->0.final_panels_spec() =~= Seq::<PlacedPanelView>::empty());
        let c1 = s1.child1->0;
        assert(c1.is_leaf() && !c1.is_final && c1.rect.width == pw && c1.rect.height == self.rect.height);
        let g = c1.split_v_spec(ph, t);
        let gc = g.child1->0;
        assert(gc.rect == Rectangle { x: self.rect.x, y: self.rect.y, width: pw, height: ph });
        assert(gc.placed(panel).final_panels_spec() =~= seq![rec]);
        assert(g.child2 is Some ==> g.child2->0.final_panels_spec() =~= Seq::<PlacedPanelView>::empty());
        assert(g.place_in_child1(panel).final_panels_spec() =~= seq![rec]);
        if self.rect.width > pw && self.rect.height > ph {
            let r = Node { child1: Some(Box::new(g.place_in_child1(panel))), ..s1 };
            assert(r.final_panels_spec() =~= seq![rec]);
        }
        if self.rect.width > pw {
            assert(c1.placed(panel).final_panels_spec() =~= seq![rec] || self.rect.height > ph);
            assert(s1.place_in_child1(panel).final_panels_spec() =~= seq![rec] || self.rect.height > ph);
        }
        let d1 = v1.child1->0;
        assert(d1.is_leaf() && !d1.is_final && d1.rect.height == ph && d1.rect.width == self.rect.width);
        let h = d1.split_h_spec(pw, t);
        let hc = h.child1->0;
        assert(hc.rect == Rectangle { x: self.rect.x, y: self.rect.y, width: pw, height: ph });
        assert(hc.placed(panel).final_panels_spec() =~= seq![rec]);
        assert(h.child2 is Some ==> h.child2->0.final_panels_spec() =~= Seq::<PlacedPanelView>::empty());
        assert(h.place_in_child1(panel).final_panels_spec() =~= seq![rec]);
        if self.rect.width > pw && self.rect.height > ph {
            let r = Node { child1: Some(Box::new(h.place_in_child1(panel))), ..v1 };
            assert(r.final_panels_spec() =~= seq![rec]);
        }
        if self.rect.height > ph {
            assert(d1.placed(panel).final_panels_spec() =~= seq![rec] || self.rect.width > pw);
            assert(v1.place_in_child1(panel).final_panels_spec() =~= seq![rec] || self.rect.width > pw);
        }
        if self.rect.width <= pw {
            assert(d1.placed(panel).final_panels_spec() =~= seq![rec]);
            assert(v1.place_in_child1(panel).final_panels_spec() =~= seq![rec]);
        }
        if self.rect.height <= ph {
            assert(c1.placed(panel).final_panels_spec() =~= seq![rec]);
            assert(s1.place_in_child1(panel).final_panels_spec() =~= seq![rec]);
        }
    }

    /// Every candidate found for a `w` x `h` panel is an unused leaf at
    /// least `w` wide and `h` high.
    pub proof fn lemma_candidates_are_free_leaves(self, w: i32, h: i32, trim: i32)
        ensures
            forall|i: int|
                0 <= i < self.candidates_spec(w, h, trim).len() ==> {
                    let n = #[trigger] self.candidates_spec(w, h, trim)[i];
                    &&& n.is_leaf()
                    &&& !n.is_final
                    &&& n.rect.width >= w
                    &&& n.rect.height >= h
                },
        decreases self,
    {
        if let Some(c) = self.child1 {
            c.lemma_candidates_are_free_leaves(w, h, trim);
        }
        if let Some(c) = self.child2 {
            c.lemma_candidates_are_free_leaves(w, h, trim);
        }
        if !(self.is_final || self.rect.width < w || self.rect.height < h) && !self.is_leaf() {
            let a = match self.child1 {
                Some(c) => c.candidates_spec(w, h, trim),
                None => Seq::empty(),
            };
            let b = match self.child2 {
                Some(c) => c.candidates_spec(w, h, trim),
                None => Seq::empty(),
            };
            assert forall|i: int| 0 <= i < (a + b).len() implies {
                let n = #[trigger] (a + b)[i];
                &&& n.is_leaf()
                &&& !n.is_final
                &&& n.rect.width >= w
                &&& n.rect.height >= h
            } by {
                if i < a.len() {
                    assert((a + b)[i] == a[i]);
                } else {
                    assert((a + b)[i] == b[i - a.len()]);
                }
            }
        }
    }

    /// `m` is this node or a node below it reached only through nodes that
    /// are not final.
    pub open spec fn reaches_open(self, m: Node) -> bool
        decreases self,
    {
        ||| self == m
        ||| (!self.is_final && match self.child1 {
            Some(c) => c.reaches_open(m),
            None => false,
        })
        ||| (!self.is_final && match self.child2 {
            Some(c) => c.reaches_open(m),
            None => false,
        })
    }

    /// `m` is an unused tile of this tree: a leaf that is not final, reached
    /// through nodes that are not final.
    pub open spec fn has_free_leaf(self, m: Node) -> bool {
        &&& self.reaches_open(m)
        &&& m.is_leaf()
        &&& !m.is_final
    }

    /// Every child is at most as wide and as high as its parent.
    pub open spec fn children_within(self) -> bool
        decreases self,
    {
        &&& match self.child1 {
            Some(c) => c.rect.width <= self.rect.width && c.rect.height <= self.rect.height && c.children_within(),
            None => true,
        }
        &&& match self.child2 {
            Some(c) => c.rect.width <= self.rect.width && c.rect.height <= self.rect.height && c.children_within(),
            None => true,
        }
    }

    proof fn lemma_free_leaf_is_candidate(self, m: Node, w: i32, h: i32, trim: i32)
        requires
            self.children_within(),
            self.has_free_leaf(m),
            m.rect.width >= w,
            m.rect.height >= h,
            m.leaf_accepts(w, h, trim),
        ensures
            self.candidates_spec(w, h, trim).contains(m),
            m.rect.width <= self.rect.width,
            m.rect.height <= self.rect.height,
        decreases self,
    {
        if self == m {
            assert(self.candidates_spec(w, h, trim) =~= seq![m]);
            assert(self.candidates_spec(w, h, trim)[0] == m);
        } else {
            let a = match self.child1 {
                Some(c) => c.candidates_spec(w, h, trim),
                None => Seq::<Node>::empty(),
            };
            let b = match self.child2 {
                Some(c) => c.candidates_spec(w, h, trim),
                None => Seq::<Node>::empty(),
            };
            if self.child1 is Some && self.child1->0.reaches_open(m) {
                let c = *self.child1->0;
                c.lemma_free_leaf_is_candidate(m, w, h, trim);
                assert(self.candidates_spec(w, h, trim) == a + b);
                let i = choose|i: int| 0 <= i < a.len() && a[i] == m;
                assert((a + b)[i] == m);
            } else {
                let c = *self.child2->0;
                c.lemma_free_leaf_is_candidate(m, w, h, trim);
                assert(self.candidates_spec(w, h, trim) == a + b);
                let i = choose|i: int| 0 <= i < b.len() && b[i] == m;
                assert((a + b)[a.len() + i] == m);
            }
        }
    }

    /// The search for candidates is complete: in a tree whose children lie
    /// within their parents, every unused tile at least `w` wide and `h`
    /// high that accepts the panel is among the candidates.
    pub proof fn law_every_free_leaf_is_candidate(self, w: i32, h: i32, trim: i32)
        requires
            self.children_within(),
        ensures
            forall|m: Node|
                #![trigger self.has_free_leaf(m), self.candidates_spec(w, h, trim)]
                self.has_free_leaf(m) && m.rect.width >= w && m.rect.height >= h && m.leaf_accepts(w, h, trim)
                    ==> self.candidates_spec(w, h, trim).contains(m),
    {
        assert forall|m: Node|
            self.has_free_leaf(m) && m.rect.width >= w && m.rect.height >= h && m.leaf_accepts(w, h, trim)
                implies self.candidates_spec(w, h, trim).contains(m) by {
            self.lemma_free_leaf_is_candidate(m, w, h, trim);
        }
    }

    proof fn lemma_biggest_bounds_leaf(self, m: Node)
        requires
            self.has_free_leaf(m),
        ensures
            m.rect.area_spec() <= self.biggest_unused_spec(),
        decreases self,
    {
        if self != m {
            if self.child1 is Some && self.child1->0.reaches_open(m) {
                (*self.child1->0).lemma_biggest_bounds_leaf(m);
            } else {
                (*self.child2->0).lemma_biggest_bounds_leaf(m);
            }
        }
    }

    proof fn lemma_biggest_is_a_leaf(self)
        ensures
            self.biggest_unused_spec() == 0 || exists|m: Node|
                #[trigger] self.has_free_leaf(m) && m.rect.area_spec() == self.biggest_unused_spec(),
        decreases self,
    {
        if self.is_final {
        } else if self.is_leaf() {
            assert(self.has_free_leaf(self));
        } else {
            let r = self.biggest_unused_spec();
            if let Some(c) = self.child1 {
                (*c).lemma_biggest_is_a_leaf();
                if r != 0 && r == c.biggest_unused_spec() {
                    let m = choose|m: Node| #[trigger] c.has_free_leaf(m) && m.rect.area_spec() == c.biggest_unused_spec();
                    assert(self.has_free_leaf(m));
                }
            }
            if let Some(c) = self.child2 {
                (*c).lemma_biggest_is_a_leaf();
                if r != 0 && r == c.biggest_unused_spec() {
                    let m = choose|m: Node| #[trigger] c.has_free_leaf(m) && m.rect.area_spec() == c.biggest_unused_spec();
                    assert(self.has_free_leaf(m));
                }
            }
        }
    }

    /// The biggest unused area is the largest area of an unused tile: at
    /// least the area of every unused tile, and the area of one of them
    /// unless it is 0.
    pub proof fn law_biggest_unused_area_is_largest_free_leaf(self)
        ensures
            forall|m: Node| #[trigger] self.has_free_leaf(m) ==> m.rect.area_spec() <= self.biggest_unused_spec(),
            self.biggest_unused_spec() == 0 || exists|m: Node|
                #[trigger] self.has_free_leaf(m) && m.rect.area_spec() == self.biggest_unused_spec(),
    {
        assert forall|m: Node| #[trigger] self.has_free_leaf(m) implies m.rect.area_spec() <= self.biggest_unused_spec() by {
            self.lemma_biggest_bounds_leaf(m);
        }
        self.lemma_biggest_is_a_leaf();
    }
}

impl Clone for Node {
    /// A deep copy of the subtree.
    fn clone(&self) -> (r: Self)
        ensures
            r == *self,
        decreases self,
    {
        let child1 = match &self.child1 {
            Some(c) => Some(Box::new((&**c).clone())),
            None => None,
        };
        let child2 = match &self.child2 {
            Some(c) => Some(Box::new((&**c).clone())),
            None => None,
        };
        let panel_label = match &self.panel_label {
            Some(l) => Some(l.clone()),
            None => None,
        };
        Node {
            id: self.id,
            rect: self.rect,
            child1,
            child2,
            external_id: self.external_id,
            panel_label,
            is_final: self.is_final,
            is_rotated: self.is_rotated,
        }
    }
}

} // verus!
