//! Placement of panels on one stock sheet: the cutting tree of the sheet,
//! the cuts made so far, and the area used and wasted.
use vstd::prelude::*;
use crate::features::cut::Cut;
use crate::features::node::{in_i32, Node};
use crate::features::panel::Panel;
use crate::features::placed_panel::{PlacedPanel, PlacedPanelView};
use crate::features::rectangle::Rectangle;

verus! {

/// The panels placed on one stock sheet so far.
#[derive(Debug)]
pub struct Placement {
    pub stock_id: i32,
    pub root_node: Node,
    pub cuts: Vec<Cut>,
    pub placed_panels: Vec<PlacedPanel>,
    pub used_area: i64,
    pub waste_area: i64,
}

/// A fresh leaf of id 0 holding the given panel id.
pub open spec fn panel_leaf(rect: Rectangle, pid: i32) -> Node {
    Node { external_id: Some(pid as u16), ..Node::leaf(0, rect) }
}

/// `n` marked final with the panel id.
pub open spec fn mark(n: Node, pid: i32) -> Node {
    Node { is_final: true, external_id: Some(pid as u16), ..n }
}

/// `n` with its first child, if any, marked final with the panel id.
pub open spec fn mark_child1(n: Node, pid: i32) -> Node {
    match n.child1 {
        Some(c) => Node { child1: Some(Box::new(mark(*c, pid))), ..n },
        None => n,
    }
}

/// The arithmetic of a split across the width stays within `i32`.
pub open spec fn split_h_ok(n: Node, pw: i32, t: i32) -> bool {
    &&& in_i32(n.rect.x + pw)
    &&& in_i32(n.rect.x + pw + t)
    &&& in_i32(n.rect.x + n.rect.width)
    &&& in_i32(n.rect.y + n.rect.height)
    &&& in_i32(n.rect.width - pw - t)
}

/// The arithmetic of a split across the height stays within `i32`.
pub open spec fn split_v_ok(n: Node, ph: i32, t: i32) -> bool {
    &&& in_i32(n.rect.y + ph)
    &&& in_i32(n.rect.y + ph + t)
    &&& in_i32(n.rect.y + n.rect.height)
    &&& in_i32(n.rect.x + n.rect.width)
    &&& in_i32(n.rect.height - ph - t)
}

/// After a vertical cut `pw` from the left edge: the left part (holding the
/// panel id) and, when anything is left beyond the cut thickness, the right
/// part become the children; a part of no area leaves that child as it was.
pub open spec fn split_h_tree(n: Node, pw: i32, t: i32, pid: i32) -> Node {
    let r = n.rect;
    let c1 = panel_leaf(Rectangle { x: r.x, y: r.y, width: pw, height: r.height }, pid);
    let c2x = r.x + pw + t;
    let c2 = Node::leaf(0, Rectangle { x: c2x as i32, y: r.y, width: (r.width - pw - t) as i32, height: r.height });
    Node {
        child1: if c1.rect.area_spec() > 0 { Some(Box::new(c1)) } else { n.child1 },
        child2: if c2x < r.x + r.width && c2.rect.area_spec() > 0 { Some(Box::new(c2)) } else { n.child2 },
        ..n
    }
}

/// The vertical cut of `split_h_tree`: at `x + pw`, over the node's height.
pub open spec fn split_h_cut(n: Node, pw: i32) -> Cut {
    Cut {
        x1: (n.rect.x + pw) as i32,
        y1: n.rect.y,
        x2: (n.rect.x + pw) as i32,
        y2: (n.rect.y + n.rect.height) as i32,
        is_horizontal: false,
    }
}

/// After a horizontal cut `ph` from the top edge, as `split_h_tree`.
pub open spec fn split_v_tree(n: Node, ph: i32, t: i32, pid: i32) -> Node {
    let r = n.rect;
    let c1 = panel_leaf(Rectangle { x: r.x, y: r.y, width: r.width, height: ph }, pid);
    let c2y = r.y + ph + t;
    let c2 = Node::leaf(0, Rectangle { x: r.x, y: c2y as i32, width: r.width, height: (r.height - ph - t) as i32 });
    Node {
        child1: if c1.rect.area_spec() > 0 { Some(Box::new(c1)) } else { n.child1 },
        child2: if c2y < r.y + r.height && c2.rect.area_spec() > 0 { Some(Box::new(c2)) } else { n.child2 },
        ..n
    }
}

/// The horizontal cut of `split_v_tree`: at `y + ph`, over the node's width.
pub open spec fn split_v_cut(n: Node, ph: i32) -> Cut {
    Cut {
        x1: n.rect.x,
        y1: (n.rect.y + ph) as i32,
        x2: (n.rect.x + n.rect.width) as i32,
        y2: (n.rect.y + ph) as i32,
        is_horizontal: true,
    }
}

/// The tree after placing `panel` at the top-left corner of `n` by a cut
/// across the width first, then across the height of the left part; the
/// part that holds the panel is marked final with the panel's id.
pub open spec fn hv_tree(n: Node, panel: Panel, t: i32) -> Node {
    let pid = panel.id as i32;
    if n.rect.width > panel.width {
        let s1 = split_h_tree(n, panel.width, t, pid);
        if n.rect.height > panel.height {
            match s1.child1 {
                Some(c1) => Node {
                    child1: Some(Box::new(mark_child1(split_v_tree(*c1, panel.height, t, pid), pid))),
                    ..s1
                },
                None => s1,
            }
        } else {
            mark_child1(s1, pid)
        }
    } else {
        mark_child1(split_v_tree(n, panel.height, t, pid), pid)
    }
}

/// The cuts made by `hv_tree`, in order.
pub open spec fn hv_cuts(n: Node, panel: Panel, t: i32) -> Seq<Cut> {
    let pid = panel.id as i32;
    if n.rect.width > panel.width {
        let s1 = split_h_tree(n, panel.width, t, pid);
        if n.rect.height > panel.height && s1.child1 is Some {
            seq![split_h_cut(n, panel.width), split_v_cut(*s1.child1->0, panel.height)]
        } else {
            seq![split_h_cut(n, panel.width)]
        }
    } else {
        seq![split_v_cut(n, panel.height)]
    }
}

/// The arithmetic of `hv_tree` stays within `i32`.
pub open spec fn hv_ok(n: Node, panel: Panel, t: i32) -> bool {
    let pid = panel.id as i32;
    if n.rect.width > panel.width {
        let s1 = split_h_tree(n, panel.width, t, pid);
        &&& split_h_ok(n, panel.width, t)
        &&& (n.rect.height > panel.height && s1.child1 is Some ==> split_v_ok(*s1.child1->0, panel.height, t))
    } else {
        split_v_ok(n, panel.height, t)
    }
}

/// The tree after placing `panel` by a cut across the height first, then
/// across the width of the top part (the mirror of `hv_tree`).
pub open spec fn vh_tree(n: Node, panel: Panel, t: i32) -> Node {
    let pid = panel.id as i32;
    if n.rect.height > panel.height {
        let s1 = split_v_tree(n, panel.height, t, pid);
        if n.rect.width > panel.width {
            match s1.child1 {
                Some(c1) => Node {
                    child1: Some(Box::new(mark_child1(split_h_tree(*c1, panel.width, t, pid), pid))),
                    ..s1
                },
                None => s1,
            }
        } else {
            mark_child1(s1, pid)
        }
    } else {
        mark_child1(split_h_tree(n, panel.width, t, pid), pid)
    }
}

/// The cuts made by `vh_tree`, in order.
pub open spec fn vh_cuts(n: Node, panel: Panel, t: i32) -> Seq<Cut> {
    let pid = panel.id as i32;
    if n.rect.height > panel.height {
        let s1 = split_v_tree(n, panel.height, t, pid);
        if n.rect.width > panel.width && s1.child1 is Some {
            seq![split_v_cut(n, panel.height), split_h_cut(*s1.child1->0, panel.width)]
        } else {
            seq![split_v_cut(n, panel.height)]
        }
    } else {
        seq![split_h_cut(n, panel.width)]
    }
}

/// The arithmetic of `vh_tree` stays within `i32`.
pub open spec fn vh_ok(n: Node, panel: Panel, t: i32) -> bool {
    let pid = panel.id as i32;
    if n.rect.height > panel.height {
        let s1 = split_v_tree(n, panel.height, t, pid);
        &&& split_v_ok(n, panel.height, t)
        &&& (n.rect.width > panel.width && s1.child1 is Some ==> split_h_ok(*s1.child1->0, panel.width, t))
    } else {
        split_h_ok(n, panel.width, t)
    }
}

/// The statistics of the tree fit in `i64`: the used area and the area
/// left over.
pub open spec fn stats_ok(root: Node) -> bool {
    &&& root.used_area_fits()
    &&& i64::MIN <= root.rect.area_spec() - root.used_area_spec() <= i64::MAX
}

/// The first candidate space for `panel` in the tree, if any.
pub open spec fn first_candidate(root: Node, panel: Panel) -> Option<Node> {
    let cs = root.candidates_spec(panel.width, panel.height, 0);
    if cs.len() > 0 {
        Some(cs[0])
    } else {
        None
    }
}

/// Where the panel goes: the first node in pre-order whose top-left
/// corner is the corner of the first candidate.
pub open spec fn target_path(root: Node, c: Node) -> Seq<bool> {
    root.path_to(c.rect.x, c.rect.y)->0
}

/// The tree and the new cuts after placing `panel` as it is turned: at the
/// first candidate's corner, marked final when the candidate has exactly
/// the panel's size, split in HV order otherwise. `None` when there is no
/// candidate.
pub open spec fn orientation_outcome(root: Node, panel: Panel, t: i32) -> Option<(Node, Seq<Cut>)> {
    match first_candidate(root, panel) {
        None => None,
        Some(c) => {
            let p = target_path(root, c);
            let tgt = root.at_path(p);
            if c.exact_fit(panel) {
                Some((root.replace_at(p, mark(tgt, panel.id as i32)), Seq::empty()))
            } else {
                Some((root.replace_at(p, hv_tree(tgt, panel, t)), hv_cuts(tgt, panel, t)))
            }
        },
    }
}

/// The tree of an outcome (any tree for none).
pub open spec fn outcome_tree(o: Option<(Node, Seq<Cut>)>) -> Node {
    let (tree, _cuts) = o->0;
    tree
}

/// Placing `panel` as it is turned stays within the integer ranges.
pub open spec fn orientation_ok(root: Node, panel: Panel, t: i32) -> bool {
    match first_candidate(root, panel) {
        None => true,
        Some(c) => {
            &&& (!c.exact_fit(panel) ==> hv_ok(root.at_path(target_path(root, c)), panel, t))
            &&& stats_ok(outcome_tree(orientation_outcome(root, panel, t)))
        },
    }
}

/// The panel turned a quarter.
pub open spec fn rotated(panel: Panel) -> Panel {
    Panel { width: panel.height, height: panel.width, ..panel }
}

/// Whether the turned panel is tried when the panel itself has no place:
/// only for a non-square panel when the grain is ignored.
pub open spec fn tries_rotation(panel: Panel, consider_grain_direction: bool) -> bool {
    panel.width != panel.height && !consider_grain_direction
}

/// What `try_place_panel` does: the panel as it is, else (when
/// `tries_rotation`) the turned panel; `None` when neither has a place.
pub open spec fn panel_outcome(root: Node, panel: Panel, t: i32, grain: bool) -> Option<(Node, Seq<Cut>)> {
    match orientation_outcome(root, panel, t) {
        Some(o) => Some(o),
        None => if tries_rotation(panel, grain) {
            orientation_outcome(root, rotated(panel), t)
        } else {
            None
        },
    }
}

/// `try_place_panel` stays within the integer ranges.
pub open spec fn panel_ok(root: Node, panel: Panel, t: i32, grain: bool) -> bool {
    &&& orientation_ok(root, panel, t)
    &&& (orientation_outcome(root, panel, t) is None && tries_rotation(panel, grain) ==> orientation_ok(
        root,
        rotated(panel),
        t,
    ))
}

/// Placing the panels of `ps` in turn until one has no place: the final
/// tree, the cuts made and how many panels were placed.
pub open spec fn places_outcome(root: Node, ps: Seq<Panel>, t: i32, grain: bool) -> (Node, Seq<Cut>, nat)
    decreases ps.len(),
{
    if ps.len() == 0 {
        (root, Seq::empty(), 0)
    } else {
        match panel_outcome(root, ps[0], t, grain) {
            Some(o) => {
                let (next_root, cuts) = o;
                let (r, c, k) = places_outcome(next_root, ps.drop_first(), t, grain);
                (r, cuts + c, k + 1)
            },
            None => (root, Seq::empty(), 0),
        }
    }
}

/// Placing the panels of `ps` in turn stays within the integer ranges.
pub open spec fn places_ok(root: Node, ps: Seq<Panel>, t: i32, grain: bool) -> bool
    decreases ps.len(),
{
    if ps.len() == 0 {
        stats_ok(root)
    } else {
        &&& panel_ok(root, ps[0], t, grain)
        &&& match panel_outcome(root, ps[0], t, grain) {
            Some(o) => {
                let (next_root, _cuts) = o;
                places_ok(next_root, ps.drop_first(), t, grain)
            },
            None => stats_ok(root),
        }
    }
}

proof fn lemma_candidate_has_path(n: Node, w: i32, h: i32, trim: i32, i: int)
    requires
        0 <= i < n.candidates_spec(w, h, trim).len(),
    ensures
        n.path_to(n.candidates_spec(w, h, trim)[i].rect.x, n.candidates_spec(w, h, trim)[i].rect.y) is Some,
    decreases n,
{
    let c = n.candidates_spec(w, h, trim)[i];
    if n.rect.x == c.rect.x && n.rect.y == c.rect.y {
    } else if n.is_leaf() {
    } else {
        let a = match n.child1 {
            Some(c1) => c1.candidates_spec(w, h, trim),
            None => Seq::empty(),
        };
        if i < a.len() {
            let c1 = n.child1->0;
            lemma_candidate_has_path(*c1, w, h, trim, i);
        } else {
            let c2 = n.child2->0;
            lemma_candidate_has_path(*c2, w, h, trim, i - a.len());
        }
    }
}

impl Placement {
    /// Cuts `node` vertically `panel_width` from its left edge (see
    /// `split_h_tree`); never fails.
    pub fn split_horizontally(node: &mut Node, panel_width: i32, cut_thickness: i32, panel_id: i32) -> (r: Result<
        Cut,
        String,
    >)
        requires
            split_h_ok(*old(node), panel_width, cut_thickness),
        ensures
            *final(node) == split_h_tree(*old(node), panel_width, cut_thickness, panel_id),
            r == Ok::<Cut, String>(split_h_cut(*old(node), panel_width)),
    {
        let x = node.rect.x;
        let y = node.rect.y;
        let x2 = node.rect.x + node.rect.width;
        let y2 = node.rect.y + node.rect.height;
        let child1_rect = Rectangle::new(x, y, panel_width, node.rect.height);
        let mut child1 = Node::new(0, child1_rect);
        child1.set_panel_id(panel_id);
        if child1.area() > 0 {
            node.child1 = Some(Box::new(child1));
        }
        let child2_x1 = x + panel_width + cut_thickness;
        if child2_x1 < x2 {
            let child2_rect = Rectangle::new(child2_x1, y, x2 - child2_x1, node.rect.height);
            let child2 = Node::new(0, child2_rect);
            if child2.area() > 0 {
                node.child2 = Some(Box::new(child2));
            }
        }
        Ok(Cut::new(x + panel_width, y, x + panel_width, y2, false))
    }

    /// Cuts `node` horizontally `panel_height` from its top edge (see
    /// `split_v_tree`); never fails.
    pub fn split_vertically(node: &mut Node, panel_height: i32, cut_thickness: i32, panel_id: i32) -> (r: Result<
        Cut,
        String,
    >)
        requires
            split_v_ok(*old(node), panel_height, cut_thickness),
        ensures
            *final(node) == split_v_tree(*old(node), panel_height, cut_thickness, panel_id),
            r == Ok::<Cut, String>(split_v_cut(*old(node), panel_height)),
    {
        let x = node.rect.x;
        let y = node.rect.y;
        let x2 = node.rect.x + node.rect.width;
        let y2 = node.rect.y + node.rect.height;
        let child1_rect = Rectangle::new(x, y, node.rect.width, panel_height);
        let mut child1 = Node::new(0, child1_rect);
        child1.set_panel_id(panel_id);
        if child1.area() > 0 {
            node.child1 = Some(Box::new(child1));
        }
        let child2_y1 = y + panel_height + cut_thickness;
        if child2_y1 < y2 {
            let child2_rect = Rectangle::new(x, child2_y1, node.rect.width, y2 - child2_y1);
            let child2 = Node::new(0, child2_rect);
            if child2.area() > 0 {
                node.child2 = Some(Box::new(child2));
            }
        }
        Ok(Cut::new(x, y + panel_height, x2, y + panel_height, true))
    }

    /// Places `panel` at the top-left corner of `node` in HV order (see
    /// `hv_tree`) and returns the cuts made; never fails.
    pub fn split_hv(node: &mut Node, panel: &Panel, cut_thickness: i32) -> (r: Result<Vec<Cut>, String>)
        requires
            hv_ok(*old(node), *panel, cut_thickness),
        ensures
            *final(node) == hv_tree(*old(node), *panel, cut_thickness),
            r matches Ok(v) && v@ == hv_cuts(*old(node), *panel, cut_thickness),
    {
        let pid = panel.id as i32;
        let mut cuts: Vec<Cut> = Vec::new();
        if node.width() > panel.width {
            let c = match Self::split_horizontally(node, panel.width, cut_thickness, pid) {
                Ok(c) => c,
                Err(e) => return Err(e),
            };
            cuts.push(c);
            if node.height() > panel.height {
                if let Some(child1) = &mut node.child1 {
                    let c2 = match Self::split_vertically(&mut **child1, panel.height, cut_thickness, pid) {
                        Ok(c) => c,
                        Err(e) => return Err(e),
                    };
                    cuts.push(c2);
                    if let Some(grandchild) = &mut child1.child1 {
                        grandchild.set_final(true);
                        grandchild.set_panel_id(pid);
                    }
                }
            } else {
                if let Some(child1) = &mut node.child1 {
                    child1.set_final(true);
                    child1.set_panel_id(pid);
                }
            }
        } else {
            let c = match Self::split_vertically(node, panel.height, cut_thickness, pid) {
                Ok(c) => c,
                Err(e) => return Err(e),
            };
            cuts.push(c);
            if let Some(child1) = &mut node.child1 {
                child1.set_final(true);
                child1.set_panel_id(pid);
            }
        }
        Ok(cuts)
    }

    /// Places `panel` at the top-left corner of `node` in VH order (see
    /// `vh_tree`) and returns the cuts made; never fails.
    pub fn split_vh(node: &mut Node, panel: &Panel, cut_thickness: i32) -> (r: Result<Vec<Cut>, String>)
        requires
            vh_ok(*old(node), *panel, cut_thickness),
        ensures
            *final(node) == vh_tree(*old(node), *panel, cut_thickness),
            r matches Ok(v) && v@ == vh_cuts(*old(node), *panel, cut_thickness),
    {
        let pid = panel.id as i32;
        let mut cuts: Vec<Cut> = Vec::new();
        if node.height() > panel.height {
            let c = match Self::split_vertically(node, panel.height, cut_thickness, pid) {
                Ok(c) => c,
                Err(e) => return Err(e),
            };
            cuts.push(c);
            if node.width() > panel.width {
                if let Some(child1) = &mut node.child1 {
                    let c2 = match Self::split_horizontally(&mut **child1, panel.width, cut_thickness, pid) {
                        Ok(c) => c,
                        Err(e) => return Err(e),
                    };
                    cuts.push(c2);
                    if let Some(grandchild) = &mut child1.child1 {
                        grandchild.set_final(true);
                        grandchild.set_panel_id(pid);
                    }
                }
            } else {
                if let Some(child1) = &mut node.child1 {
                    child1.set_final(true);
                    child1.set_panel_id(pid);
                }
            }
        } else {
            let c = match Self::split_horizontally(node, panel.width, cut_thickness, pid) {
                Ok(c) => c,
                Err(e) => return Err(e),
            };
            cuts.push(c);
            if let Some(child1) = &mut node.child1 {
                child1.set_final(true);
                child1.set_panel_id(pid);
            }
        }
        Ok(cuts)
    }
}


impl Placement {
    /// The statistics agree with the tree: used area, area left over and
    /// the placed panels.
    pub open spec fn stats_match(self) -> bool {
        &&& self.used_area == self.root_node.used_area_spec()
        &&& self.waste_area == self.root_node.rect.area_spec() - self.root_node.used_area_spec()
        &&& self.placed_panels@.map_values(|p: PlacedPanel| p@) == self.root_node.final_panels_spec()
    }

    /// An empty sheet of the stock panel's size.
    pub fn new(stock: &Panel) -> (p: Placement)
        ensures
            p.stock_id == stock.id as i32,
            p.root_node == Node::leaf(0, Rectangle { x: 0, y: 0, width: stock.width, height: stock.height }),
            p.cuts@ == Seq::<Cut>::empty(),
            p.placed_panels@ == Seq::<PlacedPanel>::empty(),
            p.used_area == 0,
            p.waste_area == stock.width * stock.height,
    {
        let root_rect = Rectangle::new(0, 0, stock.width, stock.height);
        let total_area = root_rect.area();
        let root_node = Node::new(0, root_rect);
        Placement {
            stock_id: stock.id as i32,
            root_node,
            cuts: Vec::new(),
            placed_panels: Vec::new(),
            used_area: 0,
            waste_area: total_area,
        }
    }

    /// Recomputes the used and wasted area and the placed panels from the
    /// tree.
    pub fn update_statistics(&mut self)
        requires
            stats_ok(old(self).root_node),
        ensures
            final(self).root_node == old(self).root_node,
            final(self).cuts == old(self).cuts,
            final(self).stock_id == old(self).stock_id,
            final(self).stats_match(),
    {
        self.used_area = self.root_node.get_used_area();
        let total_area = self.root_node.rect.area();
        self.waste_area = total_area - self.used_area;
        self.placed_panels = self.root_node.get_final_panels();
    }

    /// Places `panel` without turning it (see `orientation_outcome`);
    /// returns whether there was a place for it. Without one the placement
    /// is unchanged.
    pub fn try_place_panel_with_orientation(&mut self, panel: &Panel, cut_thickness: i32) -> (placed: bool)
        requires
            orientation_ok(old(self).root_node, *panel, cut_thickness),
        ensures
            placed == orientation_outcome(old(self).root_node, *panel, cut_thickness) is Some,
            !placed ==> *final(self) == *old(self),
            placed ==> {
                let o = orientation_outcome(old(self).root_node, *panel, cut_thickness)->0;
                &&& final(self).root_node == o.0
                &&& final(self).cuts@ == old(self).cuts@ + o.1
                &&& final(self).stock_id == old(self).stock_id
                &&& final(self).stats_match()
            },
    {
        let candidates = self.root_node.find_candidates(panel.width, panel.height);
        if candidates.len() == 0 {
            return false;
        }
        let c = candidates[0];
        let cx = c.rect.x;
        let cy = c.rect.y;
        let exact = c.rect.width == panel.width && c.rect.height == panel.height;
        let ghost root0 = self.root_node;
        proof {
            let cs = root0.candidates_spec(panel.width, panel.height, 0);
            assert(cs[0] == *c);
            lemma_candidate_has_path(root0, panel.width, panel.height, 0, 0);
        }
        let pid = panel.id as i32;
        let mut new_cuts: Vec<Cut> = Vec::new();
        match self.root_node.find_node_by_coordinates(cx, cy) {
            Some(target) => {
                if exact {
                    target.set_final(true);
                    target.set_panel_id(pid);
                } else {
                    match Self::split_hv(target, panel, cut_thickness) {
                        Ok(v) => {
                            new_cuts = v;
                        },
                        Err(_) => {},
                    }
                }
            },
            None => {},
        }
        self.cuts.append(&mut new_cuts);
        self.update_statistics();
        true
    }

    /// Places `panel`, turning it a quarter when it has no place as it is,
    /// it is not square and the grain is ignored (see `panel_outcome`);
    /// returns whether it was placed. Without a place the placement is
    /// unchanged.
    pub fn try_place_panel(&mut self, panel: &Panel, cut_thickness: i32, consider_grain_direction: bool) -> (placed: bool)
        requires
            panel_ok(old(self).root_node, *panel, cut_thickness, consider_grain_direction),
        ensures
            placed == panel_outcome(old(self).root_node, *panel, cut_thickness, consider_grain_direction) is Some,
            !placed ==> *final(self) == *old(self),
            placed ==> {
                let o = panel_outcome(old(self).root_node, *panel, cut_thickness, consider_grain_direction)->0;
                &&& final(self).root_node == o.0
                &&& final(self).cuts@ == old(self).cuts@ + o.1
                &&& final(self).stock_id == old(self).stock_id
                &&& final(self).stats_match()
            },
    {
        if self.try_place_panel_with_orientation(panel, cut_thickness) {
            return true;
        }
        if panel.width == panel.height {
            return false;
        }
        if consider_grain_direction {
            return false;
        }
        let rotated_panel = Panel { id: panel.id, width: panel.height, height: panel.width, label: panel.label.clone() };
        self.try_place_panel_with_orientation(&rotated_panel, cut_thickness)
    }

    fn place_each(&mut self, panels: &[Panel], i: usize, cut_thickness: i32, consider_grain_direction: bool) -> (n: usize)
        requires
            i <= panels@.len(),
            places_ok(old(self).root_node, panels@.skip(i as int), cut_thickness, consider_grain_direction),
        ensures
            ({
                let (r, c, k) = places_outcome(
                    old(self).root_node,
                    panels@.skip(i as int),
                    cut_thickness,
                    consider_grain_direction,
                );
                &&& final(self).root_node == r
                &&& final(self).cuts@ == old(self).cuts@ + c
                &&& n == k
            }),
            n <= panels@.len() - i,
            final(self).stock_id == old(self).stock_id,
            stats_ok(final(self).root_node),
        decreases panels@.len() - i,
    {
        let ghost ps = panels@.skip(i as int);
        if i == panels.len() {
            return 0;
        }
        proof {
            assert(ps[0] == panels@[i as int]);
            assert(ps.drop_first() =~= panels@.skip(i + 1));
        }
        if self.try_place_panel(&panels[i], cut_thickness, consider_grain_direction) {
            let rest = self.place_each(panels, i + 1, cut_thickness, consider_grain_direction);
            proof {
                let (r2, c2) = panel_outcome(old(self).root_node, ps[0], cut_thickness, consider_grain_direction)->0;
                let (r3, c3, k3) = places_outcome(r2, ps.drop_first(), cut_thickness, consider_grain_direction);
                assert(old(self).cuts@ + c2 + c3 =~= old(self).cuts@ + (c2 + c3));
            }
            rest + 1
        } else {
            proof {
                assert(old(self).cuts@ + Seq::<Cut>::empty() =~= old(self).cuts@);
            }
            0
        }
    }

    /// Places the panels in turn, stopping at the first one that has no
    /// place (see `places_outcome`); refreshes the statistics and returns
    /// how many were placed.
    pub fn try_place_panels(&mut self, panels: &[Panel], cut_thickness: i32, consider_grain_direction: bool) -> (n: usize)
        requires
            places_ok(old(self).root_node, panels@, cut_thickness, consider_grain_direction),
        ensures
            ({
                let (r, c, k) = places_outcome(old(self).root_node, panels@, cut_thickness, consider_grain_direction);
                &&& final(self).root_node == r
                &&& final(self).cuts@ == old(self).cuts@ + c
                &&& n == k
            }),
            final(self).stock_id == old(self).stock_id,
            final(self).stats_match(),
    {
        proof {
            assert(panels@.skip(0) =~= panels@);
        }
        let n = self.place_each(panels, 0, cut_thickness, consider_grain_direction);
        self.update_statistics();
        n
    }
}

/// Following `p` from `n` passes only nodes that are not final and every
/// step has the child it names.
pub open spec fn path_clear(n: Node, p: Seq<bool>) -> bool
    decreases p.len(),
{
    if p.len() == 0 {
        true
    } else {
        &&& !n.is_final
        &&& match (if p[0] {
            n.child2
        } else {
            n.child1
        }) {
            Some(b) => path_clear(*b, p.drop_first()),
            None => false,
        }
    }
}

/// The first candidate for `panel` is itself the first node at its corner
/// (where the panel goes) and is reached through nodes that are not final.
pub open spec fn target_is_candidate(root: Node, panel: Panel) -> bool {
    match first_candidate(root, panel) {
        None => true,
        Some(c) => {
            let p = target_path(root, c);
            root.at_path(p) == c && path_clear(root, p)
        },
    }
}

/// `after` is `before` with `r` inserted at some position.
pub open spec fn gains_record(before: Seq<PlacedPanelView>, after: Seq<PlacedPanelView>, r: PlacedPanelView) -> bool {
    exists|i: int| 0 <= i <= before.len() && after == #[trigger] before.take(i).push(r) + before.skip(i)
}

proof fn lemma_replace_used(n: Node, p: Seq<bool>, m: Node)
    requires
        path_clear(n, p),
    ensures
        n.replace_at(p, m).used_area_spec() == n.used_area_spec() - n.at_path(p).used_area_spec()
            + m.used_area_spec(),
    decreases p.len(),
{
    if p.len() > 0 {
        if p[0] {
            lemma_replace_used(*n.child2->0, p.drop_first(), m);
        } else {
            lemma_replace_used(*n.child1->0, p.drop_first(), m);
        }
    }
}

proof fn lemma_replace_panels(n: Node, p: Seq<bool>, m: Node) -> (i: int)
    requires
        path_clear(n, p),
        n.at_path(p).final_panels_spec() == Seq::<PlacedPanelView>::empty(),
    ensures
        0 <= i <= n.final_panels_spec().len(),
        n.replace_at(p, m).final_panels_spec() == n.final_panels_spec().take(i) + m.final_panels_spec()
            + n.final_panels_spec().skip(i),
    decreases p.len(),
{
    let before = n.final_panels_spec();
    let mf = m.final_panels_spec();
    if p.len() == 0 {
        assert(before.take(0) + mf + before.skip(0) =~= mf);
        0
    } else {
        let a = match n.child1 {
            Some(c) => c.final_panels_spec(),
            None => Seq::<PlacedPanelView>::empty(),
        };
        let b = match n.child2 {
            Some(c) => c.final_panels_spec(),
            None => Seq::<PlacedPanelView>::empty(),
        };
        assert(before == a + b);
        if p[0] {
            let c = *n.child2->0;
            let j = lemma_replace_panels(c, p.drop_first(), m);
            let i = a.len() + j;
            assert(before.take(i) =~= a + b.take(j));
            assert(before.skip(i) =~= b.skip(j));
            assert(n.replace_at(p, m).final_panels_spec() =~= before.take(i) + mf + before.skip(i));
            i
        } else {
            let c = *n.child1->0;
            let j = lemma_replace_panels(c, p.drop_first(), m);
            assert(before.take(j) =~= a.take(j));
            assert(before.skip(j) =~= a.skip(j) + b);
            assert(n.replace_at(p, m).final_panels_spec() =~= before.take(j) + mf + before.skip(j));
            j
        }
    }
}

/// The part that receives a panel in an unused leaf it fits: marked final
/// when the sizes agree, split in HV order otherwise.
pub open spec fn placed_part(n: Node, panel: Panel, t: i32) -> Node {
    if n.exact_fit(panel) {
        mark(n, panel.id as i32)
    } else {
        hv_tree(n, panel, t)
    }
}

proof fn lemma_placed_part(n: Node, panel: Panel, t: i32)
    requires
        n.is_leaf(),
        !n.is_final,
        n.fits_panel(panel),
        panel.width > 0,
        panel.height > 0,
    ensures
        placed_part(n, panel, t).used_area_spec() == panel.width * panel.height,
        placed_part(n, panel, t).final_panels_spec().len() == 1,
        placed_part(n, panel, t).final_panels_spec()[0].panel_id == panel.id as i32,
        placed_part(n, panel, t).final_panels_spec()[0].x == n.rect.x,
        placed_part(n, panel, t).final_panels_spec()[0].y == n.rect.y,
        placed_part(n, panel, t).final_panels_spec()[0].width == panel.width,
        placed_part(n, panel, t).final_panels_spec()[0].height == panel.height,
{
    let pw = panel.width;
    let ph = panel.height;
    let pid = panel.id as i32;
    let r = n.rect;
    assert(pid as u16 == panel.id);
    assert(pw * r.height > 0) by (nonlinear_arith)
        requires pw > 0, r.height >= ph, ph > 0;
    assert(r.width * ph > 0) by (nonlinear_arith)
        requires ph > 0, r.width >= pw, pw > 0;
    assert(pw * ph > 0) by (nonlinear_arith)
        requires pw > 0, ph > 0;
    if n.exact_fit(panel) {
        let m = mark(n, pid);
        assert(m.final_panels_spec().len() == 1);
        assert(m.used_area_spec() == r.width * r.height);
    } else if r.width > pw {
        let s1 = split_h_tree(n, pw, t, pid);
        let c1 = panel_leaf(Rectangle { x: r.x, y: r.y, width: pw, height: r.height }, pid);
        assert(s1.child1 == Some(Box::new(c1)));
        assert(s1.child2 is Some ==> s1.child2->0.is_leaf() && !s1.child2->0.is_final);
        assert(s1.child2 is Some ==> s1.child2->0.used_area_spec() == 0);
        assert(s1.child2 is Some ==> s1.child2->0.final_panels_spec() =~= Seq::<PlacedPanelView>::empty());
        if r.height > ph {
            let v = split_v_tree(c1, ph, t, pid);
            let g1 = panel_leaf(Rectangle { x: r.x, y: r.y, width: pw, height: ph }, pid);
            assert(v.child1 == Some(Box::new(g1)));
            assert(v.child2 is Some ==> v.child2->0.used_area_spec() == 0);
            assert(v.child2 is Some ==> v.child2->0.final_panels_spec() =~= Seq::<PlacedPanelView>::empty());
            let mv = mark_child1(v, pid);
            assert(mark(g1, pid).used_area_spec() == pw * ph);
            assert(mv.child1 == Some(Box::new(mark(g1, pid))));
            assert(mark(g1, pid).final_panels_spec().len() == 1);
            assert(mv.used_area_spec() == pw * ph);
            assert(mv.final_panels_spec() =~= mark(g1, pid).final_panels_spec());
            let res = Node { child1: Some(Box::new(mv)), ..s1 };
            assert(hv_tree(n, panel, t) == res);
            assert(res.final_panels_spec() =~= mark(g1, pid).final_panels_spec());
            assert(res.used_area_spec() == pw * ph);
        } else {
            let res = mark_child1(s1, pid);
            assert(res.child1 == Some(Box::new(mark(c1, pid))));
            assert(mark(c1, pid).final_panels_spec().len() == 1);
            assert(res.final_panels_spec() =~= mark(c1, pid).final_panels_spec());
            assert(r.height == ph);
            assert(mark(c1, pid).used_area_spec() == pw * r.height);
            assert(res.used_area_spec() == pw * ph);
        }
    } else {
        let v = split_v_tree(n, ph, t, pid);
        let g1 = panel_leaf(Rectangle { x: r.x, y: r.y, width: r.width, height: ph }, pid);
        assert(v.child1 == Some(Box::new(g1)));
        assert(v.child2 is Some ==> v.child2->0.used_area_spec() == 0);
        assert(v.child2 is Some ==> v.child2->0.final_panels_spec() =~= Seq::<PlacedPanelView>::empty());
        let res = mark_child1(v, pid);
        assert(res.child1 == Some(Box::new(mark(g1, pid))));
        assert(mark(g1, pid).final_panels_spec().len() == 1);
        assert(res.final_panels_spec() =~= mark(g1, pid).final_panels_spec());
        assert(r.width == pw);
        assert(mark(g1, pid).used_area_spec() == r.width * ph);
        assert(res.used_area_spec() == pw * ph);
    }
}

/// Placing a panel without turning it, when it has a place, adds exactly
/// its area to the used area of the sheet and one record of its id and
/// size, at the corner of the free space chosen for it, to the placed
/// panels; the rest of the list keeps its order. Stated for trees where
/// the place is found through nodes that are not final
/// (`target_is_candidate`).
pub proof fn law_placing_adds_the_panel(root: Node, panel: Panel, t: i32)
    requires
        panel.width > 0,
        panel.height > 0,
        target_is_candidate(root, panel),
        orientation_outcome(root, panel, t) is Some,
    ensures
        ({
            let after = outcome_tree(orientation_outcome(root, panel, t));
            let c = first_candidate(root, panel)->0;
            &&& after.used_area_spec() == root.used_area_spec() + panel.width * panel.height
            &&& exists|r: PlacedPanelView|
                #[trigger] gains_record(root.final_panels_spec(), after.final_panels_spec(), r) && r.panel_id
                    == panel.id as i32 && r.x == c.rect.x && r.y == c.rect.y && r.width == panel.width && r.height
                    == panel.height
        }),
{
    let w = panel.width;
    let h = panel.height;
    let cs = root.candidates_spec(w, h, 0);
    root.lemma_candidates_are_free_leaves(w, h, 0);
    let c = cs[0];
    assert(first_candidate(root, panel) == Some(c));
    let p = target_path(root, c);
    let tgt = root.at_path(p);
    assert(tgt == c);
    let m = placed_part(tgt, panel, t);
    lemma_placed_part(tgt, panel, t);
    assert(outcome_tree(orientation_outcome(root, panel, t)) == root.replace_at(p, m));
    lemma_replace_used(root, p, m);
    assert(tgt.used_area_spec() == 0);
    assert(tgt.final_panels_spec() =~= Seq::<PlacedPanelView>::empty());
    let i = lemma_replace_panels(root, p, m);
    let before = root.final_panels_spec();
    let after = root.replace_at(p, m).final_panels_spec();
    let r = m.final_panels_spec()[0];
    assert(m.final_panels_spec() =~= seq![r]);
    assert(after =~= before.take(i).push(r) + before.skip(i));
    assert(gains_record(before, after, r));
}

/// What `try_place_panel` does when it places a panel: the used area grows
/// by exactly the panel's area and the placed panels gain exactly one
/// record of the panel's id, with its size as it is or turned.
pub proof fn law_try_place_panel_adds_the_panel(root: Node, panel: Panel, t: i32, grain: bool)
    requires
        panel.width > 0,
        panel.height > 0,
        target_is_candidate(root, panel),
        orientation_outcome(root, panel, t) is None && tries_rotation(panel, grain) ==> target_is_candidate(
            root,
            rotated(panel),
        ),
        panel_outcome(root, panel, t, grain) is Some,
    ensures
        ({
            let after = outcome_tree(panel_outcome(root, panel, t, grain));
            &&& after.used_area_spec() == root.used_area_spec() + panel.width * panel.height
            &&& exists|r: PlacedPanelView|
                #[trigger] gains_record(root.final_panels_spec(), after.final_panels_spec(), r) && r.panel_id
                    == panel.id as i32 && ((r.width == panel.width && r.height == panel.height) || (r.width
                    == panel.height && r.height == panel.width))
        }),
{
    let before = root.final_panels_spec();
    if orientation_outcome(root, panel, t) is Some {
        law_placing_adds_the_panel(root, panel, t);
        let after = outcome_tree(panel_outcome(root, panel, t, grain)).final_panels_spec();
        let r = choose|r: PlacedPanelView|
            #[trigger] gains_record(before, after, r) && r.panel_id == panel.id as i32 && r.width == panel.width
                && r.height == panel.height;
        assert(gains_record(before, after, r));
    } else {
        let q = rotated(panel);
        law_placing_adds_the_panel(root, q, t);
        assert(q.width * q.height == panel.width * panel.height) by (nonlinear_arith)
            requires q.width == panel.height, q.height == panel.width;
        let after = outcome_tree(panel_outcome(root, panel, t, grain)).final_panels_spec();
        let r = choose|r: PlacedPanelView|
            #[trigger] gains_record(before, after, r) && r.panel_id == q.id as i32 && r.width == q.width
                && r.height == q.height;
        assert(gains_record(before, after, r));
    }
}

} // verus!
