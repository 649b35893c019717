use vstd::prelude::*;

verus! {

/// A panel placed in the cutting tree, with its position and size.
#[derive(Debug, Clone)]
pub struct PlacedPanel {
    pub panel_id: i32,
    pub x: i32,
    pub y: i32,
    pub width: i32,
    pub height: i32,
    pub is_rotated: bool,
    pub label: String,
}

/// The mathematical content of a `PlacedPanel`.
pub struct PlacedPanelView {
    pub panel_id: i32,
    pub x: i32,
    pub y: i32,
    pub width: i32,
    pub height: i32,
    pub is_rotated: bool,
    pub label: Seq<char>,
}

impl View for PlacedPanel {
    type V = PlacedPanelView;

    open spec fn view(&self) -> PlacedPanelView {
        PlacedPanelView {
            panel_id: self.panel_id,
            x: self.x,
            y: self.y,
            width: self.width,
            height: self.height,
            is_rotated: self.is_rotated,
            label: self.label@,
        }
    }
}

} // verus!
