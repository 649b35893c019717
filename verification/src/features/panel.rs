use vstd::prelude::*;

verus! {

/// A single panel instance to be placed into the cutting tree.
#[derive(Debug, Clone)]
pub struct Panel {
    pub id: u16,
    pub width: i32,
    pub height: i32,
    pub label: String,
}

impl Panel {
    pub fn new(id: u16, width: i32, height: i32, label: String) -> (p: Panel)
        ensures
            p.id == id,
            p.width == width,
            p.height == height,
            p.label == label,
    {
        Panel { id, width, height, label }
    }
}

} // verus!
