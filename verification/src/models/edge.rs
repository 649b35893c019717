//! Edge banding of a panel's four sides.
use vstd::prelude::*;

verus! {

/// Edge banding of the four sides of a panel; `None` means no banding.
#[derive(Debug, Clone, PartialEq)]
pub struct Edge {
    pub top: Option<String>,
    pub left: Option<String>,
    pub bottom: Option<String>,
    pub right: Option<String>,
}

impl Edge {
    /// No banding on any side.
    pub fn new() -> (e: Self)
        ensures
            e.top is None && e.left is None && e.bottom is None && e.right is None,
    {
        Edge { top: None, left: None, bottom: None, right: None }
    }

    /// The same banding on all four sides.
    pub fn uniform(value: String) -> (e: Self)
        ensures
            e.top == Some(value) && e.left == Some(value) && e.bottom == Some(value) && e.right == Some(value),
    {
        Edge { top: Some(value.clone()), left: Some(value.clone()), bottom: Some(value.clone()), right: Some(value) }
    }

    pub fn has_any_edge(&self) -> (r: bool)
        ensures
            r == (self.top is Some || self.left is Some || self.bottom is Some || self.right is Some),
    {
        self.top.is_some() || self.left.is_some() || self.bottom.is_some() || self.right.is_some()
    }

    pub fn has_all_edges(&self) -> (r: bool)
        ensures
            r == (self.top is Some && self.left is Some && self.bottom is Some && self.right is Some),
    {
        self.top.is_some() && self.left.is_some() && self.bottom.is_some() && self.right.is_some()
    }
}

impl Default for Edge {
    fn default() -> (e: Self)
        ensures
            e.top is None && e.left is None && e.bottom is None && e.right is None,
    {
        Self::new()
    }
}

} // verus!
