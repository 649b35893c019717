//! Panels as they enter the grouping step: single instances, and groups of
//! instances that share their effective size and rotation.
use vstd::prelude::*;

verus! {

/// One copy of a requested panel.
#[derive(Debug, Clone, Copy, PartialEq, Eq, Structural)]
pub struct PanelInstance {
    pub id: i32,
    pub width: u32,
    pub height: u32,
    pub is_rotated: bool,
}

/// The size a panel occupies: its width and height, swapped when rotated.
pub open spec fn effective_dims(p: PanelInstance) -> (u32, u32) {
    if p.is_rotated {
        (p.height, p.width)
    } else {
        (p.width, p.height)
    }
}

impl PanelInstance {
    pub fn new(id: i32, width: u32, height: u32, is_rotated: bool) -> (p: Self)
        ensures
            p == (PanelInstance { id, width, height, is_rotated }),
    {
        PanelInstance { id, width, height, is_rotated }
    }

    /// Width and height as placed (see `effective_dims`).
    pub fn effective_dimensions(&self) -> (r: (u32, u32))
        ensures
            r == effective_dims(*self),
    {
        if self.is_rotated {
            (self.height, self.width)
        } else {
            (self.width, self.height)
        }
    }
}

/// Instances of one size and rotation.
#[derive(Debug)]
pub struct PanelGroup {
    pub width: u32,
    pub height: u32,
    pub is_rotated: bool,
    pub count: usize,
    pub instances: Vec<PanelInstance>,
}

impl PanelGroup {
    /// The group's size and rotation as a key.
    pub open spec fn key(&self) -> (u32, u32, bool) {
        (self.width, self.height, self.is_rotated)
    }

    /// `count` is the number of instances held.
    pub open spec fn wf(&self) -> bool {
        self.count == self.instances@.len()
    }

    /// An empty group of the given size and rotation.
    pub fn new(width: u32, height: u32, is_rotated: bool) -> (g: Self)
        ensures
            g.width == width,
            g.height == height,
            g.is_rotated == is_rotated,
            g.count == 0,
            g.instances@ == Seq::<PanelInstance>::empty(),
    {
        PanelGroup { width, height, is_rotated, count: 0, instances: Vec::new() }
    }

    /// Appends an instance and counts it.
    pub fn add_instance(&mut self, instance: PanelInstance)
        requires
            old(self).count < usize::MAX,
        ensures
            final(self).instances@ == old(self).instances@.push(instance),
            final(self).count == old(self).count + 1,
            final(self).key() == old(self).key(),
            old(self).wf() ==> final(self).wf(),
    {
        self.instances.push(instance);
        self.count = self.count + 1;
    }

    /// The first instance, if any.
    pub fn get_representative(&self) -> (r: Option<&PanelInstance>)
        ensures
            r == (if self.instances@.len() > 0 { Some(&self.instances@[0]) } else { None }),
    {
        if self.instances.len() > 0 {
            Some(&self.instances[0])
        } else {
            None
        }
    }

    /// All instances, in the order they were added.
    pub fn get_all_instances(&self) -> (r: &Vec<PanelInstance>)
        ensures
            r@ == self.instances@,
    {
        &self.instances
    }
}

} // verus!
