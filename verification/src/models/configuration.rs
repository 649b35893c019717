//! The settings of a calculation that the library reads as plain values:
//! cut thickness and minimum trim as text, the stock policy, the priority,
//! the units and whether grain orientation counts.
use vstd::prelude::*;
use crate::models::calculation_submission_result::opt_view;
use crate::models::client_info::opt_str_view;

verus! {

/// Settings of a calculation request.
#[derive(Debug, Clone, PartialEq)]
pub struct Configuration {
    pub cut_thickness: Option<String>,
    pub use_single_stock_unit: bool,
    pub optimization_priority: i32,
    pub units: Option<i32>,
    pub consider_orientation: bool,
    pub min_trim_dimension: Option<String>,
}

impl Configuration {
    /// The settings of a fresh configuration: nothing given, nothing set.
    pub open spec fn fresh(self) -> bool {
        &&& self.cut_thickness is None
        &&& !self.use_single_stock_unit
        &&& self.optimization_priority == 0
        &&& self.units is None
        &&& !self.consider_orientation
        &&& self.min_trim_dimension is None
    }

    pub fn new() -> (c: Self)
        ensures
            c.fresh(),
    {
        Configuration {
            cut_thickness: None,
            use_single_stock_unit: false,
            optimization_priority: 0,
            units: None,
            consider_orientation: false,
            min_trim_dimension: None,
        }
    }

    pub fn cut_thickness(&self) -> (r: Option<&str>)
        ensures
            opt_str_view(r) == opt_view(self.cut_thickness),
    {
        match &self.cut_thickness {
            Some(t) => Some(t.as_str()),
            None => None,
        }
    }

    pub fn use_single_stock_unit(&self) -> (r: bool)
        ensures
            r == self.use_single_stock_unit,
    {
        self.use_single_stock_unit
    }

    pub fn optimization_priority(&self) -> (r: i32)
        ensures
            r == self.optimization_priority,
    {
        self.optimization_priority
    }

    pub fn units(&self) -> (r: Option<i32>)
        ensures
            r == self.units,
    {
        self.units
    }

    pub fn consider_orientation(&self) -> (r: bool)
        ensures
            r == self.consider_orientation,
    {
        self.consider_orientation
    }

    pub fn min_trim_dimension(&self) -> (r: Option<&str>)
        ensures
            opt_str_view(r) == opt_view(self.min_trim_dimension),
    {
        match &self.min_trim_dimension {
            Some(t) => Some(t.as_str()),
            None => None,
        }
    }

    pub fn set_cut_thickness(&mut self, cut_thickness: Option<String>)
        ensures
            *final(self) == (Configuration { cut_thickness, ..*old(self) }),
    {
        self.cut_thickness = cut_thickness;
    }

    pub fn set_use_single_stock_unit(&mut self, use_single_stock_unit: bool)
        ensures
            *final(self) == (Configuration { use_single_stock_unit, ..*old(self) }),
    {
        self.use_single_stock_unit = use_single_stock_unit;
    }

    pub fn set_optimization_priority(&mut self, optimization_priority: i32)
        ensures
            *final(self) == (Configuration { optimization_priority, ..*old(self) }),
    {
        self.optimization_priority = optimization_priority;
    }

    pub fn set_units(&mut self, units: Option<i32>)
        ensures
            *final(self) == (Configuration { units, ..*old(self) }),
    {
        self.units = units;
    }

    pub fn set_consider_orientation(&mut self, consider_orientation: bool)
        ensures
            *final(self) == (Configuration { consider_orientation, ..*old(self) }),
    {
        self.consider_orientation = consider_orientation;
    }

    pub fn set_min_trim_dimension(&mut self, min_trim_dimension: Option<String>)
        ensures
            *final(self) == (Configuration { min_trim_dimension, ..*old(self) }),
    {
        self.min_trim_dimension = min_trim_dimension;
    }
}

impl Default for Configuration {
    fn default() -> (c: Self)
        ensures
            c.fresh(),
    {
        Self::new()
    }
}

} // verus!
