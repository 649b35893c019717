//! Guillotine cut-list optimisation: cutting-tree geometry, panel and cut
//! models, permutation generation and request/response bookkeeping.

pub mod text;
pub mod features;
pub mod models;
pub mod html_visualizer;
