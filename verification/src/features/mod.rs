pub mod cut;
pub mod node;
pub mod panel;
pub mod placed_panel;
pub mod rectangle;
pub mod permutation_generator;
pub mod input;
pub mod panel_grouper;
pub mod placement;
