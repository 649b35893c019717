pub mod arrangement;
pub mod cut;
pub mod calculation_submission_result;
pub mod client_info;
pub mod tile_dimensions;
pub mod grouped_tile_dimensions;
pub mod configuration;
pub mod calculation_request;
pub mod edge;
pub mod cut_list_thread;
