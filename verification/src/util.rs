//! Self-contained utilities shared across the tool.
pub mod byteseries;
pub mod device;
pub mod hyper;
pub mod hyperpipe;
pub mod io_graph;
pub mod layer_error;
pub mod os_error;
pub mod stdiomux;
