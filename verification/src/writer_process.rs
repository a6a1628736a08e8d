//! The process that writes an image to a disk, and what its parent tracks
//! of it.
pub mod ipc;
pub mod ops;
pub mod state_tracking;
pub mod utils;
