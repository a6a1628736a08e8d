//! Per-channel protocol state.
pub mod state;
