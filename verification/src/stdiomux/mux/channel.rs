//! Channel bookkeeping shared by the multiplexer's state machine.
pub mod shared;
pub mod state;
