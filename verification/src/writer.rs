//! Helpers of the in-process writer.
pub mod util;
