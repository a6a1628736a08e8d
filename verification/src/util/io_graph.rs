//! Bookkeeping for graphs of I/O workers.
pub mod builder;
pub mod counter;
pub mod junction;
pub mod util;
