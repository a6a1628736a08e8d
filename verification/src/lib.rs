//! Verified core of a disk-imaging tool: the stdiomux wire formats and
//! protocol state machines, the writer's progress tracking, and the small
//! arithmetic and bookkeeping helpers around them.
pub mod stdiomux;
pub mod util;
pub mod verification;
pub mod writer;
pub mod writer_process;
