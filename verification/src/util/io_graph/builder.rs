use vstd::prelude::*;

verus! {

/// Name and kind of a worker in an I/O graph.
#[derive(Debug, PartialEq, Eq, Clone)]
pub struct WorkerInfo {
    pub name: String,
    pub kind: String,
}

} // verus!
