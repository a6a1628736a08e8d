use vstd::prelude::*;

verus! {

/// An executor that runs futures on the current thread's task set.
#[derive(Debug)]
pub struct TokioLocalExecutor {
    _private: (),
}

impl TokioLocalExecutor {
    pub fn new() -> Self {
        TokioLocalExecutor { _private: () }
    }
}

impl Clone for TokioLocalExecutor {
    fn clone(&self) -> (r: Self)
        ensures
            r == *self,
    {
        TokioLocalExecutor { _private: () }
    }
}

} // verus!
