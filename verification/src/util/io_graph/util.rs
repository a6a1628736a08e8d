use vstd::prelude::*;

verus! {

/// An I/O graph made from a function that spawns its workers.
pub struct IoGraphFn<F>(pub F);

/// Makes an I/O graph out of a function.
pub fn io_graph_fn<F>(f: F) -> (r: IoGraphFn<F>)
    ensures
        r.0 == f,
{
    IoGraphFn(f)
}

/// A graph handle made of a counter to take snapshots from and a future to
/// wait on for the final result.
pub struct CounterFutureHandle<C, Fut> {
    pub c: C,
    pub fut: Box<Fut>,
}

/// Makes a graph handle out of a counter and a future.
pub fn counter_future_handle<C, Fut>(counter: C, future: Fut) -> (r: CounterFutureHandle<C, Fut>)
    ensures
        r.c == counter,
        *r.fut == future,
{
    CounterFutureHandle { c: counter, fut: Box::new(future) }
}

} // verus!
