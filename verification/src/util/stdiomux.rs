//! Utilities for multiplexed streamed requests.
pub mod client;
pub mod preamble;
pub mod server;
pub mod util;

use vstd::prelude::*;

verus! {

/// A stream service built from a function.
pub struct ServiceFn<F>(pub F);

/// Makes a stream service from a function.
pub fn service_fn<F>(f: F) -> (r: ServiceFn<F>)
    ensures
        r.0 == f,
{
    ServiceFn(f)
}

} // verus!
