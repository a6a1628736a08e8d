use vstd::prelude::*;

use std::marker::PhantomData;
use std::rc::Rc;

verus! {

/// A client that sends a preamble of type `P` as the first payload of each
/// request, then passes the rest of the request through to `S`.
pub struct PreambleRequestClient<P, S> {
    pub svc: Rc<S>,
    pub _phantom: PhantomData<P>,
}

/// Wraps a service in a client that sends a preamble first.
pub fn preamble_request_client<P, S>(svc: S) -> (r: PreambleRequestClient<P, S>)
    ensures
        *r.svc == svc,
{
    PreambleRequestClient { svc: Rc::new(svc), _phantom: PhantomData }
}

} // verus!
