use vstd::prelude::*;

use std::sync::Arc;

verus! {

/// Why a server stopped: its receiving side, its sending side or the
/// service failed.
#[derive(Debug)]
pub enum ServerError<E> {
    Rx(Arc<std::io::Error>),
    Tx(Arc<std::io::Error>),
    Service(Arc<E>),
}

impl<E> Clone for ServerError<E> {
    fn clone(&self) -> (r: Self)
        ensures
            r == *self,
    {
        match self {
            ServerError::Rx(arg0) => ServerError::Rx(arg0.clone()),
            ServerError::Tx(arg0) => ServerError::Tx(arg0.clone()),
            ServerError::Service(arg0) => ServerError::Service(arg0.clone()),
        }
    }
}

} // verus!
