use vstd::prelude::*;

use std::sync::Arc;

verus! {

/// Why a client stopped: its receiving or its sending side failed.
#[derive(Debug, Clone)]
pub enum ClientError {
    Rx(Arc<std::io::Error>),
    Tx(Arc<std::io::Error>),
}

} // verus!
