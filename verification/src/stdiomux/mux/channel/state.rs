use vstd::prelude::*;

use crate::stdiomux::mux::state::MuxNotOpen;

verus! {

/// State held by a closed channel.
#[derive(Debug, PartialEq, Eq, Clone)]
pub struct Closed {
    pub reason: CloseReason,
    pub send_reset: bool,
}

/// Why a channel is closed.
#[derive(Debug, PartialEq, Eq, Clone)]
pub enum CloseReason {
    NotOpened,
    Panicked,
    UserDropped,
    GotReset,
    InvalidFrame { state: String, frame: String },
    OutOfCapacity,
}

#[derive(Debug, PartialEq, Eq, Structural, Clone, Copy)]
pub enum AcceptRxError {
    OutOfCapacity,
    Disconnected,
}

/// Why a channel could not be opened.
#[derive(Debug, PartialEq, Eq, Clone)]
pub enum OpenChannelError {
    ChannelInUse,
    RequestorDropped,
    ChannelClosed(CloseReason),
    MuxNotOpen(MuxNotOpen),
}

} // verus!
