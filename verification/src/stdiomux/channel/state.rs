use vstd::prelude::*;

use crate::stdiomux::frame::{ChannelControlHeader, ChannelDataFrame};

verus! {

/// The outcome of polling: a value now, or not yet.
#[derive(Debug, PartialEq, Eq, Clone, Copy)]
pub enum Poll<T> {
    Ready(T),
    Pending,
}

/// A waker, registered so that a task blocked on the channel runs again.
#[verifier::external_type_specification]
#[verifier::external_body]
pub struct ExWaker(std::task::Waker);

/// Wakes the task behind `waker` (`std::task::Waker::wake`). Nothing is
/// returned and nothing is claimed.
#[verifier::external_body]
fn wake(waker: std::task::Waker) {
    waker.wake()
}

/// State of one channel of the multiplexer.
#[derive(Debug)]
pub enum ChannelState<B> {
    Closed,
    /// The other side has opened the channel; we have not.
    RecvOpen,
    /// We have opened the channel; the other side has not.
    SendOpen { buf: B, waker: Option<std::task::Waker> },
    Open(OpenChannel<B>),
}

/// An open channel with its flow-control counters.
#[derive(Debug)]
pub struct OpenChannel<B> {
    /// How many data frames the other side may still send us.
    pub their_available_permits: u64,
    /// How many data frames we may still send the other side.
    pub our_available_permits: u64,
    pub buf: B,
    pub tx_waker: Option<std::task::Waker>,
    pub rx_waker: Option<std::task::Waker>,
}

#[derive(Debug, PartialEq, Eq, Structural, Clone, Copy)]
pub enum AcceptRxError {
    OutOfCapacity,
    Disconnected,
}

/// The channel is in use, already opened by another caller.
#[derive(Debug, PartialEq, Eq, Structural, Clone, Copy)]
pub struct ChannelInUse;

/// Where received data goes and sent data comes from.
pub trait ChannelBuffer {
    /// Whether asking this buffer for its receive capacity may leave it as
    /// `after` and answer `r`: what a buffer states of its own
    /// `poll_rx_capacity`. A buffer that states nothing admits every outcome.
    open spec fn poll_rx_capacity_outcome(&self, after: &Self, r: Poll<Option<u64>>) -> bool {
        true
    }

    /// How many payloads can be received: `Ready(Some(n))`, `Pending` when
    /// there is no room now, `Ready(None)` when the buffer is closed.
    fn poll_rx_capacity(&mut self) -> (r: Poll<Option<u64>>)
        ensures
            old(self).poll_rx_capacity_outcome(&*final(self), r),
    ;

    /// Whether handing `data` to this buffer may leave it as `after` and
    /// answer `r`: what a buffer states of its own `accept_rx`. A buffer
    /// that states nothing admits every outcome.
    open spec fn accept_rx_outcome(&self, data: Seq<u8>, after: &Self, r: Result<(), AcceptRxError>) -> bool {
        true
    }

    /// Places received data in the buffer.
    fn accept_rx(&mut self, data: Vec<u8>) -> (r: Result<(), AcceptRxError>)
        ensures
            old(self).accept_rx_outcome(data@, &*final(self), r),
    ;

    /// Whether asking this buffer for a payload to send may leave it as
    /// `after` and answer `r`: what a buffer states of its own `poll_tx`. A
    /// buffer that states nothing admits every outcome.
    open spec fn poll_tx_outcome(&self, after: &Self, r: Poll<Option<Vec<u8>>>) -> bool {
        true
    }

    /// The next payload to transmit, if any; `Ready(None)` when closed.
    fn poll_tx(&mut self) -> (r: Poll<Option<Vec<u8>>>)
        ensures
            old(self).poll_tx_outcome(&*final(self), r),
    ;
}

/// A buffer that always has room for 100 payloads, accepts everything and
/// never has anything to send.
#[derive(Debug, Default, PartialEq, Eq, Structural, Clone, Copy)]
pub struct NullChannelBuffer;

impl ChannelBuffer for NullChannelBuffer {
    /// It always has room for 100 payloads.
    open spec fn poll_rx_capacity_outcome(&self, after: &Self, r: Poll<Option<u64>>) -> bool {
        r == Poll::Ready(Some(100u64))
    }

    /// It never has anything to send.
    open spec fn poll_tx_outcome(&self, after: &Self, r: Poll<Option<Vec<u8>>>) -> bool {
        r is Pending
    }

    fn poll_rx_capacity(&mut self) -> (r: Poll<Option<u64>>)
        ensures
            r == Poll::Ready(Some(100u64)),
    {
        Poll::Ready(Some(100))
    }

    /// It takes every payload and keeps nothing.
    open spec fn accept_rx_outcome(&self, data: Seq<u8>, after: &Self, r: Result<(), AcceptRxError>) -> bool {
        r is Ok
    }

    fn accept_rx(&mut self, _data: Vec<u8>) -> (r: Result<(), AcceptRxError>)
        ensures
            r is Ok,
    {
        Ok(())
    }

    fn poll_tx(&mut self) -> (r: Poll<Option<Vec<u8>>>)
        ensures
            r is Pending,
    {
        Poll::Pending
    }
}

/// Mathematical view of a channel: its phase and permit counters.
pub ghost enum ChannelView {
    Closed,
    RecvOpen,
    SendOpen,
    Open { their: u64, our: u64 },
}

impl<B> View for ChannelState<B> {
    type V = ChannelView;

    open spec fn view(&self) -> ChannelView {
        match self {
            ChannelState::Closed => ChannelView::Closed,
            ChannelState::RecvOpen => ChannelView::RecvOpen,
            ChannelState::SendOpen { .. } => ChannelView::SendOpen,
            ChannelState::Open(o) => ChannelView::Open {
                their: o.their_available_permits,
                our: o.our_available_permits,
            },
        }
    }
}

/// What opening the channel locally does: the new view, and whether the
/// call completes now (`Some`) or waits for the other side (`None`).
pub open spec fn open_step(c: ChannelView) -> (ChannelView, Option<Result<(), ChannelInUse>>) {
    match c {
        ChannelView::Closed => (ChannelView::SendOpen, None),
        ChannelView::RecvOpen => (ChannelView::Open { their: 0, our: 0 }, Some(Ok(()))),
        _ => (c, Some(Err(ChannelInUse))),
    }
}

/// What a data frame from the other side does, given whether the buffer
/// accepted it.
pub open spec fn data_step(c: ChannelView, accepted: bool) -> (ChannelView, Option<
    ChannelControlHeader,
>) {
    match c {
        ChannelView::Open { their, our } => if their == 0 {
            (ChannelView::Closed, Some(ChannelControlHeader::Reset))
        } else if accepted {
            (ChannelView::Open { their: (their - 1) as u64, our }, None)
        } else {
            (ChannelView::Closed, Some(ChannelControlHeader::Reset))
        },
        _ => (c, None),
    }
}

/// What learning the buffer's receive capacity does: a channel that may
/// receive more than the other side knows admits up to 255 more payloads.
pub open spec fn adm_step(c: ChannelView, capacity: Poll<Option<u64>>) -> (ChannelView, Poll<
    ChannelControlHeader,
>) {
    match c {
        ChannelView::Open { their, our } => match capacity {
            Poll::Ready(None) => (ChannelView::Closed, Poll::Ready(ChannelControlHeader::Reset)),
            _ => {
                let actual: u64 = match capacity {
                    Poll::Ready(Some(x)) => x,
                    _ => 0,
                };
                if actual < their {
                    (ChannelView::Closed, Poll::Ready(ChannelControlHeader::Reset))
                } else if actual == their {
                    (c, Poll::Pending)
                } else {
                    let add: u64 = if actual - their > 255 {
                        255
                    } else {
                        (actual - their) as u64
                    };
                    (
                        ChannelView::Open { their: (their + add) as u64, our },
                        Poll::Ready(ChannelControlHeader::Admit(add as u8)),
                    )
                }
            },
        },
        _ => (c, Poll::Pending),
    }
}

/// What polling for data to send does, given what the buffer offered.
pub open spec fn tx_step(c: ChannelView, offered: Poll<Option<Seq<u8>>>) -> (ChannelView, Poll<
    Option<Seq<u8>>,
>) {
    match c {
        ChannelView::Open { their, our } => if our == 0 {
            (c, Poll::Pending)
        } else {
            match offered {
                Poll::Ready(Some(x)) => (
                    ChannelView::Open { their, our: (our - 1) as u64 },
                    Poll::Ready(Some(x)),
                ),
                Poll::Ready(None) => (ChannelView::Closed, Poll::Ready(None)),
                Poll::Pending => (c, Poll::Pending),
            }
        },
        _ => (c, Poll::Ready(None)),
    }
}

/// An admit from the other side fits the counter it adds to.
pub open spec fn control_fits(c: ChannelView, f: ChannelControlHeader) -> bool {
    match (c, f) {
        (ChannelView::Open { their, our }, ChannelControlHeader::Admit(p)) => our + p <= u64::MAX,
        _ => true,
    }
}

/// What a control frame from the other side does.
pub open spec fn control_step(c: ChannelView, f: ChannelControlHeader) -> (ChannelView, Option<
    ChannelControlHeader,
>) {
    match (c, f) {
        (_, ChannelControlHeader::Reset) => (ChannelView::Closed, None),
        (ChannelView::Closed, ChannelControlHeader::Open(_)) => (ChannelView::RecvOpen, None),
        (ChannelView::SendOpen, ChannelControlHeader::Open(_)) => (
            ChannelView::Open { their: 0, our: 0 },
            None,
        ),
        (_, ChannelControlHeader::Open(_)) => (
            ChannelView::Closed,
            Some(ChannelControlHeader::Reset),
        ),
        (ChannelView::Open { their, our }, ChannelControlHeader::Admit(p)) => (
            ChannelView::Open { their, our: (our + p) as u64 },
            None,
        ),
        (_, ChannelControlHeader::Admit(_)) => (
            ChannelView::Closed,
            Some(ChannelControlHeader::Reset),
        ),
    }
}

impl<B> OpenChannel<B> {
    /// A freshly opened channel: no permits either way.
    pub fn new(buf: B) -> (r: Self)
        ensures
            r.their_available_permits == 0,
            r.our_available_permits == 0,
            r.buf == buf,
            r.tx_waker is None,
            r.rx_waker is None,
    {
        OpenChannel {
            their_available_permits: 0,
            our_available_permits: 0,
            buf,
            tx_waker: None,
            rx_waker: None,
        }
    }
}

impl<B> ChannelState<B> {
    /// A closed channel.
    pub fn new_closed() -> (r: Self)
        ensures
            r@ == ChannelView::Closed,
    {
        ChannelState::Closed
    }

    /// Opens the channel from our side, making its buffer if the channel is
    /// free. From closed it waits for the other side (`Pending`, with the
    /// waker kept); after the other side opened it is open at once.
    pub fn poll_open<F: FnOnce() -> B>(&mut self, waker: std::task::Waker, make_buf: F) -> (r: Poll<
        Result<(), ChannelInUse>,
    >)
        requires
            make_buf.requires(()),
        ensures
            final(self)@ == open_step(old(self)@).0,
            match open_step(old(self)@).1 {
                Some(x) => r == Poll::Ready(x),
                None => r == Poll::<Result<(), ChannelInUse>>::Pending,
            },
    {
        match self {
            ChannelState::Closed => {
                *self = ChannelState::SendOpen { buf: make_buf(), waker: Some(waker) };
                Poll::Pending
            },
            ChannelState::RecvOpen => {
                *self = ChannelState::Open(OpenChannel::new(make_buf()));
                Poll::Ready(Ok(()))
            },
            ChannelState::SendOpen { .. } | ChannelState::Open(_) => Poll::Ready(Err(ChannelInUse)),
        }
    }

    /// Whether a control frame from the other side can be taken without
    /// overflowing our permit counter.
    pub fn fits_control(&self, f: ChannelControlHeader) -> (r: bool)
        ensures
            r == control_fits(self@, f),
    {
        match (self, f) {
            (ChannelState::Open(o), ChannelControlHeader::Admit(p)) => o.our_available_permits
                <= u64::MAX - p as u64,
            _ => true,
        }
    }

    /// Whether the channel is closed.
    pub fn closed(&self) -> (r: bool)
        ensures
            r == (self@ == ChannelView::Closed),
    {
        match self {
            ChannelState::Closed => true,
            _ => false,
        }
    }

    /// Handles a control frame from the other side; returns the new state
    /// and the reply, if any.
    pub fn on_recv_control(self, f: ChannelControlHeader) -> (r: (Self, Option<ChannelControlHeader>))
        requires
            control_fits(self@, f),
        ensures
            (r.0@, r.1) == control_step(self@, f),
    {
        match (self, f) {
            (_, ChannelControlHeader::Reset) => (ChannelState::Closed, None),
            (ChannelState::Closed, ChannelControlHeader::Open(_)) => (ChannelState::RecvOpen, None),
            (ChannelState::SendOpen { buf, waker }, ChannelControlHeader::Open(_)) => {
                if let Some(w) = waker {
                    wake(w);
                }
                (ChannelState::Open(OpenChannel::new(buf)), None)
            },
            (_, ChannelControlHeader::Open(_)) => (
                ChannelState::Closed,
                Some(ChannelControlHeader::Reset),
            ),
            (ChannelState::Open(mut o), ChannelControlHeader::Admit(permits)) => {
                o.our_available_permits = o.our_available_permits + permits as u64;
                (ChannelState::Open(o), None)
            },
            (_, ChannelControlHeader::Admit(_)) => (
                ChannelState::Closed,
                Some(ChannelControlHeader::Reset),
            ),
        }
    }

    /// Decides what to admit, given the capacity the buffer reports.
    pub fn on_rx_capacity(&mut self, capacity: Poll<Option<u64>>) -> (r: Poll<ChannelControlHeader>)
        ensures
            (final(self)@, r) == adm_step(old(self)@, capacity),
            *final(self) matches ChannelState::Open(n) ==> (*old(self) matches ChannelState::Open(m)
                && n.buf == m.buf),
    {
        let their = match self {
            ChannelState::Open(o) => o.their_available_permits,
            _ => {
                return Poll::Pending;
            },
        };
        let actual_capacity: u64 = match capacity {
            Poll::Ready(Some(x)) => x,
            Poll::Ready(None) => {
                *self = ChannelState::Closed;
                return Poll::Ready(ChannelControlHeader::Reset);
            },
            Poll::Pending => 0,
        };
        if actual_capacity < their {
            // the buffer reports less room than it already granted: close to be safe
            *self = ChannelState::Closed;
            Poll::Ready(ChannelControlHeader::Reset)
        } else if actual_capacity == their {
            Poll::Pending
        } else {
            let needed_additional_permits = actual_capacity - their;
            let actual_additional_permits: u8 = if needed_additional_permits > 255 {
                255
            } else {
                needed_additional_permits as u8
            };
            match self {
                ChannelState::Open(o) => {
                    o.their_available_permits = o.their_available_permits
                        + actual_additional_permits as u64;
                },
                _ => {},
            }
            Poll::Ready(ChannelControlHeader::Admit(actual_additional_permits))
        }
    }
}

/// What a buffer offers to send, with its payload as a sequence.
pub open spec fn offer_view(offered: Poll<Option<Vec<u8>>>) -> Poll<Option<Seq<u8>>> {
    match offered {
        Poll::Ready(Some(d)) => Poll::Ready(Some(d@)),
        Poll::Ready(None) => Poll::Ready(None),
        Poll::Pending => Poll::Pending,
    }
}

/// What a channel sends, with its payload as a sequence.
pub open spec fn sent_view(sent: Poll<Option<ChannelDataFrame>>) -> Poll<Option<Seq<u8>>> {
    match sent {
        Poll::Ready(Some(d)) => Poll::Ready(Some(d@)),
        Poll::Ready(None) => Poll::Ready(None),
        Poll::Pending => Poll::Pending,
    }
}

impl<B> ChannelState<B> {
    /// Decides what to send, given what the buffer offered: a payload is sent
    /// only while we hold a permit, and spends it; a closed buffer closes the
    /// channel.
    pub fn on_tx_offer(&mut self, offered: Poll<Option<Vec<u8>>>) -> (r: Poll<Option<ChannelDataFrame>>)
        ensures
            (final(self)@, sent_view(r)) == tx_step(old(self)@, offer_view(offered)),
            *final(self) matches ChannelState::Open(n) ==> (*old(self) matches ChannelState::Open(m)
                && n.buf == m.buf),
    {
        let our = match self {
            ChannelState::Open(o) => o.our_available_permits,
            _ => {
                return Poll::Ready(None);
            },
        };
        if our == 0 {
            return Poll::Pending;
        }
        match offered {
            Poll::Ready(Some(x)) => {
                match self {
                    ChannelState::Open(o) => {
                        o.our_available_permits = o.our_available_permits - 1;
                    },
                    _ => {},
                }
                Poll::Ready(Some(ChannelDataFrame(x)))
            },
            Poll::Ready(None) => {
                *self = ChannelState::Closed;
                Poll::Ready(None)
            },
            Poll::Pending => Poll::Pending,
        }
    }

    /// Decides what follows handing received data to the buffer: a buffer
    /// that refuses it closes the channel, which answers with a reset.
    pub fn on_data_outcome(&mut self, accepted: Result<(), AcceptRxError>) -> (r: Option<
        ChannelControlHeader,
    >)
        ensures
            accepted is Ok ==> *final(self) == *old(self) && r is None,
            accepted is Err ==> final(self)@ == ChannelView::Closed && r == Some(
                ChannelControlHeader::Reset,
            ),
    {
        match accepted {
            Ok(_) => None,
            Err(_) => {
                *self = ChannelState::Closed;
                Some(ChannelControlHeader::Reset)
            },
        }
    }
}

/// What a data frame from the other side does to a channel, buffer
/// included: an open channel with a permit left hands exactly `data` to its
/// buffer, which answers as its own contract allows; the answer decides the
/// new state and reply, and an accepted payload leaves the buffer as it was
/// after taking it. Any other channel takes no data.
pub open spec fn recv_data_post<B: ChannelBuffer>(
    before: ChannelState<B>,
    data: Seq<u8>,
    after: ChannelState<B>,
    r: Option<ChannelControlHeader>,
) -> bool {
    match before {
        ChannelState::Open(o) => if o.their_available_permits == 0 {
            (after@, r) == data_step(before@, true)
        } else {
            exists|b: B, res: Result<(), AcceptRxError>|
                #![trigger o.buf.accept_rx_outcome(data, &b, res)]
                {
                    &&& o.buf.accept_rx_outcome(data, &b, res)
                    &&& (after@, r) == data_step(before@, res is Ok)
                    &&& res is Ok ==> (after matches ChannelState::Open(n) && n.buf == b)
                }
        },
        _ => (after@, r) == data_step(before@, true),
    }
}

/// What polling for an admit does to a channel, buffer included: an open
/// channel asks its buffer for its capacity once, and the buffer's answer,
/// as its own contract allows, decides the new state and the result, which
/// are what [`adm_step`] gives for it; the buffer stays as the poll left it.
/// A channel that is not open asks nothing and has nothing to admit.
pub open spec fn poll_adm_post<B: ChannelBuffer>(
    before: ChannelState<B>,
    after: ChannelState<B>,
    r: Poll<ChannelControlHeader>,
) -> bool {
    match before {
        ChannelState::Open(o) => exists|b: B, capacity: Poll<Option<u64>>|
            #![trigger o.buf.poll_rx_capacity_outcome(&b, capacity)]
            {
                &&& o.buf.poll_rx_capacity_outcome(&b, capacity)
                &&& (after@, r) == adm_step(before@, capacity)
                &&& after matches ChannelState::Open(n) ==> n.buf == b
            },
        _ => after == before && r is Pending,
    }
}

/// What polling for data to send does to a channel, buffer included: with a
/// send permit held, an open channel asks its buffer once, and the buffer's
/// answer, as its own contract allows, decides the new state and the result,
/// which are what [`tx_step`] gives for it (a payload is sent as offered, a
/// closed buffer closes the channel); the buffer stays as the poll left it.
/// Without a permit nothing is asked and nothing is sent, and a channel
/// that is not open reports its end.
pub open spec fn poll_tx_post<B: ChannelBuffer>(
    before: ChannelState<B>,
    after: ChannelState<B>,
    r: Poll<Option<ChannelDataFrame>>,
) -> bool {
    match before {
        ChannelState::Open(o) => if o.our_available_permits == 0 {
            after@ == before@ && r is Pending
        } else {
            exists|b: B, offered: Poll<Option<Vec<u8>>>|
                #![trigger o.buf.poll_tx_outcome(&b, offered)]
                {
                    &&& o.buf.poll_tx_outcome(&b, offered)
                    &&& (after@, sent_view(r)) == tx_step(before@, offer_view(offered))
                    &&& after matches ChannelState::Open(n) ==> n.buf == b
                }
        },
        _ => after == before && r == Poll::<Option<ChannelDataFrame>>::Ready(None),
    }
}

impl<B: ChannelBuffer> ChannelState<B> {
    /// Handles a data frame from the other side. It spends one of their
    /// permits and goes to the buffer; without a permit, or when the buffer
    /// refuses it, the channel closes and answers with a reset.
    pub fn on_recv_data(&mut self, data: ChannelDataFrame) -> (r: Option<ChannelControlHeader>)
        ensures
            exists|accepted: bool| (final(self)@, r) == data_step(old(self)@, accepted),
            recv_data_post(*old(self), data@, *final(self), r),
    {
        let accepted = match self {
            ChannelState::Open(o) => {
                if o.their_available_permits == 0 {
                    // the other side sent more than it was admitted
                    *self = ChannelState::Closed;
                    assert((self@, Some(ChannelControlHeader::Reset)) == data_step(
                        old(self)@,
                        true,
                    ));
                    return Some(ChannelControlHeader::Reset);
                }
                o.their_available_permits = o.their_available_permits - 1;
                if let Some(w) = o.rx_waker.take() {
                    wake(w);
                }
                let ghost b0 = o.buf;
                let res = o.buf.accept_rx(data.0);
                assert(b0.accept_rx_outcome(data@, &o.buf, res));
                res
            },
            _ => {
                assert((self@, None::<ChannelControlHeader>) == data_step(old(self)@, true));
                return None;
            },
        };
        let ghost ok = accepted is Ok;
        let ghost mid = *self;
        let r = self.on_data_outcome(accepted);
        assert((self@, r) == data_step(old(self)@, ok));
        proof {
            let b = match mid {
                ChannelState::Open(n) => n.buf,
                _ => arbitrary(),
            };
            assert(mid matches ChannelState::Open(_));
            match *old(self) {
                ChannelState::Open(o) => {
                    assert(o.buf.accept_rx_outcome(data@, &b, accepted));
                },
                _ => {},
            }
        }
        r
    }

    /// Polls whether an admit should be sent: asks the buffer for its
    /// capacity and decides as [`Self::on_rx_capacity`] does.
    pub fn poll_next_adm(&mut self) -> (r: Poll<ChannelControlHeader>)
        ensures
            exists|capacity: Poll<Option<u64>>| (final(self)@, r) == adm_step(old(self)@, capacity),
            poll_adm_post(*old(self), *final(self), r),
    {
        let ghost start = *self;
        let capacity = match self {
            ChannelState::Open(o) => {
                let ghost b0 = o.buf;
                let c = o.buf.poll_rx_capacity();
                assert(b0.poll_rx_capacity_outcome(&o.buf, c));
                c
            },
            _ => {
                assert((self@, Poll::<ChannelControlHeader>::Pending) == adm_step(
                    old(self)@,
                    Poll::Pending,
                ));
                return Poll::Pending;
            },
        };
        let ghost before = self@;
        let ghost mid = *self;
        let r = self.on_rx_capacity(capacity);
        assert(before == old(self)@);
        proof {
            let b = match mid {
                ChannelState::Open(n) => n.buf,
                _ => arbitrary(),
            };
            match start {
                ChannelState::Open(o) => {
                    assert(o.buf.poll_rx_capacity_outcome(&b, capacity));
                },
                _ => {},
            }
        }
        r
    }

    /// Polls for a data frame to send: one is sent only while we hold a
    /// permit, and each one spends a permit. Without a permit, `waker` is
    /// kept to run the sender again once permits arrive.
    pub fn poll_next_tx(&mut self, waker: std::task::Waker) -> (r: Poll<Option<ChannelDataFrame>>)
        ensures
            exists|offered: Poll<Option<Seq<u8>>>|
                (final(self)@, sent_view(r)) == tx_step(old(self)@, offered),
            poll_tx_post(*old(self), *final(self), r),
    {
        let ghost start = *self;
        let offered = match self {
            ChannelState::Open(o) => {
                if o.our_available_permits == 0 {
                    o.tx_waker = Some(waker);
                    assert((self@, Poll::<Option<Seq<u8>>>::Pending) == tx_step(
                        old(self)@,
                        Poll::Pending,
                    ));
                    return Poll::Pending;
                }
                let ghost b0 = o.buf;
                let offer = o.buf.poll_tx();
                assert(b0.poll_tx_outcome(&o.buf, offer));
                offer
            },
            _ => {
                assert((self@, Poll::<Option<Seq<u8>>>::Ready(None)) == tx_step(
                    old(self)@,
                    Poll::Pending,
                ));
                return Poll::Ready(None);
            },
        };
        let ghost before = self@;
        let ghost mid = *self;
        let ghost offer0 = offered;
        let r = self.on_tx_offer(offered);
        assert(before == old(self)@);
        proof {
            let b = match mid {
                ChannelState::Open(n) => n.buf,
                _ => arbitrary(),
            };
            match start {
                ChannelState::Open(o) => {
                    assert(o.buf.poll_tx_outcome(&b, offer0));
                },
                _ => {},
            }
        }
        r
    }
}

} // verus!

verus! {

// ---------------------------------------------------------------------------
// Laws
// ---------------------------------------------------------------------------

/// The view of an open channel with the given permit counters.
pub open spec fn open_view(their: u64, our: u64) -> ChannelView {
    ChannelView::Open { their, our }
}

/// A reset from the other side closes the channel in every state, and is
/// never answered.
pub proof fn lemma_reset_closes(c: ChannelView)
    ensures
        control_step(c, ChannelControlHeader::Reset) == (
            ChannelView::Closed,
            None::<ChannelControlHeader>,
        ),
{
}

/// Opening is symmetric: whether we open first and the other side's open
/// arrives later, or the other side's open arrives first and we open later,
/// the channel ends up open with no permits either way.
pub proof fn lemma_open_handshake(size: u8)
    ensures
        control_step(open_step(ChannelView::Closed).0, ChannelControlHeader::Open(size)).0
            == open_view(0, 0),
        open_step(control_step(ChannelView::Closed, ChannelControlHeader::Open(size)).0).0
            == open_view(0, 0),
        open_step(control_step(ChannelView::Closed, ChannelControlHeader::Open(size)).0).1
            == Some(Ok::<(), ChannelInUse>(())),
{
}

/// Admission never promises more than the buffer holds: after an admit the
/// other side's permits equal what it had plus the admitted amount, at most
/// 255 at a time, and never more than the reported capacity.
pub proof fn lemma_admit_within_capacity(their: u64, our: u64, capacity: Poll<Option<u64>>)
    ensures
        ({
            let (c, r) = adm_step(open_view(their, our), capacity);
            r matches Poll::Ready(ChannelControlHeader::Admit(p)) ==> (capacity matches Poll::Ready(
                Some(n),
            ) && 0 < p && their + p <= n && c == open_view((their + p) as u64, our))
        }),
{
}

/// Every data frame from the other side spends exactly one of its permits;
/// one sent without a permit closes the channel and is answered with a
/// reset.
pub proof fn lemma_data_spends_a_permit(their: u64, our: u64, accepted: bool)
    ensures
        their == 0 ==> data_step(open_view(their, our), accepted) == (
            ChannelView::Closed,
            Some(ChannelControlHeader::Reset),
        ),
        their > 0 && accepted ==> data_step(open_view(their, our), accepted) == (
            open_view((their - 1) as u64, our),
            None::<ChannelControlHeader>,
        ),
{
}

/// We never send more data frames than we were admitted: with no permit
/// nothing is sent, each frame sent spends one permit, and an admit of `p`
/// adds exactly `p`.
pub proof fn lemma_send_within_permits(their: u64, our: u64, offered: Poll<Option<Seq<u8>>>, p: u8)
    requires
        our + p <= u64::MAX,
    ensures
        our == 0 ==> tx_step(open_view(their, our), offered).1 is Pending,
        tx_step(open_view(their, our), offered).1 is Ready && tx_step(
            open_view(their, our),
            offered,
        ).1 != Poll::Ready(None::<Seq<u8>>) ==> our > 0 && tx_step(open_view(their, our), offered).0
            == open_view(their, (our - 1) as u64),
        control_step(open_view(their, our), ChannelControlHeader::Admit(p)).0 == open_view(
            their,
            (our + p) as u64,
        ),
{
}

/// With a send permit held, a channel passes on what its buffer answers: a
/// payload is sent unchanged and spends the permit, a closed buffer closes
/// the channel and ends its stream, and a buffer with nothing ready leaves
/// the channel as it is.
pub proof fn lemma_tx_follows_the_buffer(their: u64, our: u64, x: Seq<u8>)
    requires
        our > 0,
    ensures
        tx_step(open_view(their, our), Poll::Ready(None)) == (
            ChannelView::Closed,
            Poll::Ready(None::<Seq<u8>>),
        ),
        tx_step(open_view(their, our), Poll::Ready(Some(x))) == (
            open_view(their, (our - 1) as u64),
            Poll::Ready(Some(x)),
        ),
        tx_step(open_view(their, our), Poll::Pending) == (
            open_view(their, our),
            Poll::<Option<Seq<u8>>>::Pending,
        ),
{
}

/// An open channel learns of a closed buffer from its receive side too: a
/// buffer that reports no capacity at all closes the channel with a reset.
pub proof fn lemma_closed_buffer_resets(their: u64, our: u64)
    ensures
        adm_step(open_view(their, our), Poll::Ready(None)) == (
            ChannelView::Closed,
            Poll::Ready(ChannelControlHeader::Reset),
        ),
{
}

} // verus!
