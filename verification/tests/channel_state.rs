use std::collections::VecDeque;
use std::task::Waker;

use caligula::stdiomux::channel::state::{
    AcceptRxError, ChannelBuffer, ChannelInUse, ChannelState, NullChannelBuffer, Poll,
};
use caligula::stdiomux::frame::{ChannelControlHeader, ChannelDataFrame};

/// A buffer with a fixed number of free slots and a queue of payloads to send.
#[derive(Debug, Default)]
struct QueueBuffer {
    room: u64,
    received: Vec<Vec<u8>>,
    outgoing: VecDeque<Vec<u8>>,
}

impl ChannelBuffer for QueueBuffer {
    fn poll_rx_capacity(&mut self) -> Poll<Option<u64>> {
        Poll::Ready(Some(self.room))
    }

    fn accept_rx(&mut self, data: Vec<u8>) -> Result<(), AcceptRxError> {
        if self.room == 0 {
            return Err(AcceptRxError::OutOfCapacity);
        }
        self.room -= 1;
        self.received.push(data);
        Ok(())
    }

    fn poll_tx(&mut self) -> Poll<Option<Vec<u8>>> {
        match self.outgoing.pop_front() {
            Some(x) => Poll::Ready(Some(x)),
            None => Poll::Pending,
        }
    }
}

fn waker() -> Waker {
    Waker::noop().clone()
}

fn opened(buf: QueueBuffer) -> ChannelState<QueueBuffer> {
    let mut c = ChannelState::new_closed();
    let (c2, reply) = c.on_recv_control(ChannelControlHeader::Open(0));
    c = c2;
    assert_eq!(reply, None);
    assert_eq!(c.poll_open(waker(), move || buf), Poll::Ready(Ok(())));
    c
}

#[test]
fn open_from_our_side_waits_for_theirs() {
    let mut c = ChannelState::<NullChannelBuffer>::new_closed();
    assert!(c.closed());
    assert_eq!(c.poll_open(waker(), || NullChannelBuffer), Poll::Pending);
    assert!(matches!(c, ChannelState::SendOpen { .. }));
    assert_eq!(
        c.poll_open(waker(), || NullChannelBuffer),
        Poll::Ready(Err(ChannelInUse))
    );
    let (c, reply) = c.on_recv_control(ChannelControlHeader::Open(0));
    assert_eq!(reply, None);
    match c {
        ChannelState::Open(o) => {
            assert_eq!(o.their_available_permits, 0);
            assert_eq!(o.our_available_permits, 0);
        }
        other => panic!("unexpected {other:?}"),
    }
}

#[test]
fn second_open_from_their_side_is_reset() {
    let c = opened(QueueBuffer::default());
    let (c, reply) = c.on_recv_control(ChannelControlHeader::Open(0));
    assert!(c.closed());
    assert_eq!(reply, Some(ChannelControlHeader::Reset));
}

#[test]
fn reset_closes_silently() {
    let c = opened(QueueBuffer::default());
    let (c, reply) = c.on_recv_control(ChannelControlHeader::Reset);
    assert!(c.closed());
    assert_eq!(reply, None);
}

#[test]
fn admits_grow_to_the_buffer_capacity_in_steps_of_at_most_255() {
    let mut c = opened(QueueBuffer::default());
    assert_eq!(
        c.on_rx_capacity(Poll::Ready(Some(300))),
        Poll::Ready(ChannelControlHeader::Admit(255))
    );
    assert_eq!(
        c.on_rx_capacity(Poll::Ready(Some(300))),
        Poll::Ready(ChannelControlHeader::Admit(45))
    );
    assert_eq!(c.on_rx_capacity(Poll::Ready(Some(300))), Poll::Pending);
    match &c {
        ChannelState::Open(o) => assert_eq!(o.their_available_permits, 300),
        other => panic!("unexpected {other:?}"),
    }
    // less room than already granted: the channel gives up
    assert_eq!(
        c.on_rx_capacity(Poll::Ready(Some(10))),
        Poll::Ready(ChannelControlHeader::Reset)
    );
    assert!(c.closed());
}

#[test]
fn closed_buffer_resets_the_channel() {
    let mut c = opened(QueueBuffer::default());
    assert_eq!(
        c.on_rx_capacity(Poll::Ready(None)),
        Poll::Ready(ChannelControlHeader::Reset)
    );
    assert!(c.closed());
}

#[test]
fn data_without_a_permit_resets() {
    let mut c = opened(QueueBuffer { room: 5, ..Default::default() });
    assert_eq!(
        c.on_recv_data(ChannelDataFrame(vec![1])),
        Some(ChannelControlHeader::Reset)
    );
    assert!(c.closed());
}

#[test]
fn data_with_a_permit_reaches_the_buffer() {
    let mut c = opened(QueueBuffer { room: 2, ..Default::default() });
    assert_eq!(c.poll_next_adm(), Poll::Ready(ChannelControlHeader::Admit(2)));
    assert_eq!(c.on_recv_data(ChannelDataFrame(vec![1, 2])), None);
    match &c {
        ChannelState::Open(o) => {
            assert_eq!(o.their_available_permits, 1);
            assert_eq!(o.buf.received, vec![vec![1, 2]]);
        }
        other => panic!("unexpected {other:?}"),
    }
}

#[test]
fn sends_wait_for_permits() {
    let mut buf = QueueBuffer::default();
    buf.outgoing.push_back(vec![7]);
    buf.outgoing.push_back(vec![8]);
    let mut c = opened(buf);
    assert_eq!(c.poll_next_tx(waker()), Poll::Pending);
    let (mut c, reply) = c.on_recv_control(ChannelControlHeader::Admit(1));
    assert_eq!(reply, None);
    assert_eq!(c.poll_next_tx(waker()), Poll::Ready(Some(ChannelDataFrame(vec![7]))));
    assert_eq!(c.poll_next_tx(waker()), Poll::Pending);
}

#[test]
fn closed_channel_sends_nothing() {
    let mut c = ChannelState::<NullChannelBuffer>::new_closed();
    assert_eq!(c.poll_next_tx(waker()), Poll::Ready(None));
    assert_eq!(c.poll_next_adm(), Poll::Pending);
    assert_eq!(c.on_recv_data(ChannelDataFrame(vec![])), None);
    let (c, reply) = c.on_recv_control(ChannelControlHeader::Admit(3));
    assert!(c.closed());
    assert_eq!(reply, Some(ChannelControlHeader::Reset));
}

#[test]
fn offers_are_sent_only_with_permits() {
    let mut c = opened(QueueBuffer::default());
    assert_eq!(c.on_tx_offer(Poll::Ready(Some(vec![1]))), Poll::Pending);
    let (mut c, _) = c.on_recv_control(ChannelControlHeader::Admit(2));
    assert_eq!(c.on_tx_offer(Poll::Pending), Poll::Pending);
    assert_eq!(
        c.on_tx_offer(Poll::Ready(Some(vec![1]))),
        Poll::Ready(Some(ChannelDataFrame(vec![1])))
    );
    match &c {
        ChannelState::Open(o) => assert_eq!(o.our_available_permits, 1),
        other => panic!("unexpected {other:?}"),
    }
    // a closed buffer closes the channel
    assert_eq!(c.on_tx_offer(Poll::Ready(None)), Poll::Ready(None));
    assert!(c.closed());
    assert_eq!(c.on_tx_offer(Poll::Ready(Some(vec![2]))), Poll::Ready(None));
}

#[test]
fn refused_data_resets_the_channel() {
    let mut c = opened(QueueBuffer::default());
    assert_eq!(c.on_data_outcome(Ok(())), None);
    assert!(!c.closed());
    assert_eq!(
        c.on_data_outcome(Err(AcceptRxError::OutOfCapacity)),
        Some(ChannelControlHeader::Reset)
    );
    assert!(c.closed());
}
