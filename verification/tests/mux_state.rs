use std::task::Waker;

use caligula::stdiomux::channel::state::{NullChannelBuffer, Poll};
use caligula::stdiomux::frame::{ChannelControlHeader, ChannelDataFrame, ChannelId, Frame, MuxControlHeader};
use caligula::stdiomux::mux::channel::state::OpenChannelError;
use caligula::stdiomux::mux::state::{self, ClosedReason, MuxNotOpen};

type MuxState = state::MuxState<NullChannelBuffer>;
type ActiveData = state::ActiveData<NullChannelBuffer>;

fn mux(f: MuxControlHeader) -> Frame {
    Frame::MuxControl(f)
}

#[test]
fn test_muxstate_default_is_closed_panicked() {
    let state = MuxState::default();
    assert_eq!(state, MuxState::Closed(Err(ClosedReason::Panicked)));
}

#[test]
fn test_muxstate_opened_creates_active_state() {
    let state = MuxState::opened();
    assert_eq!(state, MuxState::Active(ActiveData::default()));
}

fn hello_case(mut state: MuxState, expected_state: MuxState) {
    let reply = state.on_recv(mux(MuxControlHeader::Hello));
    assert_eq!(state, expected_state);
    assert_eq!(reply, Some(mux(MuxControlHeader::Reset)));
}

#[test]
fn test_hello_frame_handling() {
    hello_case(MuxState::Closed(Ok(())), MuxState::Closed(Ok(())));
    hello_case(
        MuxState::Closed(Err(ClosedReason::Reset)),
        MuxState::Closed(Err(ClosedReason::Reset)),
    );
    hello_case(
        MuxState::opened(),
        MuxState::Closed(Err(ClosedReason::UnexpectedFrame(mux(MuxControlHeader::Hello)))),
    );
    hello_case(
        MuxState::Terminating(ActiveData::default()),
        MuxState::Closed(Err(ClosedReason::UnexpectedFrame(mux(MuxControlHeader::Hello)))),
    );
}

fn frame_case(mut state: MuxState, frame: Frame, expected_state: MuxState, expected_reply: Option<Frame>) {
    let reply = state.on_recv(frame);
    assert_eq!(state, expected_state);
    assert_eq!(reply, expected_reply);
}

#[test]
fn test_reset_frame_handling() {
    let reset = || mux(MuxControlHeader::Reset);
    frame_case(MuxState::Closed(Ok(())), reset(), MuxState::Closed(Ok(())), None);
    frame_case(
        MuxState::Closed(Err(ClosedReason::Reset)),
        reset(),
        MuxState::Closed(Err(ClosedReason::Reset)),
        None,
    );
    frame_case(MuxState::opened(), reset(), MuxState::Closed(Err(ClosedReason::Reset)), None);
    frame_case(
        MuxState::Terminating(ActiveData::default()),
        reset(),
        MuxState::Closed(Err(ClosedReason::Reset)),
        None,
    );
}

#[test]
fn test_finished_frame_handling() {
    let finished = || mux(MuxControlHeader::Finished);
    frame_case(
        MuxState::opened(),
        finished(),
        MuxState::Closed(Err(ClosedReason::UnexpectedFrame(finished()))),
        Some(mux(MuxControlHeader::Reset)),
    );
    frame_case(
        MuxState::Terminating(ActiveData::default()),
        finished(),
        MuxState::Closed(Ok(())),
        None,
    );
}

#[test]
fn test_terminate_frame_handling() {
    let terminate = || mux(MuxControlHeader::Terminate);
    frame_case(
        MuxState::opened(),
        terminate(),
        MuxState::Terminating(ActiveData::default()),
        Some(terminate()),
    );
    frame_case(
        MuxState::Terminating(ActiveData::default()),
        terminate(),
        MuxState::Closed(Err(ClosedReason::UnexpectedFrame(terminate()))),
        Some(mux(MuxControlHeader::Reset)),
    );
}

#[test]
fn test_non_reset_frame_when_closed_sends_reset() {
    for frame in [mux(MuxControlHeader::Terminate), mux(MuxControlHeader::Finished)] {
        let mut state = MuxState::Closed(Ok(()));
        let reply = state.on_recv(frame);
        assert_eq!(state, MuxState::Closed(Ok(())));
        assert_eq!(reply, Some(mux(MuxControlHeader::Reset)));
    }
}

#[test]
fn test_graceful_shutdown_sequence() {
    // Start with Active state
    let mut state = MuxState::opened();

    // Receive Terminate -> should transition to Terminating
    let reply = state.on_recv(mux(MuxControlHeader::Terminate));
    assert_eq!(state, MuxState::Terminating(ActiveData::default()));
    assert_eq!(reply, Some(mux(MuxControlHeader::Terminate)));

    // Receive Finished -> should close gracefully
    let reply = state.on_recv(mux(MuxControlHeader::Finished));
    assert_eq!(state, MuxState::Closed(Ok(())));
    assert_eq!(reply, None);
}

#[test]
fn test_unexpected_frame_after_reset() {
    // Close with Reset
    let mut state = MuxState::opened();
    let _ = state.on_recv(mux(MuxControlHeader::Reset));
    assert_eq!(state, MuxState::Closed(Err(ClosedReason::Reset)));

    // Try to send Terminate - should get Reset back
    let reply = state.on_recv(mux(MuxControlHeader::Terminate));
    assert_eq!(state, MuxState::Closed(Err(ClosedReason::Reset)));
    assert_eq!(reply, Some(mux(MuxControlHeader::Reset)));
}

#[test]
fn test_closed_reason_display() {
    let reason = ClosedReason::Reset;
    assert_eq!(reason.to_string(), "Connection reset");

    let reason = ClosedReason::Panicked;
    assert_eq!(reason.to_string(), "Panicked during operation");
}

#[test]
fn test_closed_reason_clone() {
    let reason1 = ClosedReason::Reset;
    let reason2 = reason1.clone();
    assert_eq!(reason1, reason2);
}

#[test]
fn test_active_data_default() {
    let data = ActiveData::default();
    assert_eq!(data.channel_count(), 0);
}

#[test]
fn test_multiple_resets_dont_cycle() {
    let mut state = MuxState::Closed(Ok(()));

    // First reset
    let reply = state.on_recv(mux(MuxControlHeader::Reset));
    assert_eq!(state, MuxState::Closed(Ok(())));
    assert_eq!(reply, None); // No response to prevent cycles

    // Second reset
    let reply = state.on_recv(mux(MuxControlHeader::Reset));
    assert_eq!(state, MuxState::Closed(Ok(())));
    assert_eq!(reply, None); // Still no response
}

#[test]
fn test_state_preserves_closure_reason() {
    // Close with Reset
    let mut state = MuxState::Closed(Err(ClosedReason::Reset));

    // Send another frame
    state.on_recv(mux(MuxControlHeader::Terminate));

    // Should still be closed with the first reason
    assert_eq!(state, MuxState::Closed(Err(ClosedReason::Reset)));
}

#[test]
fn transport_failures_are_never_equal() {
    let a = ClosedReason::TransportFailure("pipe broke".to_string());
    assert_ne!(a, a.clone());
    assert_eq!(a.to_string(), "Transport failure: pipe broke");
    assert!(ClosedReason::UnexpectedFrame(mux(MuxControlHeader::Hello))
        .to_string()
        .starts_with("Got frame "));
}

#[test]
fn terminating_refuses_channel_opens() {
    let mut state = MuxState::Terminating(ActiveData::default());
    let reply = state.on_recv(Frame::ChannelControl(ChannelId(3), ChannelControlHeader::Open(8)));
    assert_eq!(
        reply,
        Some(Frame::ChannelControl(ChannelId(3), ChannelControlHeader::Reset))
    );
    assert_eq!(state, MuxState::Terminating(ActiveData::default()));
}

#[test]
fn remote_open_then_local_open_opens_the_channel() {
    let mut state = MuxState::opened();
    let id = ChannelId(5);
    assert_eq!(state.on_recv(Frame::ChannelControl(id, ChannelControlHeader::Open(4))), None);
    let r = state.open_channel(id, Waker::noop().clone(), || NullChannelBuffer);
    assert_eq!(r, Poll::Ready(Ok(())));
    // opening it again is refused
    let r = state.open_channel(id, Waker::noop().clone(), || NullChannelBuffer);
    assert_eq!(r, Poll::Ready(Err(OpenChannelError::ChannelInUse)));

    // the null buffer has room for 100 payloads: the first round admits 100
    let sends = state.poll_sends(Waker::noop()).unwrap();
    assert_eq!(
        sends,
        vec![Frame::ChannelControl(id, ChannelControlHeader::Admit(100))]
    );
    // the next round has nothing more to admit
    assert_eq!(state.poll_sends(Waker::noop()).unwrap(), vec![]);

    // data within the admitted permits is accepted silently
    let reply = state.on_recv(Frame::ChannelData(id, ChannelDataFrame(vec![1, 2, 3])));
    assert_eq!(reply, None);
}

#[test]
fn local_open_waits_for_the_other_side() {
    let mut state = MuxState::opened();
    let id = ChannelId(9);
    let r = state.open_channel(id, Waker::noop().clone(), || NullChannelBuffer);
    assert_eq!(r, Poll::Pending);
    assert_eq!(state.on_recv(Frame::ChannelControl(id, ChannelControlHeader::Open(1))), None);
    assert_eq!(
        state.poll_sends(Waker::noop()).unwrap(),
        vec![Frame::ChannelControl(id, ChannelControlHeader::Admit(100))]
    );
}

#[test]
fn data_on_unknown_channel_is_dropped() {
    let mut state = MuxState::opened();
    let reply = state.on_recv(Frame::ChannelData(ChannelId(1), ChannelDataFrame(vec![0])));
    assert_eq!(reply, None);
    // the closed channel entry is cleaned up by the next round of sends
    assert_eq!(state.poll_sends(Waker::noop()).unwrap(), vec![]);
    assert_eq!(state, MuxState::opened());
}

#[test]
fn admit_on_unopened_channel_is_reset() {
    let mut state = MuxState::opened();
    let reply = state.on_recv(Frame::ChannelControl(ChannelId(2), ChannelControlHeader::Admit(3)));
    assert_eq!(
        reply,
        Some(Frame::ChannelControl(ChannelId(2), ChannelControlHeader::Reset))
    );
}

#[test]
fn closed_mux_refuses_opens_and_sends() {
    let mut state = MuxState::Closed(Ok(()));
    assert_eq!(state.poll_sends(Waker::noop()), Err(MuxNotOpen));
    let r = state.open_channel(ChannelId(1), Waker::noop().clone(), || NullChannelBuffer);
    assert_eq!(r, Poll::Ready(Err(OpenChannelError::MuxNotOpen(MuxNotOpen))));
}

#[test]
fn closed_reason_texts_of_the_other_reasons() {
    let f = Frame::ChannelControl(ChannelId(3), ChannelControlHeader::Admit(9));
    assert_eq!(
        ClosedReason::UnexpectedFrame(f.clone()).to_string(),
        "Got frame ChannelControl(ChannelId(3), Admit(9))"
    );
    let d = Frame::ChannelData(ChannelId(1), ChannelDataFrame(b"hi\xff".to_vec()));
    assert_eq!(
        ClosedReason::UnexpectedFrame(d).to_string(),
        "Got frame ChannelData(ChannelId(1), ChannelDataFrame(b\"hi\\xff\"))"
    );
    assert_eq!(
        ClosedReason::TransportFailure("pipe broke".to_string()).to_string(),
        "Transport failure: pipe broke"
    );
    assert_eq!(ClosedReason::TransportClosed.to_string(), "Transport unexpectedly closed");
    assert_eq!(ClosedReason::QueueClosed.to_string(), "Queue unexpectedly closed");
}

#[test]
fn sends_round_admits_and_sends_per_channel() {
    let mut state = MuxState::opened();
    let reply = state.on_recv(Frame::ChannelControl(ChannelId(4), ChannelControlHeader::Open(0)));
    assert_eq!(reply, None);
    assert_eq!(
        state.open_channel(ChannelId(4), Waker::noop().clone(), || NullChannelBuffer),
        Poll::Ready(Ok(()))
    );
    let frames = state.poll_sends(Waker::noop()).unwrap();
    assert_eq!(
        frames,
        vec![Frame::ChannelControl(ChannelId(4), ChannelControlHeader::Admit(100))]
    );
    // nothing more to admit, nothing to send
    assert_eq!(state.poll_sends(Waker::noop()).unwrap(), vec![]);
    assert_eq!(MuxState::Closed(Ok(())).poll_sends(Waker::noop()), Err(MuxNotOpen));
}
