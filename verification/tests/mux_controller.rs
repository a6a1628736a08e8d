use caligula::stdiomux::channel::state::NullChannelBuffer;
use caligula::stdiomux::frame::{
    ChannelControlHeader, ChannelDataFrame, ChannelId, Frame, MuxControlHeader,
};
use caligula::stdiomux::mux::state::{ClosedReason, MuxState};
use caligula::stdiomux::mux::tokio::{close, next_send, sort_polled_frames, SendChoice};

fn data(id: u16, bytes: &[u8]) -> Frame {
    Frame::ChannelData(ChannelId(id), ChannelDataFrame(bytes.to_vec()))
}

#[test]
fn polled_frames_are_sorted_by_priority_in_order() {
    let frames = vec![
        data(1, b"a"),
        Frame::ChannelControl(ChannelId(1), ChannelControlHeader::Admit(3)),
        data(2, b"b"),
        Frame::MuxControl(MuxControlHeader::Terminate),
        data(1, b"c"),
        Frame::ChannelControl(ChannelId(2), ChannelControlHeader::Reset),
    ];
    let (high, low) = sort_polled_frames(&frames);
    assert_eq!(
        high,
        vec![
            Frame::ChannelControl(ChannelId(1), ChannelControlHeader::Admit(3)),
            Frame::MuxControl(MuxControlHeader::Terminate),
            Frame::ChannelControl(ChannelId(2), ChannelControlHeader::Reset),
        ]
    );
    assert_eq!(low, vec![data(1, b"a"), data(2, b"b"), data(1, b"c")]);
}

#[test]
fn sorting_no_frames_gives_nothing() {
    let (high, low) = sort_polled_frames(&vec![]);
    assert!(high.is_empty());
    assert!(low.is_empty());
}

#[test]
fn close_keeps_the_first_reason() {
    let mut state = MuxState::<NullChannelBuffer>::opened();
    close(&mut state, ClosedReason::TransportClosed);
    assert_eq!(state, MuxState::Closed(Err(ClosedReason::TransportClosed)));
    close(&mut state, ClosedReason::QueueClosed);
    assert_eq!(state, MuxState::Closed(Err(ClosedReason::TransportClosed)));

    let mut finished = MuxState::<NullChannelBuffer>::Closed(Ok(()));
    close(&mut finished, ClosedReason::Reset);
    assert_eq!(finished, MuxState::Closed(Ok(())));
}

#[test]
fn priority_frames_go_before_data_and_data_goes_in_order() {
    let bulk = vec![
        Frame::ChannelData(ChannelId(1), ChannelDataFrame(vec![1])),
        Frame::ChannelData(ChannelId(2), ChannelDataFrame(vec![2])),
    ];
    assert_eq!(next_send(true, &bulk, 0), SendChoice::Priority);
    assert_eq!(next_send(false, &bulk, 0), SendChoice::Bulk(0));
    assert_eq!(next_send(true, &bulk, 1), SendChoice::Priority);
    assert_eq!(next_send(false, &bulk, 1), SendChoice::Bulk(1));
    assert_eq!(next_send(false, &bulk, 2), SendChoice::Done);
    assert_eq!(next_send(true, &bulk, 2), SendChoice::Priority);
}
