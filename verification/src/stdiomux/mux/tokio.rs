//! Decisions of the asynchronous multiplexer controller: which polled frames
//! jump the queue, and how the controller closes.
use vstd::prelude::*;

use crate::stdiomux::frame::{Frame, FrameModel};
use crate::stdiomux::mux::state::{
    closed_result_view, frame_models, ClosedReason, MuxState, MuxView,
};

verus! {

/// A channel's user side is gone.
#[derive(Debug, PartialEq, Eq, Structural, Clone, Copy)]
pub struct Disconnected;

/// Whether a frame is sent ahead of channel data: control frames are.
pub open spec fn is_priority(m: FrameModel) -> bool {
    !(m is ChannelData)
}

/// The frames, in order, that go to the priority queue.
pub open spec fn priority_frames(frames: Seq<FrameModel>) -> Seq<FrameModel> {
    frames.filter(|m: FrameModel| is_priority(m))
}

/// The frames, in order, that wait behind the priority queue.
pub open spec fn bulk_frames(frames: Seq<FrameModel>) -> Seq<FrameModel> {
    frames.filter(|m: FrameModel| !is_priority(m))
}

/// Sorting loses no frame and makes none up: every polled frame goes to
/// exactly one of the two queues.
pub proof fn lemma_sorting_keeps_every_frame(frames: Seq<FrameModel>)
    ensures
        priority_frames(frames).len() + bulk_frames(frames).len() == frames.len(),
        forall|m: FrameModel|
            frames.contains(m) <==> (priority_frames(frames).contains(m) || bulk_frames(
                frames,
            ).contains(m)),
    decreases frames.len(),
{
    let high = |m: FrameModel| is_priority(m);
    let low = |m: FrameModel| !is_priority(m);
    if frames.len() > 0 {
        lemma_sorting_keeps_every_frame(frames.drop_last());
        reveal(Seq::filter);
    }
    assert forall|m: FrameModel|
        frames.contains(m) <==> (priority_frames(frames).contains(m) || bulk_frames(
            frames,
        ).contains(m)) by {
        if frames.contains(m) {
            let i = choose|i: int| 0 <= i < frames.len() && frames[i] == m;
            if is_priority(m) {
                frames.lemma_filter_contains(high, i);
            } else {
                frames.lemma_filter_contains(low, i);
            }
        }
        if priority_frames(frames).contains(m) {
            frames.lemma_filter_contains_rev(high, m);
        }
        if bulk_frames(frames).contains(m) {
            frames.lemma_filter_contains_rev(low, m);
        }
    }
}

/// Sorts the frames polled from the state machine into those sent at once
/// (multiplexer and channel control) and channel data, each in the order
/// polled.
pub fn sort_polled_frames(frames: &Vec<Frame>) -> (r: (Vec<Frame>, Vec<Frame>))
    ensures
        frame_models(r.0@) == priority_frames(frame_models(frames@)),
        frame_models(r.1@) == bulk_frames(frame_models(frames@)),
{
    let mut high: Vec<Frame> = Vec::new();
    let mut low: Vec<Frame> = Vec::new();
    let mut i: usize = 0;
    while i < frames.len()
        invariant
            i <= frames@.len(),
            frame_models(high@) == priority_frames(frame_models(frames@.take(i as int))),
            frame_models(low@) == bulk_frames(frame_models(frames@.take(i as int))),
        decreases frames.len() - i,
    {
        let ghost before = frames@.take(i as int);
        let ghost after = frames@.take(i + 1);
        proof {
            assert(after.drop_last() =~= before);
            assert(frame_models(after).drop_last() =~= frame_models(before));
            assert(frame_models(after).last() == frames@[i as int]@);
            reveal(Seq::filter);
        }
        let f = frames[i].clone();
        let ghost hi = high@;
        let ghost lo = low@;
        match &f {
            Frame::ChannelData(_, _) => {
                low.push(f);
                proof {
                    assert(frame_models(low@) =~= frame_models(lo).push(frames@[i as int]@));
                }
            },
            _ => {
                high.push(f);
                proof {
                    assert(frame_models(high@) =~= frame_models(hi).push(frames@[i as int]@));
                }
            },
        }
        i = i + 1;
    }
    proof {
        assert(frames@.take(frames@.len() as int) =~= frames@);
    }
    (high, low)
}

/// Closes the multiplexer with `reason`, unless it is already closed: the
/// first reason to close it is the one kept.
pub fn close<B>(state: &mut MuxState<B>, reason: ClosedReason)
    ensures
        old(state)@ is Closed ==> final(state)@ == old(state)@,
        !(old(state)@ is Closed) ==> final(state)@ == MuxView::Closed(
            closed_result_view(Err(reason)),
        ),
{
    if state.closed() {
        return ;
    }
    *state = MuxState::Closed(Err(reason));
}

/// What the sending loop of a round sends next.
#[derive(Debug, PartialEq, Eq, Structural, Clone, Copy)]
pub enum SendChoice {
    /// The frame waiting in the priority queue.
    Priority,
    /// The data frame at this position of the round's data frames.
    Bulk(usize),
    /// The round is over.
    Done,
}

/// The sending order of a round: whatever waits in the priority queue goes
/// first; the round's data frames go in order, one at a time, only while the
/// priority queue is empty; the round ends when both are exhausted.
pub open spec fn next_send_spec(priority_waiting: bool, bulk_len: nat, bulk_sent: nat) -> SendChoice {
    if priority_waiting {
        SendChoice::Priority
    } else if bulk_sent < bulk_len {
        SendChoice::Bulk(bulk_sent as usize)
    } else {
        SendChoice::Done
    }
}

/// Decides what the sending loop sends next, given whether a frame waits in
/// the priority queue and how many of the round's data frames were sent.
pub fn next_send(priority_waiting: bool, bulk: &[Frame], bulk_sent: usize) -> (r: SendChoice)
    requires
        bulk_sent <= bulk@.len(),
    ensures
        r == next_send_spec(priority_waiting, bulk@.len(), bulk_sent as nat),
{
    if priority_waiting {
        SendChoice::Priority
    } else if bulk_sent < bulk.len() {
        SendChoice::Bulk(bulk_sent)
    } else {
        SendChoice::Done
    }
}

} // verus!
