use vstd::prelude::*;

use crate::stdiomux::channel::state::{
    adm_step, control_fits, control_step, data_step, offer_view, open_step, poll_adm_post,
    poll_tx_post, recv_data_post, sent_view, tx_step, ChannelBuffer, ChannelState, ChannelView,
    Poll,
};
use crate::stdiomux::frame::{
    frame_debug_text, frames_equal, ChannelControlHeader, ChannelDataFrame, ChannelId, Frame,
    FrameModel, MuxControlHeader,
};
use crate::stdiomux::mux::channel::state::OpenChannelError;
use vstd::std_specs::cmp::PartialEqSpecImpl;

verus! {

/// State of the multiplexer.
#[derive(Debug)]
pub enum MuxState<B> {
    Active(ActiveData<B>),
    /// The other side asked to terminate; no new channels are accepted.
    Terminating(ActiveData<B>),
    Closed(Result<(), ClosedReason>),
}

/// Why the multiplexer closed.
#[derive(Debug)]
pub enum ClosedReason {
    Reset,
    UnexpectedFrame(Frame),
    Panicked,
    /// The transport failed; the text describes the failure.
    TransportFailure(String),
    TransportClosed,
    QueueClosed,
}

/// The channels of a multiplexer that is not closed.
#[derive(Debug)]
pub struct ActiveData<B> {
    /// Active, non-closed channels, with their ids, in the order they were
    /// first seen.
    channels: Vec<(ChannelId, ChannelMapEntry<B>)>,
}

#[derive(Debug)]
struct ChannelMapEntry<B> {
    state: ChannelState<B>,
}

/// The multiplexer is closed.
#[derive(Debug, PartialEq, Eq, Structural, Clone, Copy)]
pub struct MuxNotOpen;

// ---------------------------------------------------------------------------
// Views
// ---------------------------------------------------------------------------

/// Mathematical view of a [`ClosedReason`].
pub ghost enum ClosedReasonView {
    Reset,
    UnexpectedFrame(FrameModel),
    Panicked,
    TransportFailure(Seq<char>),
    TransportClosed,
    QueueClosed,
}

/// The channels of a multiplexer: id and channel view, in order.
pub type ChannelTable = Seq<(ChannelId, ChannelView)>;

/// Mathematical view of a [`MuxState`].
pub ghost enum MuxView {
    Active(ChannelTable),
    Terminating(ChannelTable),
    Closed(Result<(), ClosedReasonView>),
}

impl View for ClosedReason {
    type V = ClosedReasonView;

    open spec fn view(&self) -> ClosedReasonView {
        match self {
            ClosedReason::Reset => ClosedReasonView::Reset,
            ClosedReason::UnexpectedFrame(f) => ClosedReasonView::UnexpectedFrame(f@),
            ClosedReason::Panicked => ClosedReasonView::Panicked,
            ClosedReason::TransportFailure(s) => ClosedReasonView::TransportFailure(s@),
            ClosedReason::TransportClosed => ClosedReasonView::TransportClosed,
            ClosedReason::QueueClosed => ClosedReasonView::QueueClosed,
        }
    }
}

impl<B> ActiveData<B> {
    /// No two channels share an id, as in a map keyed by id.
    #[verifier::type_invariant]
    closed spec fn ids_unique(&self) -> bool {
        unique_ids(self@)
    }
}

/// The entries whose channel is not closed, in order.
spec fn open_entries<B>(v: Seq<(ChannelId, ChannelMapEntry<B>)>) -> Seq<(ChannelId, ChannelMapEntry<B>)>
    decreases v.len(),
{
    if v.len() == 0 {
        v
    } else {
        let r = open_entries(v.drop_last());
        if v.last().1.state@ == ChannelView::Closed {
            r
        } else {
            r.push(v.last())
        }
    }
}

spec fn entries_view<B>(v: Seq<(ChannelId, ChannelMapEntry<B>)>) -> ChannelTable {
    Seq::new(v.len(), |i: int| (v[i].0, v[i].1.state@))
}

impl<B> View for ActiveData<B> {
    type V = ChannelTable;

    closed spec fn view(&self) -> ChannelTable {
        entries_view(self.channels@)
    }
}

pub open spec fn closed_result_view(r: Result<(), ClosedReason>) -> Result<(), ClosedReasonView> {
    match r {
        Ok(()) => Ok(()),
        Err(e) => Err(e@),
    }
}

impl<B> View for MuxState<B> {
    type V = MuxView;

    open spec fn view(&self) -> MuxView {
        match self {
            MuxState::Active(a) => MuxView::Active(a@),
            MuxState::Terminating(a) => MuxView::Terminating(a@),
            MuxState::Closed(r) => MuxView::Closed(closed_result_view(*r)),
        }
    }
}

pub open spec fn frame_option_view(f: Option<Frame>) -> Option<FrameModel> {
    match f {
        Some(f) => Some(f@),
        None => None,
    }
}

// ---------------------------------------------------------------------------
// Channel tables
// ---------------------------------------------------------------------------

/// Whether the table has an entry for `id`.
pub open spec fn has_key(s: ChannelTable, id: ChannelId) -> bool {
    exists|i: int| 0 <= i < s.len() && s[i].0 == id
}

/// The position of the first entry for `id`.
pub open spec fn index_of(s: ChannelTable, id: ChannelId) -> int {
    choose|i: int| 0 <= i < s.len() && s[i].0 == id && forall|j: int| 0 <= j < i ==> s[j].0 != id
}

/// The table with an entry for `id`: an absent id gets a closed channel at
/// the end, as looking up a map entry with a default does.
pub open spec fn with_entry(s: ChannelTable, id: ChannelId) -> ChannelTable {
    if has_key(s, id) {
        s
    } else {
        s.push((id, ChannelView::Closed))
    }
}

/// The channel with id `id`; closed when the table has none.
pub open spec fn channel_of(s: ChannelTable, id: ChannelId) -> ChannelView {
    let t = with_entry(s, id);
    t[index_of(t, id)].1
}

/// The table with the channel `id` set to `c`.
pub open spec fn set_channel(s: ChannelTable, id: ChannelId, c: ChannelView) -> ChannelTable {
    let t = with_entry(s, id);
    t.update(index_of(t, id), (id, c))
}

/// The table without the entry for `id`.
pub open spec fn without_key(s: ChannelTable, id: ChannelId) -> ChannelTable {
    if has_key(s, id) {
        s.remove(index_of(s, id))
    } else {
        s
    }
}

/// The entries of the table whose channel is not closed, in order.
pub open spec fn retain_open(s: ChannelTable) -> ChannelTable
    decreases s.len(),
{
    if s.len() == 0 {
        s
    } else {
        let r = retain_open(s.drop_last());
        if s.last().1 == ChannelView::Closed {
            r
        } else {
            r.push(s.last())
        }
    }
}

/// The ids of the table, in order.
pub open spec fn keys(s: ChannelTable) -> Seq<ChannelId> {
    s.map_values(|e: (ChannelId, ChannelView)| e.0)
}

proof fn lemma_index_of(s: ChannelTable, id: ChannelId, k: int)
    requires
        0 <= k < s.len(),
        s[k].0 == id,
        forall|j: int| 0 <= j < k ==> s[j].0 != id,
    ensures
        has_key(s, id),
        index_of(s, id) == k,
{
    let c = index_of(s, id);
    assert(0 <= c < s.len() && s[c].0 == id && forall|j: int| 0 <= j < c ==> s[j].0 != id);
    if c < k {
        assert(s[c].0 != id);
    } else if c > k {
        assert(s[k].0 != id);
    }
}

proof fn lemma_retain_open_keys(s: ChannelTable)
    ensures
        forall|i: int|
            0 <= i < retain_open(s).len() ==> (#[trigger] retain_open(s)[i]).1 != ChannelView::Closed
                && has_key(s, retain_open(s)[i].0),
        retain_open(s).len() <= s.len(),
    decreases s.len(),
{
    if s.len() > 0 {
        let d = s.drop_last();
        lemma_retain_open_keys(d);
        let r = retain_open(d);
        assert forall|i: int| 0 <= i < retain_open(s).len() implies (#[trigger] retain_open(s)[i]).1
            != ChannelView::Closed && has_key(s, retain_open(s)[i].0) by {
            if i < r.len() {
                assert(retain_open(s)[i] == r[i]);
                assert(has_key(d, r[i].0));
                let k = choose|k: int| 0 <= k < d.len() && d[k].0 == r[i].0;
                assert(s[k] == d[k]);
            } else {
                assert(retain_open(s)[i] == s.last());
                assert(s[s.len() - 1].0 == s.last().0);
            }
        }
    }
}

/// The models of a sequence of frames.
pub open spec fn frame_models(frames: Seq<Frame>) -> Seq<FrameModel> {
    frames.map_values(|f: Frame| f@)
}

/// What channel `id` does in one round of sends, given the receive capacity
/// its buffer reports and what it offers to send: its new view, and its
/// frames, an admit or reset first and then a data frame.
pub open spec fn channel_round(
    id: ChannelId,
    c: ChannelView,
    capacity: Poll<Option<u64>>,
    offered: Poll<Option<Seq<u8>>>,
) -> (ChannelView, Seq<FrameModel>) {
    let (c1, adm) = adm_step(c, capacity);
    let (c2, tx) = tx_step(c1, offered);
    let control = match adm {
        Poll::Ready(h) => seq![FrameModel::ChannelControl(id, h)],
        Poll::Pending => Seq::<FrameModel>::empty(),
    };
    let data = match tx {
        Poll::Ready(Some(d)) => seq![FrameModel::ChannelData(id, d)],
        _ => Seq::<FrameModel>::empty(),
    };
    (c2, control + data)
}

/// Whether `capacity` and `offered` are what the buffer of channel `c`
/// answered in a round of sends, as its own contract allows: an open channel
/// asks its buffer for its capacity, and then, while it is still open with a
/// send permit, for a payload to send. A channel that is not open asks
/// nothing.
pub open spec fn polled_by_contract<B: ChannelBuffer>(
    c: ChannelState<B>,
    capacity: Poll<Option<u64>>,
    offered: Poll<Option<Seq<u8>>>,
) -> bool {
    match c {
        ChannelState::Open(o) => exists|b1: B|
            #![trigger o.buf.poll_rx_capacity_outcome(&b1, capacity)]
            {
                &&& o.buf.poll_rx_capacity_outcome(&b1, capacity)
                &&& (adm_step(c@, capacity).0 matches ChannelView::Open { our, .. } && our > 0)
                    ==> exists|b2: B, ov: Poll<Option<Vec<u8>>>|
                    #![trigger b1.poll_tx_outcome(&b2, ov)]
                    b1.poll_tx_outcome(&b2, ov) && offer_view(ov) == offered
            },
        _ => true,
    }
}

/// One round of sends over a table, channel by channel in order, with the
/// reports of each channel's buffer.
pub open spec fn table_round(
    t: ChannelTable,
    capacities: Seq<Poll<Option<u64>>>,
    offers: Seq<Poll<Option<Seq<u8>>>>,
) -> (ChannelTable, Seq<FrameModel>)
    decreases t.len(),
{
    if t.len() == 0 {
        (t, Seq::empty())
    } else {
        let n = t.len() - 1;
        let (rest, frames) = table_round(t.drop_last(), capacities.take(n), offers.take(n));
        let (c, f) = channel_round(t[n].0, t[n].1, capacities[n], offers[n]);
        (rest.push((t[n].0, c)), frames + f)
    }
}

// ---------------------------------------------------------------------------
// The multiplexer's transition on a received frame
// ---------------------------------------------------------------------------

/// Whether a received frame can be handled: an admit must fit the counter
/// of the channel it adds to.
pub open spec fn recv_fits(v: MuxView, f: FrameModel) -> bool {
    match (v, f) {
        (MuxView::Active(a), FrameModel::ChannelControl(id, c)) => control_fits(
            channel_of(a, id),
            c,
        ),
        (MuxView::Terminating(a), FrameModel::ChannelControl(id, c)) => control_fits(
            channel_of(a, id),
            c,
        ),
        _ => true,
    }
}

/// A channel reply, as a frame of the multiplexer.
pub open spec fn channel_reply(id: ChannelId, r: Option<ChannelControlHeader>) -> Option<FrameModel> {
    match r {
        Some(h) => Some(FrameModel::ChannelControl(id, h)),
        None => None,
    }
}

/// What a data frame does to a table, given whether the channel's buffer
/// accepted the data.
pub open spec fn table_data_step(a: ChannelTable, id: ChannelId, accepted: bool) -> (
    ChannelTable,
    Option<FrameModel>,
) {
    let (c, r) = data_step(channel_of(a, id), accepted);
    (set_channel(a, id, c), channel_reply(id, r))
}

/// What a control frame does to a table.
pub open spec fn table_control_step(a: ChannelTable, id: ChannelId, f: ChannelControlHeader) -> (
    ChannelTable,
    Option<FrameModel>,
) {
    let (c, r) = control_step(channel_of(a, id), f);
    (set_channel(a, id, c), channel_reply(id, r))
}

pub open spec fn reset_frame() -> FrameModel {
    FrameModel::MuxControl(MuxControlHeader::Reset)
}

/// What receiving frame `f` does to the multiplexer, and the reply it sends.
/// `accepted` is whether a channel's buffer takes the data of a data frame.
pub open spec fn mux_step(v: MuxView, f: FrameModel, accepted: bool) -> (MuxView, Option<FrameModel>) {
    match (v, f) {
        (MuxView::Closed(_), FrameModel::MuxControl(MuxControlHeader::Hello)) => (
            v,
            Some(reset_frame()),
        ),
        (_, FrameModel::MuxControl(MuxControlHeader::Hello)) => (
            MuxView::Closed(Err(ClosedReasonView::UnexpectedFrame(f))),
            Some(reset_frame()),
        ),
        (MuxView::Active(_), FrameModel::MuxControl(MuxControlHeader::Finished)) => (
            MuxView::Closed(Err(ClosedReasonView::UnexpectedFrame(f))),
            Some(reset_frame()),
        ),
        (MuxView::Terminating(_), FrameModel::MuxControl(MuxControlHeader::Terminate)) => (
            MuxView::Closed(Err(ClosedReasonView::UnexpectedFrame(f))),
            Some(reset_frame()),
        ),
        (MuxView::Closed(_), FrameModel::MuxControl(MuxControlHeader::Reset)) => (v, None),
        (_, FrameModel::MuxControl(MuxControlHeader::Reset)) => (
            MuxView::Closed(Err(ClosedReasonView::Reset)),
            None,
        ),
        (MuxView::Closed(_), _) => (v, Some(reset_frame())),
        (MuxView::Active(a), FrameModel::ChannelData(id, _)) => {
            let (t, r) = table_data_step(a, id, accepted);
            (MuxView::Active(t), r)
        },
        (MuxView::Terminating(a), FrameModel::ChannelData(id, _)) => {
            let (t, r) = table_data_step(a, id, accepted);
            (MuxView::Terminating(t), r)
        },
        (MuxView::Active(a), FrameModel::ChannelControl(id, c)) => {
            let (t, r) = table_control_step(a, id, c);
            (MuxView::Active(t), r)
        },
        (MuxView::Terminating(a), FrameModel::ChannelControl(id, ChannelControlHeader::Open(_))) => (
            MuxView::Terminating(without_key(a, id)),
            Some(FrameModel::ChannelControl(id, ChannelControlHeader::Reset)),
        ),
        (MuxView::Terminating(a), FrameModel::ChannelControl(id, c)) => {
            let (t, r) = table_control_step(a, id, c);
            (MuxView::Terminating(t), r)
        },
        (MuxView::Active(a), FrameModel::MuxControl(MuxControlHeader::Terminate)) => (
            MuxView::Terminating(a),
            Some(FrameModel::MuxControl(MuxControlHeader::Terminate)),
        ),
        (MuxView::Terminating(_), FrameModel::MuxControl(MuxControlHeader::Finished)) => (
            MuxView::Closed(Ok(())),
            None,
        ),
    }
}

// ---------------------------------------------------------------------------
// Executable code
// ---------------------------------------------------------------------------

/// A copy of a waker (`std::task::Waker::clone`). Nothing is claimed of it.
#[verifier::external_body]
fn clone_waker(w: &std::task::Waker) -> std::task::Waker {
    w.clone()
}

impl ClosedReason {
    /// A copy of this reason.
    pub fn duplicate(&self) -> (r: ClosedReason)
        ensures
            r@ == self@,
    {
        match self {
            ClosedReason::Reset => ClosedReason::Reset,
            ClosedReason::UnexpectedFrame(f) => ClosedReason::UnexpectedFrame(f.clone()),
            ClosedReason::Panicked => ClosedReason::Panicked,
            ClosedReason::TransportFailure(s) => ClosedReason::TransportFailure(s.clone()),
            ClosedReason::TransportClosed => ClosedReason::TransportClosed,
            ClosedReason::QueueClosed => ClosedReason::QueueClosed,
        }
    }

    /// The message that describes this reason.
    pub fn to_string(&self) -> (r: String)
        ensures
            self@ == ClosedReasonView::Reset ==> r@ == "Connection reset"@,
            self@ == ClosedReasonView::Panicked ==> r@ == "Panicked during operation"@,
            self@ == ClosedReasonView::TransportClosed ==> r@ == "Transport unexpectedly closed"@,
            self@ == ClosedReasonView::QueueClosed ==> r@ == "Queue unexpectedly closed"@,
            self matches ClosedReason::TransportFailure(m) ==> r@ == "Transport failure: "@ + m@,
            self matches ClosedReason::UnexpectedFrame(f) ==> r@ == "Got frame "@ + frame_debug_text(f@),
    {
        match self {
            ClosedReason::Reset => String::from_str("Connection reset"),
            ClosedReason::UnexpectedFrame(f) => {
                let text = f.debug_text();
                String::from_str("Got frame ").concat(text.as_str())
            },
            ClosedReason::Panicked => String::from_str("Panicked during operation"),
            ClosedReason::TransportFailure(m) => String::from_str("Transport failure: ").concat(
                m.as_str(),
            ),
            ClosedReason::TransportClosed => String::from_str("Transport unexpectedly closed"),
            ClosedReason::QueueClosed => String::from_str("Queue unexpectedly closed"),
        }
    }
}

impl Clone for ClosedReason {
    fn clone(&self) -> (r: Self)
        ensures
            r@ == self@,
    {
        self.duplicate()
    }
}

/// Reason equality: the same variant and, for an unexpected frame, the same
/// frame. Two transport failures are never equal.
pub open spec fn closed_reason_eq(a: ClosedReasonView, b: ClosedReasonView) -> bool {
    match (a, b) {
        (ClosedReasonView::Reset, ClosedReasonView::Reset) => true,
        (ClosedReasonView::UnexpectedFrame(x), ClosedReasonView::UnexpectedFrame(y)) => x == y,
        (ClosedReasonView::Panicked, ClosedReasonView::Panicked) => true,
        (ClosedReasonView::TransportFailure(_), ClosedReasonView::TransportFailure(_)) => false,
        (ClosedReasonView::TransportClosed, ClosedReasonView::TransportClosed) => true,
        (ClosedReasonView::QueueClosed, ClosedReasonView::QueueClosed) => true,
        _ => false,
    }
}

pub open spec fn closed_result_eq(
    a: Result<(), ClosedReasonView>,
    b: Result<(), ClosedReasonView>,
) -> bool {
    match (a, b) {
        (Ok(()), Ok(())) => true,
        (Err(x), Err(y)) => closed_reason_eq(x, y),
        _ => false,
    }
}

/// State equality: the same phase with the same channel ids in the same
/// order, or closed for equal reasons.
pub open spec fn mux_view_eq(a: MuxView, b: MuxView) -> bool {
    match (a, b) {
        (MuxView::Active(x), MuxView::Active(y)) => keys(x) == keys(y),
        (MuxView::Terminating(x), MuxView::Terminating(y)) => keys(x) == keys(y),
        (MuxView::Closed(x), MuxView::Closed(y)) => closed_result_eq(x, y),
        _ => false,
    }
}

impl PartialEq for ClosedReason {
    fn eq(&self, other: &Self) -> (r: bool) {
        match (self, other) {
            (ClosedReason::Reset, ClosedReason::Reset) => true,
            (ClosedReason::UnexpectedFrame(l0), ClosedReason::UnexpectedFrame(r0)) => frames_equal(
                l0,
                r0,
            ),
            (ClosedReason::Panicked, ClosedReason::Panicked) => true,
            (ClosedReason::TransportFailure(_), ClosedReason::TransportFailure(_)) => false,
            (ClosedReason::TransportClosed, ClosedReason::TransportClosed) => true,
            (ClosedReason::QueueClosed, ClosedReason::QueueClosed) => true,
            _ => false,
        }
    }
}

impl PartialEqSpecImpl for ClosedReason {
    open spec fn obeys_eq_spec() -> bool {
        true
    }

    open spec fn eq_spec(&self, other: &Self) -> bool {
        closed_reason_eq(self@, other@)
    }
}

impl<B> PartialEq for ActiveData<B> {
    fn eq(&self, other: &Self) -> (r: bool) {
        if self.channels.len() != other.channels.len() {
            proof {
                assert(keys(self@).len() != keys(other@).len());
            }
            return false;
        }
        let mut i: usize = 0;
        while i < self.channels.len()
            invariant
                i <= self.channels@.len(),
                self.channels@.len() == other.channels@.len(),
                forall|j: int| 0 <= j < i ==> self.channels@[j].0 == other.channels@[j].0,
            decreases self.channels.len() - i,
        {
            if self.channels[i].0 != other.channels[i].0 {
                proof {
                    assert(keys(self@)[i as int] != keys(other@)[i as int]);
                }
                return false;
            }
            i = i + 1;
        }
        proof {
            assert(keys(self@) =~= keys(other@));
        }
        true
    }
}

impl<B> PartialEqSpecImpl for ActiveData<B> {
    open spec fn obeys_eq_spec() -> bool {
        true
    }

    open spec fn eq_spec(&self, other: &Self) -> bool {
        keys(self@) == keys(other@)
    }
}

impl<B> PartialEq for MuxState<B> {
    fn eq(&self, other: &Self) -> (r: bool) {
        match (self, other) {
            (MuxState::Active(l0), MuxState::Active(r0)) => l0.eq(r0),
            (MuxState::Terminating(l0), MuxState::Terminating(r0)) => l0.eq(r0),
            (MuxState::Closed(l0), MuxState::Closed(r0)) => match (l0, r0) {
                (Ok(()), Ok(())) => true,
                (Err(x), Err(y)) => x.eq(y),
                _ => false,
            },
            _ => false,
        }
    }
}

impl<B> PartialEqSpecImpl for MuxState<B> {
    open spec fn obeys_eq_spec() -> bool {
        true
    }

    open spec fn eq_spec(&self, other: &Self) -> bool {
        mux_view_eq(self@, other@)
    }
}

impl<B> Default for ActiveData<B> {
    fn default() -> (r: Self)
        ensures
            r@ == Seq::<(ChannelId, ChannelView)>::empty(),
            unique_ids(r@),
    {
        let r = ActiveData { channels: Vec::new() };
        assert(keys(r@) =~= Seq::<ChannelId>::empty());
        assert(r@ =~= Seq::<(ChannelId, ChannelView)>::empty());
        r
    }
}

impl<B> Default for MuxState<B> {
    /// A closed state whose reason is a panic: what is left behind when a
    /// transition does not complete.
    fn default() -> (r: Self)
        ensures
            r@ == MuxView::Closed(Err(ClosedReasonView::Panicked)),
    {
        MuxState::Closed(Err(ClosedReason::Panicked))
    }
}

impl<B> Clone for ActiveData<B> {
    /// A table with the same channel ids, each channel closed.
    fn clone(&self) -> (r: Self)
        ensures
            keys(r@) == keys(self@),
            unique_ids(r@),
            forall|i: int| 0 <= i < r@.len() ==> (#[trigger] r@[i]).1 == ChannelView::Closed,
    {
        let mut channels: Vec<(ChannelId, ChannelMapEntry<B>)> = Vec::new();
        let mut i: usize = 0;
        while i < self.channels.len()
            invariant
                i <= self.channels@.len(),
                channels@.len() == i,
                forall|j: int| 0 <= j < i ==> (#[trigger] channels@[j]).0 == self.channels@[j].0,
                forall|j: int| 0 <= j < i ==> (#[trigger] channels@[j]).1.state@ == ChannelView::Closed,
            decreases self.channels.len() - i,
        {
            channels.push((self.channels[i].0, ChannelMapEntry { state: ChannelState::Closed }));
            i = i + 1;
        }
        proof {
            use_type_invariant(self);
            assert(keys(entries_view(channels@)) =~= keys(self@));
        }
        ActiveData { channels }
    }
}

impl<B> Clone for MuxState<B> {
    /// A copy with the same phase, channel ids and closing reason; copied
    /// channels are closed.
    fn clone(&self) -> (r: Self)
        ensures
            mux_view_eq(r@, self@) || self@ matches MuxView::Closed(Err(ClosedReasonView::TransportFailure(_))),
            self@ matches MuxView::Closed(_) ==> r@ == self@,
    {
        match self {
            MuxState::Active(a) => MuxState::Active(a.clone()),
            MuxState::Terminating(a) => MuxState::Terminating(a.clone()),
            MuxState::Closed(Ok(())) => MuxState::Closed(Ok(())),
            MuxState::Closed(Err(e)) => MuxState::Closed(Err(e.duplicate())),
        }
    }
}

impl<B> ActiveData<B> {
    /// The channels of the table, with their buffers, in order.
    pub closed spec fn states(&self) -> Seq<ChannelState<B>> {
        self.channels@.map_values(|e: (ChannelId, ChannelMapEntry<B>)| e.1.state)
    }

    /// The channels of the table that are not closed, with their buffers, in
    /// order.
    pub closed spec fn open_states(&self) -> Seq<ChannelState<B>> {
        open_entries(self.channels@).map_values(|e: (ChannelId, ChannelMapEntry<B>)| e.1.state)
    }

    /// The channel that `id` names, with its buffer; a closed channel when
    /// the table has none.
    pub closed spec fn channel_state(&self, id: ChannelId) -> ChannelState<B> {
        if has_key(self@, id) {
            self.channels@[index_of(self@, id)].1.state
        } else {
            ChannelState::Closed
        }
    }

    /// Number of channels in the table.
    pub fn channel_count(&self) -> (r: usize)
        ensures
            r == self@.len(),
    {
        self.channels.len()
    }

    /// Whether channel `id` can take control frame `c` without overflowing
    /// its permit counter; an absent channel is closed and can.
    fn fits_control(&self, id: ChannelId, c: ChannelControlHeader) -> (r: bool)
        ensures
            r == control_fits(channel_of(self@, id), c),
    {
        let mut i: usize = 0;
        while i < self.channels.len()
            invariant
                i <= self.channels@.len(),
                forall|j: int| 0 <= j < i ==> self.channels@[j].0 != id,
            decreases self.channels.len() - i,
        {
            if self.channels[i].0 == id {
                proof {
                    assert(self@[i as int].0 == id);
                    assert forall|j: int| 0 <= j < i implies self@[j].0 != id by {
                        assert(self@[j].0 == self.channels@[j].0);
                    }
                    lemma_index_of(self@, id, i as int);
                }
                return self.channels[i].1.state.fits_control(c);
            }
            i = i + 1;
        }
        proof {
            assert(!has_key(self@, id)) by {
                if has_key(self@, id) {
                    let k = choose|k: int| 0 <= k < self@.len() && self@[k].0 == id;
                    assert(self.channels@[k].0 == id);
                }
            }
            let t = with_entry(self@, id);
            assert(t == self@.push((id, ChannelView::Closed)));
            assert forall|j: int| 0 <= j < self@.len() implies t[j].0 != id by {
                assert(t[j] == self@[j]);
                assert(self@[j].0 == self.channels@[j].0);
            }
            lemma_index_of(t, id, self@.len() as int);
        }
        true
    }

    /// Position of the entry for `id`, adding a closed channel for an id that
    /// has none.
    fn entry_index(&mut self, id: ChannelId) -> (i: usize)
        ensures
            final(self)@ == with_entry(old(self)@, id),
            i < final(self)@.len(),
            i == index_of(final(self)@, id),
            has_key(final(self)@, id),
            forall|j: int| 0 <= j < i ==> final(self)@[j].0 != id,
            has_key(old(self)@, id) ==> final(self).channels@ == old(self).channels@,
            !has_key(old(self)@, id) ==> final(self).channels@ == old(self).channels@.push(
                (id, ChannelMapEntry { state: ChannelState::Closed }),
            ),
            final(self)@[i as int].0 == id,
    {
        let mut i: usize = 0;
        while i < self.channels.len()
            invariant
                i <= self.channels@.len(),
                self@ == old(self)@,
                forall|j: int| 0 <= j < i ==> self.channels@[j].0 != id,
            decreases self.channels.len() - i,
        {
            if self.channels[i].0 == id {
                proof {
                    assert(self@[i as int].0 == id);
                    assert forall|j: int| 0 <= j < i implies self@[j].0 != id by {
                        assert(self@[j].0 == self.channels@[j].0);
                    }
                    lemma_index_of(self@, id, i as int);
                }
                return i;
            }
            i = i + 1;
        }
        proof {
            assert(!has_key(self@, id)) by {
                if has_key(self@, id) {
                    let k = choose|k: int| 0 <= k < self@.len() && self@[k].0 == id;
                    assert(self.channels@[k].0 == id);
                }
            }
        }
        let ghost before = self@;
        self.push_closed(id);
        proof {
            assert(self@ =~= before.push((id, ChannelView::Closed)));
            assert forall|j: int| 0 <= j < i implies self@[j].0 != id by {
                assert(self@[j] == before[j]);
            }
            lemma_index_of(self@, id, i as int);
        }
        i
    }

    /// Removes the entry for `id`, if any.
    fn remove_channel(&mut self, id: ChannelId)
        ensures
            final(self)@ == without_key(old(self)@, id),
    {
        let mut i: usize = 0;
        while i < self.channels.len()
            invariant
                i <= self.channels@.len(),
                self@ == old(self)@,
                forall|j: int| 0 <= j < i ==> self.channels@[j].0 != id,
            decreases self.channels.len() - i,
        {
            if self.channels[i].0 == id {
                let ghost before = self@;
                proof {
                    assert forall|j: int| 0 <= j < i implies before[j].0 != id by {
                        assert(before[j].0 == self.channels@[j].0);
                    }
                    lemma_index_of(before, id, i as int);
                }
                self.remove_at(i);
                proof {
                    assert(self@ =~= before.remove(i as int));
                }
                return;
            }
            i = i + 1;
        }
        proof {
            assert(!has_key(self@, id)) by {
                if has_key(self@, id) {
                    let k = choose|k: int| 0 <= k < self@.len() && self@[k].0 == id;
                    assert(self.channels@[k].0 == id);
                }
            }
        }
    }

    /// Removes the closed channels, keeping the others in order.
    pub fn clean_up_closed_channels(&mut self)
        ensures
            final(self)@ == retain_open(old(self)@),
            unique_ids(final(self)@),
            final(self).states() == old(self).open_states(),
    {
        proof {
            use_type_invariant(&*self);
            lemma_retain_open_unique(self@);
        }
        let ghost orig = self@;
        let ghost orig_ch = self.channels@;
        let mut rest: Vec<(ChannelId, ChannelMapEntry<B>)> = Vec::new();
        std::mem::swap(&mut rest, &mut self.channels);
        let mut kept: Vec<(ChannelId, ChannelMapEntry<B>)> = Vec::new();
        let n = rest.len();
        let mut k: usize = 0;
        assert(entries_view(rest@) == orig);
        assert(entries_view(kept@) =~= retain_open(orig.take(0)));
        while rest.len() > 0
            invariant
                entries_view(rest@) == orig.skip(k as int),
                k <= orig.len(),
                rest@.len() + k == orig.len(),
                orig.len() == n,
                entries_view(kept@) == retain_open(orig.take(k as int)),
                rest@ == orig_ch.skip(k as int),
                kept@ == open_entries(orig_ch.take(k as int)),
                orig_ch.len() == n,
            decreases rest@.len(),
        {
            let ghost rest_before = rest@;
            let ghost before = entries_view(kept@);
            let e = rest.remove(0);
            assert(orig[k as int] == (e.0, e.1.state@)) by {
                assert(entries_view(rest_before)[0] == orig.skip(k as int)[0]);
            }
            assert(entries_view(rest@) =~= orig.skip(k + 1)) by {
                assert forall|j: int| 0 <= j < rest@.len() implies entries_view(rest@)[j]
                    == orig.skip(k + 1)[j] by {
                    assert(rest@[j] == rest_before[j + 1]);
                    assert(entries_view(rest_before)[j + 1] == orig.skip(k as int)[j + 1]);
                }
            }
            assert(orig.take(k + 1).drop_last() =~= orig.take(k as int));
            assert(orig.take(k + 1).last() == orig[k as int]);
            assert(e == orig_ch[k as int]) by {
                assert(rest_before[0] == orig_ch.skip(k as int)[0]);
            }
            assert(rest@ =~= orig_ch.skip(k + 1)) by {
                assert forall|j: int| 0 <= j < rest@.len() implies rest@[j] == orig_ch.skip(k + 1)[j] by {
                    assert(rest@[j] == rest_before[j + 1]);
                }
            }
            assert(orig_ch.take(k + 1).drop_last() =~= orig_ch.take(k as int));
            assert(orig_ch.take(k + 1).last() == orig_ch[k as int]);
            let ghost kept_before = kept@;
            if e.1.state.closed() {
                assert(entries_view(kept@) == retain_open(orig.take(k + 1)));
            } else {
                kept.push(e);
                assert(entries_view(kept@) =~= before.push(orig[k as int]));
                assert(entries_view(kept@) == retain_open(orig.take(k + 1)));
                assert(kept@ == kept_before.push(orig_ch[k as int]));
            }
            k = k + 1;
        }
        assert(orig.take(k as int) =~= orig);
        assert(orig_ch.take(k as int) =~= orig_ch);
        self.channels = kept;
        proof {
            use_type_invariant(&*self);
            assert(self.states() =~= old(self).open_states());
        }
    }

    /// Removes the first entry for `id`, found at position `i`.
    fn remove_at(&mut self, i: usize)
        requires
            i < old(self).channels@.len(),
        ensures
            final(self).channels@ == old(self).channels@.remove(i as int),
    {
        proof {
            use_type_invariant(&*self);
            lemma_remove_unique(self@, i as int);
        }
        let ghost before = self.channels@;
        let mut v: Vec<(ChannelId, ChannelMapEntry<B>)> = Vec::new();
        std::mem::swap(&mut v, &mut self.channels);
        let _removed = v.remove(i);
        proof {
            assert(entries_view(v@) =~= entries_view(before).remove(i as int));
        }
        self.channels = v;
    }

    /// Adds a closed channel for `id`, which the table has none for.
    fn push_closed(&mut self, id: ChannelId)
        requires
            !has_key(old(self)@, id),
        ensures
            final(self).channels@ == old(self).channels@.push(
                (id, ChannelMapEntry { state: ChannelState::Closed }),
            ),
    {
        proof {
            use_type_invariant(&*self);
            lemma_set_channel_unique(self@, id, ChannelView::Closed);
        }
        let ghost before = self.channels@;
        let mut v: Vec<(ChannelId, ChannelMapEntry<B>)> = Vec::new();
        std::mem::swap(&mut v, &mut self.channels);
        v.push((id, ChannelMapEntry { state: ChannelState::Closed }));
        proof {
            assert(entries_view(v@) =~= entries_view(before).push((id, ChannelView::Closed)));
        }
        self.channels = v;
    }

    /// Takes the channel at position `i` out of the table, leaving a closed
    /// one in its place.
    fn take_state(&mut self, i: usize) -> (c: ChannelState<B>)
        requires
            i < old(self).channels@.len(),
        ensures
            c == old(self).channels@[i as int].1.state,
            final(self).channels@ == old(self).channels@.update(
                i as int,
                (old(self).channels@[i as int].0, ChannelMapEntry { state: ChannelState::Closed }),
            ),
    {
        proof {
            use_type_invariant(&*self);
        }
        let ghost before = self.channels@;
        let mut v: Vec<(ChannelId, ChannelMapEntry<B>)> = Vec::new();
        std::mem::swap(&mut v, &mut self.channels);
        let mut cell: ChannelState<B> = ChannelState::Closed;
        std::mem::swap(&mut cell, &mut v[i].1.state);
        proof {
            Self::lemma_same_keys_unique(before, v@);
        }
        self.channels = v;
        cell
    }

    /// Puts channel `c` at position `i` of the table.
    fn put_state(&mut self, i: usize, c: ChannelState<B>)
        requires
            i < old(self).channels@.len(),
        ensures
            final(self).channels@ == old(self).channels@.update(
                i as int,
                (old(self).channels@[i as int].0, ChannelMapEntry { state: c }),
            ),
    {
        proof {
            use_type_invariant(&*self);
        }
        let ghost before = self.channels@;
        let mut v: Vec<(ChannelId, ChannelMapEntry<B>)> = Vec::new();
        std::mem::swap(&mut v, &mut self.channels);
        v[i].1.state = c;
        proof {
            Self::lemma_same_keys_unique(before, v@);
        }
        self.channels = v;
    }

    /// Two lists with the same ids in the same order are both free of
    /// repeated ids, or neither is.
    proof fn lemma_same_keys_unique(
        a: Seq<(ChannelId, ChannelMapEntry<B>)>,
        b: Seq<(ChannelId, ChannelMapEntry<B>)>,
    )
        requires
            a.len() == b.len(),
            forall|j: int| 0 <= j < a.len() ==> #[trigger] a[j].0 == b[j].0,
            unique_ids(entries_view(a)),
        ensures
            unique_ids(entries_view(b)),
    {
        assert(keys(entries_view(a)) =~= keys(entries_view(b)));
    }
}

impl<B> ActiveData<B> {
    /// Replacing the channel at the first position of `id` changes the view
    /// only there, and the channel that `id` names is the new one.
    proof fn lemma_channel_replaced(mid: Self, after: Self, i: int, id: ChannelId, c: ChannelState<B>)
        requires
            0 <= i < mid.channels@.len(),
            mid@[i].0 == id,
            forall|j: int| 0 <= j < i ==> mid@[j].0 != id,
            after.channels@ == mid.channels@.update(i, (id, ChannelMapEntry { state: c })),
        ensures
            after@ == mid@.update(i, (id, c@)),
            has_key(after@, id),
            index_of(after@, id) == i,
            after.channel_state(id) == c,
    {
        assert forall|j: int| 0 <= j < after@.len() implies after@[j] == mid@.update(i, (id, c@))[j] by {
            if j != i {
                assert(after.channels@[j] == mid.channels@[j]);
            }
        }
        assert(after@ =~= mid@.update(i, (id, c@)));
        lemma_index_of(after@, id, i);
    }
}

impl<B: ChannelBuffer> ActiveData<B> {
    /// Hands a data frame to its channel; returns the channel's reply.
    #[verifier::rlimit(30)]
    fn on_channel_data(&mut self, id: ChannelId, f: ChannelDataFrame) -> (r: Option<Frame>)
        ensures
            exists|accepted: bool|
                (final(self)@, frame_option_view(r)) == table_data_step(old(self)@, id, accepted),
            exists|h: Option<ChannelControlHeader>|
                frame_option_view(r) == channel_reply(id, h) && recv_data_post(
                    old(self).channel_state(id),
                    f@,
                    final(self).channel_state(id),
                    h,
                ),
    {
        let ghost start = *self;
        let i = self.entry_index(id);
        let ghost t = self@;
        let ghost tv = self.channels@;
        let ghost mid = *self;
        let mut cell = self.take_state(i);
        assert(cell@ == t[i as int].1);
        let ghost cell0 = cell;
        let ghost fv = f@;
        let reply = cell.on_recv_data(f);
        self.put_state(i, cell);
        proof {
            assert(start.channel_state(id) == cell0);
            assert(self.channels@ == mid.channels@.update(
                i as int,
                (id, ChannelMapEntry { state: cell }),
            ));
            Self::lemma_channel_replaced(mid, *self, i as int, id, cell);
            assert(recv_data_post(start.channel_state(id), fv, self.channel_state(id), reply));
            let accepted = choose|accepted: bool|
                (cell@, reply) == data_step(t[i as int].1, accepted);
            assert(mid@ == t);
            assert((self@, frame_option_view(
                match reply {
                    Some(h) => Some(Frame::ChannelControl(id, h)),
                    None => None,
                },
            )) == table_data_step(old(self)@, id, accepted));
        }
        match reply {
            Some(h) => Some(Frame::ChannelControl(id, h)),
            None => None,
        }
    }

    /// Hands a control frame to its channel; returns the channel's reply.
    fn on_channel_control(&mut self, id: ChannelId, f: ChannelControlHeader) -> (r: Option<Frame>)
        requires
            control_fits(channel_of(old(self)@, id), f),
        ensures
            (final(self)@, frame_option_view(r)) == table_control_step(old(self)@, id, f),
    {
        let i = self.entry_index(id);
        let ghost t = self@;
        let ghost tv = self.channels@;
        let mut cell = self.take_state(i);
        assert(cell@ == t[i as int].1);
        let (new, out) = cell.on_recv_control(f);
        self.put_state(i, new);
        proof {
            assert forall|j: int| 0 <= j < self@.len() implies self@[j] == t.update(
                i as int,
                (id, control_step(t[i as int].1, f).0),
            )[j] by {
                if j != i {
                    assert(self.channels@[j] == tv[j]);
                } else {
                    assert(self.channels@[j].0 == tv[j].0);
                    assert(tv[j].0 == id);
                }
            }
            assert(self@ =~= t.update(i as int, (id, control_step(t[i as int].1, f).0)));
        }
        match out {
            Some(h) => Some(Frame::ChannelControl(id, h)),
            None => None,
        }
    }

    /// The frames to send in one round: for each channel, an admit or reset
    /// when one is due and a data frame when one is ready, so at most two per
    /// channel. Closed channels are removed before and after.
    pub fn poll_sends(&mut self, waker: &std::task::Waker) -> (out: Vec<Frame>)
        ensures
            exists|capacities: Seq<Poll<Option<u64>>>, offers: Seq<Poll<Option<Seq<u8>>>>|
                #![trigger table_round(retain_open(old(self)@), capacities, offers)]
                capacities.len() == retain_open(old(self)@).len() && offers.len()
                    == capacities.len() && frame_models(out@) == table_round(
                    retain_open(old(self)@),
                    capacities,
                    offers,
                ).1 && final(self)@ == retain_open(
                    table_round(retain_open(old(self)@), capacities, offers).0,
                ) && forall|i: int|
                    0 <= i < capacities.len() ==> polled_by_contract(
                        #[trigger] old(self).open_states()[i],
                        capacities[i],
                        offers[i],
                    ),
            out@.len() <= 2 * old(self)@.len(),
            unique_ids(final(self)@),
            forall|i: int|
                0 <= i < final(self)@.len() ==> (#[trigger] final(self)@[i]).1 != ChannelView::Closed
                    && has_key(old(self)@, final(self)@[i].0),
            forall|i: int|
                0 <= i < out@.len() ==> match (#[trigger] out@[i])@ {
                    FrameModel::ChannelControl(id, h) => has_key(old(self)@, id) && (h
                        is Reset || h is Admit),
                    FrameModel::ChannelData(id, _) => has_key(old(self)@, id),
                    _ => false,
                },
    {
        let ghost orig = self@;
        let mut out: Vec<Frame> = Vec::new();
        self.clean_up_closed_channels();
        let ghost start_states = self.states();
        proof {
            lemma_retain_open_keys(orig);
        }
        let ghost cleaned = self@;
        let ghost mut capacities: Seq<Poll<Option<u64>>> = Seq::empty();
        let ghost mut offers: Seq<Poll<Option<Seq<u8>>>> = Seq::empty();
        proof {
            assert(cleaned.take(0) =~= Seq::<(ChannelId, ChannelView)>::empty());
            assert(self@.take(0) =~= Seq::<(ChannelId, ChannelView)>::empty());
            assert(frame_models(out@) =~= Seq::<FrameModel>::empty());
        }
        let mut i: usize = 0;
        while i < self.channels.len()
            invariant
                i <= self.channels@.len(),
                self@.len() == cleaned.len(),
                capacities.len() == i,
                offers.len() == i,
                table_round(cleaned.take(i as int), capacities, offers) == (
                    self@.take(i as int),
                    frame_models(out@),
                ),
                forall|j: int| i <= j < cleaned.len() ==> #[trigger] self@[j] == cleaned[j],
                forall|j: int| i <= j < cleaned.len() ==> #[trigger] self.states()[j] == start_states[j],
                start_states.len() == cleaned.len(),
                forall|j: int|
                    0 <= j < i ==> polled_by_contract(
                        #[trigger] start_states[j],
                        capacities[j],
                        offers[j],
                    ),
                keys(self@) == keys(cleaned),
                cleaned.len() <= orig.len(),
                forall|j: int| 0 <= j < cleaned.len() ==> has_key(orig, #[trigger] cleaned[j].0),
                out@.len() <= 2 * i,
                forall|j: int|
                    0 <= j < out@.len() ==> match (#[trigger] out@[j])@ {
                        FrameModel::ChannelControl(id, h) => has_key(orig, id) && (h is Reset
                            || h is Admit),
                        FrameModel::ChannelData(id, _) => has_key(orig, id),
                        _ => false,
                    },
            decreases self.channels.len() - i,
        {
            let id = self.channels[i].0;
            proof {
                assert(keys(self@)[i as int] == id);
                assert(keys(cleaned)[i as int] == cleaned[i as int].0);
            }
            let ghost before = self@;
            let ghost out_before = out@;
            assert(forall|j: int| i <= j < cleaned.len() ==> before[j] == cleaned[j]);
            let ghost before_ch = self.channels@;
            let ghost states_before = self.states();
            assert(states_before[i as int] == start_states[i as int]);
            let mut cell = self.take_state(i);
            let ghost taken_ch = self.channels@;
            let ghost cell0 = cell;
            assert(cell0 == start_states[i as int]) by {
                assert(states_before[i as int] == before_ch[i as int].1.state);
            }
            let adm = cell.poll_next_adm();
            let ghost cell1 = cell;
            let ghost cap: Poll<Option<u64>> = match cell0 {
                ChannelState::Open(o) => {
                    let (b, cap) = choose|b: B, cap: Poll<Option<u64>>|
                        #![trigger o.buf.poll_rx_capacity_outcome(&b, cap)]
                        {
                            &&& o.buf.poll_rx_capacity_outcome(&b, cap)
                            &&& (cell1@, adm) == adm_step(cell0@, cap)
                            &&& cell1 matches ChannelState::Open(n) ==> n.buf == b
                        };
                    cap
                },
                _ => Poll::Pending,
            };
            let ghost middle = cell@;
            match adm {
                Poll::Ready(x) => {
                    out.push(Frame::ChannelControl(id, x));
                },
                Poll::Pending => {},
            }
            let ghost out_middle = out@;
            let tx = cell.poll_next_tx(clone_waker(waker));
            let ghost cell2 = cell;
            let ghost offered: Poll<Option<Seq<u8>>> = match cell1 {
                ChannelState::Open(o) => if o.our_available_permits == 0 {
                    Poll::Pending
                } else {
                    let (b, ov) = choose|b: B, ov: Poll<Option<Vec<u8>>>|
                        #![trigger o.buf.poll_tx_outcome(&b, ov)]
                        {
                            &&& o.buf.poll_tx_outcome(&b, ov)
                            &&& (cell2@, sent_view(tx)) == tx_step(cell1@, offer_view(ov))
                            &&& cell2 matches ChannelState::Open(n) ==> n.buf == b
                        };
                    offer_view(ov)
                },
                _ => Poll::Pending,
            };
            proof {
                assert(cell0@ == before[i as int].1);
                assert((cell1@, adm) == adm_step(cell0@, cap));
                assert((cell2@, sent_view(tx)) == tx_step(middle, offered));
                match cell0 {
                    ChannelState::Open(o) => {
                        let (b1, cap1) = choose|b: B, cap: Poll<Option<u64>>|
                            #![trigger o.buf.poll_rx_capacity_outcome(&b, cap)]
                            {
                                &&& o.buf.poll_rx_capacity_outcome(&b, cap)
                                &&& (cell1@, adm) == adm_step(cell0@, cap)
                                &&& cell1 matches ChannelState::Open(n) ==> n.buf == b
                            };
                        assert(cap1 == cap);
                        assert(o.buf.poll_rx_capacity_outcome(&b1, cap));
                        if adm_step(cell0@, cap).0 matches ChannelView::Open { our, .. } && our > 0 {
                            match cell1 {
                                ChannelState::Open(n) => {
                                    assert(n.buf == b1);
                                    assert(n.our_available_permits > 0);
                                    let (b2, ov) = choose|b: B, ov: Poll<Option<Vec<u8>>>|
                                        #![trigger n.buf.poll_tx_outcome(&b, ov)]
                                        {
                                            &&& n.buf.poll_tx_outcome(&b, ov)
                                            &&& (cell2@, sent_view(tx)) == tx_step(
                                                cell1@,
                                                offer_view(ov),
                                            )
                                            &&& cell2 matches ChannelState::Open(m) ==> m.buf == b
                                        };
                                    assert(offer_view(ov) == offered);
                                    assert(b1.poll_tx_outcome(&b2, ov));
                                },
                                _ => {},
                            }
                        }
                        assert(polled_by_contract(cell0, cap, offered));
                    },
                    _ => {},
                }
            }
            match tx {
                Poll::Ready(Some(x)) => {
                    out.push(Frame::ChannelData(id, x));
                },
                _ => {},
            }
            let ghost cell_after = cell;
            self.put_state(i, cell);
            proof {
                assert(self.channels@ =~= before_ch.update(
                    i as int,
                    (before_ch[i as int].0, ChannelMapEntry { state: cell_after }),
                ));
                assert forall|j: int| 0 <= j < self@.len() implies #[trigger] self@[j] == (
                    if j == i {
                        (id, cell_after@)
                    } else {
                        before[j]
                    }) by {
                    if j != i {
                        assert(self.channels@[j] == before_ch[j]);
                    }
                }
                assert(keys(self@) =~= keys(before));
                assert forall|j: int| 0 <= j < self@.len() && j != i implies self@[j] == before[j] by {
                    assert(keys(self@)[j] == keys(before)[j]);
                }
                let (c, f) = channel_round(cleaned[i as int].0, cleaned[i as int].1, cap, offered);
                assert(self@[i as int] == (id, c));
                assert(frame_models(out@) =~= frame_models(out_before) + f);
                let t = cleaned.take(i + 1);
                assert(t.drop_last() =~= cleaned.take(i as int));
                assert(capacities.push(cap).take(i as int) =~= capacities);
                assert(offers.push(offered).take(i as int) =~= offers);
                assert(self@.take(i + 1) =~= self@.take(i as int).push((id, c))) by {
                    assert forall|j: int| 0 <= j < i implies self@[j] == before[j] by {}
                }
                capacities = capacities.push(cap);
                offers = offers.push(offered);
                assert forall|j: int| i + 1 <= j < cleaned.len() implies self@[j] == cleaned[j] by {
                    assert(self@[j] == before[j]);
                }
                assert forall|j: int| i + 1 <= j < cleaned.len() implies #[trigger] self.states()[j]
                    == start_states[j] by {
                    assert(self.channels@[j] == before_ch[j]);
                    assert(self.states()[j] == self.channels@[j].1.state);
                    assert(states_before[j] == before_ch[j].1.state);
                    assert(states_before[j] == start_states[j]);
                }
            }
            i = i + 1;
        }
        let ghost polled = self@;
        proof {
            assert(cleaned.take(cleaned.len() as int) =~= cleaned);
            assert(polled.take(polled.len() as int) =~= polled);
        }
        self.clean_up_closed_channels();
        proof {
            if unique_ids(orig) {
                lemma_retain_open_unique(orig);
                lemma_table_round_keys(retain_open(orig), capacities, offers);
                lemma_retain_open_unique(table_round(retain_open(orig), capacities, offers).0);
            }
            assert(table_round(retain_open(orig), capacities, offers) == (polled, frame_models(out@)));
            lemma_retain_open_keys(polled);
            assert forall|k: int| 0 <= k < self@.len() implies (#[trigger] self@[k]).1
                != ChannelView::Closed && has_key(orig, self@[k].0) by {
                let m = choose|m: int| 0 <= m < polled.len() && polled[m].0 == self@[k].0;
                assert(keys(polled)[m] == keys(cleaned)[m]);
                assert(has_key(orig, cleaned[m].0));
            }
            use_type_invariant(&*self);
        }
        out
    }
}

impl<B> MuxState<B> {
    /// The state right after the handshake: active, with no channels.
    pub fn opened() -> (r: Self)
        ensures
            r@ == MuxView::Active(Seq::empty()),
            mux_ids_unique(r@),
    {
        proof {
            assert(keys(Seq::<(ChannelId, ChannelView)>::empty()) =~= Seq::<ChannelId>::empty());
        }
        MuxState::Active(ActiveData::default())
    }

    /// Whether the multiplexer is closed.
    pub fn closed(&self) -> (r: bool)
        ensures
            r == (self@ is Closed),
    {
        match self {
            MuxState::Closed(_) => true,
            _ => false,
        }
    }
}

/// Whether a requested open can start: only while active.
pub open spec fn mux_open_step(v: MuxView, id: ChannelId) -> (MuxView, Option<
    Result<(), OpenChannelErrorKind>,
>) {
    match v {
        MuxView::Active(a) => {
            let (c, r) = open_step(channel_of(a, id));
            (
                MuxView::Active(set_channel(a, id, c)),
                match r {
                    Some(Ok(())) => Some(Ok(())),
                    Some(Err(_)) => Some(Err(OpenChannelErrorKind::ChannelInUse)),
                    None => None,
                },
            )
        },
        _ => (v, Some(Err(OpenChannelErrorKind::MuxNotOpen))),
    }
}

/// Whether `r` and `after` are what a round of sends over the table `a`
/// gives, for reports that the buffers of its open channels, listed in
/// `states`, gave as their own contracts allow: the closed channels
/// dropped, the frames of the round returned, and the table of the round,
/// without its closed channels, kept in the same phase of the multiplexer.
pub open spec fn sends_round<B: ChannelBuffer>(
    a: ChannelTable,
    states: Seq<ChannelState<B>>,
    r: Result<Vec<Frame>, MuxNotOpen>,
    after: MuxView,
) -> bool {
    exists|capacities: Seq<Poll<Option<u64>>>, offers: Seq<Poll<Option<Seq<u8>>>>|
        #![trigger table_round(retain_open(a), capacities, offers)]
        {
            let (t, frames) = table_round(retain_open(a), capacities, offers);
            &&& capacities.len() == retain_open(a).len()
            &&& offers.len() == capacities.len()
            &&& forall|i: int|
                0 <= i < capacities.len() ==> polled_by_contract(
                    #[trigger] states[i],
                    capacities[i],
                    offers[i],
                )
            &&& r matches Ok(out) && frame_models(out@) == frames
            &&& match after {
                MuxView::Active(b) => b == retain_open(t),
                MuxView::Terminating(b) => b == retain_open(t),
                MuxView::Closed(_) => false,
            }
        }
}

/// The two ways a local open fails in the multiplexer.
pub ghost enum OpenChannelErrorKind {
    ChannelInUse,
    MuxNotOpen,
}

impl<B> MuxState<B> {
    /// The channels of a multiplexer that is not closed and are not closed
    /// themselves, with their buffers, in order; none once it is closed.
    pub open spec fn open_states(&self) -> Seq<ChannelState<B>> {
        match self {
            MuxState::Active(a) => a.open_states(),
            MuxState::Terminating(a) => a.open_states(),
            MuxState::Closed(_) => Seq::empty(),
        }
    }

    /// The channels of a multiplexer that is not closed have distinct ids.
    fn ids_unique(&self)
        ensures
            mux_ids_unique(self@),
    {
        match self {
            MuxState::Active(a) => {
                proof {
                    use_type_invariant(a);
                }
            },
            MuxState::Terminating(a) => {
                proof {
                    use_type_invariant(a);
                }
            },
            MuxState::Closed(_) => {},
        }
    }

    /// The channel `id` of a multiplexer that is not closed, with its
    /// buffer; a closed channel otherwise.
    pub open spec fn channel_state(&self, id: ChannelId) -> ChannelState<B> {
        match self {
            MuxState::Active(a) => a.channel_state(id),
            MuxState::Terminating(a) => a.channel_state(id),
            MuxState::Closed(_) => ChannelState::Closed,
        }
    }
}

impl<B: ChannelBuffer> MuxState<B> {
    /// The frames to send in one round, or an error when the multiplexer is
    /// closed.
    pub fn poll_sends(&mut self, waker: &std::task::Waker) -> (r: Result<Vec<Frame>, MuxNotOpen>)
        ensures
            old(self)@ is Closed <==> r is Err,
            old(self)@ is Closed ==> final(self)@ == old(self)@,
            old(self)@ is Active ==> final(self)@ is Active,
            old(self)@ is Terminating ==> final(self)@ is Terminating,
            forall|a: ChannelTable|
                (old(self)@ == MuxView::Active(a) || old(self)@ == MuxView::Terminating(a))
                    ==> #[trigger] sends_round(a, old(self).open_states(), r, final(self)@),
            mux_ids_unique(final(self)@),
    {
        let r = match self {
            MuxState::Active(a) => Ok(a.poll_sends(waker)),
            MuxState::Terminating(a) => Ok(a.poll_sends(waker)),
            MuxState::Closed(_) => Err(MuxNotOpen),
        };
        self.ids_unique();
        r
    }

    /// Whether [`Self::on_recv`] can take `f`: an admit must not overflow the
    /// permit counter of an open channel.
    pub fn fits_recv(&self, f: &Frame) -> (r: bool)
        ensures
            r == recv_fits(self@, f@),
    {
        match (self, f) {
            (MuxState::Active(a), Frame::ChannelControl(id, c)) => a.fits_control(*id, *c),
            (MuxState::Terminating(a), Frame::ChannelControl(id, c)) => a.fits_control(*id, *c),
            _ => true,
        }
    }

    /// Handles a received frame; the state changes and the reply, if any, is
    /// returned.
    pub fn on_recv(&mut self, f: Frame) -> (r: Option<Frame>)
        requires
            recv_fits(old(self)@, f@),
        ensures
            exists|accepted: bool|
                (final(self)@, frame_option_view(r)) == mux_step(old(self)@, f@, accepted),
            f matches Frame::ChannelData(id, d) ==> old(self)@ is Closed || exists|
                h: Option<ChannelControlHeader>,
            |
                frame_option_view(r) == channel_reply(id, h) && recv_data_post(
                    old(self).channel_state(id),
                    d@,
                    final(self).channel_state(id),
                    h,
                ),
            mux_ids_unique(final(self)@),
    {
        let mut taken: MuxState<B> = MuxState::Closed(Err(ClosedReason::Panicked));
        std::mem::swap(&mut taken, self);
        let (new_state, reply) = taken.on_recv_owned(f);
        *self = new_state;
        self.ids_unique();
        reply
    }

    fn on_recv_owned(self, frame: Frame) -> (r: (Self, Option<Frame>))
        requires
            recv_fits(self@, frame@),
        ensures
            exists|accepted: bool| (r.0@, frame_option_view(r.1)) == mux_step(self@, frame@, accepted),
            frame matches Frame::ChannelData(id, d) ==> self@ is Closed || exists|
                h: Option<ChannelControlHeader>,
            |
                frame_option_view(r.1) == channel_reply(id, h) && recv_data_post(
                    self.channel_state(id),
                    d@,
                    r.0.channel_state(id),
                    h,
                ),
    {
        let ghost v = self@;
        let ghost fv = frame@;
        match (self, frame) {
            (MuxState::Closed(s), Frame::MuxControl(MuxControlHeader::Hello)) => {
                let r = (MuxState::Closed(s), Some(Frame::MuxControl(MuxControlHeader::Reset)));
                assert((r.0@, frame_option_view(r.1)) == mux_step(v, fv, true));
                r
            },
            (MuxState::Active(_), f @ Frame::MuxControl(MuxControlHeader::Hello))
            | (MuxState::Terminating(_), f @ Frame::MuxControl(MuxControlHeader::Hello))
            | (MuxState::Active(_), f @ Frame::MuxControl(MuxControlHeader::Finished))
            | (MuxState::Terminating(_), f @ Frame::MuxControl(MuxControlHeader::Terminate)) => {
                let r = (
                    MuxState::Closed(Err(ClosedReason::UnexpectedFrame(f))),
                    Some(Frame::MuxControl(MuxControlHeader::Reset)),
                );
                assert((r.0@, frame_option_view(r.1)) == mux_step(v, fv, true));
                r
            },
            (MuxState::Closed(s), Frame::MuxControl(MuxControlHeader::Reset)) => {
                let r = (MuxState::Closed(s), None);
                assert((r.0@, frame_option_view(r.1)) == mux_step(v, fv, true));
                r
            },
            (_, Frame::MuxControl(MuxControlHeader::Reset)) => {
                let r = (MuxState::Closed(Err(ClosedReason::Reset)), None);
                assert((r.0@, frame_option_view(r.1)) == mux_step(v, fv, true));
                r
            },
            (MuxState::Closed(s), _) => {
                let r = (MuxState::Closed(s), Some(Frame::MuxControl(MuxControlHeader::Reset)));
                assert((r.0@, frame_option_view(r.1)) == mux_step(v, fv, true));
                r
            },
            (MuxState::Active(mut a), Frame::ChannelData(id, f)) => {
                let ghost before = a@;
                let response = a.on_channel_data(id, f);
                let r = (MuxState::Active(a), response);
                proof {
                    let accepted = choose|accepted: bool|
                        (a@, frame_option_view(response)) == table_data_step(before, id, accepted);
                    assert((r.0@, frame_option_view(r.1)) == mux_step(v, fv, accepted));
                }
                r
            },
            (MuxState::Terminating(mut a), Frame::ChannelData(id, f)) => {
                let ghost before = a@;
                let response = a.on_channel_data(id, f);
                let r = (MuxState::Terminating(a), response);
                proof {
                    let accepted = choose|accepted: bool|
                        (a@, frame_option_view(response)) == table_data_step(before, id, accepted);
                    assert((r.0@, frame_option_view(r.1)) == mux_step(v, fv, accepted));
                }
                r
            },
            (MuxState::Active(mut a), Frame::ChannelControl(id, f)) => {
                let response = a.on_channel_control(id, f);
                let r = (MuxState::Active(a), response);
                assert((r.0@, frame_option_view(r.1)) == mux_step(v, fv, true));
                r
            },
            (MuxState::Terminating(mut a), Frame::ChannelControl(id, ChannelControlHeader::Open(_))) => {
                // no new channels while terminating
                a.remove_channel(id);
                let r = (
                    MuxState::Terminating(a),
                    Some(Frame::ChannelControl(id, ChannelControlHeader::Reset)),
                );
                assert((r.0@, frame_option_view(r.1)) == mux_step(v, fv, true));
                r
            },
            (MuxState::Terminating(mut a), Frame::ChannelControl(id, f)) => {
                let response = a.on_channel_control(id, f);
                let r = (MuxState::Terminating(a), response);
                assert((r.0@, frame_option_view(r.1)) == mux_step(v, fv, true));
                r
            },
            (MuxState::Active(a), Frame::MuxControl(MuxControlHeader::Terminate)) => {
                let r = (MuxState::Terminating(a), Some(Frame::MuxControl(MuxControlHeader::Terminate)));
                assert((r.0@, frame_option_view(r.1)) == mux_step(v, fv, true));
                r
            },
            (MuxState::Terminating(_), Frame::MuxControl(MuxControlHeader::Finished)) => {
                let r = (MuxState::Closed(Ok(())), None);
                assert((r.0@, frame_option_view(r.1)) == mux_step(v, fv, true));
                r
            },
        }
    }

    /// Starts opening channel `channel_id` from our side; only an active
    /// multiplexer opens channels.
    pub fn open_channel<F: FnOnce() -> B>(
        &mut self,
        channel_id: ChannelId,
        waker: std::task::Waker,
        make_buf: F,
    ) -> (r: Poll<Result<(), OpenChannelError>>)
        requires
            make_buf.requires(()),
        ensures
            final(self)@ == mux_open_step(old(self)@, channel_id).0,
            mux_ids_unique(final(self)@),
            match mux_open_step(old(self)@, channel_id).1 {
                None => r is Pending,
                Some(Ok(())) => r == Poll::<Result<(), OpenChannelError>>::Ready(Ok(())),
                Some(Err(OpenChannelErrorKind::ChannelInUse)) => r
                    == Poll::<Result<(), OpenChannelError>>::Ready(
                    Err(OpenChannelError::ChannelInUse),
                ),
                Some(Err(OpenChannelErrorKind::MuxNotOpen)) => r
                    == Poll::<Result<(), OpenChannelError>>::Ready(
                    Err(OpenChannelError::MuxNotOpen(MuxNotOpen)),
                ),
            },
    {
        let r = match self {
            MuxState::Active(a) => {
                let i = a.entry_index(channel_id);
                let ghost t = a@;
                let ghost tv = a.channels@;
                let mut cell = a.take_state(i);
                assert(cell@ == t[i as int].1);
                let r = cell.poll_open(waker, make_buf);
                a.put_state(i, cell);
                proof {
                    assert forall|j: int| 0 <= j < a@.len() implies a@[j] == t.update(
                        i as int,
                        (channel_id, open_step(t[i as int].1).0),
                    )[j] by {
                        if j != i {
                            assert(a.channels@[j] == tv[j]);
                        } else {
                            assert(a.channels@[j].0 == tv[j].0);
                            assert(tv[j].0 == channel_id);
                        }
                    }
                    assert(a@ =~= t.update(
                        i as int,
                        (channel_id, open_step(t[i as int].1).0),
                    ));
                }
                match r {
                    Poll::Ready(Ok(())) => Poll::Ready(Ok(())),
                    Poll::Ready(Err(_)) => Poll::Ready(Err(OpenChannelError::ChannelInUse)),
                    Poll::Pending => Poll::Pending,
                }
            },
            _ => Poll::Ready(Err(OpenChannelError::MuxNotOpen(MuxNotOpen))),
        };
        self.ids_unique();
        r
    }
}

} // verus!

verus! {

// ---------------------------------------------------------------------------
// Laws
// ---------------------------------------------------------------------------

/// Whether no channel id occurs twice in a table.
pub open spec fn unique_ids(t: ChannelTable) -> bool {
    keys(t).no_duplicates()
}

/// Whether the channels of a multiplexer have distinct ids.
pub open spec fn mux_ids_unique(v: MuxView) -> bool {
    match v {
        MuxView::Active(a) => unique_ids(a),
        MuxView::Terminating(a) => unique_ids(a),
        MuxView::Closed(_) => true,
    }
}

proof fn lemma_keys_no_dup_equiv(t: ChannelTable)
    ensures
        unique_ids(t) <==> forall|i: int, j: int|
            0 <= i < t.len() && 0 <= j < t.len() && i != j ==> #[trigger] t[i].0 != #[trigger] t[j].0,
{
    let k = keys(t);
    assert(k.len() == t.len());
    if unique_ids(t) {
        assert forall|i: int, j: int|
            0 <= i < t.len() && 0 <= j < t.len() && i != j implies #[trigger] t[i].0
            != #[trigger] t[j].0 by {
            assert(k[i] == t[i].0 && k[j] == t[j].0);
        }
    }
    if forall|i: int, j: int|
        0 <= i < t.len() && 0 <= j < t.len() && i != j ==> #[trigger] t[i].0 != #[trigger] t[j].0 {
        assert forall|i: int, j: int|
            0 <= i < k.len() && 0 <= j < k.len() && i != j implies k[i] != k[j] by {
            assert(k[i] == t[i].0 && k[j] == t[j].0);
        }
    }
}

proof fn lemma_set_channel_unique(s: ChannelTable, id: ChannelId, c: ChannelView)
    requires
        unique_ids(s),
    ensures
        unique_ids(set_channel(s, id, c)),
        unique_ids(with_entry(s, id)),
{
    lemma_keys_no_dup_equiv(s);
    let t = with_entry(s, id);
    if !has_key(s, id) {
        assert forall|i: int| 0 <= i < s.len() implies s[i].0 != id by {}
    }
    lemma_keys_no_dup_equiv(t);
    assert(has_key(t, id)) by {
        if has_key(s, id) {
        } else {
            assert(t[s.len() as int].0 == id);
        }
    }
    let k = index_of(t, id);
    let u = t.update(k, (id, c));
    assert(t[k].0 == id);
    assert forall|i: int, j: int|
        0 <= i < u.len() && 0 <= j < u.len() && i != j implies #[trigger] u[i].0 != #[trigger] u[j].0 by {
        assert(u[i].0 == t[i].0);
        assert(u[j].0 == t[j].0);
    }
    lemma_keys_no_dup_equiv(u);
}

proof fn lemma_remove_unique(s: ChannelTable, k: int)
    requires
        unique_ids(s),
        0 <= k < s.len(),
    ensures
        unique_ids(s.remove(k)),
{
    lemma_keys_no_dup_equiv(s);
    let u = s.remove(k);
    assert forall|i: int, j: int|
        0 <= i < u.len() && 0 <= j < u.len() && i != j implies #[trigger] u[i].0
        != #[trigger] u[j].0 by {
        let si = if i < k { i } else { i + 1 };
        let sj = if j < k { j } else { j + 1 };
        assert(u[i] == s[si]);
        assert(u[j] == s[sj]);
    }
    lemma_keys_no_dup_equiv(u);
}

proof fn lemma_without_key_unique(s: ChannelTable, id: ChannelId)
    requires
        unique_ids(s),
    ensures
        unique_ids(without_key(s, id)),
{
    lemma_keys_no_dup_equiv(s);
    if has_key(s, id) {
        let k = index_of(s, id);
        let u = s.remove(k);
        assert forall|i: int, j: int|
            0 <= i < u.len() && 0 <= j < u.len() && i != j implies #[trigger] u[i].0
            != #[trigger] u[j].0 by {
            let si = if i < k { i } else { i + 1 };
            let sj = if j < k { j } else { j + 1 };
            assert(u[i] == s[si]);
            assert(u[j] == s[sj]);
        }
        lemma_keys_no_dup_equiv(u);
    }
}

proof fn lemma_retain_open_unique(s: ChannelTable)
    requires
        unique_ids(s),
    ensures
        unique_ids(retain_open(s)),
    decreases s.len(),
{
    if s.len() > 0 {
        let d = s.drop_last();
        lemma_keys_no_dup_equiv(s);
        assert forall|i: int, j: int|
            0 <= i < d.len() && 0 <= j < d.len() && i != j implies #[trigger] d[i].0
            != #[trigger] d[j].0 by {
            assert(d[i] == s[i] && d[j] == s[j]);
        }
        lemma_keys_no_dup_equiv(d);
        lemma_retain_open_unique(d);
        lemma_retain_open_keys(d);
        let r = retain_open(d);
        if s.last().1 != ChannelView::Closed {
            let u = r.push(s.last());
            lemma_keys_no_dup_equiv(r);
            assert forall|i: int| 0 <= i < r.len() implies r[i].0 != s.last().0 by {
                assert(has_key(d, r[i].0));
                let m = choose|m: int| 0 <= m < d.len() && d[m].0 == r[i].0;
                assert(s[m] == d[m]);
                assert(s[s.len() - 1] == s.last());
            }
            assert forall|i: int, j: int|
                0 <= i < u.len() && 0 <= j < u.len() && i != j implies #[trigger] u[i].0
                != #[trigger] u[j].0 by {
                if i < r.len() && j < r.len() {
                    assert(u[i] == r[i] && u[j] == r[j]);
                } else if i < r.len() {
                    assert(u[i] == r[i] && u[j] == s.last());
                } else {
                    assert(u[j] == r[j] && u[i] == s.last());
                }
            }
            lemma_keys_no_dup_equiv(u);
        }
    }
}

proof fn lemma_table_round_keys(
    t: ChannelTable,
    capacities: Seq<Poll<Option<u64>>>,
    offers: Seq<Poll<Option<Seq<u8>>>>,
)
    ensures
        keys(table_round(t, capacities, offers).0) == keys(t),
    decreases t.len(),
{
    if t.len() > 0 {
        let n = t.len() - 1;
        lemma_table_round_keys(t.drop_last(), capacities.take(n), offers.take(n));
        let rest = table_round(t.drop_last(), capacities.take(n), offers.take(n)).0;
        let (c, f) = channel_round(t[n].0, t[n].1, capacities[n], offers[n]);
        assert(keys(rest.push((t[n].0, c))) =~= keys(rest).push(t[n].0));
        assert(keys(t) =~= keys(t.drop_last()).push(t[n].0));
    }
}

/// A channel id names at most one channel, as in a map keyed by id: a
/// received frame, a local open and a round of sends all keep the ids of
/// the channels distinct.
pub proof fn lemma_channel_ids_stay_unique(
    v: MuxView,
    f: FrameModel,
    accepted: bool,
    id: ChannelId,
    capacities: Seq<Poll<Option<u64>>>,
    offers: Seq<Poll<Option<Seq<u8>>>>,
)
    requires
        mux_ids_unique(v),
    ensures
        mux_ids_unique(mux_step(v, f, accepted).0),
        mux_ids_unique(mux_open_step(v, id).0),
        forall|a: ChannelTable|
            (v == MuxView::Active(a) || v == MuxView::Terminating(a)) ==> #[trigger] unique_ids(
                retain_open(table_round(retain_open(a), capacities, offers).0),
            ),
{
    match v {
        MuxView::Active(a) => {
            match f {
                FrameModel::ChannelData(i, _) => {
                    lemma_set_channel_unique(a, i, data_step(channel_of(a, i), accepted).0);
                },
                FrameModel::ChannelControl(i, c) => {
                    lemma_set_channel_unique(a, i, control_step(channel_of(a, i), c).0);
                },
                _ => {},
            }
            lemma_set_channel_unique(a, id, open_step(channel_of(a, id)).0);
            lemma_retain_open_unique(a);
            let t = table_round(retain_open(a), capacities, offers).0;
            lemma_table_round_keys(retain_open(a), capacities, offers);
            lemma_retain_open_unique(t);
        },
        MuxView::Terminating(a) => {
            match f {
                FrameModel::ChannelData(i, _) => {
                    lemma_set_channel_unique(a, i, data_step(channel_of(a, i), accepted).0);
                },
                FrameModel::ChannelControl(i, c) => {
                    lemma_set_channel_unique(a, i, control_step(channel_of(a, i), c).0);
                    lemma_without_key_unique(a, i);
                },
                _ => {},
            }
            lemma_retain_open_unique(a);
            let t = table_round(retain_open(a), capacities, offers).0;
            lemma_table_round_keys(retain_open(a), capacities, offers);
            lemma_retain_open_unique(t);
        },
        MuxView::Closed(_) => {},
    }
}

/// A closed multiplexer stays closed with the reason it closed for, whatever
/// it receives; it answers every frame but a reset with a reset, and answers
/// a reset with nothing, so two closed ends never trade resets forever.
pub proof fn lemma_closed_is_final(r: Result<(), ClosedReasonView>, f: FrameModel, accepted: bool)
    ensures
        mux_step(MuxView::Closed(r), f, accepted).0 == MuxView::Closed(r),
        f == reset_frame() ==> mux_step(MuxView::Closed(r), f, accepted).1 is None,
        f != reset_frame() ==> mux_step(MuxView::Closed(r), f, accepted).1 == Some(reset_frame()),
{
}

/// A reset received while active or terminating shuts the multiplexer down
/// with reason `Reset`, and nothing is sent back.
pub proof fn lemma_reset_shuts_down(v: MuxView, accepted: bool)
    requires
        !(v is Closed),
    ensures
        mux_step(v, reset_frame(), accepted) == (
            MuxView::Closed(Err(ClosedReasonView::Reset)),
            None::<FrameModel>,
        ),
{
}

/// A hello after the handshake closes a multiplexer that is not yet closed,
/// naming the hello as the unexpected frame, and is answered with a reset.
pub proof fn lemma_late_hello_closes(v: MuxView, accepted: bool)
    requires
        !(v is Closed),
    ensures
        mux_step(v, FrameModel::MuxControl(MuxControlHeader::Hello), accepted) == (
            MuxView::Closed(
                Err(ClosedReasonView::UnexpectedFrame(FrameModel::MuxControl(MuxControlHeader::Hello))),
            ),
            Some(reset_frame()),
        ),
{
}

/// Graceful shutdown: an active multiplexer that receives `Terminate`
/// answers `Terminate` and keeps its channels while terminating; a
/// following `Finished` closes it successfully with no reply.
pub proof fn lemma_graceful_shutdown(a: ChannelTable, accepted: bool)
    ensures
        mux_step(MuxView::Active(a), FrameModel::MuxControl(MuxControlHeader::Terminate), accepted)
            == (
            MuxView::Terminating(a),
            Some(FrameModel::MuxControl(MuxControlHeader::Terminate)),
        ),
        mux_step(MuxView::Terminating(a), FrameModel::MuxControl(MuxControlHeader::Finished), accepted)
            == (MuxView::Closed(Ok(())), None::<FrameModel>),
{
}

/// While terminating, a request from the other side to open a channel is
/// refused with a channel reset, and the channel is dropped from the table.
pub proof fn lemma_terminating_refuses_opens(a: ChannelTable, id: ChannelId, size: u8, accepted: bool)
    ensures
        mux_step(
            MuxView::Terminating(a),
            FrameModel::ChannelControl(id, ChannelControlHeader::Open(size)),
            accepted,
        ) == (
            MuxView::Terminating(without_key(a, id)),
            Some(FrameModel::ChannelControl(id, ChannelControlHeader::Reset)),
        ),
{
}

/// An active or terminating multiplexer only ever closes, never goes back:
/// receiving a frame keeps it out of the active phase once it terminates.
pub proof fn lemma_no_return_to_active(a: ChannelTable, f: FrameModel, accepted: bool)
    requires
        recv_fits(MuxView::Terminating(a), f),
    ensures
        !(mux_step(MuxView::Terminating(a), f, accepted).0 is Active),
{
}

/// While terminating, the channels keep working: a data frame, and a
/// control frame other than an open request, does to the table and answers
/// exactly what it does and answers while active, and the multiplexer stays
/// terminating.
pub proof fn lemma_terminating_channels_work_as_active(a: ChannelTable, f: FrameModel, accepted: bool)
    requires
        f is ChannelData || (f matches FrameModel::ChannelControl(_, c) && !(c is Open)),
    ensures
        ({
            let (va, ra) = mux_step(MuxView::Active(a), f, accepted);
            let (vt, rt) = mux_step(MuxView::Terminating(a), f, accepted);
            &&& va is Active
            &&& vt == MuxView::Terminating(va->Active_0)
            &&& rt == ra
        }),
{
}

/// An admit of `p` from the other side adds `p` to an open channel's send
/// permits, without a reply, in the active phase and while terminating, so
/// data still waiting can go out during shutdown.
pub proof fn lemma_admit_adds_permits(
    a: ChannelTable,
    id: ChannelId,
    p: u8,
    their: u64,
    our: u64,
    accepted: bool,
)
    requires
        channel_of(a, id) == (ChannelView::Open { their, our }),
        our + p <= u64::MAX,
    ensures
        mux_step(
            MuxView::Active(a),
            FrameModel::ChannelControl(id, ChannelControlHeader::Admit(p)),
            accepted,
        ) == (
            MuxView::Active(set_channel(a, id, ChannelView::Open { their, our: (our + p) as u64 })),
            None::<FrameModel>,
        ),
        mux_step(
            MuxView::Terminating(a),
            FrameModel::ChannelControl(id, ChannelControlHeader::Admit(p)),
            accepted,
        ) == (
            MuxView::Terminating(
                set_channel(a, id, ChannelView::Open { their, our: (our + p) as u64 }),
            ),
            None::<FrameModel>,
        ),
{
}

/// A data frame for an open channel spends one of the other side's permits
/// and, when the buffer takes it, is not answered; a data frame sent without
/// a permit, or refused by the buffer, closes the channel and is answered
/// with a reset of that channel. This holds in the active phase and while
/// terminating.
pub proof fn lemma_data_frame_spends_a_permit(
    a: ChannelTable,
    id: ChannelId,
    d: Seq<u8>,
    their: u64,
    our: u64,
    accepted: bool,
)
    requires
        channel_of(a, id) == (ChannelView::Open { their, our }),
    ensures
        their > 0 && accepted ==> mux_step(MuxView::Active(a), FrameModel::ChannelData(id, d), accepted)
            == (
            MuxView::Active(set_channel(a, id, ChannelView::Open { their: (their - 1) as u64, our })),
            None::<FrameModel>,
        ),
        !(their > 0 && accepted) ==> mux_step(
            MuxView::Active(a),
            FrameModel::ChannelData(id, d),
            accepted,
        ) == (
            MuxView::Active(set_channel(a, id, ChannelView::Closed)),
            Some(FrameModel::ChannelControl(id, ChannelControlHeader::Reset)),
        ),
        their > 0 && accepted ==> mux_step(
            MuxView::Terminating(a),
            FrameModel::ChannelData(id, d),
            accepted,
        ) == (
            MuxView::Terminating(
                set_channel(a, id, ChannelView::Open { their: (their - 1) as u64, our }),
            ),
            None::<FrameModel>,
        ),
{
}

} // verus!
