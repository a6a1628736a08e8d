//! Admission control of channels: the per-channel handshake and flow of
//! SYN, DAT, ADM, FIN and RST frames, the table of channels, and the order
//! in which queued frames leave.
//!
//! The decisions are made here; the tasks that move frames between queues
//! and the transport perform the actions these functions return.
use vstd::prelude::*;

use dashmap::DashMap;

use crate::stdiomux::frame::ChannelId;

verus! {

/// A frame of the admission protocol.
#[derive(Debug, PartialEq, Eq)]
pub enum AdmFrame {
    /// The channel is torn down.
    Reset,
    /// A payload for the channel's user.
    Data(Vec<u8>),
    /// The highest sequence number the other side may now send.
    Adm(u64),
    /// An open request, with the sender's receive buffer size.
    Syn(u64),
    /// A close request.
    Fin,
}

/// Mathematical view of an [`AdmFrame`].
pub ghost enum AdmFrameModel {
    Reset,
    Data(Seq<u8>),
    Adm(u64),
    Syn(u64),
    Fin,
}

impl View for AdmFrame {
    type V = AdmFrameModel;

    open spec fn view(&self) -> AdmFrameModel {
        match self {
            AdmFrame::Reset => AdmFrameModel::Reset,
            AdmFrame::Data(b) => AdmFrameModel::Data(b@),
            AdmFrame::Adm(n) => AdmFrameModel::Adm(*n),
            AdmFrame::Syn(n) => AdmFrameModel::Syn(*n),
            AdmFrame::Fin => AdmFrameModel::Fin,
        }
    }
}

/// Where one channel stands in its handshake.
#[derive(Debug, PartialEq, Eq, Structural, Clone, Copy)]
pub enum AdmChannel {
    Closed,
    /// We sent an open request and wait for the channel to be set up.
    SentOpen { our_rx_buffer: u64 },
    /// The other side sent an open request; we have not.
    RecvdOpen { their_rx_buffer: u64 },
    /// Both sides opened: data and admissions flow.
    Established,
    /// We sent a close request and wait for the other side's.
    SentClose,
}

/// What receiving a frame asks of the tasks around the channel, besides the
/// reply.
#[derive(Debug, PartialEq, Eq)]
pub enum AdmEffect {
    Nothing,
    /// Hand this payload to the channel's user.
    Deliver(Vec<u8>),
    /// Let the channel's sender go up to this sequence number.
    SetMaxSeqno(u64),
}

/// Mathematical view of an [`AdmEffect`].
pub ghost enum AdmEffectModel {
    Nothing,
    Deliver(Seq<u8>),
    SetMaxSeqno(u64),
}

impl View for AdmEffect {
    type V = AdmEffectModel;

    open spec fn view(&self) -> AdmEffectModel {
        match self {
            AdmEffect::Nothing => AdmEffectModel::Nothing,
            AdmEffect::Deliver(b) => AdmEffectModel::Deliver(b@),
            AdmEffect::SetMaxSeqno(n) => AdmEffectModel::SetMaxSeqno(*n),
        }
    }
}

/// The channel id is already in use.
#[derive(Debug, PartialEq, Eq, Structural, Clone, Copy)]
pub struct ChannelInUse;

/// The channel is already closed, or closing.
#[derive(Debug, PartialEq, Eq, Structural, Clone, Copy)]
pub struct AlreadyClosed;

/// Why opening a channel failed.
#[derive(Debug, PartialEq, Eq, Structural, Clone, Copy)]
pub enum OpenChannelError {
    /// The connection went away before the channel was set up.
    Reset,
    ChannelInUse(ChannelInUse),
}

/// What sending an open request leads to.
#[derive(Debug, PartialEq, Eq, Structural, Clone, Copy)]
pub enum SynOutcome {
    /// Wait for the other side to set the channel up.
    Waiting,
    /// The other side had opened already: the channel is set up now, with
    /// both receive buffer sizes.
    Established { our_rx_buffer: u64, their_rx_buffer: u64 },
}

// ---------------------------------------------------------------------------
// One channel
// ---------------------------------------------------------------------------

/// What a received frame does to a channel: the new state, the reply, and
/// what the tasks around the channel must do. A reset closes silently; data
/// and admissions count only on an established channel and are ignored while
/// we close; an open request is taken while closed or half-open from the
/// other side; a close request is answered with one unless we asked first.
/// Anything else closes the channel with a reset.
pub open spec fn adm_recv_spec(s: AdmChannel, f: AdmFrameModel) -> (
    AdmChannel,
    Option<AdmFrameModel>,
    AdmEffectModel,
) {
    match f {
        AdmFrameModel::Reset => (AdmChannel::Closed, None, AdmEffectModel::Nothing),
        AdmFrameModel::Data(b) => match s {
            AdmChannel::Established => (s, None, AdmEffectModel::Deliver(b)),
            AdmChannel::SentClose => (s, None, AdmEffectModel::Nothing),
            _ => (AdmChannel::Closed, Some(AdmFrameModel::Reset), AdmEffectModel::Nothing),
        },
        AdmFrameModel::Adm(m) => match s {
            AdmChannel::Established => (s, None, AdmEffectModel::SetMaxSeqno(m)),
            AdmChannel::SentClose => (s, None, AdmEffectModel::Nothing),
            _ => (AdmChannel::Closed, Some(AdmFrameModel::Reset), AdmEffectModel::Nothing),
        },
        AdmFrameModel::Syn(buf) => match s {
            AdmChannel::Closed | AdmChannel::RecvdOpen { .. } => (
                AdmChannel::RecvdOpen { their_rx_buffer: buf },
                None,
                AdmEffectModel::Nothing,
            ),
            _ => (AdmChannel::Closed, Some(AdmFrameModel::Reset), AdmEffectModel::Nothing),
        },
        AdmFrameModel::Fin => match s {
            AdmChannel::SentClose => (AdmChannel::Closed, None, AdmEffectModel::Nothing),
            AdmChannel::Closed => (
                AdmChannel::Closed,
                Some(AdmFrameModel::Reset),
                AdmEffectModel::Nothing,
            ),
            _ => (AdmChannel::Closed, Some(AdmFrameModel::Fin), AdmEffectModel::Nothing),
        },
    }
}

/// What sending an open request does: from closed we wait for the other
/// side; after the other side's request the channel is set up at once; a
/// channel in any other state is in use.
pub open spec fn adm_send_syn_spec(s: AdmChannel, our_rx_buffer: u64) -> Result<
    (AdmChannel, SynOutcome),
    ChannelInUse,
> {
    match s {
        AdmChannel::Closed => Ok((AdmChannel::SentOpen { our_rx_buffer }, SynOutcome::Waiting)),
        AdmChannel::RecvdOpen { their_rx_buffer } => Ok(
            (AdmChannel::Established, SynOutcome::Established { our_rx_buffer, their_rx_buffer }),
        ),
        _ => Err(ChannelInUse),
    }
}

/// What sending a close request does: a channel that is closed or closing
/// refuses; any other goes to waiting for the other side's close request.
pub open spec fn adm_send_fin_spec(s: AdmChannel) -> Result<AdmChannel, AlreadyClosed> {
    match s {
        AdmChannel::Closed | AdmChannel::SentClose => Err(AlreadyClosed),
        _ => Ok(AdmChannel::SentClose),
    }
}

/// The view of a reply.
pub open spec fn reply_view(r: Option<AdmFrame>) -> Option<AdmFrameModel> {
    match r {
        Some(f) => Some(f@),
        None => None,
    }
}

/// Handles a frame received for a channel: returns the channel's new state,
/// the frame to send back, if any, and what to do with the frame's content.
pub fn adm_recv_step(state: AdmChannel, frame: AdmFrame) -> (r: (AdmChannel, Option<AdmFrame>, AdmEffect))
    ensures
        (r.0, reply_view(r.1), r.2@) == adm_recv_spec(state, frame@),
{
    match frame {
        AdmFrame::Reset => (AdmChannel::Closed, None, AdmEffect::Nothing),
        AdmFrame::Data(body) => match state {
            AdmChannel::Established => (state, None, AdmEffect::Deliver(body)),
            AdmChannel::SentClose => (state, None, AdmEffect::Nothing),
            _ => (AdmChannel::Closed, Some(AdmFrame::Reset), AdmEffect::Nothing),
        },
        AdmFrame::Adm(max_seqno) => match state {
            AdmChannel::Established => (state, None, AdmEffect::SetMaxSeqno(max_seqno)),
            AdmChannel::SentClose => (state, None, AdmEffect::Nothing),
            _ => (AdmChannel::Closed, Some(AdmFrame::Reset), AdmEffect::Nothing),
        },
        AdmFrame::Syn(their_rx_buffer) => match state {
            AdmChannel::Closed | AdmChannel::RecvdOpen { .. } => (
                AdmChannel::RecvdOpen { their_rx_buffer },
                None,
                AdmEffect::Nothing,
            ),
            _ => (AdmChannel::Closed, Some(AdmFrame::Reset), AdmEffect::Nothing),
        },
        AdmFrame::Fin => match state {
            AdmChannel::SentClose => (AdmChannel::Closed, None, AdmEffect::Nothing),
            AdmChannel::Closed => (AdmChannel::Closed, Some(AdmFrame::Reset), AdmEffect::Nothing),
            _ => (AdmChannel::Closed, Some(AdmFrame::Fin), AdmEffect::Nothing),
        },
    }
}

/// Sends an open request on a channel, announcing our receive buffer:
/// returns the new state, the request to send and whether the channel is set
/// up now, or that the channel is in use.
pub fn adm_send_syn(state: AdmChannel, our_rx_buffer: u64) -> (r: Result<
    (AdmChannel, AdmFrame, SynOutcome),
    ChannelInUse,
>)
    ensures
        match (r, adm_send_syn_spec(state, our_rx_buffer)) {
            (Ok((s, f, o)), Ok((s2, o2))) => s == s2 && o == o2 && f@ == AdmFrameModel::Syn(
                our_rx_buffer,
            ),
            (Err(e), Err(e2)) => e == e2,
            _ => false,
        },
{
    match state {
        AdmChannel::Closed => Ok(
            (AdmChannel::SentOpen { our_rx_buffer }, AdmFrame::Syn(our_rx_buffer), SynOutcome::Waiting),
        ),
        AdmChannel::RecvdOpen { their_rx_buffer } => Ok(
            (
                AdmChannel::Established,
                AdmFrame::Syn(our_rx_buffer),
                SynOutcome::Established { our_rx_buffer, their_rx_buffer },
            ),
        ),
        _ => Err(ChannelInUse),
    }
}

/// Sends a close request on a channel: returns the new state and the request
/// to send, or that the channel is already closed or closing.
pub fn adm_send_fin(state: AdmChannel) -> (r: Result<(AdmChannel, AdmFrame), AlreadyClosed>)
    ensures
        match (r, adm_send_fin_spec(state)) {
            (Ok((s, f)), Ok(s2)) => s == s2 && f@ == AdmFrameModel::Fin,
            (Err(e), Err(e2)) => e == e2,
            _ => false,
        },
{
    match state {
        AdmChannel::Closed | AdmChannel::SentClose => Err(AlreadyClosed),
        _ => Ok((AdmChannel::SentClose, AdmFrame::Fin)),
    }
}

/// Whether a channel's sender may send the payload with sequence number
/// `next_seqno`, given the highest number the other side admitted.
pub fn tx_permitted(next_seqno: u64, max_seqno: u64) -> (r: bool)
    ensures
        r == (next_seqno <= max_seqno),
{
    next_seqno <= max_seqno
}


// ---------------------------------------------------------------------------
// The table of channels
// ---------------------------------------------------------------------------

/// A concurrent map (`dashmap::DashMap`).
#[verifier::external_type_specification]
#[verifier::external_body]
#[verifier::reject_recursive_types(K)]
#[verifier::reject_recursive_types(V)]
#[verifier::reject_recursive_types(S)]
pub struct ExDashMap<K, V, S>(dashmap::DashMap<K, V, S>);

/// The entries of a channel map, by channel id.
pub uninterp spec fn channel_map_entries(m: DashMap<u16, AdmChannel>) -> Map<u16, AdmChannel>;

/// `DashMap::new`: a map with no entries.
#[verifier::external_body]
fn channel_map_new() -> (r: DashMap<u16, AdmChannel>)
    ensures
        channel_map_entries(r).dom() == Set::<u16>::empty(),
{
    DashMap::new()
}

/// `DashMap::get`: the entry under `key`, copied out of the read guard the
/// map hands out, or `None` when it has none.
#[verifier::external_body]
fn channel_map_get(m: &DashMap<u16, AdmChannel>, key: u16) -> (r: Option<AdmChannel>)
    ensures
        r == (if channel_map_entries(*m).contains_key(key) {
            Some(channel_map_entries(*m)[key])
        } else {
            None
        }),
{
    m.get(&key).map(|e| *e.value())
}

/// `DashMap::insert`: puts `value` under `key`, replacing the entry there,
/// which it returns.
#[verifier::external_body]
fn channel_map_insert(m: &mut DashMap<u16, AdmChannel>, key: u16, value: AdmChannel) -> (r: Option<
    AdmChannel,
>)
    ensures
        channel_map_entries(*final(m)) == channel_map_entries(*old(m)).insert(key, value),
        r == (if channel_map_entries(*old(m)).contains_key(key) {
            Some(channel_map_entries(*old(m))[key])
        } else {
            None
        }),
{
    m.insert(key, value)
}

/// The channels that have been opened or named by the other side, by id.
/// The table owns its map and changes it only through `&mut self`.
pub struct AdmTable {
    channels: DashMap<u16, AdmChannel>,
}

impl View for AdmTable {
    type V = Map<u16, AdmChannel>;

    closed spec fn view(&self) -> Map<u16, AdmChannel> {
        channel_map_entries(self.channels)
    }
}

/// The state of channel `id`: closed when the table has no entry for it.
pub open spec fn entry_of(m: Map<u16, AdmChannel>, id: ChannelId) -> AdmChannel {
    if m.contains_key(id.0) {
        m[id.0]
    } else {
        AdmChannel::Closed
    }
}

/// What the receiving task does with a frame for a channel.
#[derive(Debug, PartialEq, Eq)]
pub enum AdmRxDecision {
    /// No such channel: send this reset on it and stop receiving.
    UnknownChannel(AdmFrame),
    /// The channel took the frame: send the reply, if any, and act on the
    /// effect.
    Handled { reply: Option<AdmFrame>, effect: AdmEffect },
}

impl AdmTable {
    /// An empty table.
    pub fn new() -> (r: Self)
        ensures
            r@ == Map::<u16, AdmChannel>::empty(),
    {
        let r = AdmTable { channels: channel_map_new() };
        assert(r@ =~= Map::<u16, AdmChannel>::empty());
        r
    }

    /// The state of channel `id`; closed when it has no entry.
    pub fn state(&self, id: ChannelId) -> (r: AdmChannel)
        ensures
            r == entry_of(self@, id),
    {
        match channel_map_get(&self.channels, id.0) {
            Some(s) => s,
            None => AdmChannel::Closed,
        }
    }

    /// Opens channel `id` from our side, announcing our receive buffer: the
    /// channel gets an entry if it had none, then sends an open request as
    /// [`adm_send_syn`] does. Returns the request and what it leads to, or
    /// that the channel is in use.
    pub fn open_channel(&mut self, id: ChannelId, our_rx_buffer: usize) -> (r: Result<
        (AdmFrame, SynOutcome),
        ChannelInUse,
    >)
        ensures
            match adm_send_syn_spec(entry_of(old(self)@, id), our_rx_buffer as u64) {
                Ok((s, o)) => r matches Ok((f, o2)) && f@ == AdmFrameModel::Syn(our_rx_buffer as u64)
                    && o2 == o && final(self)@ == old(self)@.insert(id.0, s),
                Err(e) => r == Err::<(AdmFrame, SynOutcome), ChannelInUse>(e) && final(self)@
                    == old(self)@.insert(id.0, entry_of(old(self)@, id)),
            },
    {
        let current = self.state(id);
        match adm_send_syn(current, our_rx_buffer as u64) {
            Ok((next, frame, outcome)) => {
                channel_map_insert(&mut self.channels, id.0, next);
                Ok((frame, outcome))
            },
            Err(e) => {
                channel_map_insert(&mut self.channels, id.0, current);
                Err(e)
            },
        }
    }

    /// Handles a frame received for channel `id`. A channel without an entry
    /// is answered with a reset and receiving stops; otherwise the channel
    /// steps as [`adm_recv_step`] does.
    pub fn on_recv(&mut self, id: ChannelId, frame: AdmFrame) -> (r: AdmRxDecision)
        ensures
            !old(self)@.contains_key(id.0) ==> final(self)@ == old(self)@ && (r matches AdmRxDecision::UnknownChannel(f)
                && f@ == AdmFrameModel::Reset),
            old(self)@.contains_key(id.0) ==> (r matches AdmRxDecision::Handled { reply, effect }
                && ({
                let (s, rep, eff) = adm_recv_spec(old(self)@[id.0], frame@);
                &&& final(self)@ == old(self)@.insert(id.0, s)
                &&& reply_view(reply) == rep
                &&& effect@ == eff
            })),
    {
        let current = match channel_map_get(&self.channels, id.0) {
            Some(s) => s,
            None => {
                return AdmRxDecision::UnknownChannel(AdmFrame::Reset);
            },
        };
        let (next, reply, effect) = adm_recv_step(current, frame);
        channel_map_insert(&mut self.channels, id.0, next);
        AdmRxDecision::Handled { reply, effect }
    }
}

// ---------------------------------------------------------------------------
// Sending order
// ---------------------------------------------------------------------------

/// What polling one of the outgoing queues gave.
#[derive(Debug, PartialEq, Eq, Structural, Clone, Copy)]
pub enum QueuePoll {
    /// Nothing queued yet.
    Pending,
    /// Every sender of the queue is gone.
    Closed,
    /// A frame is ready.
    Ready,
}

/// What the sending task does next.
#[derive(Debug, PartialEq, Eq, Structural, Clone, Copy)]
pub enum TxChoice {
    SendHighPriority,
    SendNormal,
    Wait,
    Stop,
}

/// The sending order: the high-priority queue (control replies) always goes
/// first; the normal queue (data) is looked at only while the high-priority
/// queue has nothing; a closed queue, when it is the one looked at, stops
/// the task.
pub open spec fn tx_choice_spec(high: QueuePoll, normal: QueuePoll) -> TxChoice {
    match high {
        QueuePoll::Ready => TxChoice::SendHighPriority,
        QueuePoll::Closed => TxChoice::Stop,
        QueuePoll::Pending => match normal {
            QueuePoll::Ready => TxChoice::SendNormal,
            QueuePoll::Closed => TxChoice::Stop,
            QueuePoll::Pending => TxChoice::Wait,
        },
    }
}

/// Decides what the sending task does, given what polling the high-priority
/// queue and then the normal queue gave.
pub fn next_tx_choice(high: QueuePoll, normal: QueuePoll) -> (r: TxChoice)
    ensures
        r == tx_choice_spec(high, normal),
{
    match high {
        QueuePoll::Ready => TxChoice::SendHighPriority,
        QueuePoll::Closed => TxChoice::Stop,
        QueuePoll::Pending => match normal {
            QueuePoll::Ready => TxChoice::SendNormal,
            QueuePoll::Closed => TxChoice::Stop,
            QueuePoll::Pending => TxChoice::Wait,
        },
    }
}


// ---------------------------------------------------------------------------
// Laws
// ---------------------------------------------------------------------------

/// A reset from the other side closes the channel in every state, with no
/// reply and nothing delivered.
pub proof fn lemma_adm_reset_closes(s: AdmChannel)
    ensures
        adm_recv_spec(s, AdmFrameModel::Reset) == (
            AdmChannel::Closed,
            None::<AdmFrameModel>,
            AdmEffectModel::Nothing,
        ),
{
}

/// Opening after the other side's open request sets the channel up at
/// once, with both sides' receive buffers; opening first waits, and a second
/// open finds the channel in use.
pub proof fn lemma_adm_open_handshake(our: u64, their: u64)
    ensures
        ({
            let (s, rep, eff) = adm_recv_spec(AdmChannel::Closed, AdmFrameModel::Syn(their));
            &&& rep is None
            &&& eff == AdmEffectModel::Nothing
            &&& adm_send_syn_spec(s, our) == Ok::<(AdmChannel, SynOutcome), ChannelInUse>(
                (
                    AdmChannel::Established,
                    SynOutcome::Established { our_rx_buffer: our, their_rx_buffer: their },
                ),
            )
        }),
        adm_send_syn_spec(AdmChannel::Closed, our) == Ok::<(AdmChannel, SynOutcome), ChannelInUse>(
            (AdmChannel::SentOpen { our_rx_buffer: our }, SynOutcome::Waiting),
        ),
        adm_send_syn_spec(AdmChannel::SentOpen { our_rx_buffer: our }, their) == Err::<
            (AdmChannel, SynOutcome),
            ChannelInUse,
        >(ChannelInUse),
{
}

/// Closing: a close request we send is met by the other side's, which
/// closes the channel without a reply; a close request from the other side
/// on a live channel is answered with ours.
pub proof fn lemma_adm_close_handshake(s: AdmChannel)
    requires
        s == AdmChannel::Established || s matches AdmChannel::SentOpen { .. } || s matches AdmChannel::RecvdOpen { .. },
    ensures
        adm_send_fin_spec(s) == Ok::<AdmChannel, AlreadyClosed>(AdmChannel::SentClose),
        adm_recv_spec(AdmChannel::SentClose, AdmFrameModel::Fin) == (
            AdmChannel::Closed,
            None::<AdmFrameModel>,
            AdmEffectModel::Nothing,
        ),
        adm_recv_spec(s, AdmFrameModel::Fin) == (
            AdmChannel::Closed,
            Some(AdmFrameModel::Fin),
            AdmEffectModel::Nothing,
        ),
        adm_send_fin_spec(AdmChannel::SentClose) == Err::<AdmChannel, AlreadyClosed>(AlreadyClosed),
{
}

/// Only an established channel hands data to its user or moves its
/// sender's limit: data or an admission on a channel that is neither
/// established nor closing tears it down with a reset.
pub proof fn lemma_adm_data_needs_established(s: AdmChannel, f: AdmFrameModel)
    requires
        f is Data || f is Adm,
    ensures
        adm_recv_spec(s, f).2 != AdmEffectModel::Nothing ==> s == AdmChannel::Established,
        s != AdmChannel::Established && s != AdmChannel::SentClose ==> adm_recv_spec(s, f) == (
            AdmChannel::Closed,
            Some(AdmFrameModel::Reset),
            AdmEffectModel::Nothing,
        ),
{
}

/// An established channel hands every payload to its user unchanged and
/// passes every admission on as the new limit of its sender, staying
/// established and sending nothing back; a channel that is closing drops
/// both silently.
pub proof fn lemma_adm_established_passes_data_on(b: Seq<u8>, m: u64)
    ensures
        adm_recv_spec(AdmChannel::Established, AdmFrameModel::Data(b)) == (
            AdmChannel::Established,
            None::<AdmFrameModel>,
            AdmEffectModel::Deliver(b),
        ),
        adm_recv_spec(AdmChannel::Established, AdmFrameModel::Adm(m)) == (
            AdmChannel::Established,
            None::<AdmFrameModel>,
            AdmEffectModel::SetMaxSeqno(m),
        ),
        adm_recv_spec(AdmChannel::SentClose, AdmFrameModel::Data(b)) == (
            AdmChannel::SentClose,
            None::<AdmFrameModel>,
            AdmEffectModel::Nothing,
        ),
        adm_recv_spec(AdmChannel::SentClose, AdmFrameModel::Adm(m)) == (
            AdmChannel::SentClose,
            None::<AdmFrameModel>,
            AdmEffectModel::Nothing,
        ),
{
}

/// An open request from the other side is taken by a closed or half-open
/// channel, which records the other side's buffer size; any channel that
/// opened from our side, or is established or closing, is torn down with a
/// reset.
pub proof fn lemma_adm_syn_received(s: AdmChannel, buf: u64)
    ensures
        (s == AdmChannel::Closed || s is RecvdOpen) ==> adm_recv_spec(s, AdmFrameModel::Syn(buf)) == (
            AdmChannel::RecvdOpen { their_rx_buffer: buf },
            None::<AdmFrameModel>,
            AdmEffectModel::Nothing,
        ),
        !(s == AdmChannel::Closed || s is RecvdOpen) ==> adm_recv_spec(s, AdmFrameModel::Syn(buf))
            == (AdmChannel::Closed, Some(AdmFrameModel::Reset), AdmEffectModel::Nothing),
{
}

/// The sending order: a ready high-priority frame always goes first, data
/// goes only while the high-priority queue has nothing, and the task stops
/// exactly when the queue it looks at is closed.
pub proof fn lemma_high_priority_first(high: QueuePoll, normal: QueuePoll)
    ensures
        high == QueuePoll::Ready ==> tx_choice_spec(high, normal) == TxChoice::SendHighPriority,
        tx_choice_spec(high, normal) == TxChoice::SendNormal ==> high == QueuePoll::Pending
            && normal == QueuePoll::Ready,
        tx_choice_spec(high, normal) == TxChoice::Stop <==> (high == QueuePoll::Closed || (high
            == QueuePoll::Pending && normal == QueuePoll::Closed)),
        tx_choice_spec(high, normal) == TxChoice::Wait <==> (high == QueuePoll::Pending && normal
            == QueuePoll::Pending),
{
}

} // verus!
