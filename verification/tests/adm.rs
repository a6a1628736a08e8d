use caligula::stdiomux::adm::{
    adm_recv_step, adm_send_fin, adm_send_syn, next_tx_choice, tx_permitted, AdmChannel,
    AdmEffect, AdmFrame, AdmRxDecision, AdmTable, AlreadyClosed, ChannelInUse, QueuePoll,
    SynOutcome, TxChoice,
};
use caligula::stdiomux::frame::ChannelId;

#[test]
fn reset_closes_every_channel_silently() {
    for s in [
        AdmChannel::Closed,
        AdmChannel::SentOpen { our_rx_buffer: 4 },
        AdmChannel::RecvdOpen { their_rx_buffer: 4 },
        AdmChannel::Established,
        AdmChannel::SentClose,
    ] {
        assert_eq!(adm_recv_step(s, AdmFrame::Reset), (AdmChannel::Closed, None, AdmEffect::Nothing));
    }
}

#[test]
fn established_channel_delivers_data_and_admissions() {
    assert_eq!(
        adm_recv_step(AdmChannel::Established, AdmFrame::Data(vec![1, 2, 3])),
        (AdmChannel::Established, None, AdmEffect::Deliver(vec![1, 2, 3]))
    );
    assert_eq!(
        adm_recv_step(AdmChannel::Established, AdmFrame::Adm(17)),
        (AdmChannel::Established, None, AdmEffect::SetMaxSeqno(17))
    );
    assert_eq!(
        adm_recv_step(AdmChannel::SentClose, AdmFrame::Data(vec![9])),
        (AdmChannel::SentClose, None, AdmEffect::Nothing)
    );
}

#[test]
fn unexpected_frames_reset_the_channel() {
    assert_eq!(
        adm_recv_step(AdmChannel::Closed, AdmFrame::Data(vec![1])),
        (AdmChannel::Closed, Some(AdmFrame::Reset), AdmEffect::Nothing)
    );
    assert_eq!(
        adm_recv_step(AdmChannel::SentOpen { our_rx_buffer: 8 }, AdmFrame::Syn(3)),
        (AdmChannel::Closed, Some(AdmFrame::Reset), AdmEffect::Nothing)
    );
    assert_eq!(
        adm_recv_step(AdmChannel::Closed, AdmFrame::Fin),
        (AdmChannel::Closed, Some(AdmFrame::Reset), AdmEffect::Nothing)
    );
}

#[test]
fn open_and_close_handshakes() {
    let (s, reply, _) = adm_recv_step(AdmChannel::Closed, AdmFrame::Syn(32));
    assert_eq!(s, AdmChannel::RecvdOpen { their_rx_buffer: 32 });
    assert_eq!(reply, None);
    assert_eq!(
        adm_send_syn(s, 16),
        Ok((
            AdmChannel::Established,
            AdmFrame::Syn(16),
            SynOutcome::Established { our_rx_buffer: 16, their_rx_buffer: 32 }
        ))
    );
    assert_eq!(
        adm_send_syn(AdmChannel::Closed, 16),
        Ok((AdmChannel::SentOpen { our_rx_buffer: 16 }, AdmFrame::Syn(16), SynOutcome::Waiting))
    );
    assert_eq!(adm_send_syn(AdmChannel::Established, 16), Err(ChannelInUse));
    assert_eq!(adm_send_fin(AdmChannel::Established), Ok((AdmChannel::SentClose, AdmFrame::Fin)));
    assert_eq!(adm_send_fin(AdmChannel::SentClose), Err(AlreadyClosed));
    assert_eq!(
        adm_recv_step(AdmChannel::SentClose, AdmFrame::Fin),
        (AdmChannel::Closed, None, AdmEffect::Nothing)
    );
    assert_eq!(
        adm_recv_step(AdmChannel::Established, AdmFrame::Fin),
        (AdmChannel::Closed, Some(AdmFrame::Fin), AdmEffect::Nothing)
    );
}

#[test]
fn table_answers_unknown_channels_with_a_reset() {
    let mut t = AdmTable::new();
    assert_eq!(
        t.on_recv(ChannelId(5), AdmFrame::Syn(1)),
        AdmRxDecision::UnknownChannel(AdmFrame::Reset)
    );
    assert_eq!(t.state(ChannelId(5)), AdmChannel::Closed);
    assert_eq!(t.open_channel(ChannelId(5), 64), Ok((AdmFrame::Syn(64), SynOutcome::Waiting)));
    assert_eq!(t.state(ChannelId(5)), AdmChannel::SentOpen { our_rx_buffer: 64 });
    assert_eq!(t.open_channel(ChannelId(5), 64), Err(ChannelInUse));
    assert_eq!(
        t.on_recv(ChannelId(5), AdmFrame::Adm(3)),
        AdmRxDecision::Handled { reply: Some(AdmFrame::Reset), effect: AdmEffect::Nothing }
    );
    assert_eq!(t.state(ChannelId(5)), AdmChannel::Closed);
}

#[test]
fn high_priority_frames_leave_first() {
    assert_eq!(next_tx_choice(QueuePoll::Ready, QueuePoll::Ready), TxChoice::SendHighPriority);
    assert_eq!(next_tx_choice(QueuePoll::Pending, QueuePoll::Ready), TxChoice::SendNormal);
    assert_eq!(next_tx_choice(QueuePoll::Pending, QueuePoll::Pending), TxChoice::Wait);
    assert_eq!(next_tx_choice(QueuePoll::Closed, QueuePoll::Ready), TxChoice::Stop);
    assert_eq!(next_tx_choice(QueuePoll::Pending, QueuePoll::Closed), TxChoice::Stop);
    assert!(tx_permitted(3, 3));
    assert!(!tx_permitted(4, 3));
}
