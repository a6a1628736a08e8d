use caligula::stdiomux::mux::{
    deserialize_datagram, is_valid_handshake, serialize_datagram, version_1_magic_handshake_bytes,
    BodyTooLong, DatagramHeader, Frame, FrameType, DatagramError, StreamId, MAX_BODY,
};

#[test]
fn round_trip() {
    for stream_id in [0u16, 1, 100, 65535] {
        for len in [0usize, 1, 100, MAX_BODY] {
            let stream_id = StreamId(stream_id);
            let payload = Frame::Data(vec![0u8; len]);

            let ser = serialize_datagram(stream_id, &payload).unwrap();
            let (id, frame, consumed) = deserialize_datagram(&ser).unwrap();

            assert_eq!((id, frame), (stream_id, payload));
            assert_eq!(consumed, ser.len());
        }
    }
}

#[test]
fn payload_too_big() {
    for len in [MAX_BODY + 1, MAX_BODY + 2, MAX_BODY + 10, MAX_BODY * 2] {
        let stream_id = StreamId(0);
        let payload = Frame::Data(vec![0u8; len]);
        let r = serialize_datagram(stream_id, &payload);
        assert_eq!(r, Err(BodyTooLong { len }), "Did not error when sending excessively large payload");
    }
}

#[test]
fn test_send_and_recv() {
    let frame = Frame::Data(b"hello world".to_vec());
    let ser = serialize_datagram(StreamId(10), &frame).unwrap();
    let (id, rc, _) = deserialize_datagram(&ser).unwrap();
    assert_eq!((id, rc), (StreamId(10), frame));
}

#[test]
fn datagram_layout() {
    let ser = serialize_datagram(StreamId(0x0102), &Frame::Adm(0x0a0b_0c0d_0e0f_1011)).unwrap();
    assert_eq!(
        ser,
        vec![0, 8, 0x01, 0x02, 2, 0, 0x0a, 0x0b, 0x0c, 0x0d, 0x0e, 0x0f, 0x10, 0x11]
    );
    let (id, f, n) = deserialize_datagram(&ser).unwrap();
    assert_eq!((id, f, n), (StreamId(0x0102), Frame::Adm(0x0a0b_0c0d_0e0f_1011), 14));
    assert_eq!(Frame::Syn.type_field(), FrameType::SYN);
    assert_eq!(Frame::Reset.body(), Vec::<u8>::new());
}

#[test]
fn bad_datagrams_are_rejected() {
    // body longer than the maximum
    assert_eq!(deserialize_datagram(&[0xff, 0xff, 0, 0, 1, 0]), Err(DatagramError::BodyTooLong(65535)));
    // unknown type
    assert_eq!(deserialize_datagram(&[0, 0, 0, 0, 9, 0]), Err(DatagramError::UnrecognizedFrameType(9)));
    // admit with a short body
    assert_eq!(deserialize_datagram(&[0, 2, 0, 0, 2, 0, 1, 2]), Err(DatagramError::InvalidAdmBody));
    // truncated header and body
    assert_eq!(deserialize_datagram(&[0, 2, 0]), Err(DatagramError::UnexpectedEof));
    assert_eq!(deserialize_datagram(&[0, 2, 0, 0, 1, 0, 7]), Err(DatagramError::UnexpectedEof));
    assert_eq!(
        DatagramHeader::parse(&[0, 3, 0, 4, 3, 0]),
        Ok(DatagramHeader { body_len: 3, stream_id: StreamId(4), frame_type: FrameType::SYN })
    );
}

#[test]
fn handshake_is_checked() {
    let good = version_1_magic_handshake_bytes();
    assert_eq!(good, b"stdiomux\0\0\0\0\0\0\0\x01".to_vec());
    assert!(is_valid_handshake(&good));
    assert!(!is_valid_handshake(b"stdiomux\0\0\0\0\0\0\0\x02"));
    assert!(!is_valid_handshake(b"stdiomux"));
}
