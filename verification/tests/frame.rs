use caligula::stdiomux::frame::{
    encode_frame, hello_payload_bytes, read_frame, write_frame_chunks, ChannelControlHeader,
    ChannelDataFrame, ChannelId, DeserializeFrameError, Frame, Header, MuxControlHeader,
    ReadFrameError, MAX_PAYLOAD,
};

fn sample_frames() -> Vec<Frame> {
    vec![
        Frame::MuxControl(MuxControlHeader::Reset),
        Frame::MuxControl(MuxControlHeader::Hello),
        Frame::MuxControl(MuxControlHeader::Terminate),
        Frame::MuxControl(MuxControlHeader::Finished),
        Frame::ChannelControl(ChannelId(0), ChannelControlHeader::Reset),
        Frame::ChannelControl(ChannelId(65535), ChannelControlHeader::Open(255)),
        Frame::ChannelControl(ChannelId(1234), ChannelControlHeader::Admit(7)),
        Frame::ChannelData(ChannelId(9), ChannelDataFrame(vec![])),
        Frame::ChannelData(ChannelId(42), ChannelDataFrame(b"hello world".to_vec())),
        Frame::ChannelData(ChannelId(65535), ChannelDataFrame(vec![0xab; MAX_PAYLOAD - 1])),
        Frame::ChannelData(ChannelId(77), ChannelDataFrame(vec![0xcd; MAX_PAYLOAD])),
        Frame::ChannelData(ChannelId(0), ChannelDataFrame(vec![0x01; MAX_PAYLOAD])),
    ]
}

#[test]
fn test_serialize_roundtrip() {
    for frame in sample_frames() {
        let buf = encode_frame(&frame);
        let (result, consumed) = read_frame(&buf).unwrap();
        assert_eq!(result, frame, "not the same frame");
        assert_eq!(consumed, buf.len(), "did not consume all produced data");
    }
}

#[test]
fn roundtrip_with_trailing_bytes() {
    let mut buf = encode_frame(&Frame::ChannelData(ChannelId(3), ChannelDataFrame(vec![1, 2])));
    let n = buf.len();
    buf.extend_from_slice(&[9, 9, 9]);
    let (result, consumed) = read_frame(&buf).unwrap();
    assert_eq!(result, Frame::ChannelData(ChannelId(3), ChannelDataFrame(vec![1, 2])));
    assert_eq!(consumed, n);
}

#[test]
fn header_word_layout() {
    assert_eq!(Header::MuxControl(MuxControlHeader::Hello).serialized(), 0x0100_0000);
    assert_eq!(
        Header::ChannelControl(ChannelId(0x1234), ChannelControlHeader::Admit(0x56)).serialized(),
        0x1256_1234
    );
    assert_eq!(Header::ChannelData(ChannelId(7), 0x0abc).serialized(), 0x2abc_0007);
    assert_eq!(
        Header::deserialize(0x1256_1234).unwrap(),
        Header::ChannelControl(ChannelId(0x1234), ChannelControlHeader::Admit(0x56))
    );
}

#[test]
fn full_length_data_header_comes_back() {
    // A payload of exactly MAX_PAYLOAD bytes carries into the lowest frame-type bit.
    let word = Header::ChannelData(ChannelId(1), MAX_PAYLOAD as u16).serialized();
    assert_eq!(word, 0x3000_0001);
    assert_eq!(Header::deserialize(word), Ok(Header::ChannelData(ChannelId(1), MAX_PAYLOAD as u16)));
    // frame type 3 with anything in the length field stays invalid
    assert_eq!(Header::deserialize(0x3001_0000), Err(DeserializeFrameError::InvalidFrameType(3)));
}

#[test]
fn invalid_words_are_rejected() {
    assert_eq!(Header::deserialize(0xf000_0000), Err(DeserializeFrameError::InvalidFrameType(15)));
    assert_eq!(
        Header::deserialize(0x0400_0000),
        Err(DeserializeFrameError::InvalidMuxControlOpcode(4))
    );
    assert_eq!(
        Header::deserialize(0x1300_0000),
        Err(DeserializeFrameError::InvalidChannelControlOpcode(3))
    );
}

#[test]
fn short_input_is_unexpected_eof() {
    assert_eq!(read_frame(&[0x20, 0x00]), Err(ReadFrameError::UnexpectedEof));
    // a data header announcing 5 bytes followed by only 2
    assert_eq!(read_frame(&[0x20, 0x05, 0x00, 0x01, 1, 2]), Err(ReadFrameError::UnexpectedEof));
}

#[test]
fn bad_hello_names_its_text() {
    let mut payload = b"stdiomux piped v9.9.9\0junk".to_vec();
    payload.resize(MAX_PAYLOAD, 0);
    let r = Header::MuxControl(MuxControlHeader::Hello).with_payload(payload);
    assert_eq!(
        r,
        Err(DeserializeFrameError::InvalidHello("stdiomux piped v9.9.9".to_string()))
    );
    let good = hello_payload_bytes();
    assert_eq!(good.len(), MAX_PAYLOAD);
    assert!(good.starts_with(b"stdiomux piped v"));
    assert_eq!(
        Header::MuxControl(MuxControlHeader::Hello).with_payload(good),
        Ok(Frame::MuxControl(MuxControlHeader::Hello))
    );
}

#[test]
fn small_frames_are_written_at_once() {
    let frame = Frame::ChannelData(ChannelId(1), ChannelDataFrame(vec![5; 10]));
    let chunks = write_frame_chunks(&frame);
    assert_eq!(chunks, vec![encode_frame(&frame)]);

    let hello = Frame::MuxControl(MuxControlHeader::Hello);
    let chunks = write_frame_chunks(&hello);
    assert_eq!(chunks.len(), 2);
    assert_eq!(chunks[0], vec![0x01, 0, 0, 0]);
    assert_eq!(chunks[1], hello_payload_bytes());
}

#[test]
fn payload_and_header_of_frames() {
    let frame = Frame::ChannelData(ChannelId(2), ChannelDataFrame(vec![1, 2, 3]));
    assert_eq!(frame.header(), Header::ChannelData(ChannelId(2), 3));
    assert_eq!(frame.payload(), vec![1, 2, 3]);
    assert_eq!(Header::ChannelData(ChannelId(2), 3).payload_length(), 3);
    assert_eq!(Header::MuxControl(MuxControlHeader::Hello).payload_length() as usize, MAX_PAYLOAD);
    assert_eq!(Header::MuxControl(MuxControlHeader::Reset).payload_length(), 0);
}

#[test]
fn debug_text_writes_variants_and_byte_literals() {
    assert_eq!(Frame::MuxControl(MuxControlHeader::Hello).debug_text(), "MuxControl(Hello)");
    assert_eq!(
        Frame::ChannelControl(ChannelId(42), ChannelControlHeader::Open(7)).debug_text(),
        "ChannelControl(ChannelId(42), Open(7))"
    );
    assert_eq!(
        Frame::ChannelControl(ChannelId(65535), ChannelControlHeader::Reset).debug_text(),
        "ChannelControl(ChannelId(65535), Reset)"
    );
    let payload = vec![b'a', b'\n', 1, b'"', 0, 200, b'\\', b'\t', b'\r', b'~'];
    assert_eq!(
        Frame::ChannelData(ChannelId(3), ChannelDataFrame(payload)).debug_text(),
        "ChannelData(ChannelId(3), ChannelDataFrame(b\"a\\n\\x01\\\"\\0\\xc8\\\\\\t\\r~\"))"
    );
    assert_eq!(
        Frame::ChannelData(ChannelId(0), ChannelDataFrame(vec![])).debug_text(),
        "ChannelData(ChannelId(0), ChannelDataFrame(b\"\"))"
    );
}
