pub mod channel;
pub mod state;
pub mod tokio;

use vstd::prelude::*;

verus! {

/// Largest datagram, header included.
pub const MTU: usize = 65536;

/// Size of a datagram header: body length (2 bytes), stream id (2 bytes),
/// frame type (1 byte) and a reserved byte.
pub const HEADER_BYTES: usize = 6;

/// Largest datagram body.
pub const MAX_BODY: usize = MTU - HEADER_BYTES;

/// Length of the handshake that both ends send before any datagram.
pub const HANDSHAKE_LEN: usize = 16;

/// Identifier of a stream inside the datagram layer.
#[derive(Debug, PartialEq, Eq, Structural, PartialOrd, Ord, Hash, Clone, Copy)]
pub struct StreamId(pub u16);

/// The type byte of a datagram.
#[derive(Debug, PartialEq, Eq, Structural, PartialOrd, Ord, Hash, Clone, Copy)]
pub enum FrameType {
    RST,
    DAT,
    ADM,
    SYN,
    FIN,
}

/// A datagram of the stream layer.
#[derive(Debug, PartialEq, Eq, PartialOrd, Ord, Hash, Clone)]
pub enum Frame {
    Reset,
    Data(Vec<u8>),
    Adm(u64),
    Syn,
    Fin,
}

/// A datagram body longer than [`MAX_BODY`] cannot be sent.
#[derive(Debug, PartialEq, Eq, Structural, Clone, Copy)]
pub struct BodyTooLong {
    pub len: usize,
}

/// Why bytes could not be read as a datagram.
#[derive(Debug, PartialEq, Eq, Structural, Clone, Copy)]
pub enum DatagramError {
    /// The bytes ended before the datagram did.
    UnexpectedEof,
    /// The header announces a body longer than [`MAX_BODY`].
    BodyTooLong(usize),
    /// The type byte names no frame type.
    UnrecognizedFrameType(u8),
    /// An admit datagram's body is shorter than eight bytes.
    InvalidAdmBody,
}

/// The decoded header of a datagram.
#[derive(Debug, PartialEq, Eq, Structural, Clone, Copy)]
pub struct DatagramHeader {
    pub body_len: usize,
    pub stream_id: StreamId,
    pub frame_type: FrameType,
}

/// Mathematical view of a datagram, with its body as a sequence.
pub ghost enum FrameModel {
    Reset,
    Data(Seq<u8>),
    Adm(u64),
    Syn,
    Fin,
}

impl View for Frame {
    type V = FrameModel;

    open spec fn view(&self) -> FrameModel {
        match self {
            Frame::Reset => FrameModel::Reset,
            Frame::Data(b) => FrameModel::Data(b@),
            Frame::Adm(n) => FrameModel::Adm(*n),
            Frame::Syn => FrameModel::Syn,
            Frame::Fin => FrameModel::Fin,
        }
    }
}

pub open spec fn frame_type_repr(t: FrameType) -> u8 {
    match t {
        FrameType::RST => 0,
        FrameType::DAT => 1,
        FrameType::ADM => 2,
        FrameType::SYN => 3,
        FrameType::FIN => 4,
    }
}

pub open spec fn frame_type_from_repr_spec(r: u8) -> Option<FrameType> {
    if r == 0 {
        Some(FrameType::RST)
    } else if r == 1 {
        Some(FrameType::DAT)
    } else if r == 2 {
        Some(FrameType::ADM)
    } else if r == 3 {
        Some(FrameType::SYN)
    } else if r == 4 {
        Some(FrameType::FIN)
    } else {
        None
    }
}

pub open spec fn type_field_spec(f: FrameModel) -> FrameType {
    match f {
        FrameModel::Reset => FrameType::RST,
        FrameModel::Data(_) => FrameType::DAT,
        FrameModel::Adm(_) => FrameType::ADM,
        FrameModel::Syn => FrameType::SYN,
        FrameModel::Fin => FrameType::FIN,
    }
}

/// The eight bytes of a 64-bit number, most significant first.
pub open spec fn be_bytes_u64(x: u64) -> Seq<u8> {
    seq![
        (x >> 56u64) as u8,
        (x >> 48u64) as u8,
        (x >> 40u64) as u8,
        (x >> 32u64) as u8,
        (x >> 24u64) as u8,
        (x >> 16u64) as u8,
        (x >> 8u64) as u8,
        x as u8,
    ]
}

/// The 64-bit number spelled by `b[0..8]`, most significant byte first.
pub open spec fn u64_from_be(b: Seq<u8>) -> u64 {
    (b[0] as u64) << 56u64 | (b[1] as u64) << 48u64 | (b[2] as u64) << 40u64 | (b[3] as u64)
        << 32u64 | (b[4] as u64) << 24u64 | (b[5] as u64) << 16u64 | (b[6] as u64) << 8u64 | (
    b[7] as u64)
}

/// The two bytes of a 16-bit number, most significant first.
pub open spec fn be_bytes_u16(x: int) -> Seq<u8> {
    seq![(x / 0x100) as u8, (x % 0x100) as u8]
}

/// The body that a datagram carries.
pub open spec fn body_spec(f: FrameModel) -> Seq<u8> {
    match f {
        FrameModel::Data(b) => b,
        FrameModel::Adm(seqno) => be_bytes_u64(seqno),
        _ => Seq::empty(),
    }
}

/// The bytes of a datagram: body length, stream id, type byte, a zero byte,
/// then the body.
pub open spec fn datagram_bytes(stream_id: StreamId, f: FrameModel) -> Seq<u8> {
    be_bytes_u16(body_spec(f).len() as int) + be_bytes_u16(stream_id.0 as int) + seq![
        frame_type_repr(type_field_spec(f)),
        0u8,
    ] + body_spec(f)
}

/// What the six header bytes at the front of `b` decode to.
pub open spec fn parse_header_spec(b: Seq<u8>) -> Result<DatagramHeader, DatagramError> {
    if b.len() < HEADER_BYTES {
        Err(DatagramError::UnexpectedEof)
    } else {
        let body_len = (b[0] * 0x100 + b[1]) as usize;
        let stream_id = StreamId((b[2] * 0x100 + b[3]) as u16);
        if body_len > MAX_BODY {
            Err(DatagramError::BodyTooLong(body_len))
        } else {
            match frame_type_from_repr_spec(b[4]) {
                None => Err(DatagramError::UnrecognizedFrameType(b[4])),
                Some(t) => Ok(DatagramHeader { body_len, stream_id, frame_type: t }),
            }
        }
    }
}

/// The datagram that a header and its body make. A header of type `FIN` has
/// no meaning here.
pub open spec fn frame_from_body_spec(t: FrameType, body: Seq<u8>) -> Result<FrameModel, DatagramError> {
    match t {
        FrameType::RST => Ok(FrameModel::Reset),
        FrameType::DAT => Ok(FrameModel::Data(body)),
        FrameType::SYN => Ok(FrameModel::Syn),
        FrameType::ADM => if body.len() < 8 {
            Err(DatagramError::InvalidAdmBody)
        } else {
            Ok(FrameModel::Adm(u64_from_be(body)))
        },
        FrameType::FIN => Ok(FrameModel::Fin),
    }
}

/// Whether reading `b` reaches a complete datagram of type `FIN`, which has
/// no decoding.
pub open spec fn reaches_fin(b: Seq<u8>) -> bool {
    match parse_header_spec(b) {
        Ok(h) => h.frame_type == FrameType::FIN && b.len() >= HEADER_BYTES + h.body_len,
        Err(_) => false,
    }
}

/// What reading one datagram from the front of `b` gives, with the number of
/// bytes it takes.
pub open spec fn read_datagram_spec(b: Seq<u8>) -> Result<(StreamId, FrameModel, nat), DatagramError> {
    match parse_header_spec(b) {
        Err(e) => Err(e),
        Ok(h) => if b.len() < HEADER_BYTES + h.body_len {
            Err(DatagramError::UnexpectedEof)
        } else {
            match frame_from_body_spec(
                h.frame_type,
                b.subrange(HEADER_BYTES as int, HEADER_BYTES + h.body_len),
            ) {
                Ok(f) => Ok((h.stream_id, f, (HEADER_BYTES + h.body_len) as nat)),
                Err(e) => Err(e),
            }
        },
    }
}

/// The handshake: "stdiomux", six zero bytes, then the version, 1, on two
/// bytes.
pub open spec fn version_1_magic_handshake() -> Seq<u8> {
    seq![115u8, 116, 100, 105, 111, 109, 117, 120, 0, 0, 0, 0, 0, 0, 0, 1]
}

proof fn lemma_u64_bytes(x: u64)
    ensures
        u64_from_be(be_bytes_u64(x)) == x,
{
    let b = be_bytes_u64(x);
    let (b0, b1, b2, b3, b4, b5, b6, b7) = (b[0], b[1], b[2], b[3], b[4], b[5], b[6], b[7]);
    assert(b0 == (x >> 56u64) as u8 && b1 == (x >> 48u64) as u8 && b2 == (x >> 40u64) as u8 && b3
        == (x >> 32u64) as u8 && b4 == (x >> 24u64) as u8 && b5 == (x >> 16u64) as u8 && b6 == (x
        >> 8u64) as u8 && b7 == x as u8);
    assert((b0 as u64) << 56u64 | (b1 as u64) << 48u64 | (b2 as u64) << 40u64 | (b3 as u64)
        << 32u64 | (b4 as u64) << 24u64 | (b5 as u64) << 16u64 | (b6 as u64) << 8u64 | (
    b7 as u64) == x) by (bit_vector)
        requires
            b0 == (x >> 56u64) as u8,
            b1 == (x >> 48u64) as u8,
            b2 == (x >> 40u64) as u8,
            b3 == (x >> 32u64) as u8,
            b4 == (x >> 24u64) as u8,
            b5 == (x >> 16u64) as u8,
            b6 == (x >> 8u64) as u8,
            b7 == x as u8,
    ;
}

/// A datagram whose body fits is read back from its own bytes, whatever
/// follows them: same stream, same datagram, all of its bytes taken. `FIN`
/// is left out: reading it has no decoding.
pub proof fn lemma_datagram_roundtrip(stream_id: StreamId, f: FrameModel, rest: Seq<u8>)
    requires
        body_spec(f).len() <= MAX_BODY,
        f != FrameModel::Fin,
    ensures
        !reaches_fin(datagram_bytes(stream_id, f) + rest),
        read_datagram_spec(datagram_bytes(stream_id, f) + rest) == Ok::<
            (StreamId, FrameModel, nat),
            DatagramError,
        >((stream_id, f, datagram_bytes(stream_id, f).len())),
{
    let body = body_spec(f);
    let b = datagram_bytes(stream_id, f) + rest;
    let len = body.len() as int;
    assert(b[0] == (len / 0x100) as u8 && b[1] == (len % 0x100) as u8);
    assert(b[2] == (stream_id.0 / 0x100) as u8 && b[3] == (stream_id.0 % 0x100) as u8);
    assert(b[4] == frame_type_repr(type_field_spec(f)));
    assert(((len / 0x100) as u8) * 0x100 + ((len % 0x100) as u8) == len);
    assert(((stream_id.0 / 0x100) as u8) * 0x100 + ((stream_id.0 % 0x100) as u8) == stream_id.0);
    assert(b.subrange(HEADER_BYTES as int, HEADER_BYTES + len) =~= body);
    match f {
        FrameModel::Adm(n) => {
            lemma_u64_bytes(n);
        },
        _ => {},
    }
}

impl FrameType {
    /// The frame type with the given number, if any.
    pub fn from_repr(r: u8) -> (res: Option<FrameType>)
        ensures
            res == frame_type_from_repr_spec(r),
    {
        if r == 0 {
            Some(FrameType::RST)
        } else if r == 1 {
            Some(FrameType::DAT)
        } else if r == 2 {
            Some(FrameType::ADM)
        } else if r == 3 {
            Some(FrameType::SYN)
        } else if r == 4 {
            Some(FrameType::FIN)
        } else {
            None
        }
    }

    /// The number of this frame type.
    pub fn repr(&self) -> (r: u8)
        ensures
            r == frame_type_repr(*self),
    {
        match self {
            FrameType::RST => 0,
            FrameType::DAT => 1,
            FrameType::ADM => 2,
            FrameType::SYN => 3,
            FrameType::FIN => 4,
        }
    }
}

/// The eight bytes of a 64-bit number, most significant first.
pub fn u64_to_be_bytes(x: u64) -> (r: Vec<u8>)
    ensures
        r@ == be_bytes_u64(x),
{
    let r = vec![
        (x >> 56u64) as u8,
        (x >> 48u64) as u8,
        (x >> 40u64) as u8,
        (x >> 32u64) as u8,
        (x >> 24u64) as u8,
        (x >> 16u64) as u8,
        (x >> 8u64) as u8,
        x as u8,
    ];
    assert(r@ =~= be_bytes_u64(x));
    r
}

/// The 64-bit number spelled by the first eight bytes of `b`, most
/// significant first.
pub fn u64_from_be_bytes(b: &[u8]) -> (r: u64)
    requires
        b@.len() >= 8,
    ensures
        r == u64_from_be(b@),
{
    (b[0] as u64) << 56u64 | (b[1] as u64) << 48u64 | (b[2] as u64) << 40u64 | (b[3] as u64)
        << 32u64 | (b[4] as u64) << 24u64 | (b[5] as u64) << 16u64 | (b[6] as u64) << 8u64 | (
    b[7] as u64)
}

impl Frame {
    /// The type byte of this datagram.
    pub fn type_field(&self) -> (r: FrameType)
        ensures
            r == type_field_spec(self@),
    {
        match self {
            Frame::Reset => FrameType::RST,
            Frame::Data(_) => FrameType::DAT,
            Frame::Adm(_) => FrameType::ADM,
            Frame::Syn => FrameType::SYN,
            Frame::Fin => FrameType::FIN,
        }
    }

    /// The body of this datagram.
    pub fn body(&self) -> (r: Vec<u8>)
        ensures
            r@ == body_spec(self@),
    {
        match self {
            Frame::Reset => Vec::new(),
            Frame::Data(bytes) => bytes.clone(),
            Frame::Adm(seqno) => u64_to_be_bytes(*seqno),
            Frame::Syn => Vec::new(),
            Frame::Fin => Vec::new(),
        }
    }
}

/// The bytes of the version 1 handshake.
pub fn version_1_magic_handshake_bytes() -> (r: Vec<u8>)
    ensures
        r@ == version_1_magic_handshake(),
{
    let r = vec![115u8, 116, 100, 105, 111, 109, 117, 120, 0, 0, 0, 0, 0, 0, 0, 1];
    assert(r@ =~= version_1_magic_handshake());
    r
}

/// Whether the bytes received at start-up are the version 1 handshake.
pub fn is_valid_handshake(received: &[u8]) -> (r: bool)
    ensures
        r == (received@ == version_1_magic_handshake()),
{
    let expected = version_1_magic_handshake_bytes();
    if received.len() != HANDSHAKE_LEN {
        return false;
    }
    let mut i: usize = 0;
    while i < HANDSHAKE_LEN
        invariant
            i <= HANDSHAKE_LEN,
            received@.len() == HANDSHAKE_LEN,
            expected@ == version_1_magic_handshake(),
            forall|j: int| 0 <= j < i ==> received@[j] == version_1_magic_handshake()[j],
        decreases HANDSHAKE_LEN - i,
    {
        if received[i] != expected[i] {
            return false;
        }
        i = i + 1;
    }
    assert(received@ =~= version_1_magic_handshake());
    true
}

/// The bytes that send `frame` on stream `stream_id`, or an error when its
/// body is longer than [`MAX_BODY`].
pub fn serialize_datagram(stream_id: StreamId, frame: &Frame) -> (res: Result<Vec<u8>, BodyTooLong>)
    ensures
        body_spec(frame@).len() <= MAX_BODY ==> (res matches Ok(b) && b@ == datagram_bytes(
            stream_id,
            frame@,
        )),
        body_spec(frame@).len() > MAX_BODY ==> res == Err::<Vec<u8>, BodyTooLong>(
            BodyTooLong { len: body_spec(frame@).len() as usize },
        ),
{
    let mut body = frame.body();
    if body.len() > MAX_BODY {
        return Err(BodyTooLong { len: body.len() });
    }
    let len = body.len() as u16;
    let mut out: Vec<u8> = Vec::with_capacity(HEADER_BYTES + body.len());
    out.push((len / 256) as u8);
    out.push((len % 256) as u8);
    out.push((stream_id.0 / 256) as u8);
    out.push((stream_id.0 % 256) as u8);
    out.push(frame.type_field().repr());
    out.push(0u8);
    out.append(&mut body);
    assert(out@ =~= datagram_bytes(stream_id, frame@));
    Ok(out)
}

impl DatagramHeader {
    /// Decodes the six header bytes at the front of `b`.
    pub fn parse(b: &[u8]) -> (res: Result<DatagramHeader, DatagramError>)
        ensures
            res == parse_header_spec(b@),
    {
        if b.len() < HEADER_BYTES {
            return Err(DatagramError::UnexpectedEof);
        }
        let body_len = (b[0] as usize) * 256 + (b[1] as usize);
        let stream_id = StreamId((b[2] as u16) * 256 + (b[3] as u16));
        if body_len > MAX_BODY {
            return Err(DatagramError::BodyTooLong(body_len));
        }
        match FrameType::from_repr(b[4]) {
            None => Err(DatagramError::UnrecognizedFrameType(b[4])),
            Some(frame_type) => Ok(DatagramHeader { body_len, stream_id, frame_type }),
        }
    }

    /// The datagram that this header and its body make.
    pub fn frame_from_body(&self, body: Vec<u8>) -> (res: Result<Frame, DatagramError>)
        requires
            self.frame_type != FrameType::FIN,
            body@.len() == self.body_len,
        ensures
            match frame_from_body_spec(self.frame_type, body@) {
                Ok(f) => res matches Ok(g) && g@ == f,
                Err(e) => res == Err::<Frame, DatagramError>(e),
            },
    {
        match self.frame_type {
            FrameType::RST => Ok(Frame::Reset),
            FrameType::DAT => Ok(Frame::Data(body)),
            FrameType::SYN => Ok(Frame::Syn),
            FrameType::ADM => {
                if self.body_len < 8 {
                    return Err(DatagramError::InvalidAdmBody);
                }
                Ok(Frame::Adm(u64_from_be_bytes(&body)))
            },
            FrameType::FIN => Ok(Frame::Fin),
        }
    }
}

/// A copy of `s[from..to]`.
fn slice_range(s: &[u8], from: usize, to: usize) -> (r: Vec<u8>)
    requires
        from <= to <= s@.len(),
    ensures
        r@ == s@.subrange(from as int, to as int),
{
    let mut out: Vec<u8> = Vec::with_capacity(to - from);
    let mut i: usize = from;
    while i < to
        invariant
            from <= i <= to,
            to <= s@.len(),
            out@ == s@.subrange(from as int, i as int),
        decreases to - i,
    {
        out.push(s[i]);
        assert(out@ =~= s@.subrange(from as int, i + 1));
        i = i + 1;
    }
    out
}

/// Reads one datagram from the front of `b`, as reading it from a stream of
/// these bytes would: its stream, the datagram and the number of bytes taken.
pub fn deserialize_datagram(b: &[u8]) -> (res: Result<(StreamId, Frame, usize), DatagramError>)
    requires
        !reaches_fin(b@),
    ensures
        read_datagram_spec(b@) == match res {
            Ok((id, f, n)) => Ok((id, f@, n as nat)),
            Err(e) => Err(e),
        },
{
    let header = DatagramHeader::parse(b)?;
    if b.len() - HEADER_BYTES < header.body_len {
        return Err(DatagramError::UnexpectedEof);
    }
    let body = slice_range(b, HEADER_BYTES, HEADER_BYTES + header.body_len);
    let frame = header.frame_from_body(body)?;
    Ok((header.stream_id, frame, HEADER_BYTES + header.body_len))
}

/// The type byte of each datagram is fixed by value, numbered in
/// declaration order: RST 0, DAT 1, ADM 2, SYN 3, FIN 4, at the fifth byte
/// of the datagram after the body length and the stream id; every byte above
/// 4 names no type.
pub proof fn lemma_datagram_type_bytes(stream_id: StreamId, f: FrameModel, r: u8)
    ensures
        datagram_bytes(stream_id, f)[4] == match f {
            FrameModel::Reset => 0u8,
            FrameModel::Data(_) => 1u8,
            FrameModel::Adm(_) => 2u8,
            FrameModel::Syn => 3u8,
            FrameModel::Fin => 4u8,
        },
        r > 4 <==> frame_type_from_repr_spec(r) is None,
        r <= 4 ==> (frame_type_from_repr_spec(r) matches Some(t) && frame_type_repr(t) == r),
{
    let d = datagram_bytes(stream_id, f);
    assert(d[4] == frame_type_repr(type_field_spec(f)));
}

} // verus!
