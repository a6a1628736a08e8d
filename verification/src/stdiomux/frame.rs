use vstd::prelude::*;

verus! {

/// Largest payload of a channel data frame: the size of a write that a pipe
/// performs atomically on Linux.
pub const MAX_PAYLOAD: usize = 4096;

/// Length of the text at the front of the hello payload, its closing NUL
/// included.
pub const HELLO_MAGIC_LEN: usize = 22;

/// Identifier of a channel inside the multiplexer.
#[derive(Debug, PartialEq, Eq, Structural, PartialOrd, Ord, Hash, Clone, Copy)]
pub struct ChannelId(pub u16);

/// The kind of a frame, as carried in the top four bits of its header word.
#[derive(Debug, PartialEq, Eq, Structural, Clone, Copy)]
pub enum FrameType {
    MuxControl,
    ChannelControl,
    ChannelData,
}

/// Opcode of a multiplexer control frame.
#[derive(Debug, PartialEq, Eq, Structural, Clone, Copy)]
pub enum MuxControlOpcode {
    Reset,
    Hello,
    Terminate,
    Finished,
}

/// Opcode of a channel control frame.
#[derive(Debug, PartialEq, Eq, Structural, Clone, Copy)]
pub enum ChannelControlOpcode {
    Reset,
    Open,
    Admit,
}

/// The fixed-size part of a frame: what its header word encodes.
#[derive(Debug, PartialEq, Eq, Structural, Clone, Copy)]
pub enum Header {
    MuxControl(MuxControlHeader),
    ChannelControl(ChannelId, ChannelControlHeader),
    ChannelData(ChannelId, u16),
}

/// A whole frame: a header together with its payload.
#[derive(Debug, PartialEq, Eq)]
pub enum Frame {
    MuxControl(MuxControlHeader),
    ChannelControl(ChannelId, ChannelControlHeader),
    ChannelData(ChannelId, ChannelDataFrame),
}

#[derive(Debug, PartialEq, Eq, Structural, Clone, Copy)]
pub enum MuxControlHeader {
    Reset,
    Hello,
    Terminate,
    Finished,
}

#[derive(Debug, PartialEq, Eq, Structural, Clone, Copy)]
pub enum ChannelControlHeader {
    Reset,
    Open(u8),
    Admit(u8),
}

/// The payload of a channel data frame.
#[derive(Debug, PartialEq, Eq)]
pub struct ChannelDataFrame(pub Vec<u8>);

impl Clone for ChannelDataFrame {
    fn clone(&self) -> (r: Self)
        ensures
            r@ == self@,
    {
        ChannelDataFrame(self.0.clone())
    }
}

impl Clone for Frame {
    fn clone(&self) -> (r: Self)
        ensures
            r@ == self@,
    {
        match self {
            Frame::MuxControl(h) => Frame::MuxControl(*h),
            Frame::ChannelControl(id, h) => Frame::ChannelControl(*id, *h),
            Frame::ChannelData(id, d) => Frame::ChannelData(*id, d.clone()),
        }
    }
}

/// Whether two frames are the same: same header and same payload bytes.
pub fn frames_equal(a: &Frame, b: &Frame) -> (r: bool)
    ensures
        r == (a@ == b@),
{
    match (a, b) {
        (Frame::MuxControl(x), Frame::MuxControl(y)) => *x == *y,
        (Frame::ChannelControl(i, x), Frame::ChannelControl(j, y)) => *i == *j && *x == *y,
        (Frame::ChannelData(i, x), Frame::ChannelData(j, y)) => {
            if *i != *j {
                return false;
            }
            bytes_equal(&x.0, &y.0)
        },
        _ => false,
    }
}

/// Whether two byte strings are equal.
pub fn bytes_equal(a: &[u8], b: &[u8]) -> (r: bool)
    ensures
        r == (a@ == b@),
{
    if a.len() != b.len() {
        return false;
    }
    let mut i: usize = 0;
    while i < a.len()
        invariant
            i <= a@.len(),
            a@.len() == b@.len(),
            forall|j: int| 0 <= j < i ==> a@[j] == b@[j],
        decreases a.len() - i,
    {
        if a[i] != b[i] {
            return false;
        }
        i = i + 1;
    }
    assert(a@ =~= b@);
    true
}

#[derive(Debug, PartialEq, Eq, Clone, Copy)]
pub enum SerializeFrameError {
    FrameTooLong,
}

#[derive(Debug, PartialEq, Eq, Clone)]
pub enum DeserializeFrameError {
    InvalidFrameType(u8),
    InvalidHello(String),
    InvalidMuxControlOpcode(u8),
    InvalidChannelControlOpcode(u8),
}

/// Why a frame could not be read from a byte buffer.
#[derive(Debug, PartialEq, Eq, Clone)]
pub enum ReadFrameError {
    /// The buffer ended before the frame did.
    UnexpectedEof,
    /// The bytes do not form a valid frame.
    InvalidData(DeserializeFrameError),
}

/// Mathematical view of a [`Frame`], with its payload as a sequence.
pub ghost enum FrameModel {
    MuxControl(MuxControlHeader),
    ChannelControl(ChannelId, ChannelControlHeader),
    ChannelData(ChannelId, Seq<u8>),
}

impl View for ChannelDataFrame {
    type V = Seq<u8>;

    open spec fn view(&self) -> Seq<u8> {
        self.0@
    }
}

impl View for Frame {
    type V = FrameModel;

    open spec fn view(&self) -> FrameModel {
        match self {
            Frame::MuxControl(h) => FrameModel::MuxControl(*h),
            Frame::ChannelControl(id, h) => FrameModel::ChannelControl(*id, *h),
            Frame::ChannelData(id, d) => FrameModel::ChannelData(*id, d@),
        }
    }
}

// ---------------------------------------------------------------------------
// Specification of the header word
// ---------------------------------------------------------------------------

/// The value of a header word with the given four fields: the frame type in
/// bits 28..32, the opcode in bits 24..28, the argument from bit 16 and the
/// channel id in the low 16 bits.
pub open spec fn header_word(frame_type: int, opcode: int, argument: int, id: int) -> int {
    frame_type * 0x1000_0000 + opcode * 0x100_0000 + argument * 0x1_0000 + id
}

pub open spec fn frame_type_repr(t: FrameType) -> u8 {
    match t {
        FrameType::MuxControl => 0,
        FrameType::ChannelControl => 1,
        FrameType::ChannelData => 2,
    }
}

pub open spec fn mux_opcode_repr(o: MuxControlOpcode) -> u8 {
    match o {
        MuxControlOpcode::Reset => 0,
        MuxControlOpcode::Hello => 1,
        MuxControlOpcode::Terminate => 2,
        MuxControlOpcode::Finished => 3,
    }
}

pub open spec fn channel_opcode_repr(o: ChannelControlOpcode) -> u8 {
    match o {
        ChannelControlOpcode::Reset => 0,
        ChannelControlOpcode::Open => 1,
        ChannelControlOpcode::Admit => 2,
    }
}

pub open spec fn mux_header_opcode(h: MuxControlHeader) -> MuxControlOpcode {
    match h {
        MuxControlHeader::Reset => MuxControlOpcode::Reset,
        MuxControlHeader::Hello => MuxControlOpcode::Hello,
        MuxControlHeader::Terminate => MuxControlOpcode::Terminate,
        MuxControlHeader::Finished => MuxControlOpcode::Finished,
    }
}

pub open spec fn channel_header_opcode(h: ChannelControlHeader) -> ChannelControlOpcode {
    match h {
        ChannelControlHeader::Reset => ChannelControlOpcode::Reset,
        ChannelControlHeader::Open(_) => ChannelControlOpcode::Open,
        ChannelControlHeader::Admit(_) => ChannelControlOpcode::Admit,
    }
}

/// The byte a channel control header carries beside its opcode.
pub open spec fn channel_header_argument(h: ChannelControlHeader) -> u8 {
    match h {
        ChannelControlHeader::Reset => 0,
        ChannelControlHeader::Open(size) => size,
        ChannelControlHeader::Admit(permits) => permits,
    }
}

pub open spec fn header_frame_type(h: Header) -> FrameType {
    match h {
        Header::MuxControl(_) => FrameType::MuxControl,
        Header::ChannelControl(_, _) => FrameType::ChannelControl,
        Header::ChannelData(_, _) => FrameType::ChannelData,
    }
}

/// A header can be serialized when its payload length is at most
/// [`MAX_PAYLOAD`].
pub open spec fn header_fits(h: Header) -> bool {
    match h {
        Header::ChannelData(_, len) => len <= MAX_PAYLOAD,
        _ => true,
    }
}

/// The header word that encodes `h`.
pub open spec fn header_value(h: Header) -> int {
    match h {
        Header::MuxControl(f) => header_word(0, mux_opcode_repr(mux_header_opcode(f)) as int, 0, 0),
        Header::ChannelControl(id, f) => header_word(
            1,
            channel_opcode_repr(channel_header_opcode(f)) as int,
            channel_header_argument(f) as int,
            id.0 as int,
        ),
        Header::ChannelData(id, len) => header_word(2, 0, len as int, id.0 as int),
    }
}

pub open spec fn frame_type_from_repr_spec(r: u8) -> Option<FrameType> {
    if r == 0 {
        Some(FrameType::MuxControl)
    } else if r == 1 {
        Some(FrameType::ChannelControl)
    } else if r == 2 {
        Some(FrameType::ChannelData)
    } else {
        None
    }
}

pub open spec fn mux_opcode_from_repr_spec(r: u8) -> Option<MuxControlOpcode> {
    if r == 0 {
        Some(MuxControlOpcode::Reset)
    } else if r == 1 {
        Some(MuxControlOpcode::Hello)
    } else if r == 2 {
        Some(MuxControlOpcode::Terminate)
    } else if r == 3 {
        Some(MuxControlOpcode::Finished)
    } else {
        None
    }
}

pub open spec fn channel_opcode_from_repr_spec(r: u8) -> Option<ChannelControlOpcode> {
    if r == 0 {
        Some(ChannelControlOpcode::Reset)
    } else if r == 1 {
        Some(ChannelControlOpcode::Open)
    } else if r == 2 {
        Some(ChannelControlOpcode::Admit)
    } else {
        None
    }
}

/// What a header word decodes to. The length field of a data header is
/// twelve bits wide, so the length of a full [`MAX_PAYLOAD`]-byte payload
/// carries into the lowest frame-type bit: a word of frame type 3 whose
/// length field is empty is a data header of `MAX_PAYLOAD` bytes.
pub open spec fn parse_header(word: u32) -> Result<Header, DeserializeFrameError> {
    let t = (word / 0x1000_0000) as u8;
    let argument = word % 0x1000_0000;
    let opcode = (argument / 0x100_0000) as u8;
    let byte_argument = ((argument / 0x1_0000) % 0x100) as u8;
    let id = ChannelId((argument % 0x1_0000) as u16);
    if t == 3 && argument / 0x1_0000 == 0 {
        Ok(Header::ChannelData(id, MAX_PAYLOAD as u16))
    } else {
        parse_typed_header(t, argument, opcode, byte_argument, id)
    }
}

/// What a header word decodes to from its fields, by its frame type.
pub open spec fn parse_typed_header(
    t: u8,
    argument: u32,
    opcode: u8,
    byte_argument: u8,
    id: ChannelId,
) -> Result<Header, DeserializeFrameError> {
    match frame_type_from_repr_spec(t) {
        None => Err(DeserializeFrameError::InvalidFrameType(t)),
        Some(FrameType::MuxControl) => match mux_opcode_from_repr_spec(opcode) {
            None => Err(DeserializeFrameError::InvalidMuxControlOpcode(opcode)),
            Some(MuxControlOpcode::Reset) => Ok(Header::MuxControl(MuxControlHeader::Reset)),
            Some(MuxControlOpcode::Hello) => Ok(Header::MuxControl(MuxControlHeader::Hello)),
            Some(MuxControlOpcode::Terminate) => Ok(Header::MuxControl(MuxControlHeader::Terminate)),
            Some(MuxControlOpcode::Finished) => Ok(Header::MuxControl(MuxControlHeader::Finished)),
        },
        Some(FrameType::ChannelControl) => match channel_opcode_from_repr_spec(opcode) {
            None => Err(DeserializeFrameError::InvalidChannelControlOpcode(opcode)),
            Some(ChannelControlOpcode::Reset) => Ok(
                Header::ChannelControl(id, ChannelControlHeader::Reset),
            ),
            Some(ChannelControlOpcode::Open) => Ok(
                Header::ChannelControl(id, ChannelControlHeader::Open(byte_argument)),
            ),
            Some(ChannelControlOpcode::Admit) => Ok(
                Header::ChannelControl(id, ChannelControlHeader::Admit(byte_argument)),
            ),
        },
        Some(FrameType::ChannelData) => Ok(
            Header::ChannelData(id, (argument / 0x1_0000) as u16),
        ),
    }
}

// ---------------------------------------------------------------------------
// Specification of payloads and of whole frames
// ---------------------------------------------------------------------------

/// The text at the front of the hello payload, closed by a NUL.
pub open spec fn hello_magic() -> Seq<u8> {
    seq![
        115u8, 116, 100, 105, 111, 109, 117, 120, 32, 112, 105, 112, 101, 100, 32, 118, 48, 46, 49,
        46, 48, 0,
    ]
}

/// The payload of a hello frame: the magic text padded with zeros up to
/// [`MAX_PAYLOAD`] bytes.
pub open spec fn hello_payload() -> Seq<u8> {
    Seq::new(
        MAX_PAYLOAD as nat,
        |i: int|
            if i < HELLO_MAGIC_LEN {
                hello_magic()[i]
            } else {
                0u8
            },
    )
}

/// Payload length that a header announces.
pub open spec fn payload_length_spec(h: Header) -> u16 {
    match h {
        Header::MuxControl(MuxControlHeader::Hello) => MAX_PAYLOAD as u16,
        Header::MuxControl(_) => 0,
        Header::ChannelControl(_, _) => 0,
        Header::ChannelData(_, len) => len,
    }
}

/// The header of a frame.
pub open spec fn frame_header(f: FrameModel) -> Header {
    match f {
        FrameModel::MuxControl(h) => Header::MuxControl(h),
        FrameModel::ChannelControl(id, h) => Header::ChannelControl(id, h),
        FrameModel::ChannelData(id, d) => Header::ChannelData(id, d.len() as u16),
    }
}

/// The payload of a frame.
pub open spec fn frame_payload(f: FrameModel) -> Seq<u8> {
    match f {
        FrameModel::MuxControl(MuxControlHeader::Hello) => hello_payload(),
        FrameModel::MuxControl(_) => Seq::empty(),
        FrameModel::ChannelControl(_, _) => Seq::empty(),
        FrameModel::ChannelData(_, d) => d,
    }
}

/// A frame has a header when its payload is at most [`MAX_PAYLOAD`] bytes.
pub open spec fn frame_fits(f: FrameModel) -> bool {
    match f {
        FrameModel::ChannelData(_, d) => d.len() <= MAX_PAYLOAD,
        _ => true,
    }
}

/// The four bytes of a word, most significant first.
pub open spec fn be_bytes_u32(x: u32) -> Seq<u8> {
    seq![
        (x / 0x100_0000) as u8,
        ((x / 0x1_0000) % 0x100) as u8,
        ((x / 0x100) % 0x100) as u8,
        (x % 0x100) as u8,
    ]
}

/// The word whose bytes, most significant first, are `b[0..4]`.
pub open spec fn u32_from_be(b: Seq<u8>) -> u32 {
    (b[0] * 0x100_0000 + b[1] * 0x1_0000 + b[2] * 0x100 + b[3]) as u32
}

/// The bytes that encode a frame: its header word, most significant byte
/// first, followed by its payload.
pub open spec fn frame_bytes(f: FrameModel) -> Seq<u8> {
    be_bytes_u32(header_value(frame_header(f)) as u32) + frame_payload(f)
}

/// The part of a rejected hello payload that names it: everything before its
/// first NUL, or all of it when it holds none.
pub open spec fn hello_text(p: Seq<u8>) -> Seq<u8> {
    if exists|i: int| 0 <= i < p.len() && p[i] == 0 {
        p.take(choose|i: int| 0 <= i < p.len() && p[i] == 0 && forall|j: int| 0 <= j < i ==> p[j] != 0)
    } else {
        p
    }
}

/// The text of a payload decoded as UTF-8, each invalid sequence replaced by
/// U+FFFD, as `String::from_utf8_lossy` decodes it.
pub uninterp spec fn utf8_lossy(bytes: Seq<u8>) -> Seq<char>;

/// A header with its payload attached.
pub open spec fn with_payload_spec(h: Header, payload: Seq<u8>) -> Result<
    FrameModel,
    DeserializeFrameError,
> {
    match h {
        Header::MuxControl(MuxControlHeader::Hello) => if payload == hello_payload() {
            Ok(FrameModel::MuxControl(MuxControlHeader::Hello))
        } else {
            Err(DeserializeFrameError::InvalidHello(arbitrary()))
        },
        Header::MuxControl(m) => Ok(FrameModel::MuxControl(m)),
        Header::ChannelControl(id, c) => Ok(FrameModel::ChannelControl(id, c)),
        Header::ChannelData(id, _) => Ok(FrameModel::ChannelData(id, payload)),
    }
}

/// What reading one frame from the front of `buf` gives, with the number of
/// bytes it takes.
pub open spec fn read_frame_spec(buf: Seq<u8>) -> Result<(FrameModel, nat), ReadFrameError> {
    if buf.len() < 4 {
        Err(ReadFrameError::UnexpectedEof)
    } else {
        match parse_header(u32_from_be(buf)) {
            Err(e) => Err(ReadFrameError::InvalidData(e)),
            Ok(h) => {
                let n = payload_length_spec(h) as int;
                if buf.len() < 4 + n {
                    Err(ReadFrameError::UnexpectedEof)
                } else {
                    match with_payload_spec(h, buf.subrange(4, 4 + n)) {
                        Ok(f) => Ok((f, (4 + n) as nat)),
                        Err(e) => Err(ReadFrameError::InvalidData(e)),
                    }
                }
            },
        }
    }
}

/// Whether a result matches [`read_frame_spec`], where the text of a rejected
/// hello is the one [`hello_text`] picks.
pub open spec fn read_frame_result_matches(
    buf: Seq<u8>,
    res: Result<(FrameModel, nat), ReadFrameError>,
) -> bool {
    match read_frame_spec(buf) {
        Err(ReadFrameError::InvalidData(DeserializeFrameError::InvalidHello(_))) => res matches Err(
            ReadFrameError::InvalidData(DeserializeFrameError::InvalidHello(s)),
        ) && s@ == utf8_lossy(hello_text(buf.subrange(4, 4 + MAX_PAYLOAD))),
        other => res == other,
    }
}

// ---------------------------------------------------------------------------
// Bit-level facts
// ---------------------------------------------------------------------------

proof fn lemma_pack_word(t: u32, op: u32, arg: u32, id: u32)
    requires
        t < 16,
        op < 16,
        arg < 0x1000 || (arg == 0x1000 && t == 2 && op == 0),
        id < 0x1_0000,
        op == 0 || arg < 0x100,
    ensures
        t << 28u32 | op << 24u32 | arg << 16u32 | id == header_word(
            t as int,
            op as int,
            arg as int,
            id as int,
        ),
{
    assert(t << 28u32 | op << 24u32 | arg << 16u32 | id == t * 0x1000_0000 + op * 0x100_0000 + arg
        * 0x1_0000 + id) by (bit_vector)
        requires
            t < 16,
            op < 16,
            arg < 0x1000 || (arg == 0x1000 && t == 2 && op == 0),
            id < 0x1_0000,
            op == 0 || arg < 0x100,
    ;
}

proof fn lemma_unpack_word(w: u32)
    ensures
        (w >> 28u32) == w / 0x1000_0000,
        (w & 0x0fff_ffffu32) == w % 0x1000_0000,
        ((w & 0x0fff_ffffu32) >> 24u32) == (w % 0x1000_0000) / 0x100_0000,
        ((w & 0x0fff_ffffu32) >> 16u32) == (w % 0x1000_0000) / 0x1_0000,
        (((w & 0x0fff_ffffu32) >> 16u32) as u8) == (((w % 0x1000_0000) / 0x1_0000) % 0x100) as u8,
        ((w & 0x0fff_ffffu32) & 0xffffu32) == (w % 0x1000_0000) % 0x1_0000,
        (w >> 28u32) < 16,
        ((w & 0x0fff_ffffu32) >> 24u32) < 16,
        ((w & 0x0fff_ffffu32) >> 16u32) < 0x1000,
{
    assert((w >> 28u32) == w / 0x1000_0000) by (bit_vector);
    assert((w & 0x0fff_ffffu32) == w % 0x1000_0000) by (bit_vector);
    assert(((w & 0x0fff_ffffu32) >> 24u32) == (w % 0x1000_0000) / 0x100_0000) by (bit_vector);
    assert(((w & 0x0fff_ffffu32) >> 16u32) == (w % 0x1000_0000) / 0x1_0000) by (bit_vector);
    assert((((w & 0x0fff_ffffu32) >> 16u32) as u8) == (((w % 0x1000_0000) / 0x1_0000) % 0x100) as u8)
        by (bit_vector);
    assert(((w & 0x0fff_ffffu32) & 0xffffu32) == (w % 0x1000_0000) % 0x1_0000) by (bit_vector);
    assert((w >> 28u32) < 16) by (bit_vector);
    assert(((w & 0x0fff_ffffu32) >> 24u32) < 16) by (bit_vector);
    assert(((w & 0x0fff_ffffu32) >> 16u32) < 0x1000) by (bit_vector);
}

proof fn lemma_be_bytes_u32(x: u32)
    ensures
        ((x >> 24u32) as u8) == (x / 0x100_0000) as u8,
        ((x >> 16u32) as u8) == ((x / 0x1_0000) % 0x100) as u8,
        ((x >> 8u32) as u8) == ((x / 0x100) % 0x100) as u8,
        (x as u8) == (x % 0x100) as u8,
        u32_from_be(be_bytes_u32(x)) == x,
{
    assert(((x >> 24u32) as u8) == (x / 0x100_0000) as u8) by (bit_vector);
    assert(((x >> 16u32) as u8) == ((x / 0x1_0000) % 0x100) as u8) by (bit_vector);
    assert(((x >> 8u32) as u8) == ((x / 0x100) % 0x100) as u8) by (bit_vector);
    assert((x as u8) == (x % 0x100) as u8) by (bit_vector);
    let b = be_bytes_u32(x);
    assert(b[0] == x / 0x100_0000);
    assert(b[1] == (x / 0x1_0000) % 0x100);
    assert(b[2] == (x / 0x100) % 0x100);
    assert(b[3] == x % 0x100);
    assert((x / 0x100_0000) * 0x100_0000 + ((x / 0x1_0000) % 0x100) * 0x1_0000 + ((x / 0x100)
        % 0x100) * 0x100 + x % 0x100 == x) by (nonlinear_arith);
}

/// A header word splits back into the fields it was packed from.
proof fn lemma_header_word_fields(t: int, op: int, arg: int, id: int)
    requires
        0 <= t < 16,
        0 <= op < 16,
        0 <= arg < 0x1000,
        0 <= id < 0x1_0000,
        op == 0 || arg < 0x100,
    ensures
        ({
            let w = header_word(t, op, arg, id);
            &&& 0 <= w < 0x1_0000_0000
            &&& w / 0x1000_0000 == t + arg / 0x1000
            &&& w % 0x1000_0000 == op * 0x100_0000 + (arg % 0x1000) * 0x1_0000 + id - 0
            &&& (w % 0x1000_0000) / 0x100_0000 == op + (arg % 0x1000) / 0x100
            &&& (w % 0x1000_0000) / 0x1_0000 == op * 0x100 + arg % 0x1000
            &&& (w % 0x1000_0000) % 0x1_0000 == id
        }),
{
    let w = header_word(t, op, arg, id);
    assert(w == t * 0x1000_0000 + op * 0x100_0000 + arg * 0x1_0000 + id);
    assert(0 <= w < 0x1_0000_0000) by (nonlinear_arith)
        requires
            w == t * 0x1000_0000 + op * 0x100_0000 + arg * 0x1_0000 + id,
            0 <= t < 16,
            0 <= op < 16,
            0 <= arg < 0x1000,
            0 <= id < 0x1_0000,
            op == 0 || arg < 0x100,
    ;
    let low = op * 0x100_0000 + arg * 0x1_0000 + id;
    assert(0 <= low < 0x1000_0000) by (nonlinear_arith)
        requires
            low == op * 0x100_0000 + arg * 0x1_0000 + id,
            0 <= op < 16,
            0 <= arg < 0x1000,
            0 <= id < 0x1_0000,
            op == 0 || arg < 0x100,
    ;
    assert(w / 0x1000_0000 == t && w % 0x1000_0000 == low) by (nonlinear_arith)
        requires
            w == t * 0x1000_0000 + low,
            0 <= low < 0x1000_0000,
            0 <= t,
    ;
    assert(low / 0x100_0000 == op + arg / 0x100 && low % 0x1_0000 == id && low / 0x1_0000 == op
        * 0x100 + arg) by (nonlinear_arith)
        requires
            low == op * 0x100_0000 + arg * 0x1_0000 + id,
            0 <= op < 16,
            0 <= arg < 0x1000,
            0 <= id < 0x1_0000,
            op == 0 || arg < 0x100,
    ;
    assert(arg / 0x1000 == 0 && arg % 0x1000 == arg);
}

// ---------------------------------------------------------------------------
// Laws
// ---------------------------------------------------------------------------

/// Every header the writer accepts, a data header of up to [`MAX_PAYLOAD`]
/// bytes included, decodes from its own header word back to itself.
pub proof fn lemma_header_roundtrip(h: Header)
    requires
        header_fits(h),
    ensures
        0 <= header_value(h) < 0x1_0000_0000,
        parse_header(header_value(h) as u32) == Ok::<Header, DeserializeFrameError>(h),
{
    match h {
        Header::MuxControl(f) => {
            lemma_header_word_fields(0, mux_opcode_repr(mux_header_opcode(f)) as int, 0, 0);
        },
        Header::ChannelControl(id, f) => {
            lemma_header_word_fields(
                1,
                channel_opcode_repr(channel_header_opcode(f)) as int,
                channel_header_argument(f) as int,
                id.0 as int,
            );
        },
        Header::ChannelData(id, len) => {
            if len < MAX_PAYLOAD {
                lemma_header_word_fields(2, 0, len as int, id.0 as int);
            } else {
                let i = id.0 as int;
                let w = header_word(2, 0, len as int, i);
                assert(w == 0x3000_0000 + i);
                assert(w / 0x1000_0000 == 3 && w % 0x1000_0000 == i) by (nonlinear_arith)
                    requires
                        w == 0x3000_0000 + i,
                        0 <= i < 0x1_0000,
                ;
                assert(i / 0x1_0000 == 0 && i % 0x1_0000 == i) by (nonlinear_arith)
                    requires
                        0 <= i < 0x1_0000,
                ;
            }
        },
    }
}

/// Reading back the bytes that encode a frame, whatever follows them, gives
/// the frame and consumes exactly its bytes, for every frame the writer
/// accepts: a payload of up to [`MAX_PAYLOAD`] bytes.
pub proof fn lemma_frame_roundtrip(f: FrameModel, rest: Seq<u8>)
    requires
        frame_fits(f),
    ensures
        read_frame_spec(frame_bytes(f) + rest) == Ok::<(FrameModel, nat), ReadFrameError>(
            (f, frame_bytes(f).len()),
        ),
{
    let h = frame_header(f);
    lemma_header_roundtrip(h);
    let w = header_value(h) as u32;
    lemma_be_bytes_u32(w);
    let buf = frame_bytes(f) + rest;
    assert(buf.subrange(0, 4) =~= be_bytes_u32(w));
    assert(u32_from_be(buf) == u32_from_be(be_bytes_u32(w)));
    let n = payload_length_spec(h) as int;
    assert(frame_payload(f).len() == n);
    assert(buf.subrange(4, 4 + n) =~= frame_payload(f));
    match f {
        FrameModel::ChannelData(id, d) => {
            assert(d.len() as u16 as int == d.len());
        },
        _ => {},
    }
}

// ---------------------------------------------------------------------------
// Executable code
// ---------------------------------------------------------------------------

impl FrameType {
    /// The frame type with the given number, if any.
    pub fn from_repr(r: u8) -> (res: Option<FrameType>)
        ensures
            res == frame_type_from_repr_spec(r),
    {
        if r == 0 {
            Some(FrameType::MuxControl)
        } else if r == 1 {
            Some(FrameType::ChannelControl)
        } else if r == 2 {
            Some(FrameType::ChannelData)
        } else {
            None
        }
    }

    /// The number of this frame type.
    pub fn repr(&self) -> (r: u8)
        ensures
            r == frame_type_repr(*self),
            frame_type_from_repr_spec(r) == Some(*self),
    {
        match self {
            FrameType::MuxControl => 0,
            FrameType::ChannelControl => 1,
            FrameType::ChannelData => 2,
        }
    }
}

impl MuxControlOpcode {
    /// The opcode with the given number, if any.
    pub fn from_repr(r: u8) -> (res: Option<MuxControlOpcode>)
        ensures
            res == mux_opcode_from_repr_spec(r),
    {
        if r == 0 {
            Some(MuxControlOpcode::Reset)
        } else if r == 1 {
            Some(MuxControlOpcode::Hello)
        } else if r == 2 {
            Some(MuxControlOpcode::Terminate)
        } else if r == 3 {
            Some(MuxControlOpcode::Finished)
        } else {
            None
        }
    }

    /// The number of this opcode.
    pub fn repr(&self) -> (r: u8)
        ensures
            r == mux_opcode_repr(*self),
            mux_opcode_from_repr_spec(r) == Some(*self),
    {
        match self {
            MuxControlOpcode::Reset => 0,
            MuxControlOpcode::Hello => 1,
            MuxControlOpcode::Terminate => 2,
            MuxControlOpcode::Finished => 3,
        }
    }
}

impl ChannelControlOpcode {
    /// The opcode with the given number, if any.
    pub fn from_repr(r: u8) -> (res: Option<ChannelControlOpcode>)
        ensures
            res == channel_opcode_from_repr_spec(r),
    {
        if r == 0 {
            Some(ChannelControlOpcode::Reset)
        } else if r == 1 {
            Some(ChannelControlOpcode::Open)
        } else if r == 2 {
            Some(ChannelControlOpcode::Admit)
        } else {
            None
        }
    }

    /// The number of this opcode.
    pub fn repr(&self) -> (r: u8)
        ensures
            r == channel_opcode_repr(*self),
            channel_opcode_from_repr_spec(r) == Some(*self),
    {
        match self {
            ChannelControlOpcode::Reset => 0,
            ChannelControlOpcode::Open => 1,
            ChannelControlOpcode::Admit => 2,
        }
    }
}

impl MuxControlHeader {
    /// The opcode of this header.
    pub fn discriminant(&self) -> (r: MuxControlOpcode)
        ensures
            r == mux_header_opcode(*self),
    {
        match self {
            MuxControlHeader::Reset => MuxControlOpcode::Reset,
            MuxControlHeader::Hello => MuxControlOpcode::Hello,
            MuxControlHeader::Terminate => MuxControlOpcode::Terminate,
            MuxControlHeader::Finished => MuxControlOpcode::Finished,
        }
    }
}

impl ChannelControlHeader {
    /// The opcode of this header.
    pub fn discriminant(&self) -> (r: ChannelControlOpcode)
        ensures
            r == channel_header_opcode(*self),
    {
        match self {
            ChannelControlHeader::Reset => ChannelControlOpcode::Reset,
            ChannelControlHeader::Open(_) => ChannelControlOpcode::Open,
            ChannelControlHeader::Admit(_) => ChannelControlOpcode::Admit,
        }
    }
}

/// The bytes of the hello payload.
pub fn hello_payload_bytes() -> (r: Vec<u8>)
    ensures
        r@ == hello_payload(),
{
    let magic: Vec<u8> = vec![
        115u8, 116, 100, 105, 111, 109, 117, 120, 32, 112, 105, 112, 101, 100, 32, 118, 48, 46, 49,
        46, 48, 0,
    ];
    assert(magic@ == hello_magic());
    let mut out: Vec<u8> = Vec::with_capacity(MAX_PAYLOAD);
    let mut i: usize = 0;
    while i < MAX_PAYLOAD
        invariant
            i <= MAX_PAYLOAD,
            magic@ == hello_magic(),
            out@.len() == i,
            forall|j: int| 0 <= j < i ==> out@[j] == hello_payload()[j],
        decreases MAX_PAYLOAD - i,
    {
        if i < HELLO_MAGIC_LEN {
            out.push(magic[i]);
        } else {
            out.push(0u8);
        }
        i = i + 1;
    }
    assert(out@ =~= hello_payload());
    out
}

/// The first `HELLO_MAGIC_LEN` bytes are the magic and the rest are zero.
pub fn is_hello_payload(payload: &[u8]) -> (r: bool)
    ensures
        r == (payload@ == hello_payload()),
{
    if payload.len() != MAX_PAYLOAD {
        return false;
    }
    let expected = hello_payload_bytes();
    let mut i: usize = 0;
    while i < MAX_PAYLOAD
        invariant
            i <= MAX_PAYLOAD,
            payload@.len() == MAX_PAYLOAD,
            expected@ == hello_payload(),
            forall|j: int| 0 <= j < i ==> payload@[j] == hello_payload()[j],
        decreases MAX_PAYLOAD - i,
    {
        if payload[i] != expected[i] {
            return false;
        }
        i = i + 1;
    }
    assert(payload@ =~= hello_payload());
    true
}

/// Decodes bytes as UTF-8, replacing each invalid sequence by U+FFFD.
#[verifier::external_body]
fn lossy_string(bytes: &[u8]) -> (s: String)
    ensures
        s@ == utf8_lossy(bytes@),
{
    String::from_utf8_lossy(bytes).into_owned()
}

/// The text of a rejected hello payload: what precedes its first NUL, or all
/// of it when it has none, decoded lossily.
pub fn describe_invalid_hello(payload: &[u8]) -> (s: String)
    ensures
        s@ == utf8_lossy(hello_text(payload@)),
{
    let mut i: usize = 0;
    while i < payload.len()
        invariant
            i <= payload@.len(),
            forall|j: int| 0 <= j < i ==> payload@[j] != 0,
        decreases payload.len() - i,
    {
        if payload[i] == 0 {
            let ghost p = payload@;
            assert(exists|k: int| 0 <= k < p.len() && p[k] == 0);
            let ghost c = choose|k: int| 0 <= k < p.len() && p[k] == 0 && forall|j: int| 0 <= j < k ==> p[j] != 0;
            assert(0 <= i < p.len() && p[i as int] == 0 && forall|j: int| 0 <= j < i ==> p[j] != 0);
            assert(c == i) by {
                if c < i {
                    assert(p[c] != 0);
                } else if c > i {
                    assert(p[i as int] != 0);
                }
            }
            let prefix = slice_prefix(payload, i);
            assert(prefix@ == hello_text(p));
            return lossy_string(&prefix);
        }
        i = i + 1;
    }
    assert(!exists|k: int| 0 <= k < payload@.len() && payload@[k] == 0);
    lossy_string(payload)
}

/// A copy of the first `n` bytes of `s`.
fn slice_prefix(s: &[u8], n: usize) -> (r: Vec<u8>)
    requires
        n <= s@.len(),
    ensures
        r@ == s@.take(n as int),
{
    let mut out: Vec<u8> = Vec::with_capacity(n);
    let mut i: usize = 0;
    while i < n
        invariant
            i <= n,
            n <= s@.len(),
            out@ == s@.take(i as int),
        decreases n - i,
    {
        out.push(s[i]);
        assert(out@ =~= s@.take(i + 1));
        i = i + 1;
    }
    out
}

impl Header {
    /// The frame type of this header.
    pub fn discriminant(&self) -> (r: FrameType)
        ensures
            r == header_frame_type(*self),
    {
        match self {
            Header::MuxControl(_) => FrameType::MuxControl,
            Header::ChannelControl(_, _) => FrameType::ChannelControl,
            Header::ChannelData(_, _) => FrameType::ChannelData,
        }
    }

    /// The header word that encodes this header.
    pub fn serialized(&self) -> (r: u32)
        requires
            header_fits(*self),
        ensures
            r == header_value(*self),
    {
        let frame_type = self.discriminant().repr() as u32;
        match self {
            Header::MuxControl(f) => {
                let opcode = f.discriminant().repr() as u32;
                proof {
                    lemma_pack_word(frame_type, opcode, 0, 0);
                    assert(frame_type << 28u32 | opcode << 24u32 == frame_type << 28u32 | opcode
                        << 24u32 | 0u32 << 16u32 | 0u32) by (bit_vector);
                }
                frame_type << 28u32 | opcode << 24u32
            },
            Header::ChannelControl(id, f) => {
                let opcode = f.discriminant().repr() as u32;
                let argument: u8 = match f {
                    ChannelControlHeader::Reset => 0,
                    ChannelControlHeader::Open(size) => *size,
                    ChannelControlHeader::Admit(permits) => *permits,
                };
                let argument = argument as u32;
                let id = id.0 as u32;
                proof {
                    lemma_pack_word(frame_type, opcode, argument, id);
                }
                frame_type << 28u32 | opcode << 24u32 | argument << 16u32 | id
            },
            Header::ChannelData(id, f) => {
                let len = *f as u32;
                let id = id.0 as u32;
                proof {
                    lemma_pack_word(frame_type, 0, len, id);
                    assert(frame_type << 28u32 | len << 16u32 | id == frame_type << 28u32 | 0u32
                        << 24u32 | len << 16u32 | id) by (bit_vector);
                }
                frame_type << 28u32 | len << 16u32 | id
            },
        }
    }

    /// Decodes a header word.
    pub fn deserialize(header: u32) -> (res: Result<Header, DeserializeFrameError>)
        ensures
            res == parse_header(header),
    {
        proof {
            lemma_unpack_word(header);
        }
        let frame_type = (header >> 28u32) as u8;
        let argument = header & 0x0fff_ffffu32;
        if frame_type == 3 && (argument >> 16u32) == 0 {
            // a full-length payload carried into the frame type
            let channel_id = ChannelId((argument & 0xffffu32) as u16);
            return Ok(Header::ChannelData(channel_id, MAX_PAYLOAD as u16));
        }
        let frame_type = match FrameType::from_repr(frame_type) {
            Some(t) => t,
            None => {
                return Err(DeserializeFrameError::InvalidFrameType(frame_type));
            },
        };
        match frame_type {
            FrameType::MuxControl => {
                let opcode = (argument >> 24u32) as u8;
                let opcode = match MuxControlOpcode::from_repr(opcode) {
                    Some(o) => o,
                    None => {
                        return Err(DeserializeFrameError::InvalidMuxControlOpcode(opcode));
                    },
                };
                Ok(
                    Header::MuxControl(
                        match opcode {
                            MuxControlOpcode::Reset => MuxControlHeader::Reset,
                            MuxControlOpcode::Hello => MuxControlHeader::Hello,
                            MuxControlOpcode::Terminate => MuxControlHeader::Terminate,
                            MuxControlOpcode::Finished => MuxControlHeader::Finished,
                        },
                    ),
                )
            },
            FrameType::ChannelControl => {
                let opcode = (argument >> 24u32) as u8;
                let opcode = match ChannelControlOpcode::from_repr(opcode) {
                    Some(o) => o,
                    None => {
                        return Err(DeserializeFrameError::InvalidChannelControlOpcode(opcode));
                    },
                };
                let channel_argument = (argument >> 16u32) as u8;
                let channel_id = ChannelId((argument & 0xffffu32) as u16);
                Ok(
                    Header::ChannelControl(
                        channel_id,
                        match opcode {
                            ChannelControlOpcode::Reset => ChannelControlHeader::Reset,
                            ChannelControlOpcode::Open => ChannelControlHeader::Open(
                                channel_argument,
                            ),
                            ChannelControlOpcode::Admit => ChannelControlHeader::Admit(
                                channel_argument,
                            ),
                        },
                    ),
                )
            },
            FrameType::ChannelData => {
                let length = (argument >> 16u32) as u16;
                let channel_id = ChannelId((argument & 0xffffu32) as u16);
                Ok(Header::ChannelData(channel_id, length))
            },
        }
    }

    /// How many payload bytes follow this header.
    pub fn payload_length(&self) -> (r: u16)
        ensures
            r == payload_length_spec(*self),
    {
        match self {
            Header::MuxControl(h) => match h {
                MuxControlHeader::Hello => MAX_PAYLOAD as u16,
                MuxControlHeader::Reset | MuxControlHeader::Terminate
                | MuxControlHeader::Finished => 0,
            },
            Header::ChannelControl(_, _) => 0,
            Header::ChannelData(_, payload_len) => *payload_len,
        }
    }

    /// Attaches a payload to this header, checking the hello payload.
    pub fn with_payload(self, payload: Vec<u8>) -> (res: Result<Frame, DeserializeFrameError>)
        requires
            self matches Header::ChannelData(_, len) ==> payload@.len() == len,
        ensures
            match with_payload_spec(self, payload@) {
                Ok(f) => res matches Ok(g) && g@ == f,
                Err(_) => res matches Err(DeserializeFrameError::InvalidHello(s)) && s@ == utf8_lossy(
                    hello_text(payload@),
                ),
            },
    {
        match self {
            Header::MuxControl(h) => match h {
                MuxControlHeader::Hello => {
                    if !is_hello_payload(&payload) {
                        let text = describe_invalid_hello(&payload);
                        return Err(DeserializeFrameError::InvalidHello(text));
                    }
                    Ok(Frame::MuxControl(MuxControlHeader::Hello))
                },
                other => Ok(Frame::MuxControl(other)),
            },
            Header::ChannelControl(id, h) => Ok(Frame::ChannelControl(id, h)),
            Header::ChannelData(id, _) => Ok(Frame::ChannelData(id, ChannelDataFrame(payload))),
        }
    }
}

impl Frame {
    /// The header of this frame.
    pub fn header(&self) -> (r: Header)
        requires
            frame_fits(self@),
        ensures
            r == frame_header(self@),
    {
        match self {
            Frame::MuxControl(h) => Header::MuxControl(*h),
            Frame::ChannelControl(id, h) => Header::ChannelControl(*id, *h),
            Frame::ChannelData(id, f) => {
                let len: usize = f.0.len();
                Header::ChannelData(*id, len as u16)
            },
        }
    }

    /// The payload bytes of this frame.
    pub fn payload(&self) -> (r: Vec<u8>)
        ensures
            r@ == frame_payload(self@),
    {
        match self {
            Frame::MuxControl(h) => match h {
                MuxControlHeader::Hello => hello_payload_bytes(),
                MuxControlHeader::Reset | MuxControlHeader::Terminate
                | MuxControlHeader::Finished => Vec::new(),
            },
            Frame::ChannelControl(_, _) => Vec::new(),
            Frame::ChannelData(_, channel_data_frame) => channel_data_frame.0.clone(),
        }
    }
}

/// The four bytes of a word, most significant first.
pub fn u32_to_be_bytes(x: u32) -> (r: Vec<u8>)
    ensures
        r@ == be_bytes_u32(x),
{
    proof {
        lemma_be_bytes_u32(x);
    }
    let r = vec![(x >> 24u32) as u8, (x >> 16u32) as u8, (x >> 8u32) as u8, x as u8];
    assert(r@ =~= be_bytes_u32(x));
    r
}

/// The word spelled by the first four bytes of `b`, most significant first.
pub fn u32_from_be_bytes(b: &[u8]) -> (r: u32)
    requires
        b@.len() >= 4,
    ensures
        r == u32_from_be(b@),
{
    let b0 = b[0] as u32;
    let b1 = b[1] as u32;
    let b2 = b[2] as u32;
    let b3 = b[3] as u32;
    assert(b0 << 24u32 | b1 << 16u32 | b2 << 8u32 | b3 == b0 * 0x100_0000 + b1 * 0x1_0000 + b2
        * 0x100 + b3) by (bit_vector)
        requires
            b0 < 256,
            b1 < 256,
            b2 < 256,
            b3 < 256,
    ;
    b0 << 24u32 | b1 << 16u32 | b2 << 8u32 | b3
}

/// The bytes that encode a frame: its header word, most significant byte
/// first, then its payload.
pub fn encode_frame(frame: &Frame) -> (r: Vec<u8>)
    requires
        frame_fits(frame@),
    ensures
        r@ == frame_bytes(frame@),
{
    let header = frame.header();
    let mut out = u32_to_be_bytes(header.serialized());
    let mut payload = frame.payload();
    out.append(&mut payload);
    out
}

/// The writes that put a frame on a pipe. A frame shorter than the atomic
/// pipe-write size goes in one write, so that it is never interleaved with
/// another writer's; a longer one goes as its header, then its payload.
pub fn write_frame_chunks(frame: &Frame) -> (r: Vec<Vec<u8>>)
    requires
        frame_fits(frame@),
    ensures
        4 + frame_payload(frame@).len() < MAX_PAYLOAD ==> r@.len() == 1 && r@[0]@ == frame_bytes(
            frame@,
        ),
        4 + frame_payload(frame@).len() >= MAX_PAYLOAD ==> r@.len() == 2 && r@[0]@ == be_bytes_u32(
            header_value(frame_header(frame@)) as u32,
        ) && r@[1]@ == frame_payload(frame@),
{
    let header = frame.header();
    let mut header_bytes = u32_to_be_bytes(header.serialized());
    let total_packet_length = 4 + (header.payload_length() as usize);
    let mut payload = frame.payload();
    assert(payload@.len() == payload_length_spec(header));
    let mut out: Vec<Vec<u8>> = Vec::new();
    if total_packet_length < MAX_PAYLOAD {
        header_bytes.append(&mut payload);
        out.push(header_bytes);
    } else {
        out.push(header_bytes);
        out.push(payload);
    }
    out
}

/// Reads one frame from the front of `buf`, as reading it from a stream of
/// these bytes would. Returns the frame and the number of bytes it took.
pub fn read_frame(buf: &[u8]) -> (res: Result<(Frame, usize), ReadFrameError>)
    ensures
        read_frame_result_matches(
            buf@,
            match res {
                Ok((f, n)) => Ok((f@, n as nat)),
                Err(e) => Err(e),
            },
        ),
{
    if buf.len() < 4 {
        return Err(ReadFrameError::UnexpectedEof);
    }
    let word = u32_from_be_bytes(buf);
    let header = match Header::deserialize(word) {
        Ok(h) => h,
        Err(e) => {
            return Err(ReadFrameError::InvalidData(e));
        },
    };
    let n = header.payload_length() as usize;
    if buf.len() - 4 < n {
        return Err(ReadFrameError::UnexpectedEof);
    }
    let payload = slice_range(buf, 4, 4 + n);
    assert(payload@ == buf@.subrange(4, 4 + n));
    match header.with_payload(payload) {
        Ok(f) => Ok((f, 4 + n)),
        Err(e) => Err(ReadFrameError::InvalidData(e)),
    }
}

/// A copy of `s[from..to]`.
fn slice_range(s: &[u8], from: usize, to: usize) -> (r: Vec<u8>)
    requires
        from <= to <= s@.len(),
    ensures
        r@ == s@.subrange(from as int, to as int),
{
    let mut out: Vec<u8> = Vec::with_capacity(to - from);
    let mut i: usize = from;
    while i < to
        invariant
            from <= i <= to,
            to <= s@.len(),
            out@ == s@.subrange(from as int, i as int),
        decreases to - i,
    {
        out.push(s[i]);
        assert(out@ =~= s@.subrange(from as int, i + 1));
        i = i + 1;
    }
    out
}


/// The header word of every header is fixed by value, not only by the round
/// trip: the frame type (multiplexer control 0, channel control 1, channel
/// data 2) in the top four bits, then the opcode numbered in declaration
/// order (Reset, Hello, Terminate, Finished; Reset, Open, Admit), then the
/// argument byte or the payload length, then the channel id; and each of
/// these words decodes back to its header.
pub proof fn lemma_header_words(id: ChannelId, n: u8, len: u16)
    requires
        len <= MAX_PAYLOAD,
    ensures
        header_value(Header::MuxControl(MuxControlHeader::Reset)) == 0,
        header_value(Header::MuxControl(MuxControlHeader::Hello)) == 0x0100_0000,
        header_value(Header::MuxControl(MuxControlHeader::Terminate)) == 0x0200_0000,
        header_value(Header::MuxControl(MuxControlHeader::Finished)) == 0x0300_0000,
        header_value(Header::ChannelControl(id, ChannelControlHeader::Reset)) == 0x1000_0000 + id.0,
        header_value(Header::ChannelControl(id, ChannelControlHeader::Open(n))) == 0x1100_0000 + n
            * 0x1_0000 + id.0,
        header_value(Header::ChannelControl(id, ChannelControlHeader::Admit(n))) == 0x1200_0000 + n
            * 0x1_0000 + id.0,
        header_value(Header::ChannelData(id, len)) == 0x2000_0000 + len * 0x1_0000 + id.0,
        parse_header(0x0000_0000) == Ok::<Header, DeserializeFrameError>(
            Header::MuxControl(MuxControlHeader::Reset),
        ),
        parse_header(0x0100_0000) == Ok::<Header, DeserializeFrameError>(
            Header::MuxControl(MuxControlHeader::Hello),
        ),
        parse_header(0x0200_0000) == Ok::<Header, DeserializeFrameError>(
            Header::MuxControl(MuxControlHeader::Terminate),
        ),
        parse_header(0x0300_0000) == Ok::<Header, DeserializeFrameError>(
            Header::MuxControl(MuxControlHeader::Finished),
        ),
{
    lemma_header_roundtrip(Header::MuxControl(MuxControlHeader::Reset));
    lemma_header_roundtrip(Header::MuxControl(MuxControlHeader::Hello));
    lemma_header_roundtrip(Header::MuxControl(MuxControlHeader::Terminate));
    lemma_header_roundtrip(Header::MuxControl(MuxControlHeader::Finished));
}

// ---------------------------------------------------------------------------
// Debug text of a frame
// ---------------------------------------------------------------------------

/// The character of the decimal digit `d`.
pub open spec fn digit_char(d: int) -> char {
    (48 + d) as char
}

/// The character of the lower-case hexadecimal digit `d`.
pub open spec fn hex_digit_char(d: int) -> char {
    if d < 10 {
        (48 + d) as char
    } else {
        (87 + d) as char
    }
}

/// The decimal text of `n`, without leading zeros.
pub open spec fn decimal_text(n: nat) -> Seq<char>
    decreases n,
{
    if n < 10 {
        seq![digit_char(n as int)]
    } else {
        decimal_text(n / 10) + seq![digit_char((n % 10) as int)]
    }
}

/// How one byte is written inside a byte-string literal: the escapes of a
/// Rust byte string, printable ASCII as itself, anything else as `\xNN`.
pub open spec fn byte_literal_text(b: u8) -> Seq<char> {
    if b == 0x0a {
        seq!['\\', 'n']
    } else if b == 0x0d {
        seq!['\\', 'r']
    } else if b == 0x09 {
        seq!['\\', 't']
    } else if b == 0x5c || b == 0x22 {
        seq!['\\', b as char]
    } else if b == 0 {
        seq!['\\', '0']
    } else if 0x20 <= b < 0x7f {
        seq![b as char]
    } else {
        seq!['\\', 'x', hex_digit_char((b / 16) as int), hex_digit_char((b % 16) as int)]
    }
}

/// The bytes written one after another as [`byte_literal_text`].
pub open spec fn bytes_literal_body(bytes: Seq<u8>) -> Seq<char>
    decreases bytes.len(),
{
    if bytes.len() == 0 {
        Seq::empty()
    } else {
        bytes_literal_body(bytes.drop_last()) + byte_literal_text(bytes.last())
    }
}

/// A payload written as a byte-string literal: `b"..."`.
pub open spec fn bytes_literal(bytes: Seq<u8>) -> Seq<char> {
    seq!['b', '"'] + bytes_literal_body(bytes) + seq!['"']
}

/// The text of a channel id: `ChannelId(n)`.
pub open spec fn channel_id_text(id: ChannelId) -> Seq<char> {
    "ChannelId("@ + decimal_text(id.0 as nat) + ")"@
}

/// The text of a multiplexer control header: its variant's name.
pub open spec fn mux_header_text(h: MuxControlHeader) -> Seq<char> {
    match h {
        MuxControlHeader::Reset => "Reset"@,
        MuxControlHeader::Hello => "Hello"@,
        MuxControlHeader::Terminate => "Terminate"@,
        MuxControlHeader::Finished => "Finished"@,
    }
}

/// The text of a channel control header: its variant's name and argument.
pub open spec fn channel_header_text(h: ChannelControlHeader) -> Seq<char> {
    match h {
        ChannelControlHeader::Reset => "Reset"@,
        ChannelControlHeader::Open(n) => "Open("@ + decimal_text(n as nat) + ")"@,
        ChannelControlHeader::Admit(n) => "Admit("@ + decimal_text(n as nat) + ")"@,
    }
}

/// The debug text of a frame: each variant with its fields in brackets,
/// separated by `, `, and a payload written as a byte-string literal.
pub open spec fn frame_debug_text(f: FrameModel) -> Seq<char> {
    match f {
        FrameModel::MuxControl(h) => "MuxControl("@ + mux_header_text(h) + ")"@,
        FrameModel::ChannelControl(id, h) => "ChannelControl("@ + channel_id_text(id) + ", "@
            + channel_header_text(h) + ")"@,
        FrameModel::ChannelData(id, p) => "ChannelData("@ + channel_id_text(id) + ", "@
            + "ChannelDataFrame("@ + bytes_literal(p) + "))"@,
    }
}

/// Appends a character to a string (`String::push`).
#[verifier::external_body]
fn push_char(s: &mut String, c: char)
    ensures
        final(s)@ == old(s)@.push(c),
{
    s.push(c);
}

/// Appends the decimal text of `n`.
fn push_decimal(s: &mut String, n: u16)
    ensures
        final(s)@ == old(s)@ + decimal_text(n as nat),
    decreases n,
{
    let ghost start = s@;
    if n >= 10 {
        push_decimal(s, n / 10);
    }
    let d: u8 = (n % 10) as u8;
    push_char(s, (48u8 + d) as char);
    proof {
        if n >= 10 {
            assert(s@ =~= start + decimal_text(n as nat));
        } else {
            assert(s@ =~= start + decimal_text(n as nat));
        }
    }
}

/// The lower-case hexadecimal digit `d`.
fn hex_digit(d: u8) -> (c: char)
    requires
        d < 16,
    ensures
        c == hex_digit_char(d as int),
{
    if d < 10 {
        (48u8 + d) as char
    } else {
        (87u8 + d) as char
    }
}

/// Appends one byte as it is written inside a byte-string literal.
fn push_byte_literal(s: &mut String, b: u8)
    ensures
        final(s)@ == old(s)@ + byte_literal_text(b),
{
    let ghost start = s@;
    if b == 0x0a {
        push_char(s, '\\');
        push_char(s, 'n');
    } else if b == 0x0d {
        push_char(s, '\\');
        push_char(s, 'r');
    } else if b == 0x09 {
        push_char(s, '\\');
        push_char(s, 't');
    } else if b == 0x5c || b == 0x22 {
        push_char(s, '\\');
        push_char(s, b as char);
    } else if b == 0 {
        push_char(s, '\\');
        push_char(s, '0');
    } else if 0x20 <= b && b < 0x7f {
        push_char(s, b as char);
    } else {
        push_char(s, '\\');
        push_char(s, 'x');
        push_char(s, hex_digit(b / 16));
        push_char(s, hex_digit(b % 16));
    }
    assert(s@ =~= start + byte_literal_text(b));
}

/// Appends a payload written as a byte-string literal.
fn push_bytes_literal(s: &mut String, bytes: &[u8])
    ensures
        final(s)@ == old(s)@ + bytes_literal(bytes@),
{
    let ghost start = s@;
    push_char(s, 'b');
    push_char(s, '"');
    let mut i: usize = 0;
    while i < bytes.len()
        invariant
            i <= bytes@.len(),
            s@ == start + seq!['b', '"'] + bytes_literal_body(bytes@.take(i as int)),
        decreases bytes.len() - i,
    {
        let ghost before = s@;
        push_byte_literal(s, bytes[i]);
        assert(bytes@.take(i + 1).drop_last() =~= bytes@.take(i as int));
        assert(s@ =~= start + seq!['b', '"'] + bytes_literal_body(bytes@.take(i + 1)));
        i = i + 1;
    }
    push_char(s, '"');
    assert(bytes@.take(bytes@.len() as int) =~= bytes@);
    assert(s@ =~= start + bytes_literal(bytes@));
}

impl Frame {
    /// The frame's debug text: each variant with its fields in brackets, and
    /// a payload written as a byte-string literal.
    pub fn debug_text(&self) -> (r: String)
        ensures
            r@ == frame_debug_text(self@),
    {
        match self {
            Frame::MuxControl(h) => {
                let mut s = String::from_str("MuxControl(");
                let name = match h {
                    MuxControlHeader::Reset => "Reset",
                    MuxControlHeader::Hello => "Hello",
                    MuxControlHeader::Terminate => "Terminate",
                    MuxControlHeader::Finished => "Finished",
                };
                s.append(name);
                s.append(")");
                s
            },
            Frame::ChannelControl(id, h) => {
                let mut s = String::from_str("ChannelControl(");
                push_channel_id(&mut s, *id);
                s.append(", ");
                match h {
                    ChannelControlHeader::Reset => {
                        s.append("Reset");
                    },
                    ChannelControlHeader::Open(n) => {
                        s.append("Open(");
                        push_decimal(&mut s, *n as u16);
                        s.append(")");
                    },
                    ChannelControlHeader::Admit(n) => {
                        s.append("Admit(");
                        push_decimal(&mut s, *n as u16);
                        s.append(")");
                    },
                }
                s.append(")");
                s
            },
            Frame::ChannelData(id, d) => {
                let mut s = String::from_str("ChannelData(");
                push_channel_id(&mut s, *id);
                s.append(", ");
                s.append("ChannelDataFrame(");
                push_bytes_literal(&mut s, d.0.as_slice());
                s.append("))");
                s
            },
        }
    }
}

/// Appends the text of a channel id.
fn push_channel_id(s: &mut String, id: ChannelId)
    ensures
        final(s)@ == old(s)@ + channel_id_text(id),
{
    let ghost start = s@;
    s.append("ChannelId(");
    push_decimal(s, id.0);
    s.append(")");
    assert(s@ =~= start + channel_id_text(id));
}

} // verus!
