//! The wire protocol: length-prefixed frames.
//!
//! ```text
//! ┌──────────────┬──────────┬─────────────────┐
//! │  4 bytes     │  1 byte  │   N bytes       │
//! │  Length (u32)│  Type    │   Payload       │
//! └──────────────┴──────────┴─────────────────┘
//! ```
//!
//! The length is big-endian and counts the type byte and the payload.
use crate::buf;
use vstd::prelude::*;

verus! {

/// Largest length field that a frame may carry (16 MiB).
pub const MAX_MESSAGE_SIZE: usize = 16 * 1024 * 1024;

/// Size of the length field that starts every frame.
pub const HEADER_SIZE: usize = 4;

/// The kind of a message, carried in the byte after the length field.
#[derive(Debug, Clone, Copy, PartialEq, Eq, Structural)]
pub enum MessageType {
    /// Sent back unchanged (code 0x01).
    Echo,
    /// Asks to enter a room; the payload holds the room id as a big-endian u64 (code 0x02).
    JoinRoom,
    /// Asks to leave the current room (code 0x03).
    LeaveRoom,
    /// Broadcast to the other members of the sender's room (code 0x04).
    RoomMessage,
    /// A reply from the server (code 0x05).
    Response,
}

/// The wire code of a message type.
pub open spec fn type_code(t: MessageType) -> u8 {
    match t {
        MessageType::Echo => 0x01,
        MessageType::JoinRoom => 0x02,
        MessageType::LeaveRoom => 0x03,
        MessageType::RoomMessage => 0x04,
        MessageType::Response => 0x05,
    }
}

/// The message type that a wire code stands for, if any.
pub open spec fn type_of_code(byte: u8) -> Option<MessageType> {
    if byte == 0x01 {
        Some(MessageType::Echo)
    } else if byte == 0x02 {
        Some(MessageType::JoinRoom)
    } else if byte == 0x03 {
        Some(MessageType::LeaveRoom)
    } else if byte == 0x04 {
        Some(MessageType::RoomMessage)
    } else if byte == 0x05 {
        Some(MessageType::Response)
    } else {
        None
    }
}

impl MessageType {
    /// The message type of a wire code; `None` for any other byte.
    pub fn from_u8(byte: u8) -> (r: Option<Self>)
        ensures
            r == type_of_code(byte),
    {
        match byte {
            0x01 => Some(MessageType::Echo),
            0x02 => Some(MessageType::JoinRoom),
            0x03 => Some(MessageType::LeaveRoom),
            0x04 => Some(MessageType::RoomMessage),
            0x05 => Some(MessageType::Response),
            _ => None,
        }
    }

    /// The wire code of this message type.
    pub fn code(self) -> (byte: u8)
        ensures
            byte == type_code(self),
    {
        match self {
            MessageType::Echo => 0x01,
            MessageType::JoinRoom => 0x02,
            MessageType::LeaveRoom => 0x03,
            MessageType::RoomMessage => 0x04,
            MessageType::Response => 0x05,
        }
    }
}

/// A protocol message: its type and its payload.
#[derive(Debug, Clone)]
pub struct Message {
    pub msg_type: MessageType,
    pub payload: Vec<u8>,
}

/// What a message is, as a mathematical value.
pub struct MessageView {
    pub msg_type: MessageType,
    pub payload: Seq<u8>,
}

impl View for Message {
    type V = MessageView;

    open spec fn view(&self) -> MessageView {
        MessageView { msg_type: self.msg_type, payload: self.payload@ }
    }
}

/// The eight bytes of `n`, most significant first (what `u64::to_be_bytes` gives).
pub open spec fn be_bytes_u64(n: u64) -> Seq<u8> {
    seq![
        (n / 0x100_0000_0000_0000) as u8,
        ((n / 0x1_0000_0000_0000) % 0x100) as u8,
        ((n / 0x100_0000_0000) % 0x100) as u8,
        ((n / 0x1_0000_0000) % 0x100) as u8,
        ((n / 0x100_0000) % 0x100) as u8,
        ((n / 0x1_0000) % 0x100) as u8,
        ((n / 0x100) % 0x100) as u8,
        (n % 0x100) as u8,
    ]
}

/// The number that the first four bytes of `s` spell, most significant first.
pub open spec fn be_value_u32(s: Seq<u8>) -> int {
    s[0] as int * 0x100_0000 + s[1] as int * 0x1_0000 + s[2] as int * 0x100 + s[3] as int
}

/// The number that the first eight bytes of `s` spell, most significant first.
pub open spec fn be_value_u64(s: Seq<u8>) -> int {
    be_value_u32(s) * 0x1_0000_0000 + be_value_u32(s.skip(4))
}

/// The bytes of a whole frame for a message of type `t` with `payload`.
/// The length field is the payload length plus one, cut to 32 bits as a
/// `u32` cast cuts it.
pub open spec fn frame_bytes(t: MessageType, payload: Seq<u8>) -> Seq<u8> {
    buf::be_bytes_u32((payload.len() + 1) as u32) + seq![type_code(t)] + payload
}

/// The length field at the front of `s` (which holds at least four bytes).
pub open spec fn frame_length(s: Seq<u8>) -> int {
    be_value_u32(s)
}

/// A buffer that holds a complete frame at its front (a complete frame by its
/// length field; it may still be refused).
pub open spec fn holds_complete_frame(s: Seq<u8>) -> bool {
    s.len() >= HEADER_SIZE && s.len() >= HEADER_SIZE + frame_length(s)
}

/// What parsing the front of a buffer comes to.
pub enum ParseOutcome {
    /// Not a whole frame yet: nothing is consumed.
    NeedMore,
    /// The length field exceeds `MAX_MESSAGE_SIZE`: nothing is consumed.
    TooLarge(int),
    /// The length field is zero, leaving no room for the type byte: nothing
    /// is consumed.
    Empty,
    /// The type byte is no known code: the length field and the type byte are consumed.
    InvalidType(u8),
    /// A whole frame: it is consumed and becomes this message.
    Complete(MessageView),
}

/// The outcome of parsing the front of `s`.
pub open spec fn parse_outcome(s: Seq<u8>) -> ParseOutcome {
    if s.len() < HEADER_SIZE {
        ParseOutcome::NeedMore
    } else if frame_length(s) > MAX_MESSAGE_SIZE {
        ParseOutcome::TooLarge(frame_length(s))
    } else if frame_length(s) == 0 {
        ParseOutcome::Empty
    } else if s.len() < HEADER_SIZE + frame_length(s) {
        ParseOutcome::NeedMore
    } else {
        match type_of_code(s[4]) {
            None => ParseOutcome::InvalidType(s[4]),
            Some(t) => ParseOutcome::Complete(
                MessageView { msg_type: t, payload: s.subrange(5, HEADER_SIZE + frame_length(s)) },
            ),
        }
    }
}

/// What is left of `s` after parsing its front.
pub open spec fn parse_rest(s: Seq<u8>) -> Seq<u8> {
    match parse_outcome(s) {
        ParseOutcome::NeedMore => s,
        ParseOutcome::TooLarge(_) => s,
        ParseOutcome::Empty => s,
        ParseOutcome::InvalidType(_) => s.skip(5),
        ParseOutcome::Complete(_) => s.skip(HEADER_SIZE + frame_length(s)),
    }
}

/// Why a frame is refused.
#[derive(Debug, Clone, Copy, PartialEq, Eq, Structural)]
pub enum FrameError {
    /// The length field (given) exceeds `MAX_MESSAGE_SIZE`.
    MessageTooLarge(usize),
    /// The type byte (given) is no known code.
    InvalidMessageType(u8),
    /// The length field is zero, so the frame has no type byte.
    EmptyFrame,
}

/// The parse outcome that a result of `FrameParser::parse` reports.
pub open spec fn outcome_of(r: Result<Option<Message>, FrameError>) -> ParseOutcome {
    match r {
        Ok(None) => ParseOutcome::NeedMore,
        Ok(Some(m)) => ParseOutcome::Complete(m@),
        Err(FrameError::MessageTooLarge(n)) => ParseOutcome::TooLarge(n as int),
        Err(FrameError::InvalidMessageType(b)) => ParseOutcome::InvalidType(b),
        Err(FrameError::EmptyFrame) => ParseOutcome::Empty,
    }
}


/// Every message type's code reads back as that type.
pub proof fn lemma_type_code_roundtrip(t: MessageType)
    ensures
        type_of_code(type_code(t)) == Some(t),
{
}

/// A byte that reads as a message type is that type's code: no type has two codes.
pub proof fn lemma_type_code_unique(byte: u8)
    ensures
        type_of_code(byte) matches Some(t) ==> type_code(t) == byte,
{
}

/// The big-endian bytes of a `u32` spell it back.
pub proof fn lemma_be_u32_roundtrip(n: u32)
    ensures
        buf::be_bytes_u32(n).len() == 4,
        be_value_u32(buf::be_bytes_u32(n)) == n,
{
    assert(n / 0x100_0000 < 0x100) by (bit_vector);
    assert((n / 0x100_0000) * 0x100_0000 + ((n / 0x1_0000) % 0x100) * 0x1_0000 + ((n / 0x100)
        % 0x100) * 0x100 + n % 0x100 == n) by (bit_vector);
}

/// The big-endian bytes of a `u64` spell it back: a join request's payload
/// reads back as the room id it was made with.
pub proof fn lemma_be_u64_roundtrip(n: u64)
    ensures
        be_bytes_u64(n).len() == 8,
        be_value_u64(be_bytes_u64(n)) == n,
{
    let s = be_bytes_u64(n);
    assert(n / 0x100_0000_0000_0000 < 0x100) by (bit_vector);
    assert((n / 0x100_0000_0000_0000) * 0x100_0000_0000_0000 + ((n / 0x1_0000_0000_0000) % 0x100)
        * 0x1_0000_0000_0000 + ((n / 0x100_0000_0000) % 0x100) * 0x100_0000_0000 + ((n
        / 0x1_0000_0000) % 0x100) * 0x1_0000_0000 + ((n / 0x100_0000) % 0x100) * 0x100_0000 + ((n
        / 0x1_0000) % 0x100) * 0x1_0000 + ((n / 0x100) % 0x100) * 0x100 + n % 0x100 == n)
        by (bit_vector);
    assert(s.skip(4)[0] == s[4] && s.skip(4)[1] == s[5] && s.skip(4)[2] == s[6] && s.skip(4)[3]
        == s[7]);
}

/// A frame is five bytes longer than its payload: the length field and the
/// type byte. So `frame_size` is the length of what `encode` writes.
pub proof fn lemma_frame_size(t: MessageType, payload: Seq<u8>)
    ensures
        frame_bytes(t, payload).len() == payload.len() + HEADER_SIZE + 1,
{
}

/// A frame written for a message, followed by any bytes, parses back to that
/// message and leaves exactly those bytes; the parser is defined on it.
pub proof fn lemma_frame_roundtrip(t: MessageType, payload: Seq<u8>, rest: Seq<u8>)
    requires
        payload.len() + 1 <= MAX_MESSAGE_SIZE,
    ensures
        holds_complete_frame(frame_bytes(t, payload) + rest),
        parse_outcome(frame_bytes(t, payload) + rest) == ParseOutcome::Complete(
            MessageView { msg_type: t, payload },
        ),
        parse_rest(frame_bytes(t, payload) + rest) == rest,
{
    let n = (payload.len() + 1) as u32;
    lemma_be_u32_roundtrip(n);
    let f = frame_bytes(t, payload);
    let s = f + rest;
    assert(f.len() == payload.len() + 5);
    assert(s.take(4) =~= buf::be_bytes_u32(n));
    assert(frame_length(s) == be_value_u32(s.take(4)));
    assert(s[4] == type_code(t));
    lemma_type_code_roundtrip(t);
    assert(s.subrange(5, HEADER_SIZE + frame_length(s)) =~= payload);
    assert(s.skip(HEADER_SIZE + frame_length(s)) =~= rest);
}

/// Every strict prefix of a frame is incomplete: parsing it asks for more
/// bytes and consumes nothing.
pub proof fn lemma_frame_prefix_incomplete(t: MessageType, payload: Seq<u8>, k: int)
    requires
        payload.len() + 1 <= MAX_MESSAGE_SIZE,
        0 <= k < frame_bytes(t, payload).len(),
    ensures
        !holds_complete_frame(frame_bytes(t, payload).take(k)),
        parse_outcome(frame_bytes(t, payload).take(k)) == ParseOutcome::NeedMore,
        parse_rest(frame_bytes(t, payload).take(k)) == frame_bytes(t, payload).take(k),
{
    let n = (payload.len() + 1) as u32;
    lemma_be_u32_roundtrip(n);
    let s = frame_bytes(t, payload).take(k);
    if k >= 4 {
        assert(s.take(4) =~= buf::be_bytes_u32(n));
        assert(frame_length(s) == be_value_u32(s.take(4)));
    }
}

/// Reads the big-endian u32 at the front of `s`.
fn read_be_u32(s: &[u8]) -> (n: u32)
    requires
        s@.len() >= 4,
    ensures
        n as int == be_value_u32(s@),
{
    (s[0] as u32) * 0x100_0000 + (s[1] as u32) * 0x1_0000 + (s[2] as u32) * 0x100 + (s[3] as u32)
}

/// Reads the big-endian u64 at the front of `s`.
pub fn read_be_u64(s: &[u8]) -> (n: u64)
    requires
        s@.len() >= 8,
    ensures
        n as int == be_value_u64(s@),
{
    let hi = read_be_u32(s) as u64;
    let rest = vstd::slice::slice_subrange(s, 4, 8);
    let lo = read_be_u32(rest) as u64;
    assert(rest@ =~= s@.skip(4).take(4));
    assert(be_value_u32(rest@) == be_value_u32(s@.skip(4)));
    hi * 0x1_0000_0000 + lo
}

/// The eight bytes of `n`, most significant first.
pub fn be_bytes_of_u64(n: u64) -> (v: Vec<u8>)
    ensures
        v@ == be_bytes_u64(n),
{
    let mut v: Vec<u8> = Vec::with_capacity(8);
    v.push((n / 0x100_0000_0000_0000) as u8);
    v.push(((n / 0x1_0000_0000_0000) % 0x100) as u8);
    v.push(((n / 0x100_0000_0000) % 0x100) as u8);
    v.push(((n / 0x1_0000_0000) % 0x100) as u8);
    v.push(((n / 0x100_0000) % 0x100) as u8);
    v.push(((n / 0x1_0000) % 0x100) as u8);
    v.push(((n / 0x100) % 0x100) as u8);
    v.push((n % 0x100) as u8);
    assert(v@ =~= be_bytes_u64(n));
    v
}

impl Message {
    /// A message of the given type and payload.
    pub fn new(msg_type: MessageType, payload: Vec<u8>) -> (m: Self)
        ensures
            m.msg_type == msg_type,
            m.payload@ == payload@,
    {
        Self { msg_type, payload }
    }

    /// An echo message carrying `data`.
    pub fn echo(data: Vec<u8>) -> (m: Self)
        ensures
            m.msg_type == MessageType::Echo,
            m.payload@ == data@,
    {
        Self::new(MessageType::Echo, data)
    }

    /// A request to join `room_id`: the payload is the id, big-endian.
    pub fn join_room(room_id: u64) -> (m: Self)
        ensures
            m.msg_type == MessageType::JoinRoom,
            m.payload@ == be_bytes_u64(room_id),
    {
        let payload = be_bytes_of_u64(room_id);
        Self::new(MessageType::JoinRoom, payload)
    }

    /// A room broadcast carrying `data`.
    pub fn room_message(data: Vec<u8>) -> (m: Self)
        ensures
            m.msg_type == MessageType::RoomMessage,
            m.payload@ == data@,
    {
        Self::new(MessageType::RoomMessage, data)
    }

    /// A server response carrying `data`.
    pub fn response(data: Vec<u8>) -> (m: Self)
        ensures
            m.msg_type == MessageType::Response,
            m.payload@ == data@,
    {
        Self::new(MessageType::Response, data)
    }

    /// A message equal to this one.
    pub fn duplicate(&self) -> (m: Self)
        ensures
            m@ == self@,
    {
        let payload = vstd::slice::slice_to_vec(self.payload.as_slice());
        Message { msg_type: self.msg_type, payload }
    }

    /// The whole frame of this message: length field, type byte, payload.
    pub fn encode(&self) -> (b: bytes::BytesMut)
        requires
            self.payload@.len() + HEADER_SIZE + 1 <= isize::MAX,
        ensures
            buf::buf_bytes(b) == frame_bytes(self.msg_type, self.payload@),
    {
        let total_length = 1 + self.payload.len();
        let mut b = buf::buf_with_capacity(HEADER_SIZE + total_length);
        buf::buf_put_u32(&mut b, #[verifier::truncate] (total_length as u32));
        buf::buf_put_u8(&mut b, self.msg_type.code());
        buf::buf_put_slice(&mut b, self.payload.as_slice());
        assert(buf::buf_bytes(b) =~= frame_bytes(self.msg_type, self.payload@));
        b
    }

    /// The size of the whole frame, header included.
    pub fn frame_size(&self) -> (n: usize)
        requires
            self.payload@.len() + HEADER_SIZE + 1 <= usize::MAX,
        ensures
            n == self.payload@.len() + HEADER_SIZE + 1,
            n == frame_bytes(self.msg_type, self.payload@).len(),
    {
        HEADER_SIZE + 1 + self.payload.len()
    }
}

/// Takes whole frames off the front of a byte buffer.
pub struct FrameParser;

impl FrameParser {
    /// Parses one frame off the front of `buf`.
    ///
    /// `Ok(Some(m))` when a whole frame is there (it is consumed); `Ok(None)`
    /// when more bytes are needed (nothing is consumed); an error when the
    /// length field is too large or zero (nothing consumed) or the type byte
    /// is unknown (length field and type byte consumed).
    pub fn parse(buf: &mut bytes::BytesMut) -> (r: Result<Option<Message>, FrameError>)
        ensures
            outcome_of(r) == parse_outcome(buf::buf_bytes(*old(buf))),
            buf::buf_bytes(*final(buf)) == parse_rest(buf::buf_bytes(*old(buf))),
    {
        let ghost s = buf::buf_bytes(*buf);
        let len = buf::buf_len(buf);
        if len < HEADER_SIZE {
            return Ok(None);
        }
        let head = buf::buf_as_slice(buf);
        let length32 = read_be_u32(head);
        let length = length32 as usize;
        if length > MAX_MESSAGE_SIZE {
            return Err(FrameError::MessageTooLarge(length));
        }
        if length == 0 {
            return Err(FrameError::EmptyFrame);
        }
        let frame_size = HEADER_SIZE + length;
        if len < frame_size {
            return Ok(None);
        }
        buf::buf_advance(buf, HEADER_SIZE);
        let byte = buf::buf_get_u8(buf);
        assert(byte == s[4]);
        let msg_type = match MessageType::from_u8(byte) {
            Some(t) => t,
            None => {
                assert(buf::buf_bytes(*buf) =~= s.skip(5));
                return Err(FrameError::InvalidMessageType(byte));
            },
        };
        let payload_len = length - 1;
        let payload = buf::buf_copy_to_vec(buf, payload_len);
        assert(payload@ =~= s.subrange(5, HEADER_SIZE + frame_length(s)));
        assert(buf::buf_bytes(*buf) =~= s.skip(HEADER_SIZE + frame_length(s)));
        Ok(Some(Message { msg_type, payload }))
    }

    /// Whether `buf` holds a whole frame at its front; nothing is consumed.
    pub fn has_complete_frame(buf: &bytes::BytesMut) -> (r: bool)
        ensures
            r == holds_complete_frame(buf::buf_bytes(*buf)),
    {
        let len = buf::buf_len(buf);
        if len < HEADER_SIZE {
            return false;
        }
        let head = buf::buf_as_slice(buf);
        let length = read_be_u32(head) as u64;
        (len as u64) >= (HEADER_SIZE as u64) + length
    }
}

} // verus!
