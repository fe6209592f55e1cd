//! Client sessions: one per connection, with the bytes read from it that
//! are not yet parsed and the bytes waiting to be written to it.
use crate::buf;
use crate::buffer_pool::acquire_result;
use crate::buffer_pool::can_acquire;
use crate::buffer_pool::release_result;
use crate::buffer_pool::BufferPool;
use crate::protocol::frame_bytes;
use crate::protocol::outcome_of;
use crate::protocol::parse_outcome;
use crate::protocol::parse_rest;
use crate::protocol::FrameError;
use crate::protocol::FrameParser;
use crate::protocol::Message;
use crate::protocol::MessageType;
use crate::protocol::MessageView;
use crate::protocol::ParseOutcome;
use crate::protocol::HEADER_SIZE;
use crate::protocol::MAX_MESSAGE_SIZE;
use vstd::prelude::*;

verus! {

/// Identifies a session.
pub type SessionId = usize;


/// Identifies a room.
pub type RoomId = u64;

/// Where a session's connection stands.
#[derive(Debug, Clone, Copy, PartialEq, Eq, Structural)]
pub enum SessionState {
    /// Open both ways.
    Active,
    /// The peer closed its side.
    ReadClosed,
    /// The write side is closed.
    WriteClosed,
    /// Closed both ways.
    Closed,
}

/// A session: the unparsed bytes read from the client, the bytes waiting to
/// be written to it, its state and its room.
pub struct Session {
    id: SessionId,
    read_buf: bytes::BytesMut,
    write_buf: bytes::BytesMut,
    state: SessionState,
    room_id: Option<RoomId>,
}

/// What a session is, as a mathematical value.
pub struct SessionView {
    pub id: SessionId,
    pub read: Seq<u8>,
    pub write: Seq<u8>,
    pub state: SessionState,
    pub room_id: Option<RoomId>,
}

impl View for Session {
    type V = SessionView;

    closed spec fn view(&self) -> SessionView {
        SessionView {
            id: self.id,
            read: buf::buf_bytes(self.read_buf),
            write: buf::buf_bytes(self.write_buf),
            state: self.state,
            room_id: self.room_id,
        }
    }
}

/// Taking every whole frame off `s` in turn: the messages, the outcome that
/// stopped it (not `Complete`), and the bytes left.
pub open spec fn drain(s: Seq<u8>) -> (Seq<MessageView>, ParseOutcome, Seq<u8>)
    decreases s.len(),
{
    match parse_outcome(s) {
        ParseOutcome::Complete(m) => {
            let (ms, end, rest) = drain(parse_rest(s));
            (seq![m] + ms, end, rest)
        },
        other => (Seq::empty(), other, parse_rest(s)),
    }
}

/// The views of a sequence of messages.
pub open spec fn message_views(ms: Seq<Message>) -> Seq<MessageView> {
    ms.map_values(|m: Message| m@)
}

/// Whether a session event ends the session: the read found the peer gone,
/// or failed; handing a task on failed; the write failed;
/// the event reports an error or a closed side; or the session is closed.
pub open spec fn closes(
    read_ended: bool,
    read_failed: bool,
    send_failed: bool,
    write_failed: bool,
    error: bool,
    read_closed: bool,
    write_closed: bool,
    session_closed: bool,
) -> bool {
    read_ended || read_failed || send_failed || write_failed || error || read_closed || write_closed
        || session_closed
}

/// Decides whether a session event ends the session (see `closes`).
pub fn should_close(
    read_ended: bool,
    read_failed: bool,
    send_failed: bool,
    write_failed: bool,
    error: bool,
    read_closed: bool,
    write_closed: bool,
    session_closed: bool,
) -> (r: bool)
    ensures
        r == closes(read_ended, read_failed, send_failed, write_failed, error, read_closed, write_closed, session_closed),
{
    read_ended || read_failed || send_failed || write_failed || error || read_closed || write_closed
        || session_closed
}

/// A session event ends the session exactly when at least one cause is
/// present: each of the eight causes alone closes it, and with none of them
/// it stays open.
pub proof fn lemma_each_cause_closes(
    read_ended: bool,
    read_failed: bool,
    send_failed: bool,
    write_failed: bool,
    error: bool,
    read_closed: bool,
    write_closed: bool,
    session_closed: bool,
)
    ensures
        read_ended ==> closes(read_ended, read_failed, send_failed, write_failed, error, read_closed, write_closed, session_closed),
        read_failed ==> closes(read_ended, read_failed, send_failed, write_failed, error, read_closed, write_closed, session_closed),
        send_failed ==> closes(read_ended, read_failed, send_failed, write_failed, error, read_closed, write_closed, session_closed),
        write_failed ==> closes(read_ended, read_failed, send_failed, write_failed, error, read_closed, write_closed, session_closed),
        error ==> closes(read_ended, read_failed, send_failed, write_failed, error, read_closed, write_closed, session_closed),
        read_closed ==> closes(read_ended, read_failed, send_failed, write_failed, error, read_closed, write_closed, session_closed),
        write_closed ==> closes(read_ended, read_failed, send_failed, write_failed, error, read_closed, write_closed, session_closed),
        session_closed ==> closes(read_ended, read_failed, send_failed, write_failed, error, read_closed, write_closed, session_closed),
        !read_ended && !read_failed && !send_failed && !write_failed && !error && !read_closed && !write_closed
            && !session_closed ==> !closes(read_ended, read_failed, send_failed, write_failed, error, read_closed, write_closed, session_closed),
{
}

/// After the messages drained from a read were handed on, the error that
/// ends the event and drops the session: the refused frame's, when every
/// message was handed on; none when a hand-off failed (the session then
/// closes as `closes` says) or no frame was refused.
pub fn refused_frame(send_failed: bool, parse_error: Option<FrameError>) -> (r: Option<FrameError>)
    ensures
        r == if send_failed { None } else { parse_error },
{
    if send_failed {
        None
    } else {
        parse_error
    }
}

/// Below this many free bytes in the read buffer, more room is reserved
/// before a read.
pub const READ_RESERVE_THRESHOLD: usize = 1024;

/// How many bytes are reserved in the read buffer when it is short of room.
pub const READ_RESERVE_AMOUNT: usize = 4096;

/// How many bytes to reserve in a read buffer of capacity `capacity` that
/// holds `len` bytes: `READ_RESERVE_AMOUNT` when fewer than
/// `READ_RESERVE_THRESHOLD` are free, else none.
pub open spec fn reserve_amount(capacity: int, len: int) -> int {
    if capacity - len < READ_RESERVE_THRESHOLD {
        READ_RESERVE_AMOUNT as int
    } else {
        0
    }
}

/// Decides how many bytes to reserve in a read buffer of capacity `capacity`
/// that holds `len` bytes (see `reserve_amount`).
pub fn read_reserve_amount(capacity: usize, len: usize) -> (n: usize)
    requires
        len <= capacity,
    ensures
        n == reserve_amount(capacity as int, len as int),
{
    if capacity - len < READ_RESERVE_THRESHOLD {
        READ_RESERVE_AMOUNT
    } else {
        0
    }
}

impl Session {
    /// An active session in no room, with two empty buffers from `pool`.
    pub fn new(id: SessionId, pool: &mut BufferPool) -> (s: Self)
        requires
            old(pool).wf(),
            can_acquire(old(pool)@),
            can_acquire(acquire_result(old(pool)@)),
        ensures
            final(pool).wf(),
            final(pool)@ == acquire_result(acquire_result(old(pool)@)),
            final(pool)@.stats.available == final(pool)@.idle,
            s@ == (SessionView {
                id,
                read: Seq::empty(),
                write: Seq::empty(),
                state: SessionState::Active,
                room_id: None,
            }),
    {
        let read_buf = pool.acquire();
        let write_buf = pool.acquire();
        Self { id, read_buf, write_buf, state: SessionState::Active, room_id: None }
    }

    /// The session's id.
    pub fn id(&self) -> (id: SessionId)
        ensures
            id == self@.id,
    {
        self.id
    }

    /// The session's state.
    pub fn state(&self) -> (s: SessionState)
        ensures
            s == self@.state,
    {
        self.state
    }

    /// The session's room, if any.
    pub fn room_id(&self) -> (r: Option<RoomId>)
        ensures
            r == self@.room_id,
    {
        self.room_id
    }

    /// Sets the session's room.
    pub fn set_room_id(&mut self, room_id: Option<RoomId>)
        ensures
            final(self)@ == (SessionView { room_id, ..old(self)@ }),
    {
        self.room_id = room_id;
    }

    /// Makes room in the read buffer before a read: when fewer than
    /// `READ_RESERVE_THRESHOLD` bytes are free beyond those held,
    /// `READ_RESERVE_AMOUNT` more are reserved. Returns how many bytes it
    /// asked to reserve. The free space is read from the buffer's capacity,
    /// which the allocation decides, so the contract says that the amount is
    /// the one `read_reserve_amount` gives for some capacity at least the
    /// length; `reserve_read_space_with_capacity` states it for a given one.
    pub fn reserve_read_space(&mut self) -> (reserved: usize)
        requires
            old(self)@.read.len() + READ_RESERVE_AMOUNT <= isize::MAX,
        ensures
            exists|capacity: usize|
                capacity >= old(self)@.read.len() && reserved == reserve_amount(
                    capacity as int,
                    old(self)@.read.len() as int,
                ),
            reserved == 0 || reserved == READ_RESERVE_AMOUNT,
            final(self)@ == old(self)@,
    {
        let capacity = buf::buf_capacity(&self.read_buf);
        self.reserve_read_space_with_capacity(capacity)
    }

    /// Makes room in the read buffer, whose capacity is `capacity`: reserves
    /// `read_reserve_amount(capacity, len)` more bytes when that is not zero,
    /// and returns that amount. The bytes held do not change.
    pub fn reserve_read_space_with_capacity(&mut self, capacity: usize) -> (reserved: usize)
        requires
            old(self)@.read.len() <= capacity,
            old(self)@.read.len() + READ_RESERVE_AMOUNT <= isize::MAX,
        ensures
            reserved == reserve_amount(capacity as int, old(self)@.read.len() as int),
            final(self)@ == old(self)@,
    {
        let len = buf::buf_len(&self.read_buf);
        let amount = read_reserve_amount(capacity, len);
        if amount > 0 {
            buf::buf_reserve(&mut self.read_buf, amount);
        }
        amount
    }

    /// Takes in bytes read from the connection; returns how many.
    pub fn receive(&mut self, data: &[u8]) -> (n: usize)
        requires
            old(self)@.read.len() + data@.len() <= isize::MAX,
        ensures
            n == data@.len(),
            final(self)@ == (SessionView { read: old(self)@.read + data@, ..old(self)@ }),
    {
        buf::buf_extend_from_slice(&mut self.read_buf, data);
        data.len()
    }

    /// Records that the peer closed its side.
    pub fn mark_read_closed(&mut self)
        ensures
            final(self)@ == (SessionView { state: SessionState::ReadClosed, ..old(self)@ }),
    {
        self.state = SessionState::ReadClosed;
    }

    /// Parses one message off the read buffer (see `FrameParser::parse`).
    pub fn parse_message(&mut self) -> (r: Result<Option<Message>, FrameError>)
        ensures
            outcome_of(r) == parse_outcome(old(self)@.read),
            final(self)@ == (SessionView { read: parse_rest(old(self)@.read), ..old(self)@ }),
    {
        FrameParser::parse(&mut self.read_buf)
    }

    /// Parses every whole message off the read buffer, in order, stopping at
    /// an incomplete frame or at the first refused one, whose error comes
    /// back with the messages before it.
    pub fn drain_messages(&mut self) -> (r: (Vec<Message>, Option<FrameError>))
        ensures
            message_views(r.0@) == drain(old(self)@.read).0,
            match r.1 {
                None => drain(old(self)@.read).1 == ParseOutcome::NeedMore,
                Some(e) => drain(old(self)@.read).1 == outcome_of(Err(e)),
            },
            final(self)@ == (SessionView { read: drain(old(self)@.read).2, ..old(self)@ }),
    {
        let mut out: Vec<Message> = Vec::new();
        loop
            invariant
                self@ == (SessionView { read: self@.read, ..old(self)@ }),
                drain(old(self)@.read) == (
                    message_views(out@) + drain(self@.read).0,
                    drain(self@.read).1,
                    drain(self@.read).2,
                ),
            decreases self@.read.len(),
        {
            let ghost before = self@.read;
            let r = self.parse_message();
            match r {
                Ok(Some(m)) => {
                    let ghost mv = m@;
                    let ghost prev = out@;
                    out.push(m);
                    proof {
                        assert(message_views(out@) =~= message_views(prev).push(mv));
                        assert(message_views(out@) + drain(self@.read).0 =~= message_views(prev)
                            + drain(before).0);
                    }
                },
                Ok(None) => {
                    proof {
                        assert(drain(before).0 =~= Seq::<MessageView>::empty());
                        assert(message_views(out@) + drain(before).0 =~= message_views(out@));
                    }
                    return (out, None);
                },
                Err(e) => {
                    proof {
                        assert(message_views(out@) + drain(before).0 =~= message_views(out@));
                    }
                    return (out, Some(e));
                },
            }
        }
    }

    /// Queues a message for the client: its frame goes to the end of the
    /// write buffer.
    pub fn enqueue_message(&mut self, msg: Message)
        requires
            old(self)@.write.len() + msg.payload@.len() + HEADER_SIZE + 1 <= isize::MAX,
        ensures
            final(self)@ == (SessionView {
                write: old(self)@.write + frame_bytes(msg.msg_type, msg.payload@),
                ..old(self)@
            }),
    {
        let encoded = msg.encode();
        buf::buf_extend_from_slice(&mut self.write_buf, buf::buf_as_slice(&encoded));
    }

    /// The bytes waiting to be written.
    pub fn pending_writes(&self) -> (s: &[u8])
        ensures
            s@ == self@.write,
    {
        buf::buf_as_slice(&self.write_buf)
    }

    /// Drops the first `n` waiting bytes, once the connection took them.
    pub fn consume_written(&mut self, n: usize)
        requires
            n <= old(self)@.write.len(),
        ensures
            final(self)@ == (SessionView { write: old(self)@.write.skip(n as int), ..old(self)@ }),
    {
        let _written = buf::buf_split_to(&mut self.write_buf, n);
    }

    /// Whether bytes wait to be written.
    pub fn has_pending_writes(&self) -> (r: bool)
        ensures
            r == (self@.write.len() > 0),
    {
        buf::buf_len(&self.write_buf) != 0
    }

    /// The number of unparsed bytes read.
    pub fn read_buffer_len(&self) -> (n: usize)
        ensures
            n == self@.read.len(),
    {
        buf::buf_len(&self.read_buf)
    }

    /// The number of bytes waiting to be written.
    pub fn write_buffer_len(&self) -> (n: usize)
        ensures
            n == self@.write.len(),
    {
        buf::buf_len(&self.write_buf)
    }

    /// Marks the session closed.
    pub fn close(&mut self)
        ensures
            final(self)@ == (SessionView { state: SessionState::Closed, ..old(self)@ }),
    {
        self.state = SessionState::Closed;
    }

    /// Whether the session is closed.
    pub fn is_closed(&self) -> (r: bool)
        ensures
            r == (self@.state == SessionState::Closed),
    {
        self.state == SessionState::Closed
    }

    /// Ends the session, handing both buffers back to `pool` (each is kept or
    /// dropped as `BufferPool::release` decides).
    pub fn recycle(self, pool: &mut BufferPool)
        requires
            old(pool).wf(),
            old(pool)@.stats.returned < usize::MAX - 1,
        ensures
            final(pool).wf(),
            exists|first: bool, second: bool|
                final(pool)@ == release_result(release_result(old(pool)@, first), second),
            final(pool)@.stats.available == final(pool)@.idle,
    {
        let ghost p0 = pool@;
        pool.release(self.read_buf);
        let ghost p1 = pool@;
        pool.release(self.write_buf);
        proof {
            let first = p1 == release_result(p0, true);
            let second = pool@ == release_result(p1, true);
            assert(pool@ == release_result(release_result(p0, first), second));
        }
    }
}

/// Draining stops only where `parse` would not give a message, and when it
/// stops for want of bytes, what is left holds no whole frame.
pub proof fn lemma_drain_stops(s: Seq<u8>)
    ensures
        !(drain(s).1 is Complete),
        drain(s).1 is NeedMore ==> parse_outcome(drain(s).2) is NeedMore,
    decreases s.len(),
{
    match parse_outcome(s) {
        ParseOutcome::Complete(_) => lemma_drain_stops(parse_rest(s)),
        _ => {},
    }
}

/// The frames of several messages, one after the other, drain back to those
/// messages, leaving nothing.
pub proof fn lemma_drain_frames(t: MessageType, payload: Seq<u8>, rest: Seq<u8>)
    requires
        payload.len() + 1 <= MAX_MESSAGE_SIZE,
    ensures
        drain(frame_bytes(t, payload) + rest) == (
            seq![MessageView { msg_type: t, payload }] + drain(rest).0,
            drain(rest).1,
            drain(rest).2,
        ),
{
    crate::protocol::lemma_frame_roundtrip(t, payload, rest);
}

} // verus!
