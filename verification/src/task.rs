//! The work that the I/O side hands to the workers, and what the workers
//! answer.
use crate::protocol::Message;
use crate::protocol::MessageView;
use crate::session::RoomId;
use crate::session::SessionId;
use vstd::prelude::*;

verus! {

/// Work for a worker.
#[derive(Debug, Clone)]
pub enum GameTask {
    /// A session sent a message.
    SessionMessage { session_id: SessionId, message: Message },
    /// A session asks to enter a room.
    JoinRoom { session_id: SessionId, room_id: RoomId },
    /// A session leaves its room.
    LeaveRoom { session_id: SessionId },
    /// A message for every member of a room, less one session when given.
    BroadcastToRoom { room_id: RoomId, message: Message, exclude_session: Option<SessionId> },
    /// A message for one session.
    SendToSession { session_id: SessionId, message: Message },
    /// A session went away.
    DisconnectSession { session_id: SessionId },
}

/// What a worker asks of the I/O side.
#[derive(Debug, Clone)]
pub enum GameResponse {
    /// Send a message to one session.
    SendMessage { session_id: SessionId, message: Message },
    /// Send a message to each of several sessions.
    SendMessages { session_ids: Vec<SessionId>, message: Message },
    /// Close a session.
    CloseSession { session_id: SessionId },
}

/// What a response is, as a mathematical value.
pub enum ResponseView {
    SendMessage { session_id: SessionId, message: MessageView },
    SendMessages { session_ids: Seq<SessionId>, message: MessageView },
    CloseSession { session_id: SessionId },
}

impl View for GameResponse {
    type V = ResponseView;

    open spec fn view(&self) -> ResponseView {
        match self {
            GameResponse::SendMessage { session_id, message } => ResponseView::SendMessage {
                session_id: *session_id,
                message: message@,
            },
            GameResponse::SendMessages { session_ids, message } => ResponseView::SendMessages {
                session_ids: session_ids@,
                message: message@,
            },
            GameResponse::CloseSession { session_id } => ResponseView::CloseSession {
                session_id: *session_id,
            },
        }
    }
}

/// One delivery that a response asks for: a message for a session.
pub struct Delivery {
    pub session_id: SessionId,
    pub message: Message,
}

impl GameResponse {
    /// The messages this response asks the I/O side to send, one per
    /// recipient in order, and the session it asks to close, if any.
    pub fn deliveries(self) -> (r: (Vec<Delivery>, Option<SessionId>))
        ensures
            match self@ {
                ResponseView::SendMessage { session_id, message } => {
                    &&& r.0@.len() == 1
                    &&& r.0@[0].session_id == session_id
                    &&& r.0@[0].message@ == message
                    &&& r.1 == None::<SessionId>
                },
                ResponseView::SendMessages { session_ids, message } => {
                    &&& r.0@.len() == session_ids.len()
                    &&& forall|i: int| 0 <= i < session_ids.len() ==> (#[trigger] r.0@[i]).session_id
                        == session_ids[i] && r.0@[i].message@ == message
                    &&& r.1 == None::<SessionId>
                },
                ResponseView::CloseSession { session_id } => {
                    &&& r.0@.len() == 0
                    &&& r.1 == Some(session_id)
                },
            },
    {
        match self {
            GameResponse::SendMessage { session_id, message } => {
                let mut v: Vec<Delivery> = Vec::new();
                v.push(Delivery { session_id, message });
                (v, None)
            },
            GameResponse::SendMessages { session_ids, message } => {
                let mut v: Vec<Delivery> = Vec::new();
                let mut i: usize = 0;
                while i < session_ids.len()
                    invariant
                        i <= session_ids@.len(),
                        v@.len() == i,
                        forall|j: int| 0 <= j < i ==> (#[trigger] v@[j]).session_id == session_ids@[j]
                            && v@[j].message@ == message@,
                    decreases session_ids@.len() - i,
                {
                    v.push(Delivery { session_id: session_ids[i], message: message.duplicate() });
                    i = i + 1;
                }
                (v, None)
            },
            GameResponse::CloseSession { session_id } => (Vec::new(), Some(session_id)),
        }
    }
}

} // verus!
