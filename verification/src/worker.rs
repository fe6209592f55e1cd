//! Workers: what a worker does with each task it is handed, and the
//! scheduling of a worker's own queue of tasks.
use crate::protocol::be_value_u64;
use crate::protocol::read_be_u64;
use crate::protocol::Message;
use crate::protocol::MessageType;
use crate::protocol::MessageView;
use crate::room::create_at_result;
use crate::room::create_result;
use crate::room::join_result;
use crate::room::leave_result;
use crate::room::room_error_text;
use crate::room::RoomManager;
use crate::session::RoomId;
use crate::session::SessionId;
use crate::task::GameResponse;
use crate::task::GameTask;
use crate::task::ResponseView;
use crate::text::ascii_bytes;
use crate::text::decimal;
use crate::text::push_ascii;
use crate::text::push_decimal_bytes;
use crate::text::push_decimal_chars;
use crossbeam_deque::Worker as Deque;
use vstd::prelude::*;
use vstd::string::StringExecFns;

verus! {

/// `Joined room <id>`.
pub open spec fn joined_text(room_id: RoomId) -> Seq<u8> {
    ascii_bytes("Joined room "@) + ascii_bytes(decimal(room_id as nat))
}

/// `Left room <id>`.
pub open spec fn left_text(room_id: RoomId) -> Seq<u8> {
    ascii_bytes("Left room "@) + ascii_bytes(decimal(room_id as nat))
}

/// `<prefix><failure>`, the text of a failed join.
pub open spec fn failed_text(prefix: Seq<char>, e: crate::room::RoomError) -> Seq<u8> {
    ascii_bytes(prefix) + room_error_text(e)
}

/// The name given to a room that a join request creates: `Room <id>`.
pub open spec fn requested_room_name(room_id: RoomId) -> Seq<char> {
    "Room "@ + decimal(room_id as nat)
}

/// A response message with the given text.
pub open spec fn response_view(text: Seq<u8>) -> MessageView {
    MessageView { msg_type: MessageType::Response, payload: text }
}

/// The room id that a join request's payload names.
pub open spec fn requested_room(payload: Seq<u8>) -> RoomId {
    be_value_u64(payload) as RoomId
}

/// The rooms after a join request for `room_id`: when no room has that id,
/// an unbounded room `Room <id>` is created under it; then the session
/// joins it.
pub open spec fn join_request_result(s: crate::room::ManagerView, session_id: SessionId, room_id: RoomId) -> (crate::room::ManagerView, Result<(), crate::room::RoomError>) {
    join_result(create_at_result(s, room_id, requested_room_name(room_id), 0), session_id, room_id)
}

/// The text of a join answer: `Joined room <id>`, or `prefix` and the failure.
pub open spec fn join_answer(prefix: Seq<char>, room_id: RoomId, r: Result<(), crate::room::RoomError>) -> Seq<u8> {
    match r {
        Ok(()) => joined_text(room_id),
        Err(e) => failed_text(prefix, e),
    }
}

/// Whether `r` is one message to `session_id`, with the given view.
pub open spec fn sends(r: Option<GameResponse>, session_id: SessionId, message: MessageView) -> bool {
    &&& r is Some
    &&& r->0@ == ResponseView::SendMessage { session_id, message }
}

/// Whether `r` is one message to each session of `recipients` (each once),
/// with the given view.
pub open spec fn sends_to_all(r: Option<GameResponse>, recipients: Set<SessionId>, message: MessageView) -> bool {
    &&& r is Some
    &&& r->0@ matches ResponseView::SendMessages { session_ids, message: m }
    &&& session_ids.to_set() == recipients
    &&& session_ids.no_duplicates()
    &&& m == message
}

/// How a worker handles a message from a session, from rooms `s` to rooms
/// `t`, answering `r` (see `handle_session_message`).
pub open spec fn answers_session_message(
    s: crate::room::ManagerView,
    t: crate::room::ManagerView,
    session_id: SessionId,
    message: MessageView,
    r: Option<GameResponse>,
) -> bool {
    match message.msg_type {
        MessageType::Echo => {
            &&& t == s
            &&& sends(r, session_id, MessageView { msg_type: MessageType::Echo, payload: message.payload })
        },
        MessageType::JoinRoom => if message.payload.len() >= 8 {
            let room_id = requested_room(message.payload);
            let (u, res) = join_request_result(s, session_id, room_id);
            &&& t == u
            &&& sends(r, session_id, response_view(join_answer("Failed to join: "@, room_id, res)))
        } else {
            &&& t == s
            &&& r is None
        },
        MessageType::LeaveRoom => {
            let (u, left) = leave_result(s, session_id);
            &&& t == u
            &&& match left {
                Some(room_id) => sends(r, session_id, response_view(left_text(room_id))),
                None => r is None,
            }
        },
        MessageType::RoomMessage => {
            &&& t == s
            &&& match s.sessions.get(session_id) {
                Some(room_id) => if s.rooms.contains_key(room_id) {
                    sends_to_all(
                        r,
                        s.rooms[room_id].members.remove(session_id),
                        MessageView { msg_type: MessageType::RoomMessage, payload: message.payload },
                    )
                } else {
                    r is None
                },
                None => sends(r, session_id, response_view(ascii_bytes("Not in any room"@))),
            }
        },
        MessageType::Response => {
            &&& t == s
            &&& r is None
        },
    }
}

/// The response message with the given text.
fn response_with(text: Vec<u8>) -> (m: Message)
    ensures
        m@ == response_view(text@),
{
    Message::response(text)
}

/// `Room <id>`.
fn requested_room_string(room_id: RoomId) -> (s: String)
    ensures
        s@ == requested_room_name(room_id),
{
    proof {
        reveal_strlit("Room ");
    }
    let mut s = String::from_str("Room ");
    push_decimal_chars(&mut s, room_id);
    s
}

/// The text of a join answer.
fn join_answer_text(prefix: &str, room_id: RoomId, r: Result<(), crate::room::RoomError>) -> (t: Vec<u8>)
    requires
        crate::text::is_ascii_text(prefix@),
    ensures
        t@ == join_answer(prefix@, room_id, r),
{
    proof {
        reveal_strlit("Joined room ");
    }
    let mut t: Vec<u8> = Vec::new();
    match r {
        Ok(()) => {
            push_ascii(&mut t, "Joined room ");
            push_decimal_bytes(&mut t, room_id);
        },
        Err(e) => {
            push_ascii(&mut t, prefix);
            let mut reason = e.text();
            t.append(&mut reason);
        },
    }
    t
}

/// What a worker does with a message from a session: it answers an echo with
/// the same payload; creates a requested room that does not exist and joins
/// the session to it, answering how that went (a join request whose payload
/// is shorter than eight bytes is dropped); takes the session out of its
/// room and says which; forwards a room message to the other members of the
/// sender's room, or tells a sender in no room so; and drops responses.
pub fn handle_session_message(
    session_id: SessionId,
    message: Message,
    room_manager: &mut RoomManager,
) -> (r: Option<GameResponse>)
    ensures
        answers_session_message(old(room_manager)@, final(room_manager)@, session_id, message@, r),
{
    match message.msg_type {
        MessageType::Echo => {
            Some(GameResponse::SendMessage { session_id, message: Message::echo(message.payload) })
        },
        MessageType::JoinRoom => {
            if message.payload.len() >= 8 {
                let room_id = read_be_u64(message.payload.as_slice());
                if room_manager.get_room(room_id).is_none() {
                    room_manager.create_room_with_id(room_id, requested_room_string(room_id), 0);
                }
                let res = room_manager.join_room(session_id, room_id);
                proof {
                    reveal_strlit("Failed to join: ");
                }
                let text = join_answer_text("Failed to join: ", room_id, res);
                Some(GameResponse::SendMessage { session_id, message: response_with(text) })
            } else {
                None
            }
        },
        MessageType::LeaveRoom => {
            match room_manager.leave_room(session_id) {
                Some(room_id) => {
                    proof {
                        reveal_strlit("Left room ");
                    }
                    let mut text: Vec<u8> = Vec::new();
                    push_ascii(&mut text, "Left room ");
                    push_decimal_bytes(&mut text, room_id);
                    Some(GameResponse::SendMessage { session_id, message: response_with(text) })
                },
                None => None,
            }
        },
        MessageType::RoomMessage => {
            match room_manager.get_session_room(session_id) {
                Some(room_id) => {
                    match room_manager.get_room_members_except(room_id, session_id) {
                        Some(members) => Some(
                            GameResponse::SendMessages {
                                session_ids: members,
                                message: Message::room_message(message.payload),
                            },
                        ),
                        None => None,
                    }
                },
                None => {
                    proof {
                        reveal_strlit("Not in any room");
                    }
                    let mut text: Vec<u8> = Vec::new();
                    push_ascii(&mut text, "Not in any room");
                    Some(GameResponse::SendMessage { session_id, message: response_with(text) })
                },
            }
        },
        MessageType::Response => None,
    }
}

/// How a worker handles a task, from rooms `s` to rooms `t`, answering `r`
/// (see `process_task`).
pub open spec fn answers_task(
    s: crate::room::ManagerView,
    t: crate::room::ManagerView,
    task: GameTask,
    r: Option<GameResponse>,
) -> bool {
    match task {
        GameTask::SessionMessage { session_id, message } => answers_session_message(
            s,
            t,
            session_id,
            message@,
            r,
        ),
        GameTask::JoinRoom { session_id, room_id } => {
            let (u, res) = join_result(s, session_id, room_id);
            &&& t == u
            &&& sends(r, session_id, response_view(join_answer("Failed to join room: "@, room_id, res)))
        },
        GameTask::LeaveRoom { session_id } => {
            &&& t == leave_result(s, session_id).0
            &&& r is None
        },
        GameTask::BroadcastToRoom { room_id, message, exclude_session } => {
            &&& t == s
            &&& if s.rooms.contains_key(room_id) {
                sends_to_all(r, crate::room::without(s.rooms[room_id].members, exclude_session), message@)
            } else {
                r is None
            }
        },
        GameTask::SendToSession { session_id, message } => {
            &&& t == s
            &&& sends(r, session_id, message@)
        },
        GameTask::DisconnectSession { session_id } => {
            &&& t == leave_result(s, session_id).0
            &&& r is Some
            &&& r->0@ == ResponseView::CloseSession { session_id }
        },
    }
}

/// What a worker does with one task, and the response it sends, if any. A
/// session message goes to `handle_session_message`. A join request joins
/// the session to an existing room and answers how that went. A leave takes
/// the session out of its room, without answer. A broadcast goes to the
/// members of an existing room, less the excluded session. A message for a
/// session is passed on. A disconnect takes the session out of its room and
/// asks for the session to be closed.
pub fn process_task(room_manager: &mut RoomManager, task: GameTask) -> (r: Option<GameResponse>)
    ensures
        answers_task(old(room_manager)@, final(room_manager)@, task, r),
{
    match task {
        GameTask::SessionMessage { session_id, message } => {
            handle_session_message(session_id, message, room_manager)
        },
        GameTask::JoinRoom { session_id, room_id } => {
            let res = room_manager.join_room(session_id, room_id);
            proof {
                reveal_strlit("Failed to join room: ");
            }
            let text = join_answer_text("Failed to join room: ", room_id, res);
            Some(GameResponse::SendMessage { session_id, message: response_with(text) })
        },
        GameTask::LeaveRoom { session_id } => {
            room_manager.leave_room(session_id);
            None
        },
        GameTask::BroadcastToRoom { room_id, message, exclude_session } => {
            let members = match exclude_session {
                Some(exclude) => room_manager.get_room_members_except(room_id, exclude),
                None => room_manager.get_room_members(room_id),
            };
            match members {
                Some(session_ids) => Some(GameResponse::SendMessages { session_ids, message }),
                None => None,
            }
        },
        GameTask::SendToSession { session_id, message } => {
            Some(GameResponse::SendMessage { session_id, message })
        },
        GameTask::DisconnectSession { session_id } => {
            room_manager.leave_room(session_id);
            Some(GameResponse::CloseSession { session_id })
        },
    }
}

/// The rooms a worker starts with: one unbounded room, `Lobby`, with id 1.
pub fn worker_rooms() -> (r: (RoomManager, RoomId))
    ensures
        r.1 == 1,
        r.0@ == create_result(crate::room::empty_manager(), "Lobby"@, 0),
        crate::room::manager_wf(r.0@),
{
    proof {
        reveal_strlit("Lobby");
        lemma_worker_rooms_wf();
    }
    let mut rooms = RoomManager::new();
    let lobby = rooms.create_room(String::from_str("Lobby"), 0);
    (rooms, lobby)
}


/// Identifies a task in a worker's queue; the tasks themselves are kept by
/// whoever runs them.
pub type TaskId = u64;

/// `crossbeam_deque::Worker`, held opaque; its tasks are named by
/// `deque_tasks` and its flavor by `deque_is_fifo`.
#[verifier::external_type_specification]
#[verifier::external_body]
#[verifier::reject_recursive_types(T)]
pub struct ExDeque<T>(Deque<T>);

/// The tasks in a deque, front to back (the front is where a FIFO deque pops).
pub uninterp spec fn deque_tasks(d: Deque<TaskId>) -> Seq<TaskId>;

/// Whether a deque was made FIFO (pushes at the back, pops at the front).
pub uninterp spec fn deque_is_fifo(d: Deque<TaskId>) -> bool;

/// `crossbeam_deque::Worker::new_fifo`: an empty FIFO deque.
#[verifier::external_body]
fn deque_new_fifo() -> (d: Deque<TaskId>)
    ensures
        deque_tasks(d) == Seq::<TaskId>::empty(),
        deque_is_fifo(d),
{
    Deque::new_fifo()
}

/// `crossbeam_deque::Worker::push`: the task goes to the back; the flavor
/// stays. This holds while no `Stealer` of the deque exists, since a stealer
/// takes tasks from the front on other threads; this library makes none.
#[verifier::external_body]
fn deque_push(d: &mut Deque<TaskId>, task: TaskId)
    ensures
        deque_tasks(*final(d)) == deque_tasks(*old(d)).push(task),
        deque_is_fifo(*final(d)) == deque_is_fifo(*old(d)),
{
    d.push(task)
}

/// `crossbeam_deque::Worker::pop` on a FIFO deque: the front task comes off,
/// or `None` when the deque is empty; the flavor stays. Like `deque_push`,
/// this holds while no `Stealer` of the deque exists.
#[verifier::external_body]
fn deque_pop(d: &mut Deque<TaskId>) -> (task: Option<TaskId>)
    requires
        deque_is_fifo(*old(d)),
    ensures
        deque_is_fifo(*final(d)),
        deque_tasks(*old(d)).len() == 0 ==> task is None && deque_tasks(*final(d)) == deque_tasks(*old(d)),
        deque_tasks(*old(d)).len() > 0 ==> task == Some(deque_tasks(*old(d))[0])
            && deque_tasks(*final(d)) == deque_tasks(*old(d)).drop_first(),
{
    d.pop()
}

/// What a worker is doing.
#[derive(Debug, Clone, Copy, PartialEq, Eq, Structural)]
pub enum WorkerState {
    /// It found no task to run.
    Idle,
    /// It is running a task.
    Running,
    /// It ran out of tasks and stopped.
    Stopped,
}

/// A worker's task scheduling: a FIFO queue, and a `next` slot whose task
/// runs before anything in the queue.
pub struct Worker {
    id: usize,
    state: WorkerState,
    local_queue: Deque<TaskId>,
    next: Option<TaskId>,
}

/// What a worker's scheduling is, as a mathematical value.
pub struct WorkerView {
    pub id: usize,
    pub state: WorkerState,
    pub queue: Seq<TaskId>,
    pub next: Option<TaskId>,
}

impl View for Worker {
    type V = WorkerView;

    closed spec fn view(&self) -> WorkerView {
        WorkerView {
            id: self.id,
            state: self.state,
            queue: deque_tasks(self.local_queue),
            next: self.next,
        }
    }
}

/// The order in which a worker's tasks would run: the `next` task, if any,
/// then the queue front to back.
pub open spec fn run_order(w: WorkerView) -> Seq<TaskId> {
    match w.next {
        Some(t) => seq![t] + w.queue,
        None => w.queue,
    }
}

/// The worker after `push(task)`: the task joins the back of the queue.
pub open spec fn push_result(w: WorkerView, task: TaskId) -> WorkerView {
    WorkerView { queue: w.queue.push(task), ..w }
}

/// The worker after `set_next(task)`: the task takes the `next` slot, and the
/// task that held it, if any, joins the back of the queue.
pub open spec fn set_next_result(w: WorkerView, task: TaskId) -> WorkerView {
    match w.next {
        Some(t) => WorkerView { queue: w.queue.push(t), next: Some(task), ..w },
        None => WorkerView { next: Some(task), ..w },
    }
}

/// The worker after taking its next task, and that task: the `next` task if
/// there is one, else the front of the queue, else none.
pub open spec fn take_result(w: WorkerView) -> (WorkerView, Option<TaskId>) {
    match w.next {
        Some(t) => (WorkerView { next: None, ..w }, Some(t)),
        None => if w.queue.len() > 0 {
            (WorkerView { queue: w.queue.drop_first(), ..w }, Some(w.queue[0]))
        } else {
            (w, None)
        },
    }
}

impl Worker {
    /// The worker's queue was made FIFO; every method keeps this.
    pub closed spec fn wf(&self) -> bool {
        deque_is_fifo(self.local_queue)
    }

    /// An idle worker with no tasks.
    pub fn new(id: usize) -> (w: Self)
        ensures
            w.wf(),
            w@ == (WorkerView { id, state: WorkerState::Idle, queue: Seq::empty(), next: None }),
    {
        Self { id, state: WorkerState::Idle, local_queue: deque_new_fifo(), next: None }
    }

    /// The worker's id.
    pub fn id(&self) -> (id: usize)
        ensures
            id == self@.id,
    {
        self.id
    }

    /// The worker's state.
    pub fn state(&self) -> (s: WorkerState)
        ensures
            s == self@.state,
    {
        self.state
    }

    /// Sets the worker's state.
    pub fn set_state(&mut self, state: WorkerState)
        requires
            old(self).wf(),
        ensures
            final(self).wf(),
            final(self)@ == (WorkerView { state, ..old(self)@ }),
    {
        self.state = state;
    }

    /// Queues a task at the back.
    pub fn push(&mut self, task: TaskId)
        requires
            old(self).wf(),
        ensures
            final(self).wf(),
            final(self)@ == push_result(old(self)@, task),
    {
        deque_push(&mut self.local_queue, task);
    }

    /// Puts a task in the `next` slot, moving the task that held it to the
    /// back of the queue.
    pub fn set_next(&mut self, task: TaskId)
        requires
            old(self).wf(),
        ensures
            final(self).wf(),
            final(self)@ == set_next_result(old(self)@, task),
    {
        match self.next.take() {
            Some(old_next) => {
                deque_push(&mut self.local_queue, old_next);
            },
            None => {},
        }
        self.next = Some(task);
    }

    /// Takes the task to run next: the `next` task if there is one, else the
    /// front of the queue.
    pub fn get_next_task(&mut self) -> (task: Option<TaskId>)
        requires
            old(self).wf(),
        ensures
            final(self).wf(),
            (final(self)@, task) == take_result(old(self)@),
    {
        match self.next.take() {
            Some(task) => Some(task),
            None => deque_pop(&mut self.local_queue),
        }
    }

    /// Starts one round of work: takes the next task and becomes `Running`,
    /// or, with no task, becomes `Idle`. The caller runs the task, and pushes
    /// it back when it is not finished.
    pub fn run_once(&mut self) -> (task: Option<TaskId>)
        requires
            old(self).wf(),
        ensures
            final(self).wf(),
            task == take_result(old(self)@).1,
            final(self)@ == (WorkerView {
                state: if task is Some { WorkerState::Running } else { WorkerState::Idle },
                ..take_result(old(self)@).0
            }),
    {
        let task = self.get_next_task();
        match task {
            Some(_) => {
                self.state = WorkerState::Running;
            },
            None => {
                self.state = WorkerState::Idle;
            },
        }
        task
    }
}

/// Taking a task gives the first task in run order and leaves the rest of the
/// run order; with nothing to run it gives none and changes nothing.
pub proof fn lemma_take_follows_run_order(w: WorkerView)
    ensures
        run_order(w).len() == 0 ==> take_result(w).1 is None && take_result(w).0 == w,
        run_order(w).len() > 0 ==> take_result(w).1 == Some(run_order(w)[0])
            && run_order(take_result(w).0) == run_order(w).drop_first(),
{
    if let Some(t) = w.next {
        assert(run_order(w).drop_first() =~= w.queue);
    }
}

/// The worker after `n` rounds of `run_once` in which every task finishes
/// (none is pushed back), and the tasks handed out, in order.
pub open spec fn rounds(w: WorkerView, n: nat) -> (WorkerView, Seq<TaskId>)
    decreases n,
{
    if n == 0 {
        (w, Seq::empty())
    } else {
        let (w1, ts) = rounds(w, (n - 1) as nat);
        let (w2, t) = take_result(w1);
        match t {
            Some(x) => (w2, ts.push(x)),
            None => (w2, ts),
        }
    }
}

/// Rounds hand out the run order from its front and leave the rest.
proof fn lemma_rounds_prefix(w: WorkerView, n: nat)
    requires
        n <= run_order(w).len(),
    ensures
        rounds(w, n).1 == run_order(w).take(n as int),
        run_order(rounds(w, n).0) == run_order(w).skip(n as int),
        rounds(w, n).0.id == w.id,
    decreases n,
{
    if n == 0 {
        assert(run_order(w).take(0) =~= Seq::<TaskId>::empty());
        assert(run_order(w).skip(0) =~= run_order(w));
    } else {
        lemma_rounds_prefix(w, (n - 1) as nat);
        let w1 = rounds(w, (n - 1) as nat).0;
        lemma_take_follows_run_order(w1);
        assert(run_order(w).take(n as int) =~= run_order(w).take(n - 1).push(run_order(w)[n - 1]));
        assert(run_order(w).skip(n as int) =~= run_order(w).skip(n - 1).drop_first());
    }
}

/// Running a worker until `run_once` finds nothing, when every task finishes
/// on its first poll: each task runs exactly once, the `next` task first and
/// then the queue in push order, and afterwards nothing is left to run.
pub proof fn lemma_run_to_empty(w: WorkerView)
    ensures
        rounds(w, run_order(w).len()).1 == run_order(w),
        run_order(rounds(w, run_order(w).len()).0) == Seq::<TaskId>::empty(),
        rounds(w, run_order(w).len()).0.next is None,
        rounds(w, run_order(w).len()).0.queue == Seq::<TaskId>::empty(),
        rounds(w, run_order(w).len()).0.id == w.id,
        take_result(rounds(w, run_order(w).len()).0).1 is None,
{
    let n = run_order(w).len();
    lemma_rounds_prefix(w, n);
    assert(run_order(w).take(n as int) =~= run_order(w));
    assert(run_order(w).skip(n as int) =~= Seq::<TaskId>::empty());
    lemma_take_follows_run_order(rounds(w, n).0);
}

/// Pushing adds the task at the end of the run order.
pub proof fn lemma_push_runs_last(w: WorkerView, task: TaskId)
    ensures
        run_order(push_result(w, task)) == run_order(w).push(task),
{
    if let Some(t) = w.next {
        assert(run_order(push_result(w, task)) =~= run_order(w).push(task));
    }
}

/// Setting the next task puts it first in run order; the task it displaces
/// runs after everything queued.
pub proof fn lemma_set_next_runs_first(w: WorkerView, task: TaskId)
    ensures
        run_order(set_next_result(w, task)) == seq![task] + w.queue + match w.next {
            Some(t) => seq![t],
            None => Seq::<TaskId>::empty(),
        },
{
    assert(run_order(set_next_result(w, task)) =~= seq![task] + w.queue + match w.next {
        Some(t) => seq![t],
        None => Seq::<TaskId>::empty(),
    });
}


/// Handling a session message keeps the rooms' invariant.
pub proof fn lemma_session_message_keeps_rooms_wf(
    s: crate::room::ManagerView,
    t: crate::room::ManagerView,
    session_id: SessionId,
    message: MessageView,
    r: Option<GameResponse>,
)
    requires
        crate::room::manager_wf(s),
        answers_session_message(s, t, session_id, message, r),
    ensures
        crate::room::manager_wf(t),
{
    match message.msg_type {
        MessageType::JoinRoom => {
            if message.payload.len() >= 8 {
                let room_id = requested_room(message.payload);
                crate::room::lemma_create_room_with_id(s, room_id, requested_room_name(room_id), 0);
                crate::room::lemma_join_room(
                    create_at_result(s, room_id, requested_room_name(room_id), 0),
                    session_id,
                    room_id,
                );
            }
        },
        MessageType::LeaveRoom => {
            crate::room::lemma_leave_room(s, session_id);
        },
        _ => {},
    }
}

/// Every task a worker handles keeps the rooms' invariant: whatever comes
/// in, a session stays in at most one room and no room exceeds its bound.
pub proof fn lemma_task_keeps_rooms_wf(
    s: crate::room::ManagerView,
    t: crate::room::ManagerView,
    task: GameTask,
    r: Option<GameResponse>,
)
    requires
        crate::room::manager_wf(s),
        answers_task(s, t, task, r),
    ensures
        crate::room::manager_wf(t),
{
    match task {
        GameTask::SessionMessage { session_id, message } => {
            lemma_session_message_keeps_rooms_wf(s, t, session_id, message@, r);
        },
        GameTask::JoinRoom { session_id, room_id } => {
            crate::room::lemma_join_room(s, session_id, room_id);
        },
        GameTask::LeaveRoom { session_id } => {
            crate::room::lemma_leave_room(s, session_id);
        },
        GameTask::DisconnectSession { session_id } => {
            crate::room::lemma_leave_room(s, session_id);
        },
        _ => {},
    }
}

/// A join request for a room that does not exist creates that room under
/// the requested id and puts the session in it: the join succeeds.
pub proof fn lemma_join_request_enters_new_room(
    s: crate::room::ManagerView,
    session_id: SessionId,
    room_id: RoomId,
)
    requires
        crate::room::manager_wf(s),
        !s.rooms.contains_key(room_id),
    ensures
        join_request_result(s, session_id, room_id).1 == Ok::<(), crate::room::RoomError>(()),
        join_request_result(s, session_id, room_id).0.sessions.get(session_id) == Some(room_id),
        join_request_result(s, session_id, room_id).0.rooms.contains_key(room_id),
        join_request_result(s, session_id, room_id).0.rooms[room_id].members.contains(session_id),
        join_request_result(s, session_id, room_id).0.rooms[room_id].name == requested_room_name(room_id),
{
    let name = requested_room_name(room_id);
    crate::room::lemma_create_room_with_id(s, room_id, name, 0);
    let c = create_at_result(s, room_id, name, 0);
    crate::room::lemma_leave_room(c, session_id);
    crate::room::lemma_join_room(c, session_id, room_id);
    assert(!c.sessions.contains_key(session_id) || c.sessions[session_id] != room_id);
    let t = leave_result(c, session_id).0;
    assert(c.sessions.get(session_id) != Some(room_id));
    assert(t.rooms.get(room_id) == c.rooms.get(room_id));
}

/// A `LeaveRoom` task, on consistent sessions and rooms: afterwards the
/// session is recorded in no room, no room holds it, every other session
/// keeps its room, the rooms stay consistent, and nothing is sent.
pub proof fn lemma_leave_task_law(
    s: crate::room::ManagerView,
    t: crate::room::ManagerView,
    session_id: SessionId,
    r: Option<GameResponse>,
)
    requires
        crate::room::sessions_consistent(s),
        answers_task(s, t, GameTask::LeaveRoom { session_id }, r),
    ensures
        !t.sessions.contains_key(session_id),
        forall|rid: RoomId| #[trigger] t.rooms.contains_key(rid) ==> !t.rooms[rid].members.contains(session_id),
        t.sessions == s.sessions.remove(session_id),
        crate::room::sessions_consistent(t),
        r is None,
{
    crate::room::lemma_leave_consistent(s, session_id);
}

/// A leave request from a session, on consistent sessions and rooms:
/// afterwards the session is recorded in no room and no room holds it,
/// every other session keeps its room; it is answered `Left room <id>`, with
/// the id of the room it was in written in decimal, exactly when it was in
/// a room, and not answered otherwise.
pub proof fn lemma_leave_message_law(
    s: crate::room::ManagerView,
    t: crate::room::ManagerView,
    session_id: SessionId,
    message: MessageView,
    r: Option<GameResponse>,
)
    requires
        crate::room::sessions_consistent(s),
        message.msg_type == MessageType::LeaveRoom,
        answers_session_message(s, t, session_id, message, r),
    ensures
        !t.sessions.contains_key(session_id),
        forall|rid: RoomId| #[trigger] t.rooms.contains_key(rid) ==> !t.rooms[rid].members.contains(session_id),
        t.sessions == s.sessions.remove(session_id),
        crate::room::sessions_consistent(t),
        s.sessions.contains_key(session_id) ==> sends(
            r,
            session_id,
            MessageView {
                msg_type: MessageType::Response,
                payload: ascii_bytes("Left room "@) + ascii_bytes(decimal(s.sessions[session_id] as nat)),
            },
        ),
        !s.sessions.contains_key(session_id) ==> r is None,
{
    crate::room::lemma_leave_consistent(s, session_id);
}

/// A join request (a payload of at least eight bytes naming room `k`), on
/// rooms that keep the invariant. When no room has id `k`, the request
/// creates room `k`, named `Room <k>` and with no member bound. When room
/// `k` then has no bound (because it was just created, or had none), the
/// session joins it: it is recorded in room `k` and is a member of it, the
/// room still has no bound, and the session is answered `Joined room <k>`
/// with `k` in decimal. The rooms keep the invariant.
pub proof fn lemma_join_request_law(
    s: crate::room::ManagerView,
    t: crate::room::ManagerView,
    session_id: SessionId,
    message: MessageView,
    r: Option<GameResponse>,
)
    requires
        crate::room::manager_wf(s),
        message.msg_type == MessageType::JoinRoom,
        message.payload.len() >= 8,
        answers_session_message(s, t, session_id, message, r),
    ensures
        ({
            let k = requested_room(message.payload);
            &&& crate::room::manager_wf(t)
            &&& !s.rooms.contains_key(k) ==> {
                &&& t.rooms.contains_key(k)
                &&& t.rooms[k].max_members == 0
                &&& t.rooms[k].name == "Room "@ + decimal(k as nat)
            }
            &&& (!s.rooms.contains_key(k) || s.rooms[k].max_members == 0) ==> {
                &&& t.sessions.get(session_id) == Some(k)
                &&& t.rooms.contains_key(k)
                &&& t.rooms[k].members.contains(session_id)
                &&& t.rooms[k].max_members == 0
                &&& sends(
                    r,
                    session_id,
                    MessageView {
                        msg_type: MessageType::Response,
                        payload: ascii_bytes("Joined room "@) + ascii_bytes(decimal(k as nat)),
                    },
                )
            }
        }),
{
    let k = requested_room(message.payload);
    lemma_session_message_keeps_rooms_wf(s, t, session_id, message, r);
    let name = requested_room_name(k);
    crate::room::lemma_create_room_with_id(s, k, name, 0);
    let c = create_at_result(s, k, name, 0);
    crate::room::lemma_leave_room(c, session_id);
    crate::room::lemma_join_room(c, session_id, k);
    if !s.rooms.contains_key(k) {
        lemma_join_request_enters_new_room(s, session_id, k);
    }
    if !s.rooms.contains_key(k) || s.rooms[k].max_members == 0 {
        assert(c.rooms[k].max_members == 0);
        let u = leave_result(c, session_id).0;
        if c.sessions.get(session_id) != Some(k) {
            assert(u.rooms.get(k) == c.rooms.get(k));
            assert(crate::room::has_space(u.rooms[k]));
        }
    }
}

/// Once a join request has created room `k`, every later join request for
/// `k`, by any session, succeeds: the session is recorded in room `k`,
/// is a member of it, and is answered `Joined room <k>`.
pub proof fn lemma_created_room_takes_later_joins(
    s: crate::room::ManagerView,
    t: crate::room::ManagerView,
    t2: crate::room::ManagerView,
    session_id: SessionId,
    other: SessionId,
    message: MessageView,
    later: MessageView,
    r: Option<GameResponse>,
    r2: Option<GameResponse>,
)
    requires
        crate::room::manager_wf(s),
        message.msg_type == MessageType::JoinRoom,
        later.msg_type == MessageType::JoinRoom,
        message.payload.len() >= 8,
        later.payload.len() >= 8,
        requested_room(later.payload) == requested_room(message.payload),
        !s.rooms.contains_key(requested_room(message.payload)),
        answers_session_message(s, t, session_id, message, r),
        answers_session_message(t, t2, other, later, r2),
    ensures
        ({
            let k = requested_room(message.payload);
            &&& t2.sessions.get(other) == Some(k)
            &&& t2.rooms.contains_key(k)
            &&& t2.rooms[k].members.contains(other)
            &&& sends(
                r2,
                other,
                MessageView {
                    msg_type: MessageType::Response,
                    payload: ascii_bytes("Joined room "@) + ascii_bytes(decimal(k as nat)),
                },
            )
        }),
{
    lemma_join_request_law(s, t, session_id, message, r);
    lemma_join_request_law(t, t2, other, later, r2);
}

/// The rooms a worker starts with keep the invariant.
pub proof fn lemma_worker_rooms_wf()
    ensures
        crate::room::manager_wf(create_result(crate::room::empty_manager(), "Lobby"@, 0)),
{
    crate::room::lemma_new_manager_wf();
    crate::room::lemma_create_room(crate::room::empty_manager(), "Lobby"@, 0);
}

} // verus!
