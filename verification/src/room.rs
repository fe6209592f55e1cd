//! Rooms of sessions, and the manager that keeps every session in at most one room.
use crate::session::RoomId;
use crate::session::SessionId;
use std::collections::HashMap;
use std::collections::HashSet;
use crate::text::ascii_bytes;
use crate::text::decimal;
use crate::text::push_ascii;
use crate::text::push_decimal_bytes;
use vstd::prelude::*;

verus! {

broadcast use vstd::seq::Seq::lemma_push_to_set_commute;

/// A room: a named group of sessions, bounded by `max_members` unless that is 0.
#[derive(Debug)]
pub struct Room {
    id: RoomId,
    name: String,
    members: HashSet<SessionId>,
    max_members: usize,
}

/// What a room is, as a mathematical value.
pub struct RoomView {
    pub id: RoomId,
    pub name: Seq<char>,
    pub members: Set<SessionId>,
    pub max_members: usize,
}

impl View for Room {
    type V = RoomView;

    closed spec fn view(&self) -> RoomView {
        RoomView { id: self.id, name: self.name@, members: self.members@, max_members: self.max_members }
    }
}

/// Whether a room has space for one more member: always when `max_members`
/// is 0, else while it has fewer members than that.
pub open spec fn has_space(r: RoomView) -> bool {
    !(r.max_members > 0 && r.members.len() >= r.max_members)
}

/// The view of a hash set of session ids is a finite set.
proof fn lemma_session_set_finite(s: &HashSet<SessionId>)
    ensures
        s@.finite(),
{
    let keys = vstd::std_specs::iter::IteratorSpec::remaining(&vstd::std_specs::hash::spec_hash_keys_iter(s));
    assert(keys.unref().to_set() == s@);
    vstd::seq_lib::seq_to_set_is_finite(keys.unref());
}

/// Walking a hash set of session ids meets each member once; an empty walk
/// means an empty set.
proof fn lemma_session_keys(s: &HashSet<SessionId>)
    ensures
        ({
            let keys = vstd::std_specs::iter::IteratorSpec::remaining(
                &vstd::std_specs::hash::spec_hash_keys_iter(s),
            ).unref();
            &&& keys.to_set() == s@
            &&& keys.no_duplicates()
            &&& keys.len() == 0 ==> s@ == Set::<SessionId>::empty()
        }),
{
    let keys = vstd::std_specs::iter::IteratorSpec::remaining(
        &vstd::std_specs::hash::spec_hash_keys_iter(s),
    ).unref();
    assert(keys.to_set() == s@);
    if keys.len() == 0 {
        assert(keys =~= Seq::<SessionId>::empty());
        assert(s@ =~= Set::<SessionId>::empty());
    }
}

impl Room {
    /// A room with no members.
    pub fn new(id: RoomId, name: String, max_members: usize) -> (r: Self)
        ensures
            r@ == (RoomView { id, name: name@, members: Set::empty(), max_members }),
            r@.members.finite(),
    {
        Self { id, name, members: HashSet::new(), max_members }
    }

    /// The room's id.
    pub fn id(&self) -> (id: RoomId)
        ensures
            id == self@.id,
    {
        self.id
    }

    /// The room's name.
    pub fn name(&self) -> (name: &str)
        ensures
            name@ == self@.name,
    {
        self.name.as_str()
    }

    /// The number of members.
    pub fn member_count(&self) -> (n: usize)
        ensures
            n == self@.members.len(),
            self@.members.finite(),
    {
        proof { lemma_session_set_finite(&self.members) }
        self.members.len()
    }

    /// The member bound (0 for none).
    pub fn max_members(&self) -> (n: usize)
        ensures
            n == self@.max_members,
    {
        self.max_members
    }

    /// Whether a session could join: whether the room has space.
    pub fn can_join(&self, _session_id: SessionId) -> (r: bool)
        ensures
            r == has_space(self@),
    {
        if self.max_members > 0 && self.members.len() >= self.max_members {
            return false;
        }
        true
    }

    /// Adds a member if the room has space; `true` when it was not a member
    /// before and is one now.
    pub fn add_member(&mut self, session_id: SessionId) -> (added: bool)
        ensures
            final(self)@.id == old(self)@.id,
            final(self)@.name == old(self)@.name,
            final(self)@.max_members == old(self)@.max_members,
            has_space(old(self)@) ==> final(self)@.members == old(self)@.members.insert(session_id)
                && added == !old(self)@.members.contains(session_id),
            !has_space(old(self)@) ==> final(self)@ == old(self)@ && !added,
    {
        if !self.can_join(session_id) {
            return false;
        }
        self.members.insert(session_id)
    }

    /// Removes a member; `true` when it was one.
    pub fn remove_member(&mut self, session_id: SessionId) -> (removed: bool)
        ensures
            final(self)@ == (RoomView { members: old(self)@.members.remove(session_id), ..old(self)@ }),
            removed == old(self)@.members.contains(session_id),
    {
        self.members.remove(&session_id)
    }

    /// Whether the session is a member.
    pub fn has_member(&self, session_id: SessionId) -> (r: bool)
        ensures
            r == self@.members.contains(session_id),
    {
        self.members.contains(&session_id)
    }

    /// The set of members.
    pub fn members(&self) -> (m: &HashSet<SessionId>)
        ensures
            m@ == self@.members,
    {
        &self.members
    }

    /// Whether the room has no members.
    pub fn is_empty(&self) -> (r: bool)
        ensures
            r == (self@.members =~= Set::<SessionId>::empty()),
    {
        self.members.is_empty()
    }

    /// Every member but `exclude`, each once, in no particular order.
    pub fn members_except(&self, exclude: SessionId) -> (v: Vec<SessionId>)
        ensures
            v@.to_set() == self@.members.remove(exclude),
            v@.no_duplicates(),
    {
        collect_members(&self.members, Some(exclude))
    }
}

/// The members of a set, less `exclude` when one is given.
pub open spec fn without(members: Set<SessionId>, exclude: Option<SessionId>) -> Set<SessionId> {
    match exclude {
        Some(e) => members.remove(e),
        None => members,
    }
}

/// Lists the members of `members`, less `exclude` when one is given, each
/// once, in the order the set is walked.
fn collect_members(members: &HashSet<SessionId>, exclude: Option<SessionId>) -> (v: Vec<SessionId>)
    ensures
        v@.to_set() == without(members@, exclude),
        v@.no_duplicates(),
{
    let mut v: Vec<SessionId> = Vec::new();
    proof {
        lemma_session_keys(members);
    }
    for id in it: members.iter()
        invariant
            v@.no_duplicates(),
            v@.to_set() == without(it.seq().take(it.index()).unref().to_set(), exclude),
            it.seq().unref().no_duplicates(),
            it.seq().unref().to_set() == members@,
            it.index() == it.seq().len() ==> v@.to_set() == without(members@, exclude),
    {
        assert(*id == *it.seq()[it.index()]);
        assert(it.seq().take(it.index() + 1).unref() =~= it.seq().take(it.index()).unref().push(*id));
        assert(it.index() + 1 == it.seq().len() ==> it.seq().take(it.index() + 1) =~= it.seq());
        assert(!it.seq().take(it.index()).unref().contains(*id));
        let keep = match exclude {
            Some(e) => *id != e,
            None => true,
        };
        if keep {
            assert(!v@.contains(*id)) by {
                if v@.contains(*id) {
                    assert(v@.to_set().contains(*id));
                }
            }
            v.push(*id);
        }
        assert(v@.to_set() =~= without(it.seq().take(it.index()).unref().push(*id).to_set(), exclude));
    }
    v
}


/// Why a session could not join a room.
#[derive(Debug, Clone, Copy, PartialEq, Eq, Structural)]
pub enum RoomError {
    /// No room has the given id.
    NotFound(RoomId),
    /// The room with the given id has no space.
    Full(RoomId),
}

/// The rooms, and the room that each session is in.
pub struct RoomManager {
    rooms: HashMap<RoomId, Room>,
    session_to_room: HashMap<SessionId, RoomId>,
    next_room_id: RoomId,
}

/// What a room manager is, as a mathematical value.
pub struct ManagerView {
    pub rooms: Map<RoomId, RoomView>,
    pub sessions: Map<SessionId, RoomId>,
    pub next_room_id: RoomId,
}

impl View for RoomManager {
    type V = ManagerView;

    closed spec fn view(&self) -> ManagerView {
        ManagerView {
            rooms: room_views(self.rooms@),
            sessions: self.session_to_room@,
            next_room_id: self.next_room_id,
        }
    }
}

/// `HashMap::get_mut` on the rooms: a handle on the room under `k`, through
/// which the map's entry is what the handle ends up holding; `None` and no
/// change when there is no such room.
#[verifier::external_body]
fn rooms_get_mut<'a>(m: &'a mut HashMap<RoomId, Room>, k: &RoomId) -> (r: Option<&'a mut Room>)
    ensures
        match r {
            Some(v) => {
                &&& old(m)@.contains_key(*k)
                &&& *v == old(m)@[*k]
                &&& final(m)@ == old(m)@.insert(*k, *final(v))
            },
            None => !old(m)@.contains_key(*k) && final(m)@ == old(m)@,
        },
{
    m.get_mut(k)
}

/// The view of every room in a map.
pub open spec fn room_views(m: Map<RoomId, Room>) -> Map<RoomId, RoomView> {
    m.map_values(|r: Room| r@)
}

/// Viewing each room of a map commutes with putting a room in under a key.
pub broadcast proof fn lemma_room_views_insert(m: Map<RoomId, Room>, k: RoomId, r: Room)
    ensures
        #[trigger] room_views(m.insert(k, r)) == room_views(m).insert(k, r@),
{
    assert(room_views(m.insert(k, r)) =~= room_views(m).insert(k, r@));
}

/// Viewing each room of a map commutes with taking the room under a key out.
pub broadcast proof fn lemma_room_views_remove(m: Map<RoomId, Room>, k: RoomId)
    ensures
        #[trigger] room_views(m.remove(k)) == room_views(m).remove(k),
{
    assert(room_views(m.remove(k)) =~= room_views(m).remove(k));
}

/// A manager with no rooms and no sessions, whose first room gets id 1.
pub open spec fn empty_manager() -> ManagerView {
    ManagerView {
        rooms: Map::<RoomId, RoomView>::empty(),
        sessions: Map::<SessionId, RoomId>::empty(),
        next_room_id: 1,
    }
}

impl RoomManager {
    /// A manager with no rooms; the first room created gets id 1.
    pub fn new() -> (m: Self)
        ensures
            m@ == empty_manager(),
            manager_wf(m@),
    {
        let m = Self { rooms: HashMap::new(), session_to_room: HashMap::new(), next_room_id: 1 };
        assert(m@.rooms =~= Map::<RoomId, RoomView>::empty());
        m
    }

    /// The room with the given id, if any.
    pub fn get_room(&self, room_id: RoomId) -> (r: Option<&Room>)
        ensures
            match r {
                Some(room) => self@.rooms.contains_key(room_id) && room@ == self@.rooms[room_id],
                None => !self@.rooms.contains_key(room_id),
            },
    {
        self.rooms.get(&room_id)
    }

    /// The room with the given id, if any, to change in place.
    pub fn get_room_mut(&mut self, room_id: RoomId) -> (r: Option<&mut Room>)
        ensures
            match r {
                Some(room) => {
                    &&& old(self)@.rooms.contains_key(room_id)
                    &&& room@ == old(self)@.rooms[room_id]
                    &&& final(self)@ == (ManagerView {
                        rooms: old(self)@.rooms.insert(room_id, final(room)@),
                        ..old(self)@
                    })
                },
                None => !old(self)@.rooms.contains_key(room_id) && final(self)@ == old(self)@,
            },
    {
        broadcast use lemma_room_views_insert;

        rooms_get_mut(&mut self.rooms, &room_id)
    }

    /// Creates an empty room under the next id and returns that id.
    pub fn create_room(&mut self, name: String, max_members: usize) -> (room_id: RoomId)
        requires
            old(self)@.next_room_id < RoomId::MAX,
        ensures
            room_id == old(self)@.next_room_id,
            final(self)@ == create_result(old(self)@, name@, max_members),
            manager_wf(old(self)@) ==> manager_wf(final(self)@),
    {
        broadcast use lemma_room_views_insert;

        proof {
            if manager_wf(old(self)@) {
                lemma_create_room(old(self)@, name@, max_members);
            }
        }

        let room_id = self.next_room_id;
        self.next_room_id = self.next_room_id + 1;
        let room = Room::new(room_id, name, max_members);
        self.rooms.insert(room_id, room);
        room_id
    }

    /// Creates an empty room under `room_id` when no room has that id, and
    /// says whether it did. Later rooms from `create_room` get ids above it.
    pub fn create_room_with_id(&mut self, room_id: RoomId, name: String, max_members: usize) -> (created: bool)
        ensures
            created == !old(self)@.rooms.contains_key(room_id),
            final(self)@ == create_at_result(old(self)@, room_id, name@, max_members),
            manager_wf(old(self)@) ==> manager_wf(final(self)@),
    {
        broadcast use lemma_room_views_insert;

        proof {
            if manager_wf(old(self)@) {
                lemma_create_room_with_id(old(self)@, room_id, name@, max_members);
            }
        }

        if self.rooms.contains_key(&room_id) {
            return false;
        }
        if room_id >= self.next_room_id && room_id < RoomId::MAX {
            self.next_room_id = room_id + 1;
        }
        let room = Room::new(room_id, name, max_members);
        self.rooms.insert(room_id, room);
        true
    }

    /// Takes `session_id` out of its room, if it is in one, and removes the
    /// room when it is left empty. Returns the room it left.
    pub fn leave_room(&mut self, session_id: SessionId) -> (left: Option<RoomId>)
        ensures
            (final(self)@, left) == leave_result(old(self)@, session_id),
            manager_wf(old(self)@) ==> manager_wf(final(self)@),
    {
        broadcast use {lemma_room_views_insert, lemma_room_views_remove};

        proof {
            if manager_wf(old(self)@) {
                lemma_leave_room(old(self)@, session_id);
            }
        }

        match self.session_to_room.remove(&session_id) {
            None => {
                assert(self@.sessions =~= old(self)@.sessions);
                None
            },
            Some(room_id) => {
                match rooms_get_mut(&mut self.rooms, &room_id) {
                    None => None,
                    Some(room) => {
                        room.remove_member(session_id);
                        let empty = room.is_empty();
                        if empty {
                            self.rooms.remove(&room_id);
                            assert(self@.rooms =~= old(self)@.rooms.remove(room_id));
                        }
                        Some(room_id)
                    },
                }
            },
        }
    }

    /// Puts `session_id` into room `room_id`, first taking it out of any
    /// other room it is in. Staying in the same room succeeds with no change.
    pub fn join_room(&mut self, session_id: SessionId, room_id: RoomId) -> (r: Result<(), RoomError>)
        ensures
            (final(self)@, r) == join_result(old(self)@, session_id, room_id),
            manager_wf(old(self)@) ==> manager_wf(final(self)@),
    {
        broadcast use {lemma_room_views_insert, lemma_room_views_remove};

        proof {
            if manager_wf(old(self)@) {
                lemma_join_room(old(self)@, session_id, room_id);
            }
        }

        match self.session_to_room.get(&session_id) {
            Some(old_room_id) => {
                if *old_room_id != room_id {
                    self.leave_room(session_id);
                } else {
                    return Ok(());
                }
            },
            None => {},
        }
        let has_space = match self.rooms.get(&room_id) {
            None => {
                return Err(RoomError::NotFound(room_id));
            },
            Some(room) => room.can_join(session_id),
        };
        if !has_space {
            return Err(RoomError::Full(room_id));
        }
        match rooms_get_mut(&mut self.rooms, &room_id) {
            Some(room) => {
                room.add_member(session_id);
            },
            None => {},
        }
        self.session_to_room.insert(session_id, room_id);
        Ok(())
    }

    /// The room that `session_id` is in, if any.
    pub fn get_session_room(&self, session_id: SessionId) -> (r: Option<RoomId>)
        ensures
            r == self@.sessions.get(session_id),
    {
        match self.session_to_room.get(&session_id) {
            Some(room_id) => Some(*room_id),
            None => None,
        }
    }

    /// The members of room `room_id`, each once, in no particular order;
    /// `None` when there is no such room.
    pub fn get_room_members(&self, room_id: RoomId) -> (r: Option<Vec<SessionId>>)
        ensures
            match r {
                Some(v) => {
                    &&& self@.rooms.contains_key(room_id)
                    &&& v@.to_set() == self@.rooms[room_id].members
                    &&& v@.no_duplicates()
                },
                None => !self@.rooms.contains_key(room_id),
            },
    {
        match self.rooms.get(&room_id) {
            Some(room) => Some(collect_members(room.members(), None)),
            None => None,
        }
    }

    /// The members of room `room_id` but `exclude`, each once, in no
    /// particular order; `None` when there is no such room.
    pub fn get_room_members_except(&self, room_id: RoomId, exclude: SessionId) -> (r: Option<
        Vec<SessionId>,
    >)
        ensures
            match r {
                Some(v) => {
                    &&& self@.rooms.contains_key(room_id)
                    &&& v@.to_set() == self@.rooms[room_id].members.remove(exclude)
                    &&& v@.no_duplicates()
                },
                None => !self@.rooms.contains_key(room_id),
            },
    {
        match self.rooms.get(&room_id) {
            Some(room) => Some(room.members_except(exclude)),
            None => None,
        }
    }

    /// The number of rooms.
    pub fn room_count(&self) -> (n: usize)
        ensures
            n == self@.rooms.len(),
            self@.rooms.dom().finite(),
    {
        proof {
            assert(self@.rooms.dom() =~= self.rooms@.dom());
        }
        self.rooms.len()
    }

    /// The id of every room, each once, in no particular order.
    pub fn all_room_ids(&self) -> (v: Vec<RoomId>)
        ensures
            v@.to_set() == self@.rooms.dom(),
            v@.no_duplicates(),
    {
        let mut v: Vec<RoomId> = Vec::new();
        proof {
            lemma_room_keys(&self.rooms);
            assert(self@.rooms.dom() =~= self.rooms@.dom());
        }
        for id in it: self.rooms.keys()
            invariant
                v@ == it.seq().take(it.index()).unref(),
                it.seq().unref().no_duplicates(),
                it.seq().unref().to_set() == self.rooms@.dom(),
                it.index() == it.seq().len() ==> v@.to_set() == self.rooms@.dom(),
                self@.rooms.dom() == self.rooms@.dom(),
        {
            assert(*id == *it.seq()[it.index()]);
            assert(it.seq().take(it.index() + 1).unref() =~= it.seq().take(it.index()).unref().push(*id));
            assert(it.index() + 1 == it.seq().len() ==> it.seq().take(it.index() + 1) =~= it.seq());
            v.push(*id);
        }
        v
    }

    /// The next id that `create_room` hands out.
    pub fn next_room_id(&self) -> (n: RoomId)
        ensures
            n == self@.next_room_id,
    {
        self.next_room_id
    }
}

impl Default for RoomManager {
    fn default() -> (m: Self)
        ensures
            m@ == empty_manager(),
    {
        Self::new()
    }
}

/// Walking the keys of a room map meets each key once.
proof fn lemma_room_keys(m: &HashMap<RoomId, Room>)
    ensures
        ({
            let keys = vstd::std_specs::iter::IteratorSpec::remaining(
                &vstd::std_specs::hash::spec_keys_iter(m),
            ).unref();
            &&& keys.to_set() == m@.dom()
            &&& keys.no_duplicates()
        }),
{
}

/// The state after creating a room named `name` with bound `max_members`.
pub open spec fn create_result(s: ManagerView, name: Seq<char>, max_members: usize) -> ManagerView {
    ManagerView {
        rooms: s.rooms.insert(
            s.next_room_id,
            RoomView { id: s.next_room_id, name, members: Set::empty(), max_members },
        ),
        sessions: s.sessions,
        next_room_id: (s.next_room_id + 1) as RoomId,
    }
}

/// The state after creating a room under `room_id`: when no room has that
/// id, an empty room named `name` with bound `max_members` is put there, and
/// the next id moves past `room_id` when it is not above it already (it
/// stays when `room_id` is the largest id); otherwise nothing changes.
pub open spec fn create_at_result(s: ManagerView, room_id: RoomId, name: Seq<char>, max_members: usize) -> ManagerView {
    if s.rooms.contains_key(room_id) {
        s
    } else {
        ManagerView {
            rooms: s.rooms.insert(
                room_id,
                RoomView { id: room_id, name, members: Set::empty(), max_members },
            ),
            sessions: s.sessions,
            next_room_id: if room_id >= s.next_room_id && room_id < RoomId::MAX {
                (room_id + 1) as RoomId
            } else {
                s.next_room_id
            },
        }
    }
}

/// The state after `session_id` leaves its room, and the room it left: the
/// session loses its room; the room loses the member and is removed when that
/// leaves it empty. Nothing is left when the session is in no room, and no
/// room is reported when its room is gone.
pub open spec fn leave_result(s: ManagerView, session_id: SessionId) -> (ManagerView, Option<RoomId>) {
    if s.sessions.contains_key(session_id) {
        let room_id = s.sessions[session_id];
        let sessions = s.sessions.remove(session_id);
        if s.rooms.contains_key(room_id) {
            let room = s.rooms[room_id];
            let left = RoomView { members: room.members.remove(session_id), ..room };
            if left.members == Set::<SessionId>::empty() {
                (ManagerView { rooms: s.rooms.remove(room_id), sessions, next_room_id: s.next_room_id }, Some(room_id))
            } else {
                (ManagerView { rooms: s.rooms.insert(room_id, left), sessions, next_room_id: s.next_room_id }, Some(room_id))
            }
        } else {
            (ManagerView { rooms: s.rooms, sessions, next_room_id: s.next_room_id }, None)
        }
    } else {
        (s, None)
    }
}

/// The state after `session_id` asks to join `room_id`, and the answer. A
/// session already there stays, with success. Otherwise it first leaves its
/// room; then the join fails when the room does not exist or has no space,
/// and else the session becomes a member and is recorded as in the room.
pub open spec fn join_result(s: ManagerView, session_id: SessionId, room_id: RoomId) -> (ManagerView, Result<(), RoomError>) {
    if s.sessions.contains_key(session_id) && s.sessions[session_id] == room_id {
        (s, Ok(()))
    } else {
        let t = leave_result(s, session_id).0;
        if !t.rooms.contains_key(room_id) {
            (t, Err(RoomError::NotFound(room_id)))
        } else if !has_space(t.rooms[room_id]) {
            (t, Err(RoomError::Full(room_id)))
        } else {
            let room = t.rooms[room_id];
            (
                ManagerView {
                    rooms: t.rooms.insert(room_id, RoomView { members: room.members.insert(session_id), ..room }),
                    sessions: t.sessions.insert(session_id, room_id),
                    next_room_id: t.next_room_id,
                },
                Ok(()),
            )
        }
    }
}


/// The text of a join failure: `Room <id> not found` or `Room <id> is full`.
pub open spec fn room_error_text(e: RoomError) -> Seq<u8> {
    match e {
        RoomError::NotFound(id) => ascii_bytes("Room "@) + ascii_bytes(decimal(id as nat))
            + ascii_bytes(" not found"@),
        RoomError::Full(id) => ascii_bytes("Room "@) + ascii_bytes(decimal(id as nat)) + ascii_bytes(
            " is full"@,
        ),
    }
}

impl RoomError {
    /// The text of this failure, as ASCII bytes.
    pub fn text(&self) -> (t: Vec<u8>)
        ensures
            t@ == room_error_text(*self),
    {
        proof {
            reveal_strlit("Room ");
            reveal_strlit(" not found");
            reveal_strlit(" is full");
        }
        let mut t: Vec<u8> = Vec::new();
        match self {
            RoomError::NotFound(id) => {
                push_ascii(&mut t, "Room ");
                push_decimal_bytes(&mut t, *id);
                push_ascii(&mut t, " not found");
            },
            RoomError::Full(id) => {
                push_ascii(&mut t, "Room ");
                push_decimal_bytes(&mut t, *id);
                push_ascii(&mut t, " is full");
            },
        }
        t
    }
}

/// A session is recorded in a room exactly when it is a member of that room:
/// the room that `get_session_room` names for a session holds it, and a
/// session that a room holds is recorded in that room.
pub open spec fn sessions_consistent(s: ManagerView) -> bool {
    &&& forall|sid: SessionId| #[trigger] s.sessions.contains_key(sid) ==> {
        &&& s.rooms.contains_key(s.sessions[sid])
        &&& s.rooms[s.sessions[sid]].members.contains(sid)
    }
    &&& forall|rid: RoomId, sid: SessionId|
        s.rooms.contains_key(rid) && #[trigger] s.rooms[rid].members.contains(sid) ==> {
            &&& s.sessions.contains_key(sid)
            &&& s.sessions[sid] == rid
        }
}

/// The invariant that the manager's operations keep: sessions and rooms are
/// consistent, so that a session is in at most one room; there are finitely
/// many rooms, each under its own id, below the next id to hand out (or at
/// the largest id), with finitely many members and no more than its bound.
pub open spec fn manager_wf(s: ManagerView) -> bool {
    &&& s.rooms.dom().finite()
    &&& sessions_consistent(s)
    &&& forall|rid: RoomId| #[trigger] s.rooms.contains_key(rid) ==> {
        &&& s.rooms[rid].id == rid
        &&& rid < s.next_room_id || rid == RoomId::MAX
        &&& s.rooms[rid].members.finite()
        &&& s.rooms[rid].max_members > 0 ==> s.rooms[rid].members.len() <= s.rooms[rid].max_members
    }
}

/// Every manager has finitely many rooms, each with finitely many members.
pub proof fn lemma_rooms_finite(m: &RoomManager)
    ensures
        m@.rooms.dom().finite(),
        forall|rid: RoomId| #[trigger] m@.rooms.contains_key(rid) ==> m@.rooms[rid].members.finite(),
{
    assert(m@.rooms.dom() =~= m.rooms@.dom());
    assert forall|rid: RoomId| #[trigger] m@.rooms.contains_key(rid) implies m@.rooms[rid].members.finite() by {
        lemma_session_set_finite(&m.rooms@[rid].members);
    }
}

/// Leaving, on a manager whose sessions and rooms are consistent: it stays
/// consistent; the room reported is the one the session was recorded in;
/// the session is then in no room; it is no longer a member of that room,
/// which is removed (one room fewer) exactly when the session was its only
/// member; no other room and no other session changes. A session in no
/// room leaves the manager as it was.
pub proof fn lemma_leave_law(m: &RoomManager, session_id: SessionId)
    requires
        sessions_consistent(m@),
    ensures
        ({
            let (t, left) = leave_result(m@, session_id);
            &&& sessions_consistent(t)
            &&& left == m@.sessions.get(session_id)
            &&& t.sessions == m@.sessions.remove(session_id)
            &&& t.next_room_id == m@.next_room_id
            &&& forall|rid: RoomId| Some(rid) != left ==> #[trigger] t.rooms.get(rid) == m@.rooms.get(rid)
            &&& left is None ==> t == m@
            &&& left matches Some(r) ==> {
                &&& !(t.rooms.contains_key(r) && t.rooms[r].members.contains(session_id))
                &&& !t.rooms.contains_key(r) <==> m@.rooms[r].members == set![session_id]
                &&& !t.rooms.contains_key(r) ==> t.rooms.len() + 1 == m@.rooms.len()
                &&& t.rooms.contains_key(r) ==> t.rooms[r] == (RoomView {
                    members: m@.rooms[r].members.remove(session_id),
                    ..m@.rooms[r]
                }) && t.rooms.len() == m@.rooms.len()
            }
        }),
{
    lemma_rooms_finite(m);
    let s = m@;
    let (t, left) = leave_result(s, session_id);
    if s.sessions.contains_key(session_id) {
        let r = s.sessions[session_id];
        let members = s.rooms[r].members;
        assert(members.contains(session_id));
        if members.remove(session_id) == Set::<SessionId>::empty() {
            assert(members =~= set![session_id]) by {
                assert forall|x: SessionId| members.contains(x) implies x == session_id by {
                    if x != session_id {
                        assert(members.remove(session_id).contains(x));
                    }
                }
            }
        } else {
            assert(members != set![session_id]) by {
                if members == set![session_id] {
                    assert(members.remove(session_id) =~= Set::<SessionId>::empty());
                }
            }
        }
        assert forall|rid: RoomId, sid: SessionId|
            t.rooms.contains_key(rid) && #[trigger] t.rooms[rid].members.contains(sid) implies t.sessions.contains_key(sid)
                && t.sessions[sid] == rid by {
            if rid != r {
                assert(s.rooms[rid].members.contains(sid));
            } else {
                assert(members.contains(sid));
            }
        }
        assert(t.sessions =~= s.sessions.remove(session_id));
    } else {
        assert(s.sessions.remove(session_id) =~= s.sessions);
    }
}

/// Leaving, on any sessions and rooms that are consistent: they stay
/// consistent, the session is recorded in no room, and no room holds it.
pub proof fn lemma_leave_consistent(s: ManagerView, session_id: SessionId)
    requires
        sessions_consistent(s),
    ensures
        sessions_consistent(leave_result(s, session_id).0),
        leave_result(s, session_id).0.sessions == s.sessions.remove(session_id),
        !leave_result(s, session_id).0.sessions.contains_key(session_id),
        forall|rid: RoomId| #[trigger] leave_result(s, session_id).0.rooms.contains_key(rid)
            ==> !leave_result(s, session_id).0.rooms[rid].members.contains(session_id),
{
    let t = leave_result(s, session_id).0;
    if s.sessions.contains_key(session_id) {
        let r = s.sessions[session_id];
        let members = s.rooms[r].members;
        assert forall|rid: RoomId, sid: SessionId|
            t.rooms.contains_key(rid) && #[trigger] t.rooms[rid].members.contains(sid) implies t.sessions.contains_key(sid)
                && t.sessions[sid] == rid by {
            if rid != r {
                assert(s.rooms[rid].members.contains(sid));
            } else {
                assert(members.contains(sid));
            }
        }
        assert(t.sessions =~= s.sessions.remove(session_id));
    } else {
        assert(s.sessions.remove(session_id) =~= s.sessions);
    }
    assert forall|rid: RoomId| #[trigger] t.rooms.contains_key(rid) implies !t.rooms[rid].members.contains(session_id) by {
        if t.rooms[rid].members.contains(session_id) {
            assert(t.sessions.contains_key(session_id));
        }
    }
}

/// Joining another room, on a manager whose sessions and rooms are
/// consistent, when it succeeds: the manager stays consistent; the session
/// is recorded in the room and is a member of it and of no other room; the
/// room gains exactly that member (one more than before); rooms other than
/// it and the session's former room do not change.
pub proof fn lemma_join_law(m: &RoomManager, session_id: SessionId, room_id: RoomId)
    requires
        sessions_consistent(m@),
        m@.sessions.get(session_id) != Some(room_id),
        join_result(m@, session_id, room_id).1 is Ok,
    ensures
        ({
            let t = join_result(m@, session_id, room_id).0;
            &&& sessions_consistent(t)
            &&& t.sessions.get(session_id) == Some(room_id)
            &&& t.rooms.contains_key(room_id)
            &&& t.rooms[room_id].members.contains(session_id)
            &&& forall|rid: RoomId| rid != room_id && #[trigger] t.rooms.contains_key(rid)
                ==> !t.rooms[rid].members.contains(session_id)
            &&& m@.rooms.contains_key(room_id)
            &&& t.rooms[room_id] == (RoomView {
                members: m@.rooms[room_id].members.insert(session_id),
                ..m@.rooms[room_id]
            })
            &&& t.rooms[room_id].members.len() == m@.rooms[room_id].members.len() + 1
            &&& forall|rid: RoomId| rid != room_id && Some(rid) != m@.sessions.get(session_id)
                ==> #[trigger] t.rooms.get(rid) == m@.rooms.get(rid)
        }),
{
    lemma_rooms_finite(m);
    lemma_leave_law(m, session_id);
    let s = m@;
    let u = leave_result(s, session_id).0;
    let t = join_result(s, session_id, room_id).0;
    assert(u.rooms.get(room_id) == s.rooms.get(room_id));
    assert(s.rooms.contains_key(room_id));
    assert(!s.rooms[room_id].members.contains(session_id));
    assert forall|rid: RoomId, sid: SessionId|
        t.rooms.contains_key(rid) && #[trigger] t.rooms[rid].members.contains(sid) implies t.sessions.contains_key(sid)
            && t.sessions[sid] == rid by {
        if sid != session_id {
            assert(u.rooms[rid].members.contains(sid));
        } else if rid != room_id {
            assert(u.rooms[rid].members.contains(sid));
        }
    }
    assert forall|rid: RoomId| rid != room_id && #[trigger] t.rooms.contains_key(rid)
        implies !t.rooms[rid].members.contains(session_id) by {
        assert(t.rooms[rid] == u.rooms[rid]);
    }
}

/// A new manager keeps the invariant.
pub proof fn lemma_new_manager_wf()
    ensures
        manager_wf(empty_manager()),
{
}

/// Creating a room keeps the invariant; the new room gets an id that no room
/// had, and it has no members.
pub proof fn lemma_create_room(s: ManagerView, name: Seq<char>, max_members: usize)
    requires
        manager_wf(s),
        s.next_room_id < RoomId::MAX,
    ensures
        manager_wf(create_result(s, name, max_members)),
        !s.rooms.contains_key(s.next_room_id),
        create_result(s, name, max_members).rooms[s.next_room_id].members == Set::<SessionId>::empty(),
        create_result(s, name, max_members).sessions == s.sessions,
        create_result(s, name, max_members).rooms.len() == s.rooms.len() + 1,
        create_result(s, name, max_members).next_room_id == s.next_room_id + 1,
{
    let t = create_result(s, name, max_members);
    assert forall|rid: RoomId, sid: SessionId|
        t.rooms.contains_key(rid) && #[trigger] t.rooms[rid].members.contains(sid) implies t.sessions.contains_key(sid)
            && t.sessions[sid] == rid by {
        if rid == s.next_room_id {
            assert(!Set::<SessionId>::empty().contains(sid));
        }
    }
    assert(Set::<SessionId>::empty().len() == 0);
}

/// Creating a room under a chosen id keeps the invariant; the room is there
/// afterwards, and the next id does not go down.
pub proof fn lemma_create_room_with_id(s: ManagerView, room_id: RoomId, name: Seq<char>, max_members: usize)
    requires
        manager_wf(s),
    ensures
        manager_wf(create_at_result(s, room_id, name, max_members)),
        create_at_result(s, room_id, name, max_members).rooms.contains_key(room_id),
        create_at_result(s, room_id, name, max_members).sessions == s.sessions,
        create_at_result(s, room_id, name, max_members).next_room_id >= s.next_room_id,
        !s.rooms.contains_key(room_id) ==> create_at_result(s, room_id, name, max_members).rooms[room_id].members
            == Set::<SessionId>::empty(),
{
    let t = create_at_result(s, room_id, name, max_members);
    if !s.rooms.contains_key(room_id) {
        assert forall|rid: RoomId, sid: SessionId|
            t.rooms.contains_key(rid) && #[trigger] t.rooms[rid].members.contains(sid) implies t.sessions.contains_key(sid)
                && t.sessions[sid] == rid by {
            if rid == room_id {
                assert(!Set::<SessionId>::empty().contains(sid));
            }
        }
        assert(Set::<SessionId>::empty().len() == 0);
    }
}

/// Leaving keeps the invariant. Afterwards the session is in no room; the
/// room reported is the one it was in; that room is gone or still has
/// members; no other room changes.
pub proof fn lemma_leave_room(s: ManagerView, session_id: SessionId)
    requires
        manager_wf(s),
    ensures
        manager_wf(leave_result(s, session_id).0),
        !leave_result(s, session_id).0.sessions.contains_key(session_id),
        leave_result(s, session_id).1 == s.sessions.get(session_id),
        forall|rid: RoomId| #[trigger] leave_result(s, session_id).0.rooms.contains_key(rid)
            ==> leave_result(s, session_id).0.rooms[rid].members.remove(session_id) == leave_result(s, session_id).0.rooms[rid].members,
        leave_result(s, session_id).1 matches Some(rid) ==> (!leave_result(s, session_id).0.rooms.contains_key(rid)
            || leave_result(s, session_id).0.rooms[rid].members != Set::<SessionId>::empty()),
        forall|rid: RoomId| s.sessions.get(session_id) != Some(rid) ==> #[trigger] leave_result(s, session_id).0.rooms.get(rid) == s.rooms.get(rid),
{
    let t = leave_result(s, session_id).0;
    if s.sessions.contains_key(session_id) {
        let rid = s.sessions[session_id];
        let room = s.rooms[rid];
        let members = room.members.remove(session_id);
        assert forall|r: RoomId| #[trigger] t.rooms.contains_key(r) implies t.rooms[r].members.remove(session_id)
            == t.rooms[r].members by {
            if r == rid {
                assert(t.rooms[r].members.remove(session_id) =~= t.rooms[r].members);
            } else {
                assert(!s.rooms[r].members.contains(session_id));
                assert(t.rooms[r].members.remove(session_id) =~= t.rooms[r].members);
            }
        }
        assert forall|r: RoomId| #[trigger] t.rooms.contains_key(r) implies {
            &&& t.rooms[r].id == r
            &&& r < t.next_room_id || r == RoomId::MAX
            &&& t.rooms[r].members.finite()
            &&& t.rooms[r].max_members > 0 ==> t.rooms[r].members.len() <= t.rooms[r].max_members
        } by {
            if r == rid {
                assert(room.members.contains(session_id));
                assert(members.len() < room.members.len());
            }
        }
    } else {
        assert forall|r: RoomId| #[trigger] t.rooms.contains_key(r) implies t.rooms[r].members.remove(session_id)
            == t.rooms[r].members by {
            assert(!s.rooms[r].members.contains(session_id));
            assert(t.rooms[r].members.remove(session_id) =~= t.rooms[r].members);
        }
    }
}

/// Two rooms that both hold a session are the same room.
pub proof fn lemma_one_room_per_session(s: ManagerView, session_id: SessionId, r1: RoomId, r2: RoomId)
    requires
        manager_wf(s),
        s.rooms.contains_key(r1),
        s.rooms.contains_key(r2),
        s.rooms[r1].members.contains(session_id),
        s.rooms[r2].members.contains(session_id),
    ensures
        r1 == r2,
{
}

/// Joining keeps the invariant. It succeeds exactly when the session is
/// already in that room, or when the room exists after the session has left
/// its own and has space; then the session is recorded in the room and is a
/// member of it.
pub proof fn lemma_join_room(s: ManagerView, session_id: SessionId, room_id: RoomId)
    requires
        manager_wf(s),
    ensures
        manager_wf(join_result(s, session_id, room_id).0),
        join_result(s, session_id, room_id).1 is Ok <==> (s.sessions.get(session_id) == Some(room_id)
            || (leave_result(s, session_id).0.rooms.contains_key(room_id) && has_space(
            leave_result(s, session_id).0.rooms[room_id],
        ))),
        join_result(s, session_id, room_id).1 is Ok ==> {
            let t = join_result(s, session_id, room_id).0;
            &&& t.sessions.get(session_id) == Some(room_id)
            &&& t.rooms.contains_key(room_id)
            &&& t.rooms[room_id].members.contains(session_id)
        },
        join_result(s, session_id, room_id).1 is Err ==> !join_result(s, session_id, room_id).0.sessions.contains_key(session_id),
{
    lemma_leave_room(s, session_id);
    let t = leave_result(s, session_id).0;
    if s.sessions.contains_key(session_id) && s.sessions[session_id] == room_id {
    } else if !t.rooms.contains_key(room_id) {
    } else if !has_space(t.rooms[room_id]) {
    } else {
        let u = join_result(s, session_id, room_id).0;
        let room = t.rooms[room_id];
        assert(!room.members.contains(session_id));
        assert forall|r: RoomId| #[trigger] u.rooms.contains_key(r) implies {
            &&& u.rooms[r].id == r
            &&& r < u.next_room_id || r == RoomId::MAX
            &&& u.rooms[r].members.finite()
            &&& u.rooms[r].max_members > 0 ==> u.rooms[r].members.len() <= u.rooms[r].max_members
        } by {
            if r == room_id {
                assert(u.rooms[r].members.len() == room.members.len() + 1);
            }
        }
        assert forall|r: RoomId, sid: SessionId|
            u.rooms.contains_key(r) && #[trigger] u.rooms[r].members.contains(sid) implies u.sessions.contains_key(sid)
                && u.sessions[sid] == r by {
            if sid == session_id {
                if r != room_id {
                    assert(t.rooms[r].members.contains(sid));
                }
            }
        }
    }
}

/// Joining the room a session is already in changes nothing and succeeds.
pub proof fn lemma_join_same_room(s: ManagerView, session_id: SessionId, room_id: RoomId)
    requires
        manager_wf(s),
        join_result(s, session_id, room_id).1 is Ok,
    ensures
        join_result(join_result(s, session_id, room_id).0, session_id, room_id) == (
            join_result(s, session_id, room_id).0,
            Ok::<(), RoomError>(()),
        ),
{
    lemma_join_room(s, session_id, room_id);
}


/// One call on a room manager that changes it.
pub enum RoomOp {
    /// `create_room(name, max_members)`.
    Create { name: Seq<char>, max_members: usize },
    /// `create_room_with_id(room_id, name, max_members)`.
    CreateWithId { room_id: RoomId, name: Seq<char>, max_members: usize },
    /// `join_room(session_id, room_id)`.
    Join { session_id: SessionId, room_id: RoomId },
    /// `leave_room(session_id)`.
    Leave { session_id: SessionId },
}

/// The state after one call.
pub open spec fn op_result(s: ManagerView, op: RoomOp) -> ManagerView {
    match op {
        RoomOp::Create { name, max_members } => create_result(s, name, max_members),
        RoomOp::CreateWithId { room_id, name, max_members } => create_at_result(s, room_id, name, max_members),
        RoomOp::Join { session_id, room_id } => join_result(s, session_id, room_id).0,
        RoomOp::Leave { session_id } => leave_result(s, session_id).0,
    }
}

/// The state after a sequence of calls, in order.
pub open spec fn run_ops(s: ManagerView, ops: Seq<RoomOp>) -> ManagerView
    decreases ops.len(),
{
    if ops.len() == 0 {
        s
    } else {
        op_result(run_ops(s, ops.drop_last()), ops.last())
    }
}

/// Whether every call of a sequence meets its `requires`: `create_room` only
/// while the next id is below the largest.
pub open spec fn ops_allowed(s: ManagerView, ops: Seq<RoomOp>) -> bool
    decreases ops.len(),
{
    if ops.len() == 0 {
        true
    } else {
        &&& ops_allowed(s, ops.drop_last())
        &&& ops.last() is Create ==> run_ops(s, ops.drop_last()).next_room_id < RoomId::MAX
    }
}

/// The ids that the `create_room` calls of a sequence return, in order.
pub open spec fn created_ids(s: ManagerView, ops: Seq<RoomOp>) -> Seq<RoomId>
    decreases ops.len(),
{
    if ops.len() == 0 {
        Seq::empty()
    } else if ops.last() is Create {
        created_ids(s, ops.drop_last()).push(run_ops(s, ops.drop_last()).next_room_id)
    } else {
        created_ids(s, ops.drop_last())
    }
}

/// Whether, in a sequence of calls from `s`, only `create_room` moves the
/// next id: each `create_room_with_id` names a room that exists or an id
/// below the next one (or the largest id).
pub open spec fn next_moved_only_by_create(s: ManagerView, ops: Seq<RoomOp>) -> bool
    decreases ops.len(),
{
    if ops.len() == 0 {
        true
    } else {
        &&& next_moved_only_by_create(s, ops.drop_last())
        &&& ops.last() is CreateWithId ==> op_result(run_ops(s, ops.drop_last()), ops.last()).next_room_id
            == run_ops(s, ops.drop_last()).next_room_id
    }
}

/// Every sequence of calls keeps the invariant, and never lowers the next id.
pub proof fn lemma_ops_keep_wf(s: ManagerView, ops: Seq<RoomOp>)
    requires
        manager_wf(s),
        ops_allowed(s, ops),
    ensures
        manager_wf(run_ops(s, ops)),
        run_ops(s, ops).next_room_id >= s.next_room_id,
    decreases ops.len(),
{
    if ops.len() > 0 {
        let prev = ops.drop_last();
        lemma_ops_keep_wf(s, prev);
        let p = run_ops(s, prev);
        match ops.last() {
            RoomOp::Create { name, max_members } => lemma_create_room(p, name, max_members),
            RoomOp::CreateWithId { room_id, name, max_members } => lemma_create_room_with_id(
                p,
                room_id,
                name,
                max_members,
            ),
            RoomOp::Join { session_id, room_id } => lemma_join_room(p, session_id, room_id),
            RoomOp::Leave { session_id } => lemma_leave_room(p, session_id),
        }
    }
}

/// Room ids from `create_room` count up and are never handed out twice,
/// even after their rooms are gone: over any sequence of calls they rise
/// strictly, and lie at or above the next id at the start and below the
/// next id at the end (which never goes down). That no room had the id when
/// it was handed out is `lemma_create_room`.
pub proof fn lemma_created_ids_fresh(s: ManagerView, ops: Seq<RoomOp>)
    requires
        manager_wf(s),
        ops_allowed(s, ops),
    ensures
        forall|i: int, j: int|
            0 <= i < j < created_ids(s, ops).len() ==> #[trigger] created_ids(s, ops)[i]
                < #[trigger] created_ids(s, ops)[j],
        forall|i: int|
            0 <= i < created_ids(s, ops).len() ==> s.next_room_id <= #[trigger] created_ids(s, ops)[i]
                < run_ops(s, ops).next_room_id,
    decreases ops.len(),
{
    if ops.len() > 0 {
        let prev = ops.drop_last();
        lemma_created_ids_fresh(s, prev);
        lemma_ops_keep_wf(s, prev);
        lemma_ops_keep_wf(s, ops);
        let p = run_ops(s, prev);
        let c = created_ids(s, ops);
        let cp = created_ids(s, prev);
        if ops.last() is Create {
            assert(c == cp.push(p.next_room_id));
            assert(run_ops(s, ops).next_room_id == p.next_room_id + 1);
            assert forall|i: int| 0 <= i < c.len() implies s.next_room_id <= #[trigger] c[i]
                < run_ops(s, ops).next_room_id by {
                if i < cp.len() {
                    assert(c[i] == cp[i]);
                }
            }
            assert forall|i: int, j: int| 0 <= i < j < c.len() implies #[trigger] c[i] < #[trigger] c[j] by {
                assert(c[i] == cp[i]);
                if j < cp.len() {
                    assert(c[j] == cp[j]);
                }
            }
        } else {
            assert(c == cp);
        }
        match ops.last() {
            RoomOp::Create { name, max_members } => lemma_create_room(p, name, max_members),
            RoomOp::CreateWithId { room_id, name, max_members } => lemma_create_room_with_id(
                p,
                room_id,
                name,
                max_members,
            ),
            RoomOp::Join { session_id, room_id } => lemma_join_room(p, session_id, room_id),
            RoomOp::Leave { session_id } => lemma_leave_room(p, session_id),
        }
    }
}

/// On a new manager, while only `create_room` moves the next id, the n-th
/// room it creates gets id n (counting from 1), and the next id is one past
/// the number of rooms it created. Joins, leaves, and creations under ids
/// below the next one may come in between.
pub proof fn lemma_created_ids_count(ops: Seq<RoomOp>)
    requires
        ops_allowed(empty_manager(), ops),
        next_moved_only_by_create(empty_manager(), ops),
    ensures
        run_ops(empty_manager(), ops).next_room_id == created_ids(empty_manager(), ops).len() + 1,
        forall|k: int|
            0 <= k < created_ids(empty_manager(), ops).len() ==> #[trigger] created_ids(empty_manager(), ops)[k]
                == k + 1,
    decreases ops.len(),
{
    if ops.len() > 0 {
        lemma_created_ids_count(ops.drop_last());
    }
}

} // verus!
