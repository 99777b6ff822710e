//! The registry: rooms keyed by room id, held in a sharded concurrent map.

use dashmap::DashMap;
use vstd::prelude::*;

use crate::room::{append_fits, append_to, Room};

verus! {

/// dashmap's sharded concurrent map.
#[verifier::external_type_specification]
#[verifier::external_body]
#[verifier::reject_recursive_types(K)]
#[verifier::reject_recursive_types(V)]
#[verifier::reject_recursive_types(S)]
pub struct ExDashMap<K, V, S>(DashMap<K, V, S>);

/// The rooms of a registry, keyed by room id.
pub type RoomMap = DashMap<i32, Room>;

/// What a room map holds: each room under its key.
pub uninterp spec fn rooms_of(m: RoomMap) -> Map<i32, Room>;

/// Capacity that the registry's room map starts with.
pub const ROOM_CAPACITY: usize = 64;

/// Relies on DashMap::with_capacity: a new map holds no entry. A small
/// capacity keeps its rounding to whole shards, and the allocation, from
/// overflowing.
#[verifier::external_body]
fn new_room_map(capacity: usize) -> (r: RoomMap)
    requires
        capacity <= 65536,
    ensures
        rooms_of(r).dom() == Set::<i32>::empty(),
{
    DashMap::with_capacity(capacity)
}

/// Relies on DashMap::remove: it hands back the entry stored under the key,
/// if any, and leaves every other entry in place.
#[verifier::external_body]
fn remove_room(m: &mut RoomMap, room_id: i32) -> (r: Option<Room>)
    ensures
        r == rooms_of(*old(m)).get(room_id),
        rooms_of(*final(m)) == rooms_of(*old(m)).remove(room_id),
{
    m.remove(&room_id).map(|entry| entry.1)
}

/// Relies on DashMap::insert: afterwards the key maps to the value given, and
/// every other key to what it mapped to before.
#[verifier::external_body]
fn insert_room(m: &mut RoomMap, room_id: i32, room: Room)
    ensures
        rooms_of(*final(m)) == rooms_of(*old(m)).insert(room_id, room),
{
    m.insert(room_id, room);
}

/// Relies on DashMap::len: the number of entries in the map.
#[verifier::external_body]
fn room_map_len(m: &RoomMap) -> (r: usize)
    ensures
        r == rooms_of(*m).len(),
{
    m.len()
}

/// Relies on DashMap::view: it runs the closure on the room stored under
/// `room_id` and hands back its result, or `None` when there is no such room.
/// The closure is the verified `Room::user_inputs`.
#[verifier::external_body]
fn view_user_inputs(m: &RoomMap, room_id: i32, user_id: i32) -> (r: Option<Vec<u8>>)
    ensures
        match r {
            Some(v) => rooms_of(*m).contains_key(room_id) && rooms_of(
                *m,
            )[room_id].inputs().contains_key(user_id) && v@ == rooms_of(
                *m,
            )[room_id].inputs()[user_id],
            None => !(rooms_of(*m).contains_key(room_id) && rooms_of(
                *m,
            )[room_id].inputs().contains_key(user_id)),
        },
{
    m.view(&room_id, |_, room| room.user_inputs(user_id)).flatten()
}

/// The model of a registry: for each room id, the inputs of each user of the
/// room.
pub type Rooms = Map<i32, Map<i32, Seq<u8>>>;

/// What joining `user_id` to `room_id` does to a registry: the room is made if
/// it is missing, and the user gets empty inputs, replacing any it had.
pub open spec fn joined(rooms: Rooms, room_id: i32, user_id: i32) -> Rooms {
    let users = if rooms.contains_key(room_id) {
        rooms[room_id]
    } else {
        Map::empty()
    };
    rooms.insert(room_id, users.insert(user_id, Seq::<u8>::empty()))
}

/// What appending `bytes` for `user_id` in `room_id` does to a registry: that
/// user's inputs grow by `bytes`; with no such room or user, nothing changes.
pub open spec fn appended(rooms: Rooms, room_id: i32, user_id: i32, bytes: Seq<u8>) -> Rooms {
    if rooms.contains_key(room_id) {
        rooms.insert(room_id, append_to(rooms[room_id], user_id, bytes))
    } else {
        rooms
    }
}

/// Whether `user_id` has joined `room_id`.
pub open spec fn has_user(rooms: Rooms, room_id: i32, user_id: i32) -> bool {
    rooms.contains_key(room_id) && rooms[room_id].contains_key(user_id)
}

/// Whether appending `bytes` for `user_id` in `room_id` keeps that user's
/// buffer within the largest buffer a `Vec<u8>` can hold.
pub open spec fn input_fits(rooms: Rooms, room_id: i32, user_id: i32, bytes: Seq<u8>) -> bool {
    rooms.contains_key(room_id) ==> append_fits(rooms[room_id], user_id, bytes)
}

/// Rooms keyed by room id, each with its users and their inputs.
///
/// The rooms live in a sharded concurrent map. Every operation that touches a
/// room takes the registry exclusively, so operations on one registry run one
/// after another, each as a whole.
pub struct RoomRegistry {
    rooms: RoomMap,
}

impl View for RoomRegistry {
    type V = Rooms;

    closed spec fn view(&self) -> Rooms {
        rooms_of(self.rooms).map_values(|r: Room| r.inputs())
    }
}

impl RoomRegistry {
    /// Each room is stored under its own id and holds each user under its id.
    pub closed spec fn wf(&self) -> bool {
        forall|id: i32|
            #[trigger] rooms_of(self.rooms).contains_key(id) ==> rooms_of(self.rooms)[id].room_id
                == id && rooms_of(self.rooms)[id].wf()
    }

    /// An empty registry.
    pub fn new() -> (r: RoomRegistry)
        ensures
            r.wf(),
            r@ == Rooms::empty(),
    {
        let r = RoomRegistry { rooms: new_room_map(ROOM_CAPACITY) };
        assert(r@ =~= Rooms::empty());
        r
    }

    /// Joins `user_id` to `room_id`, making the room if it is missing. The
    /// user's inputs start empty, replacing any record the room held for it.
    pub fn join_room(&mut self, room_id: i32, user_id: i32)
        requires
            old(self).wf(),
        ensures
            final(self).wf(),
            final(self)@ == joined(old(self)@, room_id, user_id),
    {
        match remove_room(&mut self.rooms, room_id) {
            Some(mut room) => {
                room.join(user_id);
                insert_room(&mut self.rooms, room_id, room);
            },
            None => {
                insert_room(&mut self.rooms, room_id, Room::new(room_id, user_id));
            },
        }
        assert(self@ =~= joined(old(self)@, room_id, user_id));
    }

    /// Appends `bytes` to the inputs of `user_id` in `room_id`. With no such
    /// room, or no such user in it, nothing changes.
    pub fn add_user_input(&mut self, room_id: i32, user_id: i32, bytes: &[u8])
        requires
            old(self).wf(),
            input_fits(old(self)@, room_id, user_id, bytes@),
        ensures
            final(self).wf(),
            final(self)@ == appended(old(self)@, room_id, user_id, bytes@),
    {
        match remove_room(&mut self.rooms, room_id) {
            Some(mut room) => {
                room.add_user_input(user_id, bytes);
                insert_room(&mut self.rooms, room_id, room);
            },
            None => {},
        }
        assert(self@ =~= appended(old(self)@, room_id, user_id, bytes@));
    }

    /// A copy of the inputs of `user_id` in `room_id`, or `None` when that
    /// user has not joined that room.
    pub fn user_inputs(&self, room_id: i32, user_id: i32) -> (r: Option<Vec<u8>>)
        ensures
            match r {
                Some(v) => has_user(self@, room_id, user_id) && v@ == self@[room_id][user_id],
                None => !has_user(self@, room_id, user_id),
            },
    {
        view_user_inputs(&self.rooms, room_id, user_id)
    }

    /// The number of rooms.
    pub fn room_count(&self) -> (r: usize)
        ensures
            r == self@.len(),
    {
        assert(self@.dom() =~= rooms_of(self.rooms).dom());
        room_map_len(&self.rooms)
    }

    /// The map of rooms, for reading.
    pub fn rooms(&self) -> (r: &RoomMap)
        ensures
            rooms_of(*r).map_values(|room: Room| room.inputs()) == self@,
    {
        &self.rooms
    }
}

} // verus!
