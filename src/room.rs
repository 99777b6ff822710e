//! Rooms and the users inside them.

use rustc_hash::{FxBuildHasher, FxHashMap};
use vstd::prelude::*;

verus! {

/// Capacity that a new user's input buffer starts with.
pub const INPUT_CAPACITY: usize = 64;

/// The longest input buffer a user can hold: a `Vec<u8>` never exceeds
/// `isize::MAX` bytes.
pub open spec fn max_buffer_len() -> int {
    isize::MAX as int
}

/// Relies on Vec::capacity: the number of elements the buffer holds room for.
/// Nothing more is claimed of it.
#[verifier::external_body]
fn buffer_capacity(v: &Vec<u8>) -> (r: usize) {
    v.capacity()
}

/// Relies on Vec::reserve_exact: it changes the capacity only, never the
/// contents, and panics only when the new capacity would pass `isize::MAX`.
#[verifier::external_body]
fn reserve_exact(v: &mut Vec<u8>, additional: usize)
    requires
        old(v)@.len() + additional <= max_buffer_len(),
    ensures
        final(v)@ == old(v)@,
{
    v.reserve_exact(additional)
}

/// Capacity that a new room's user map starts with.
pub const USER_CAPACITY: usize = 32;

/// rustc_hash's hasher builder, carried as the user map's hasher.
#[verifier::external_type_specification]
#[verifier::external_body]
pub struct ExFxBuildHasher(FxBuildHasher);

/// The users of a room, keyed by user id.
pub type UserMap = FxHashMap<i32, User>;

/// Relies on HashMap::with_capacity_and_hasher: a new map holds no entry. A
/// small capacity keeps the allocation from overflowing.
#[verifier::external_body]
fn new_user_map(capacity: usize) -> (r: UserMap)
    requires
        capacity <= 65536,
    ensures
        r@.dom() == Set::<i32>::empty(),
{
    FxHashMap::with_capacity_and_hasher(capacity, FxBuildHasher)
}

/// Relies on HashMap::insert: afterwards the key maps to the value given, and
/// every other key to what it mapped to before. rustc_hash's hasher is
/// deterministic, so equal `i32` keys always meet.
#[verifier::external_body]
fn insert_user(m: &mut UserMap, user_id: i32, user: User)
    ensures
        final(m)@ == old(m)@.insert(user_id, user),
{
    m.insert(user_id, user);
}

/// Relies on HashMap::remove: it hands back the value stored under the key,
/// if any, and leaves every other entry in place.
#[verifier::external_body]
fn remove_user(m: &mut UserMap, user_id: i32) -> (r: Option<User>)
    ensures
        r == old(m)@.get(user_id),
        final(m)@ == old(m)@.remove(user_id),
{
    m.remove(&user_id)
}

/// Relies on HashMap::get: it finds the value stored under the key, if any.
#[verifier::external_body]
fn find_user(m: &UserMap, user_id: i32) -> (r: Option<&User>)
    ensures
        match r {
            Some(u) => m@.get(user_id) == Some(*u),
            None => m@.get(user_id) == None::<User>,
        },
{
    m.get(&user_id)
}

/// What appending `bytes` for `user_id` does to a map from users to their
/// inputs: the user's inputs grow by `bytes`; a user not in the map is not
/// added.
pub open spec fn append_to(users: Map<i32, Seq<u8>>, user_id: i32, bytes: Seq<u8>) -> Map<
    i32,
    Seq<u8>,
> {
    if users.contains_key(user_id) {
        users.insert(user_id, users[user_id] + bytes)
    } else {
        users
    }
}

/// Whether appending `bytes` for `user_id` keeps the user's buffer within the
/// largest buffer a `Vec<u8>` can hold.
pub open spec fn append_fits(users: Map<i32, Seq<u8>>, user_id: i32, bytes: Seq<u8>) -> bool {
    users.contains_key(user_id) ==> users[user_id].len() + bytes.len() <= max_buffer_len()
}

/// A user of a room, with every byte of input appended to it so far.
pub struct User {
    pub user_id: i32,
    pub inputs: Vec<u8>,
}

impl User {
    /// A user with an empty input buffer.
    pub fn new(user_id: i32) -> (r: User)
        ensures
            r.user_id == user_id,
            r.inputs@ == Seq::<u8>::empty(),
    {
        User { user_id, inputs: Vec::with_capacity(INPUT_CAPACITY) }
    }

    /// Appends `bytes` to the input buffer. When the buffer lacks room, its
    /// capacity grows to twice the length needed (or to the length needed
    /// where twice would pass the largest buffer), so that appends cost
    /// amortised constant time per byte.
    pub fn append_input(&mut self, bytes: &[u8])
        requires
            old(self).inputs@.len() + bytes@.len() <= max_buffer_len(),
        ensures
            final(self).user_id == old(self).user_id,
            final(self).inputs@ == old(self).inputs@ + bytes@,
    {
        let current_len = self.inputs.len();
        let needed = current_len + bytes.len();
        if buffer_capacity(&self.inputs) < needed {
            let half_max: usize = (isize::MAX as usize) / 2;
            let target: usize = if needed <= half_max { needed * 2 } else { needed };
            reserve_exact(&mut self.inputs, target - current_len);
        }
        self.inputs.extend_from_slice(bytes);
        assert(self.inputs@ =~= old(self).inputs@ + bytes@);
    }
}

/// A room: its users, keyed by user id.
pub struct Room {
    pub room_id: i32,
    pub users: UserMap,
}

impl Room {
    /// Every user is stored under its own id.
    pub open spec fn wf(&self) -> bool {
        forall|u: i32| #[trigger] self.users@.contains_key(u) ==> self.users@[u].user_id == u
    }

    /// The inputs of each user of the room, keyed by user id.
    pub open spec fn inputs(&self) -> Map<i32, Seq<u8>> {
        self.users@.map_values(|u: User| u.inputs@)
    }

    /// A room that holds one user, `user_id`, with empty inputs.
    pub fn new(room_id: i32, user_id: i32) -> (r: Room)
        ensures
            r.wf(),
            r.room_id == room_id,
            r.inputs() == map![user_id => Seq::<u8>::empty()],
    {
        let mut users = new_user_map(USER_CAPACITY);
        insert_user(&mut users, user_id, User::new(user_id));
        let r = Room { room_id, users };
        assert(r.inputs() =~= map![user_id => Seq::<u8>::empty()]);
        r
    }

    /// Puts `user_id` in the room with empty inputs, in place of any record
    /// the room held for it.
    pub fn join(&mut self, user_id: i32)
        requires
            old(self).wf(),
        ensures
            final(self).wf(),
            final(self).room_id == old(self).room_id,
            final(self).inputs() == old(self).inputs().insert(user_id, Seq::<u8>::empty()),
    {
        insert_user(&mut self.users, user_id, User::new(user_id));
        assert(self.inputs() =~= old(self).inputs().insert(user_id, Seq::<u8>::empty()));
    }

    /// Appends `bytes` to the inputs of `user_id`; does nothing when the room
    /// has no such user. Returns whether the user was found.
    pub fn add_user_input(&mut self, user_id: i32, bytes: &[u8]) -> (found: bool)
        requires
            old(self).wf(),
            append_fits(old(self).inputs(), user_id, bytes@),
        ensures
            final(self).wf(),
            final(self).room_id == old(self).room_id,
            found == old(self).inputs().contains_key(user_id),
            final(self).inputs() == append_to(old(self).inputs(), user_id, bytes@),
    {
        match remove_user(&mut self.users, user_id) {
            Some(mut user) => {
                user.append_input(bytes);
                insert_user(&mut self.users, user_id, user);
                assert(self.users@ =~= old(self).users@.insert(user_id, user));
                assert(self.inputs() =~= append_to(old(self).inputs(), user_id, bytes@));
                true
            },
            None => {
                assert(self.users@ =~= old(self).users@);
                false
            },
        }
    }

    /// A copy of the inputs of `user_id`, or `None` when the room has no such
    /// user.
    pub fn user_inputs(&self, user_id: i32) -> (r: Option<Vec<u8>>)
        ensures
            match r {
                Some(v) => self.inputs().contains_key(user_id) && v@ == self.inputs()[user_id],
                None => !self.inputs().contains_key(user_id),
            },
    {
        match find_user(&self.users, user_id) {
            Some(user) => {
                let v = user.inputs.clone();
                assert(v@ =~= user.inputs@);
                Some(v)
            },
            None => None,
        }
    }
}

} // verus!
