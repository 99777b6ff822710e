//! Laws of the registry model: what joins and appends do, alone and in
//! sequence. The registry's operations are stated over `joined` and
//! `appended`, so each law holds of the registry itself.

use vstd::prelude::*;

use crate::registry::{appended, has_user, joined, Rooms};

verus! {

/// The registry after appending each chunk in turn for `user_id` in
/// `room_id`, first chunk first.
pub open spec fn appended_all(rooms: Rooms, room_id: i32, user_id: i32, chunks: Seq<Seq<u8>>) -> Rooms
    decreases chunks.len(),
{
    if chunks.len() == 0 {
        rooms
    } else {
        appended_all(appended(rooms, room_id, user_id, chunks[0]), room_id, user_id, chunks.drop_first())
    }
}

/// The sum of the lengths of the chunks.
pub open spec fn total_len(chunks: Seq<Seq<u8>>) -> nat
    decreases chunks.len(),
{
    if chunks.len() == 0 {
        0
    } else {
        chunks[0].len() + total_len(chunks.drop_first())
    }
}

/// The registry after joining each (room id, user id) pair in turn, first
/// pair first.
pub open spec fn joined_all(rooms: Rooms, pairs: Seq<(i32, i32)>) -> Rooms
    decreases pairs.len(),
{
    if pairs.len() == 0 {
        rooms
    } else {
        joined_all(joined(rooms, pairs[0].0, pairs[0].1), pairs.drop_first())
    }
}

/// The (room id, user id) pairs that have a user record.
pub open spec fn records(rooms: Rooms) -> Set<(i32, i32)> {
    Set::new(|p: (i32, i32)| has_user(rooms, p.0, p.1))
}

/// Whether every user record holds empty inputs.
pub open spec fn all_empty(rooms: Rooms) -> bool {
    forall|r: i32, u: i32| #[trigger] has_user(rooms, r, u) ==> rooms[r][u] == Seq::<u8>::empty()
}

/// Joining a user leaves exactly one record for it, with empty inputs, and
/// leaves every other record as it was.
pub proof fn lemma_join_makes_empty_user(rooms: Rooms, room_id: i32, user_id: i32)
    ensures
        has_user(joined(rooms, room_id, user_id), room_id, user_id),
        joined(rooms, room_id, user_id)[room_id][user_id] == Seq::<u8>::empty(),
        forall|r: i32, u: i32|
            (r != room_id || u != user_id) ==> (#[trigger] has_user(
                joined(rooms, room_id, user_id),
                r,
                u,
            ) == has_user(rooms, r, u) && (has_user(rooms, r, u) ==> joined(
                rooms,
                room_id,
                user_id,
            )[r][u] == rooms[r][u])),
{
}

/// Joining a user that already has inputs empties them, and the room keeps
/// the same set of users.
pub proof fn lemma_rejoin_resets_inputs(rooms: Rooms, room_id: i32, user_id: i32)
    requires
        has_user(rooms, room_id, user_id),
        rooms[room_id][user_id].len() > 0,
    ensures
        joined(rooms, room_id, user_id)[room_id][user_id] == Seq::<u8>::empty(),
        joined(rooms, room_id, user_id)[room_id].dom() == rooms[room_id].dom(),
{
    assert(joined(rooms, room_id, user_id)[room_id].dom() =~= rooms[room_id].dom());
}

proof fn lemma_appends_extend(rooms: Rooms, room_id: i32, user_id: i32, chunks: Seq<Seq<u8>>)
    requires
        has_user(rooms, room_id, user_id),
    ensures
        has_user(appended_all(rooms, room_id, user_id, chunks), room_id, user_id),
        appended_all(rooms, room_id, user_id, chunks)[room_id][user_id] == rooms[room_id][user_id]
            + chunks.flatten(),
    decreases chunks.len(),
{
    if chunks.len() > 0 {
        let next = appended(rooms, room_id, user_id, chunks[0]);
        lemma_appends_extend(next, room_id, user_id, chunks.drop_first());
        assert(rooms[room_id][user_id] + chunks.flatten() =~= rooms[room_id][user_id] + chunks[0]
            + chunks.drop_first().flatten());
    } else {
        assert(rooms[room_id][user_id] + chunks.flatten() =~= rooms[room_id][user_id]);
    }
}

proof fn lemma_flatten_len(chunks: Seq<Seq<u8>>)
    ensures
        chunks.flatten().len() == total_len(chunks),
    decreases chunks.len(),
{
    if chunks.len() > 0 {
        lemma_flatten_len(chunks.drop_first());
    }
}

/// After a join, appending chunks one after another leaves the user's inputs
/// equal to the chunks concatenated in order, with the sum of their lengths.
pub proof fn lemma_appends_concatenate(rooms: Rooms, room_id: i32, user_id: i32, chunks: Seq<Seq<u8>>)
    ensures
        has_user(appended_all(joined(rooms, room_id, user_id), room_id, user_id, chunks), room_id, user_id),
        appended_all(joined(rooms, room_id, user_id), room_id, user_id, chunks)[room_id][user_id]
            == chunks.flatten(),
        appended_all(joined(rooms, room_id, user_id), room_id, user_id, chunks)[room_id][user_id].len()
            == total_len(chunks),
{
    let start = joined(rooms, room_id, user_id);
    lemma_appends_extend(start, room_id, user_id, chunks);
    assert(start[room_id][user_id] + chunks.flatten() =~= chunks.flatten());
    lemma_flatten_len(chunks);
}

/// Appending for a user that has not joined the room changes nothing.
pub proof fn lemma_append_without_user_is_noop(rooms: Rooms, room_id: i32, user_id: i32, bytes: Seq<u8>)
    requires
        !has_user(rooms, room_id, user_id),
    ensures
        appended(rooms, room_id, user_id, bytes) == rooms,
{
    assert(appended(rooms, room_id, user_id, bytes) =~= rooms);
}

/// Two appends for the same user, in whichever order they come, leave the
/// user's inputs extended by both, whole and one after the other.
pub proof fn lemma_two_appends_serialize(rooms: Rooms, room_id: i32, user_id: i32, a: Seq<u8>, b: Seq<u8>)
    requires
        has_user(rooms, room_id, user_id),
    ensures
        appended(appended(rooms, room_id, user_id, a), room_id, user_id, b)[room_id][user_id]
            == rooms[room_id][user_id] + a + b,
        appended(appended(rooms, room_id, user_id, b), room_id, user_id, a)[room_id][user_id]
            == rooms[room_id][user_id] + b + a,
{
}

proof fn lemma_joins_add_records(rooms: Rooms, pairs: Seq<(i32, i32)>)
    requires
        all_empty(rooms),
    ensures
        records(joined_all(rooms, pairs)) == records(rooms) + pairs.to_set(),
        all_empty(joined_all(rooms, pairs)),
    decreases pairs.len(),
{
    if pairs.len() == 0 {
        assert(records(rooms) + pairs.to_set() =~= records(rooms));
    } else {
        let p = pairs[0];
        let next = joined(rooms, p.0, p.1);
        assert(records(next) =~= records(rooms).insert(p));
        assert forall|r: i32, u: i32| #[trigger] has_user(next, r, u) implies next[r][u]
            == Seq::<u8>::empty() by {
            if r != p.0 || u != p.1 {
                assert(has_user(rooms, r, u));
            }
        }
        lemma_joins_add_records(next, pairs.drop_first());
        assert forall|x: (i32, i32)| pairs.to_set().contains(x) <==> (x == p
            || pairs.drop_first().to_set().contains(x)) by {
            if pairs.to_set().contains(x) && x != p {
                let i = choose|i: int| 0 <= i < pairs.len() && pairs[i] == x;
                assert(pairs.drop_first()[i - 1] == x);
            }
            if pairs.drop_first().to_set().contains(x) {
                let i = choose|i: int| 0 <= i < pairs.drop_first().len() && pairs.drop_first()[i] == x;
                assert(pairs[i + 1] == x);
            }
            if x == p {
                assert(pairs[0] == x);
            }
        }
        assert(records(joined_all(rooms, pairs)) =~= records(rooms) + pairs.to_set());
    }
}

/// Joining distinct (room id, user id) pairs one after another, in any
/// order, into an empty registry leaves exactly one record per pair, each
/// with empty inputs: no join is lost.
pub proof fn lemma_distinct_joins_keep_every_record(pairs: Seq<(i32, i32)>)
    requires
        pairs.no_duplicates(),
    ensures
        records(joined_all(Rooms::empty(), pairs)) == pairs.to_set(),
        records(joined_all(Rooms::empty(), pairs)).len() == pairs.len(),
        all_empty(joined_all(Rooms::empty(), pairs)),
{
    assert(records(Rooms::empty()) =~= Set::<(i32, i32)>::empty());
    lemma_joins_add_records(Rooms::empty(), pairs);
    assert(records(Rooms::empty()) + pairs.to_set() =~= pairs.to_set());
    pairs.unique_seq_to_set();
}

} // verus!
