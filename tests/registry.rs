use room_registry::{Room, RoomRegistry, User};

#[test]
fn scenario_join_then_two_appends() {
    let mut reg = RoomRegistry::new();
    reg.join_room(5, 9);
    reg.add_user_input(5, 9, &[1, 2, 3]);
    reg.add_user_input(5, 9, &[4, 5]);
    let inputs = reg.user_inputs(5, 9).unwrap();
    assert_eq!(inputs, vec![1, 2, 3, 4, 5]);
    assert_eq!(inputs.len(), 5);
}

#[test]
fn scenario_append_without_join() {
    let mut reg = RoomRegistry::new();
    reg.add_user_input(5, 9, &[1]);
    assert_eq!(reg.user_inputs(5, 9), None);
    assert_eq!(reg.room_count(), 0);
}

#[test]
fn join_makes_one_empty_user() {
    let mut reg = RoomRegistry::new();
    reg.join_room(3, 4);
    assert_eq!(reg.user_inputs(3, 4), Some(Vec::new()));
    assert_eq!(reg.room_count(), 1);
    assert_eq!(reg.user_inputs(3, 5), None);
    assert_eq!(reg.user_inputs(4, 3), None);
}

#[test]
fn rejoin_resets_inputs() {
    let mut reg = RoomRegistry::new();
    reg.join_room(1, 2);
    reg.join_room(1, 3);
    reg.add_user_input(1, 2, &[7, 8]);
    reg.add_user_input(1, 3, &[9]);
    reg.join_room(1, 2);
    assert_eq!(reg.user_inputs(1, 2), Some(Vec::new()));
    assert_eq!(reg.user_inputs(1, 3), Some(vec![9]));
    assert_eq!(reg.room_count(), 1);
}

#[test]
fn appends_concatenate_in_order() {
    let mut reg = RoomRegistry::new();
    reg.join_room(0, 0);
    let chunks: Vec<Vec<u8>> = vec![vec![1], vec![], vec![2, 3, 4], vec![5, 6]];
    let mut expected = Vec::new();
    for c in &chunks {
        reg.add_user_input(0, 0, c);
        expected.extend_from_slice(c);
    }
    let inputs = reg.user_inputs(0, 0).unwrap();
    assert_eq!(inputs, expected);
    assert_eq!(inputs.len(), 6);
}

#[test]
fn many_appends_grow_buffer() {
    let mut reg = RoomRegistry::new();
    reg.join_room(2, 2);
    let chunk: Vec<u8> = (0..10).collect();
    for _ in 0..1000 {
        reg.add_user_input(2, 2, &chunk);
    }
    let inputs = reg.user_inputs(2, 2).unwrap();
    assert_eq!(inputs.len(), 10_000);
    for (i, b) in inputs.iter().enumerate() {
        assert_eq!(*b as usize, i % 10);
    }
}

#[test]
fn append_to_missing_user_in_existing_room() {
    let mut reg = RoomRegistry::new();
    reg.join_room(5, 1);
    reg.add_user_input(5, 9, &[1]);
    assert_eq!(reg.user_inputs(5, 9), None);
    assert_eq!(reg.user_inputs(5, 1), Some(Vec::new()));
    assert_eq!(reg.room_count(), 1);
}

#[test]
fn distinct_joins_keep_every_record() {
    let mut reg = RoomRegistry::new();
    let mut pairs = Vec::new();
    for r in 0..7 {
        for u in 0..11 {
            pairs.push((r * 3 - 5, u * 7 - 20));
        }
    }
    for &(r, u) in pairs.iter().rev() {
        reg.join_room(r, u);
    }
    assert_eq!(reg.room_count(), 7);
    let mut users = 0;
    for room in reg.rooms().iter() {
        users += room.users.len();
    }
    assert_eq!(users, pairs.len());
    for &(r, u) in &pairs {
        assert_eq!(reg.user_inputs(r, u), Some(Vec::new()));
    }
}

#[test]
fn two_appends_serialize_either_way() {
    let a: Vec<u8> = vec![1, 1, 1];
    let b: Vec<u8> = vec![2, 2];
    let mut first = RoomRegistry::new();
    first.join_room(8, 8);
    first.add_user_input(8, 8, &a);
    first.add_user_input(8, 8, &b);
    assert_eq!(first.user_inputs(8, 8), Some(vec![1, 1, 1, 2, 2]));
    let mut second = RoomRegistry::new();
    second.join_room(8, 8);
    second.add_user_input(8, 8, &b);
    second.add_user_input(8, 8, &a);
    assert_eq!(second.user_inputs(8, 8), Some(vec![2, 2, 1, 1, 1]));
}

#[test]
fn extreme_ids() {
    let mut reg = RoomRegistry::new();
    reg.join_room(i32::MIN, i32::MAX);
    reg.join_room(i32::MAX, i32::MIN);
    reg.add_user_input(i32::MIN, i32::MAX, &[255, 0]);
    assert_eq!(reg.user_inputs(i32::MIN, i32::MAX), Some(vec![255, 0]));
    assert_eq!(reg.user_inputs(i32::MAX, i32::MIN), Some(Vec::new()));
    assert_eq!(reg.room_count(), 2);
}

#[test]
fn rooms_are_independent() {
    let mut reg = RoomRegistry::new();
    reg.join_room(1, 1);
    reg.join_room(2, 1);
    reg.add_user_input(1, 1, &[4]);
    assert_eq!(reg.user_inputs(1, 1), Some(vec![4]));
    assert_eq!(reg.user_inputs(2, 1), Some(Vec::new()));
    let room = reg.rooms().get(&1).unwrap();
    assert_eq!(room.room_id, 1);
    assert_eq!(room.users.get(&1).unwrap().user_id, 1);
}

#[test]
fn room_join_and_append() {
    let mut room = Room::new(4, 10);
    assert_eq!(room.room_id, 4);
    assert_eq!(room.user_inputs(10), Some(Vec::new()));
    room.join(11);
    assert!(room.add_user_input(11, &[3, 4]));
    assert!(!room.add_user_input(12, &[3, 4]));
    assert_eq!(room.user_inputs(11), Some(vec![3, 4]));
    assert_eq!(room.user_inputs(12), None);
    room.join(11);
    assert_eq!(room.user_inputs(11), Some(Vec::new()));
    assert_eq!(room.users.len(), 2);
}

#[test]
fn user_append_input() {
    let mut user = User::new(6);
    assert_eq!(user.user_id, 6);
    assert!(user.inputs.is_empty());
    user.append_input(&[]);
    assert!(user.inputs.is_empty());
    let big: Vec<u8> = vec![9; 100];
    user.append_input(&big);
    user.append_input(&[1]);
    assert_eq!(user.inputs.len(), 101);
    assert_eq!(user.inputs[99], 9);
    assert_eq!(user.inputs[100], 1);
    assert!(user.inputs.capacity() >= 101);
}
