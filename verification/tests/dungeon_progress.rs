use rust_shadow_dungeon::dungeon::{
    build_room_graph, door_interaction, empty_room_clears, enforce_door_consistency, fallback_dungeon_layout,
    initialize_room, interaction_prompt_visible, lock_doors_for_boss, plan_enemy_spawns, restore_room_state,
    room_clear_check, unlock_doors, unlock_doors_after_boss, Door, DoorState, DungeonManager, DungeonSession, Room,
    RoomState, RoomTransition,
};

fn load_room(manager: &DungeonManager, session: &DungeonSession) -> (Room, Vec<Door>) {
    let layout = fallback_dungeon_layout();
    let setup = initialize_room(manager, None, session, Some(&layout)).expect("room is created");
    let doors = setup.doors.iter().map(|d| d.door).collect();
    (setup.room, doors)
}

#[test]
fn test_progress_tracking() {
    let layout = fallback_dungeon_layout();
    let mut manager = DungeonManager::load(&layout);
    let mut session = DungeonSession::new();

    // Clear room 1.
    let (mut room, mut doors) = load_room(&manager, &session);
    assert_eq!(room.state, RoomState::Uncleared);
    assert!(room_clear_check(&room, 0));
    room.mark_cleared();
    session.record_cleared(room.room_id);
    let unlocked = unlock_doors(&room, &mut doors);
    assert_eq!(unlocked, vec![1]);

    // Leave for room 2, then come back.
    manager.enter_room(2);
    let (room2, _) = load_room(&manager, &session);
    assert_eq!(room2.state, RoomState::Uncleared);
    session.record_cleared(2);
    manager.enter_room(1);
    let (room1_again, doors1_again) = load_room(&manager, &session);

    // 1. Cleared rooms are recorded in the session.
    assert!(session.is_cleared(1));
    assert!(session.is_cleared(2));
    // 2. Returning to a cleared room does not spawn enemies.
    assert_eq!(room1_again.state, RoomState::Cleared);
    assert!(plan_enemy_spawns(&room1_again, &session, 0, &vec![true, true, true]).is_empty());
    // 3. Doors remain unlocked in cleared rooms.
    assert!(doors1_again.iter().all(|d| d.state == DoorState::Unlocked));
}

#[test]
fn test_room_transition_workflow() {
    let layout = fallback_dungeon_layout();
    let mut manager = DungeonManager::load(&layout);
    let mut session = DungeonSession::new();
    let (mut room, mut doors) = load_room(&manager, &session);
    let near = vec![true; doors.len()];

    // Locked doors cannot be used.
    assert_eq!(door_interaction(true, false, Some(manager.current_room_id), &doors, &near), None);

    // 3. Doors unlock once the room is cleared.
    room.mark_cleared();
    session.record_cleared(room.room_id);
    unlock_doors(&room, &mut doors);
    assert!(doors.iter().all(|d| d.state == DoorState::Unlocked));

    // 1. The player can transition between rooms.
    let transition = door_interaction(true, false, Some(manager.current_room_id), &doors, &near);
    assert_eq!(transition, Some(RoomTransition { from_room_id: 1, to_room_id: 2, door_index: 0 }));
    manager.enter_room(2);
    assert_eq!(manager.current_room_id, 2);

    // 2. Room state is preserved.
    let (room2, doors2) = load_room(&manager, &session);
    assert_eq!(room2.room_id, 2);
    assert_eq!(room2.spawn_point_count, 2);
    assert_eq!(doors2.len(), 2);
    assert!(doors2.iter().all(|d| d.state == DoorState::Locked));
    manager.enter_room(1);
    let (room1, _) = load_room(&manager, &session);
    assert_eq!(room1.state, RoomState::Cleared);
}

#[test]
fn room_graph_follows_layout() {
    let layout = fallback_dungeon_layout();
    let graph = build_room_graph(&layout);
    assert_eq!(graph.len(), 3);
    assert_eq!(graph[&1], vec![(1, 2)]);
    assert_eq!(graph[&2], vec![(1, 1), (2, 3)]);
    assert_eq!(graph[&3], vec![(2, 2)]);
    let manager = DungeonManager::load(&layout);
    assert_eq!(manager.current_room_id, 1);
}

#[test]
fn loaded_room_is_not_recreated() {
    let layout = fallback_dungeon_layout();
    let manager = DungeonManager::load(&layout);
    let session = DungeonSession::new();
    assert!(initialize_room(&manager, Some(1), &session, Some(&layout)).is_none());
    let setup = initialize_room(&manager, Some(3), &session, Some(&layout)).unwrap();
    assert!(setup.replaces_existing);
    assert_eq!(setup.layout_room_index, Some(0));
    assert_eq!(setup.doors[0].layout_door_index, Some(0));
}

#[test]
fn room_missing_from_layout_gets_three_spawn_points_and_no_door_positions() {
    let layout = fallback_dungeon_layout();
    let mut manager = DungeonManager::load(&layout);
    let session = DungeonSession::new();
    manager.enter_room(9);
    let setup = initialize_room(&manager, None, &session, Some(&layout)).unwrap();
    assert_eq!(setup.room.spawn_point_count, 3);
    assert_eq!(setup.layout_room_index, None);
    assert!(setup.doors.is_empty());
    manager.enter_room(2);
    let without_layout = initialize_room(&manager, None, &session, None).unwrap();
    assert_eq!(without_layout.room.spawn_point_count, 3);
    assert_eq!(without_layout.doors.len(), 2);
    assert!(without_layout.doors.iter().all(|d| d.layout_door_index.is_none()));
}

#[test]
fn enemies_spawn_at_active_points_of_a_fresh_room() {
    let session = DungeonSession::new();
    let room = Room { room_id: 1, state: RoomState::Uncleared, spawn_point_count: 3 };
    let spawns = plan_enemy_spawns(&room, &session, 0, &vec![true, false, true]);
    let points: Vec<usize> = spawns.iter().map(|s| s.spawn_point_index).collect();
    assert_eq!(points, vec![0, 2]);
    assert!(plan_enemy_spawns(&room, &session, 1, &vec![true, true, true]).is_empty());
    let cleared = Room { state: RoomState::Cleared, ..room };
    assert!(plan_enemy_spawns(&cleared, &session, 0, &vec![true]).is_empty());
}

#[test]
fn rooms_clear_when_no_enemy_is_left() {
    let room = Room { room_id: 1, state: RoomState::Uncleared, spawn_point_count: 3 };
    assert!(room_clear_check(&room, 0));
    assert!(!room_clear_check(&room, 2));
    let cleared = Room { state: RoomState::Cleared, ..room };
    assert!(!room_clear_check(&cleared, 0));
    assert!(empty_room_clears(&room, 0));
    assert!(!empty_room_clears(&room, 1));
}

#[test]
fn uncleared_room_keeps_doors_locked_and_boss_locks_them() {
    let room = Room { room_id: 1, state: RoomState::Uncleared, spawn_point_count: 1 };
    let mut doors = vec![
        Door { door_id: 1, connected_room_id: 2, state: DoorState::Unlocked },
        Door { door_id: 2, connected_room_id: 3, state: DoorState::Locked },
    ];
    assert!(unlock_doors(&room, &mut doors).is_empty());
    enforce_door_consistency(&room, &mut doors);
    assert!(doors.iter().all(|d| d.state == DoorState::Locked));
    unlock_doors_after_boss(&mut doors);
    assert!(doors.iter().all(|d| d.state == DoorState::Unlocked));
    lock_doors_for_boss(&mut doors);
    assert!(doors.iter().all(|d| d.state == DoorState::Locked));
}

#[test]
fn returning_player_finds_room_restored() {
    let mut session = DungeonSession::new();
    session.record_cleared(4);
    let mut room = Room { room_id: 4, state: RoomState::Uncleared, spawn_point_count: 2 };
    let mut doors = vec![Door { door_id: 1, connected_room_id: 5, state: DoorState::Locked }];
    restore_room_state(&mut room, &mut doors, &session);
    assert_eq!(room.state, RoomState::Cleared);
    assert_eq!(doors[0].state, DoorState::Unlocked);
}

#[test]
fn pickup_in_range_takes_priority_over_doors() {
    let doors = vec![Door { door_id: 1, connected_room_id: 2, state: DoorState::Unlocked }];
    let near = vec![true];
    assert_eq!(door_interaction(true, true, Some(1), &doors, &near), None);
    assert_eq!(door_interaction(false, false, Some(1), &doors, &near), None);
    assert_eq!(door_interaction(true, false, None, &doors, &near), None);
    assert!(interaction_prompt_visible(&doors, &near));
    assert!(!interaction_prompt_visible(&doors, &vec![false]));
}

#[test]
fn every_cleared_room_of_a_run_is_recorded() {
    let mut session = DungeonSession::new();
    session.record_cleared(1);
    session.record_all_cleared(&vec![3, 2, 3]);
    assert!(session.is_cleared(1));
    assert!(session.is_cleared(2));
    assert!(session.is_cleared(3));
    assert!(!session.is_cleared(4));
    assert_eq!(session.cleared_rooms.len(), 3);
    session.record_all_cleared(&vec![]);
    assert_eq!(session.cleared_rooms.len(), 3);
}
