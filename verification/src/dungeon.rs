//! Dungeon progression: rooms linked by doors, rooms that are cleared once their
//! enemies are defeated, doors that unlock when their room is cleared, and a
//! session that remembers which rooms were cleared so they stay cleared.
use vstd::prelude::*;

use std::collections::HashMap;
use std::collections::HashSet;

use crate::chance::random_u32;

verus! {

broadcast use vstd::std_specs::hash::group_hash_axioms;

/// Number of enemy spawn points a room gets when the layout does not list it.
pub const DEFAULT_SPAWN_POINT_COUNT: usize = 3;

/// Whether a room's enemies have all been defeated.
#[derive(Clone, Copy, PartialEq, Eq, Structural, Debug)]
pub enum RoomState {
    Uncleared,
    Cleared,
}

/// Whether a door can be walked through.
#[derive(Clone, Copy, PartialEq, Eq, Structural, Debug)]
pub enum DoorState {
    Locked,
    Unlocked,
}

/// A door of a room, as the dungeon layout lists it.
#[derive(Clone, Copy, PartialEq, Eq, Structural, Debug)]
pub struct DoorLink {
    pub door_id: u32,
    pub connected_room_id: u32,
}

/// A room of the dungeon layout: its id, how many enemy spawn points it has, and
/// its doors. Positions stay with the caller, indexed like these lists.
#[derive(Clone, Debug)]
pub struct RoomLayout {
    pub room_id: u32,
    pub spawn_point_count: usize,
    pub doors: Vec<DoorLink>,
}

/// The layout of a dungeon.
#[derive(Clone, Debug)]
pub struct DungeonLayout {
    pub dungeon_id: String,
    pub start_room_id: u32,
    pub rooms: Vec<RoomLayout>,
}

/// The room the player is in, and for every room id the doors leading out of it
/// as (door id, connected room id).
#[derive(Debug)]
pub struct DungeonManager {
    pub current_room_id: u32,
    pub room_graph: HashMap<u32, Vec<(u32, u32)>>,
}

/// What the player has achieved in this run of the dungeon.
#[derive(Debug)]
pub struct DungeonSession {
    pub cleared_rooms: HashSet<u32>,
}

/// A loaded room.
#[derive(Clone, Copy, PartialEq, Eq, Structural, Debug)]
pub struct Room {
    pub room_id: u32,
    pub state: RoomState,
    pub spawn_point_count: usize,
}

/// A door of the loaded room.
#[derive(Clone, Copy, PartialEq, Eq, Structural, Debug)]
pub struct Door {
    pub door_id: u32,
    pub connected_room_id: u32,
    pub state: DoorState,
}

/// A door to create when a room is loaded, with the index of the layout's door of
/// the same id in that room (where its position is found), if there is one.
#[derive(Clone, Copy, PartialEq, Eq, Structural, Debug)]
pub struct DoorSetup {
    pub door: Door,
    pub layout_door_index: Option<usize>,
}

/// What loading the current room creates.
#[derive(Clone, Debug)]
pub struct RoomSetup {
    /// A loaded room of another id is removed first.
    pub replaces_existing: bool,
    pub room: Room,
    /// The layout's entry for the room (where its spawn positions are found).
    pub layout_room_index: Option<usize>,
    pub doors: Vec<DoorSetup>,
}

/// An enemy to spawn: at which spawn point, under which id.
#[derive(Clone, Copy, PartialEq, Eq, Structural, Debug)]
pub struct EnemySpawn {
    pub spawn_point_index: usize,
    pub enemy_id: u32,
}

/// The player walks through a door into another room.
#[derive(Clone, Copy, PartialEq, Eq, Structural, Debug)]
pub struct RoomTransition {
    pub from_room_id: u32,
    pub to_room_id: u32,
    pub door_index: usize,
}

/// The (door id, connected room id) pairs of a room's doors.
pub open spec fn links_of(doors: Seq<DoorLink>) -> Seq<(u32, u32)> {
    doors.map_values(|d: DoorLink| (d.door_id, d.connected_room_id))
}

/// The room graph of a list of rooms; a later room of the same id replaces an
/// earlier one.
pub open spec fn graph_of(rooms: Seq<RoomLayout>) -> Map<u32, Seq<(u32, u32)>>
    decreases rooms.len(),
{
    if rooms.len() == 0 {
        Map::empty()
    } else {
        graph_of(rooms.drop_last()).insert(rooms.last().room_id, links_of(rooms.last().doors@))
    }
}

/// `graph` (whose values are vectors) is the room graph `spec`.
pub open spec fn graph_matches(graph: Map<u32, Vec<(u32, u32)>>, spec: Map<u32, Seq<(u32, u32)>>) -> bool {
    &&& graph.dom() == spec.dom()
    &&& forall|k: u32| #[trigger] graph.contains_key(k) ==> graph[k]@ == spec[k]
}

/// The first room of the layout with id `room_id`, at or after `from`.
pub open spec fn first_room(rooms: Seq<RoomLayout>, room_id: u32, from: int) -> Option<int>
    decreases rooms.len() - from,
{
    if from < 0 || from >= rooms.len() {
        None
    } else if rooms[from].room_id == room_id {
        Some(from)
    } else {
        first_room(rooms, room_id, from + 1)
    }
}

/// The first door of a layout room with id `door_id`, at or after `from`.
pub open spec fn first_door(doors: Seq<DoorLink>, door_id: u32, from: int) -> Option<int>
    decreases doors.len() - from,
{
    if from < 0 || from >= doors.len() {
        None
    } else if doors[from].door_id == door_id {
        Some(from)
    } else {
        first_door(doors, door_id, from + 1)
    }
}

/// The state a room is loaded in: cleared if the session remembers it cleared.
pub open spec fn initial_room_state(cleared: Set<u32>, room_id: u32) -> RoomState {
    if cleared.contains(room_id) {
        RoomState::Cleared
    } else {
        RoomState::Uncleared
    }
}

/// The state a loaded room's doors start in: unlocked when the room is cleared.
pub open spec fn initial_door_state(cleared: Set<u32>, room_id: u32) -> DoorState {
    if cleared.contains(room_id) {
        DoorState::Unlocked
    } else {
        DoorState::Locked
    }
}

/// The rooms cleared after the session records `later` rooms as cleared, in order.
pub open spec fn cleared_after(cleared: Set<u32>, later: Seq<u32>) -> Set<u32>
    decreases later.len(),
{
    if later.len() == 0 {
        cleared
    } else {
        cleared_after(cleared, later.drop_last()).insert(later.last())
    }
}

/// Enemies are spawned into `room`: it is not remembered cleared, it is
/// uncleared, and no enemy is alive yet.
pub open spec fn spawns_enemies(cleared: Set<u32>, room: Room, living_enemies: usize) -> bool {
    !cleared.contains(room.room_id) && room.state == RoomState::Uncleared && living_enemies == 0
}

/// The indices of the spawn points that spawn on activation, in order.
pub open spec fn active_spawn_points(flags: Seq<bool>) -> Seq<usize>
    decreases flags.len(),
{
    if flags.len() == 0 {
        Seq::empty()
    } else if flags.last() {
        active_spawn_points(flags.drop_last()).push((flags.len() - 1) as usize)
    } else {
        active_spawn_points(flags.drop_last())
    }
}

/// The doors after unlocking every door of a cleared room.
pub open spec fn doors_unlocked(doors: Seq<Door>) -> Seq<Door> {
    doors.map_values(|d: Door| Door { state: DoorState::Unlocked, ..d })
}

/// The doors after locking every door.
pub open spec fn doors_locked(doors: Seq<Door>) -> Seq<Door> {
    doors.map_values(|d: Door| Door { state: DoorState::Locked, ..d })
}

/// The ids, in order, of the doors that were locked.
pub open spec fn locked_door_ids(doors: Seq<Door>) -> Seq<u32>
    decreases doors.len(),
{
    if doors.len() == 0 {
        Seq::empty()
    } else if doors.last().state == DoorState::Locked {
        locked_door_ids(doors.drop_last()).push(doors.last().door_id)
    } else {
        locked_door_ids(doors.drop_last())
    }
}

/// The first door, at or after `from`, that is unlocked and that the player is
/// near.
pub open spec fn first_usable_door(doors: Seq<Door>, near: Seq<bool>, from: int) -> Option<int>
    decreases doors.len() - from,
{
    if from < 0 || from >= doors.len() {
        None
    } else if doors[from].state == DoorState::Unlocked && near[from] {
        Some(from)
    } else {
        first_usable_door(doors, near, from + 1)
    }
}

/// Where `first_room` points: a room of that id with none before it.
pub proof fn lemma_first_room(rooms: Seq<RoomLayout>, room_id: u32, from: int)
    requires
        0 <= from,
    ensures
        match first_room(rooms, room_id, from) {
            Some(k) => from <= k < rooms.len() && rooms[k].room_id == room_id && forall|j: int|
                from <= j < k ==> (#[trigger] rooms[j]).room_id != room_id,
            None => forall|j: int| from <= j < rooms.len() ==> (#[trigger] rooms[j]).room_id != room_id,
        },
    decreases rooms.len() - from,
{
    if from < rooms.len() && rooms[from].room_id != room_id {
        lemma_first_room(rooms, room_id, from + 1);
    }
}

/// Where `first_door` points: a door of that id with none before it.
pub proof fn lemma_first_door(doors: Seq<DoorLink>, door_id: u32, from: int)
    requires
        0 <= from,
    ensures
        match first_door(doors, door_id, from) {
            Some(k) => from <= k < doors.len() && doors[k].door_id == door_id && forall|j: int|
                from <= j < k ==> (#[trigger] doors[j]).door_id != door_id,
            None => forall|j: int| from <= j < doors.len() ==> (#[trigger] doors[j]).door_id != door_id,
        },
    decreases doors.len() - from,
{
    if from < doors.len() && doors[from].door_id != door_id {
        lemma_first_door(doors, door_id, from + 1);
    }
}

/// Where `first_usable_door` points: an unlocked door the player is near, with no
/// such door before it.
pub proof fn lemma_first_usable_door(doors: Seq<Door>, near: Seq<bool>, from: int)
    requires
        0 <= from,
        near.len() == doors.len(),
    ensures
        match first_usable_door(doors, near, from) {
            Some(k) => from <= k < doors.len() && doors[k].state == DoorState::Unlocked && near[k]
                && forall|j: int| from <= j < k ==> !(#[trigger] doors[j].state == DoorState::Unlocked && near[j]),
            None => forall|j: int| from <= j < doors.len() ==> !(#[trigger] doors[j].state == DoorState::Unlocked && near[j]),
        },
    decreases doors.len() - from,
{
    if from < doors.len() && !(doors[from].state == DoorState::Unlocked && near[from]) {
        lemma_first_usable_door(doors, near, from + 1);
    }
}

/// The layout used when the dungeon file cannot be loaded: three rooms in a row,
/// room 1 (three spawn points) to room 2 (two) by door 1, room 2 to room 3 (one)
/// by door 2, starting in room 1.
pub fn fallback_dungeon_layout() -> (layout: DungeonLayout)
    ensures
        layout.dungeon_id@ == "fallback_dungeon"@,
        layout.start_room_id == 1,
        layout.rooms@.len() == 3,
        layout.rooms@[0].room_id == 1,
        layout.rooms@[0].spawn_point_count == 3,
        layout.rooms@[0].doors@ == seq![DoorLink { door_id: 1, connected_room_id: 2 }],
        layout.rooms@[1].room_id == 2,
        layout.rooms@[1].spawn_point_count == 2,
        layout.rooms@[1].doors@ == seq![
            DoorLink { door_id: 1, connected_room_id: 1 },
            DoorLink { door_id: 2, connected_room_id: 3 },
        ],
        layout.rooms@[2].room_id == 3,
        layout.rooms@[2].spawn_point_count == 1,
        layout.rooms@[2].doors@ == seq![DoorLink { door_id: 2, connected_room_id: 2 }],
{
    let r1 = RoomLayout {
        room_id: 1,
        spawn_point_count: 3,
        doors: vec![DoorLink { door_id: 1, connected_room_id: 2 }],
    };
    let r2 = RoomLayout {
        room_id: 2,
        spawn_point_count: 2,
        doors: vec![
            DoorLink { door_id: 1, connected_room_id: 1 },
            DoorLink { door_id: 2, connected_room_id: 3 },
        ],
    };
    let r3 = RoomLayout {
        room_id: 3,
        spawn_point_count: 1,
        doors: vec![DoorLink { door_id: 2, connected_room_id: 2 }],
    };
    let layout = DungeonLayout {
        dungeon_id: "fallback_dungeon".to_string(),
        start_room_id: 1,
        rooms: vec![r1, r2, r3],
    };
    assert(layout.rooms@[0].doors@ =~= seq![DoorLink { door_id: 1, connected_room_id: 2 }]);
    assert(layout.rooms@[1].doors@ =~= seq![
        DoorLink { door_id: 1, connected_room_id: 1 },
        DoorLink { door_id: 2, connected_room_id: 3 },
    ]);
    assert(layout.rooms@[2].doors@ =~= seq![DoorLink { door_id: 2, connected_room_id: 2 }]);
    layout
}

/// The room graph of a layout: each room's id mapped to its doors as
/// (door id, connected room id), a later room of the same id replacing an earlier.
pub fn build_room_graph(layout: &DungeonLayout) -> (graph: HashMap<u32, Vec<(u32, u32)>>)
    ensures
        graph_matches(graph@, graph_of(layout.rooms@)),
{
    let mut graph: HashMap<u32, Vec<(u32, u32)>> = HashMap::new();
    let mut i: usize = 0;
    while i < layout.rooms.len()
        invariant
            i <= layout.rooms@.len(),
            graph_matches(graph@, graph_of(layout.rooms@.take(i as int))),
        decreases layout.rooms.len() - i,
    {
        let room = &layout.rooms[i];
        let mut connections: Vec<(u32, u32)> = Vec::new();
        let mut j: usize = 0;
        while j < room.doors.len()
            invariant
                j <= room.doors@.len(),
                connections@ == links_of(room.doors@.take(j as int)),
            decreases room.doors.len() - j,
        {
            connections.push((room.doors[j].door_id, room.doors[j].connected_room_id));
            j += 1;
            assert(links_of(room.doors@.take(j as int)) =~= links_of(room.doors@.take(j - 1)).push(
                (room.doors@[j - 1].door_id, room.doors@[j - 1].connected_room_id),
            ));
        }
        assert(room.doors@.take(j as int) =~= room.doors@);
        graph.insert(room.room_id, connections);
        i += 1;
        assert(layout.rooms@.take(i as int).drop_last() =~= layout.rooms@.take(i - 1));
        assert(graph_matches(graph@, graph_of(layout.rooms@.take(i as int))));
    }
    assert(layout.rooms@.take(i as int) =~= layout.rooms@);
    graph
}

impl DungeonManager {
    /// Starts a dungeon run: the player is in the layout's start room.
    pub fn load(layout: &DungeonLayout) -> (m: DungeonManager)
        ensures
            m.current_room_id == layout.start_room_id,
            graph_matches(m.room_graph@, graph_of(layout.rooms@)),
    {
        DungeonManager { current_room_id: layout.start_room_id, room_graph: build_room_graph(layout) }
    }

    /// The player has walked into `room_id`.
    pub fn enter_room(&mut self, room_id: u32)
        ensures
            final(self).current_room_id == room_id,
            final(self).room_graph@ == old(self).room_graph@,
    {
        self.current_room_id = room_id;
    }
}

impl DungeonSession {
    /// A run in which no room has been cleared yet.
    pub fn new() -> (s: DungeonSession)
        ensures
            s.cleared_rooms@ == Set::<u32>::empty(),
    {
        DungeonSession { cleared_rooms: HashSet::new() }
    }

    /// Remembers `room_id` as cleared; no room is ever forgotten.
    pub fn record_cleared(&mut self, room_id: u32)
        ensures
            final(self).cleared_rooms@ == old(self).cleared_rooms@.insert(room_id),
    {
        self.cleared_rooms.insert(room_id);
    }

    /// Records every room of `room_ids` as cleared, in order: the session then
    /// holds the rooms it held and those rooms; none is forgotten.
    pub fn record_all_cleared(&mut self, room_ids: &Vec<u32>)
        ensures
            final(self).cleared_rooms@ == cleared_after(old(self).cleared_rooms@, room_ids@),
            final(self).cleared_rooms@ == old(self).cleared_rooms@ + room_ids@.to_set(),
    {
        let mut i: usize = 0;
        while i < room_ids.len()
            invariant
                i <= room_ids@.len(),
                self.cleared_rooms@ == cleared_after(old(self).cleared_rooms@, room_ids@.take(i as int)),
            decreases room_ids.len() - i,
        {
            self.record_cleared(room_ids[i]);
            i += 1;
            assert(room_ids@.take(i as int).drop_last() =~= room_ids@.take(i - 1));
        }
        assert(room_ids@.take(i as int) =~= room_ids@);
        proof {
            lemma_session_keeps_every_cleared_room(old(self).cleared_rooms@, room_ids@);
        }
    }

    /// The room was cleared in this run.
    pub fn is_cleared(&self, room_id: u32) -> (r: bool)
        ensures
            r == self.cleared_rooms@.contains(room_id),
    {
        self.cleared_rooms.contains(&room_id)
    }
}

impl Room {
    /// All enemies of the room are defeated.
    pub fn mark_cleared(&mut self)
        ensures
            *final(self) == (Room { state: RoomState::Cleared, ..*old(self) }),
    {
        self.state = RoomState::Cleared;
    }
}

/// The index of the layout's first room with id `room_id`.
pub fn find_layout_room(layout: &DungeonLayout, room_id: u32) -> (r: Option<usize>)
    ensures
        match r {
            Some(k) => first_room(layout.rooms@, room_id, 0) == Some(k as int),
            None => first_room(layout.rooms@, room_id, 0) is None,
        },
{
    let mut k: usize = 0;
    while k < layout.rooms.len()
        invariant
            k <= layout.rooms@.len(),
            first_room(layout.rooms@, room_id, 0) == first_room(layout.rooms@, room_id, k as int),
        decreases layout.rooms.len() - k,
    {
        if layout.rooms[k].room_id == room_id {
            return Some(k);
        }
        k += 1;
    }
    None
}

/// The index of the first door of a layout room with id `door_id`.
pub fn find_layout_door(room: &RoomLayout, door_id: u32) -> (r: Option<usize>)
    ensures
        match r {
            Some(d) => first_door(room.doors@, door_id, 0) == Some(d as int),
            None => first_door(room.doors@, door_id, 0) is None,
        },
        r matches Some(d) ==> d < room.doors@.len() && room.doors@[d as int].door_id == door_id,
        r is None ==> forall|j: int| 0 <= j < room.doors@.len() ==> (#[trigger] room.doors@[j]).door_id != door_id,
{
    proof {
        lemma_first_door(room.doors@, door_id, 0);
    }
    let mut d: usize = 0;
    while d < room.doors.len()
        invariant
            d <= room.doors@.len(),
            first_door(room.doors@, door_id, 0) == first_door(room.doors@, door_id, d as int),
        decreases room.doors.len() - d,
    {
        if room.doors[d].door_id == door_id {
            return Some(d);
        }
        d += 1;
    }
    None
}

/// Loading the current room. Nothing is created when the loaded room already is
/// the current one. Otherwise the room starts cleared if the session remembers it
/// cleared; its spawn point count comes from the layout's first room of that id,
/// or is three; it gets one door per entry of the room graph, unlocked exactly
/// when the room is cleared.
pub fn initialize_room(
    manager: &DungeonManager,
    loaded_room_id: Option<u32>,
    session: &DungeonSession,
    layout: Option<&DungeonLayout>,
) -> (setup: Option<RoomSetup>)
    ensures
        loaded_room_id == Some(manager.current_room_id) ==> setup is None,
        loaded_room_id != Some(manager.current_room_id) ==> setup is Some,
        setup matches Some(s) ==> {
            let current = manager.current_room_id;
            let links: Seq<(u32, u32)> = if manager.room_graph@.contains_key(current) {
                manager.room_graph@[current]@
            } else {
                Seq::empty()
            };
            let found = match layout {
                Some(l) => first_room(l.rooms@, current, 0),
                None => None,
            };
            &&& s.replaces_existing == (loaded_room_id is Some)
            &&& s.room.room_id == current
            &&& s.room.state == initial_room_state(session.cleared_rooms@, current)
            &&& s.layout_room_index == match found {
                Some(k) => Some(k as usize),
                None => None,
            }
            &&& s.room.spawn_point_count == match found {
                Some(k) => layout.unwrap().rooms@[k].spawn_point_count,
                None => DEFAULT_SPAWN_POINT_COUNT,
            }
            &&& s.doors@.len() == links.len()
            &&& forall|i: int| 0 <= i < links.len() ==> {
                &&& (#[trigger] s.doors@[i]).door.door_id == links[i].0
                &&& s.doors@[i].door.connected_room_id == links[i].1
                &&& s.doors@[i].door.state == initial_door_state(session.cleared_rooms@, current)
                &&& s.doors@[i].layout_door_index == match found {
                    Some(k) => match first_door(layout.unwrap().rooms@[k].doors@, links[i].0, 0) {
                        Some(d) => Some(d as usize),
                        None => None,
                    },
                    None => None,
                }
            }
        },
{
    let current = manager.current_room_id;
    let replaces_existing = match loaded_room_id {
        Some(id) => {
            if id == current {
                return None;
            }
            true
        },
        None => false,
    };
    let is_cleared = session.is_cleared(current);
    let state = if is_cleared { RoomState::Cleared } else { RoomState::Uncleared };
    let door_state = if is_cleared { DoorState::Unlocked } else { DoorState::Locked };

    let layout_room_index: Option<usize> = match layout {
        Some(l) => find_layout_room(l, current),
        None => None,
    };
    proof {
        if let Some(l) = layout {
            lemma_first_room(l.rooms@, current, 0);
        }
    }
    let spawn_point_count = match layout_room_index {
        Some(k) => layout.unwrap().rooms[k].spawn_point_count,
        None => DEFAULT_SPAWN_POINT_COUNT,
    };

    let mut doors: Vec<DoorSetup> = Vec::new();
    match manager.room_graph.get(&current) {
        Some(connections) => {
            let mut i: usize = 0;
            while i < connections.len()
                invariant
                    i <= connections@.len(),
                    manager.room_graph@.contains_key(current),
                    manager.room_graph@[current] == *connections,
                    doors@.len() == i,
                    forall|j: int| 0 <= j < i ==> {
                        &&& (#[trigger] doors@[j]).door.door_id == connections@[j].0
                        &&& doors@[j].door.connected_room_id == connections@[j].1
                        &&& doors@[j].door.state == door_state
                        &&& doors@[j].layout_door_index == match layout_room_index {
                            Some(k) => match first_door(layout.unwrap().rooms@[k as int].doors@, connections@[j].0, 0) {
                                Some(d) => Some(d as usize),
                                None => None,
                            },
                            None => None,
                        }
                    },
                    layout_room_index matches Some(k) ==> layout is Some && k < layout.unwrap().rooms@.len(),
                decreases connections.len() - i,
            {
                let (door_id, connected_room_id) = connections[i];
                let layout_door_index = match layout_room_index {
                    Some(k) => find_layout_door(&layout.unwrap().rooms[k], door_id),
                    None => None,
                };
                doors.push(DoorSetup { door: Door { door_id, connected_room_id, state: door_state }, layout_door_index });
                i += 1;
            }
        },
        None => {},
    }
    Some(RoomSetup {
        replaces_existing,
        room: Room { room_id: current, state, spawn_point_count },
        layout_room_index,
        doors,
    })
}

/// The enemies to spawn into the loaded room: one per spawn point that spawns on
/// activation, in order, each under a random id; none when the room is
/// remembered cleared, is not uncleared, or already has living enemies.
pub fn plan_enemy_spawns(
    room: &Room,
    session: &DungeonSession,
    living_enemies: usize,
    spawn_on_activate: &Vec<bool>,
) -> (spawns: Vec<EnemySpawn>)
    ensures
        spawns_enemies(session.cleared_rooms@, *room, living_enemies) ==> spawns@.map_values(
            |s: EnemySpawn| s.spawn_point_index,
        ) == active_spawn_points(spawn_on_activate@),
        !spawns_enemies(session.cleared_rooms@, *room, living_enemies) ==> spawns@.len() == 0,
        spawns_enemies(session.cleared_rooms@, *room, living_enemies) ==> forall|i: int|
            0 <= i < spawn_on_activate@.len() ==> (spawn_on_activate@[i] <==> exists|k: int|
                0 <= k < spawns@.len() && #[trigger] spawns@[k].spawn_point_index == i),
        forall|k: int| 0 <= k < spawns@.len() ==> {
            &&& (#[trigger] spawns@[k]).spawn_point_index < spawn_on_activate@.len()
            &&& spawn_on_activate@[spawns@[k].spawn_point_index as int]
        },
        forall|k1: int, k2: int| 0 <= k1 < k2 < spawns@.len() ==> #[trigger] spawns@[k1].spawn_point_index
            < #[trigger] spawns@[k2].spawn_point_index,
{
    let mut spawns: Vec<EnemySpawn> = Vec::new();
    if session.is_cleared(room.room_id) {
        return spawns;
    }
    if room.state != RoomState::Uncleared {
        return spawns;
    }
    if living_enemies > 0 {
        return spawns;
    }
    let mut i: usize = 0;
    while i < spawn_on_activate.len()
        invariant
            i <= spawn_on_activate@.len(),
            spawns@.map_values(|s: EnemySpawn| s.spawn_point_index) == active_spawn_points(
                spawn_on_activate@.take(i as int),
            ),
        decreases spawn_on_activate.len() - i,
    {
        let ghost before = spawns@;
        if spawn_on_activate[i] {
            spawns.push(EnemySpawn { spawn_point_index: i, enemy_id: random_u32() });
            assert(spawns@.map_values(|s: EnemySpawn| s.spawn_point_index) =~= before.map_values(
                |s: EnemySpawn| s.spawn_point_index,
            ).push(i));
        }
        i += 1;
        assert(spawn_on_activate@.take(i as int).drop_last() =~= spawn_on_activate@.take(i - 1));
    }
    assert(spawn_on_activate@.take(i as int) =~= spawn_on_activate@);
    proof {
        let idx = spawns@.map_values(|s: EnemySpawn| s.spawn_point_index);
        lemma_every_active_spawn_point_spawns(spawn_on_activate@);
        assert forall|i: int| 0 <= i < spawn_on_activate@.len() implies (spawn_on_activate@[i] <==> exists|k: int|
            0 <= k < spawns@.len() && #[trigger] spawns@[k].spawn_point_index == i) by {
            if spawn_on_activate@[i] {
                assert(active_spawn_points(spawn_on_activate@).contains(i as usize));
                let k = choose|k: int| 0 <= k < idx.len() && idx[k] == i as usize;
                assert(spawns@[k].spawn_point_index == i);
            }
            if exists|k: int| 0 <= k < spawns@.len() && #[trigger] spawns@[k].spawn_point_index == i {
                let k = choose|k: int| 0 <= k < spawns@.len() && #[trigger] spawns@[k].spawn_point_index == i;
                assert(idx[k] == spawns@[k].spawn_point_index);
                assert(active_spawn_points(spawn_on_activate@).contains(idx[k]));
            }
        }
        assert forall|k: int| 0 <= k < spawns@.len() implies {
            &&& (#[trigger] spawns@[k]).spawn_point_index < spawn_on_activate@.len()
            &&& spawn_on_activate@[spawns@[k].spawn_point_index as int]
        } by {
            assert(idx[k] == spawns@[k].spawn_point_index);
            assert(active_spawn_points(spawn_on_activate@).contains(idx[k]));
        }
        assert forall|k1: int, k2: int| 0 <= k1 < k2 < spawns@.len() implies #[trigger] spawns@[k1].spawn_point_index
            < #[trigger] spawns@[k2].spawn_point_index by {
            assert(idx[k1] == spawns@[k1].spawn_point_index);
            assert(idx[k2] == spawns@[k2].spawn_point_index);
        }
    }
    spawns
}

/// The loaded room is cleared: it was uncleared and no enemy is left alive.
pub fn room_clear_check(room: &Room, living_enemies: usize) -> (r: bool)
    ensures
        r == (room.state == RoomState::Uncleared && living_enemies == 0),
{
    room.state == RoomState::Uncleared && living_enemies == 0
}

/// An uncleared room without spawn points is cleared at once.
pub fn empty_room_clears(room: &Room, active_spawn_points: usize) -> (r: bool)
    ensures
        r == (room.state == RoomState::Uncleared && active_spawn_points == 0),
{
    room.state == RoomState::Uncleared && active_spawn_points == 0
}

/// Unlocks every locked door once the room is cleared, returning the ids of the
/// doors it unlocked; an uncleared room's doors are left alone.
pub fn unlock_doors(room: &Room, doors: &mut Vec<Door>) -> (unlocked: Vec<u32>)
    ensures
        room.state == RoomState::Cleared ==> final(doors)@ == doors_unlocked(old(doors)@) && unlocked@
            == locked_door_ids(old(doors)@),
        room.state != RoomState::Cleared ==> final(doors)@ == old(doors)@ && unlocked@.len() == 0,
{
    let mut unlocked: Vec<u32> = Vec::new();
    if room.state != RoomState::Cleared {
        return unlocked;
    }
    let ghost original = doors@;
    let mut i: usize = 0;
    while i < doors.len()
        invariant
            i <= doors@.len(),
            doors@.len() == original.len(),
            forall|j: int| 0 <= j < i ==> #[trigger] doors@[j] == doors_unlocked(original)[j],
            forall|j: int| i <= j < doors@.len() ==> #[trigger] doors@[j] == original[j],
            unlocked@ == locked_door_ids(original.take(i as int)),
        decreases doors.len() - i,
    {
        let d = doors[i];
        if d.state == DoorState::Locked {
            unlocked.push(d.door_id);
        }
        doors.set(i, Door { state: DoorState::Unlocked, ..d });
        i += 1;
        assert(original.take(i as int).drop_last() =~= original.take(i - 1));
    }
    assert(original.take(i as int) =~= original);
    assert(doors@ =~= doors_unlocked(original));
    unlocked
}

/// Sets every door to `state`.
fn set_all_doors(doors: &mut Vec<Door>, state: DoorState)
    ensures
        final(doors)@.len() == old(doors)@.len(),
        forall|j: int| 0 <= j < final(doors)@.len() ==> #[trigger] final(doors)@[j] == (Door {
            state,
            ..old(doors)@[j]
        }),
{
    let ghost original = doors@;
    let mut i: usize = 0;
    while i < doors.len()
        invariant
            i <= doors@.len(),
            doors@.len() == original.len(),
            forall|j: int| 0 <= j < i ==> #[trigger] doors@[j] == (Door { state, ..original[j] }),
            forall|j: int| i <= j < doors@.len() ==> #[trigger] doors@[j] == original[j],
        decreases doors.len() - i,
    {
        let d = doors[i];
        doors.set(i, Door { state, ..d });
        i += 1;
    }
}

/// A boss encounter has started: every door of the room is locked.
pub fn lock_doors_for_boss(doors: &mut Vec<Door>)
    ensures
        final(doors)@ == doors_locked(old(doors)@),
{
    set_all_doors(doors, DoorState::Locked);
    assert(doors@ =~= doors_locked(old(doors)@));
}

/// The boss is defeated: every door of the room is unlocked.
pub fn unlock_doors_after_boss(doors: &mut Vec<Door>)
    ensures
        final(doors)@ == doors_unlocked(old(doors)@),
{
    set_all_doors(doors, DoorState::Unlocked);
    assert(doors@ =~= doors_unlocked(old(doors)@));
}

/// Brings a returning player's room in line with the session: a room the session
/// remembers cleared becomes cleared, with every door unlocked.
pub fn restore_room_state(room: &mut Room, doors: &mut Vec<Door>, session: &DungeonSession)
    ensures
        session.cleared_rooms@.contains(old(room).room_id) ==> *final(room) == (Room {
            state: RoomState::Cleared,
            ..*old(room)
        }) && final(doors)@ == doors_unlocked(old(doors)@),
        !session.cleared_rooms@.contains(old(room).room_id) ==> *final(room) == *old(room) && final(doors)@
            == old(doors)@,
{
    if session.is_cleared(room.room_id) {
        if room.state != RoomState::Cleared {
            room.mark_cleared();
        }
        set_all_doors(doors, DoorState::Unlocked);
        assert(doors@ =~= doors_unlocked(old(doors)@));
    }
}

/// Keeps doors in line with their room: a cleared room's doors are all unlocked,
/// an uncleared room's all locked.
pub fn enforce_door_consistency(room: &Room, doors: &mut Vec<Door>)
    ensures
        room.state == RoomState::Cleared ==> final(doors)@ == doors_unlocked(old(doors)@),
        room.state == RoomState::Uncleared ==> final(doors)@ == doors_locked(old(doors)@),
{
    match room.state {
        RoomState::Cleared => {
            set_all_doors(doors, DoorState::Unlocked);
            assert(doors@ =~= doors_unlocked(old(doors)@));
        },
        RoomState::Uncleared => {
            set_all_doors(doors, DoorState::Locked);
            assert(doors@ =~= doors_locked(old(doors)@));
        },
    }
}

/// The player presses the interaction key: when the key was pressed, no item is
/// in pickup range (picking up goes first) and the player is in a room, the first
/// unlocked door the player is near leads from the current room to its connected
/// room. `near[i]` says whether the player is within reach of door `i`.
pub fn door_interaction(
    interact_pressed: bool,
    item_in_pickup_range: bool,
    current_room_id: Option<u32>,
    doors: &Vec<Door>,
    near: &Vec<bool>,
) -> (t: Option<RoomTransition>)
    requires
        near@.len() == doors@.len(),
    ensures
        !interact_pressed || item_in_pickup_range || current_room_id is None ==> t is None,
        interact_pressed && !item_in_pickup_range && current_room_id is Some ==> match first_usable_door(
            doors@,
            near@,
            0,
        ) {
            Some(k) => t == Some(
                RoomTransition {
                    from_room_id: current_room_id.unwrap(),
                    to_room_id: doors@[k].connected_room_id,
                    door_index: k as usize,
                },
            ),
            None => t is None,
        },
{
    if !interact_pressed || item_in_pickup_range {
        return None;
    }
    let from_room_id = match current_room_id {
        Some(id) => id,
        None => {
            return None;
        },
    };
    proof {
        lemma_first_usable_door(doors@, near@, 0);
    }
    let mut i: usize = 0;
    while i < doors.len()
        invariant
            i <= doors@.len(),
            near@.len() == doors@.len(),
            first_usable_door(doors@, near@, 0) == first_usable_door(doors@, near@, i as int),
            interact_pressed,
            !item_in_pickup_range,
            current_room_id == Some(from_room_id),
        decreases doors.len() - i,
    {
        if doors[i].state == DoorState::Unlocked && near[i] {
            return Some(RoomTransition { from_room_id, to_room_id: doors[i].connected_room_id, door_index: i });
        }
        i += 1;
    }
    None
}

/// The "press E" prompt shows while the player is near some unlocked door.
pub fn interaction_prompt_visible(doors: &Vec<Door>, near: &Vec<bool>) -> (r: bool)
    requires
        near@.len() == doors@.len(),
    ensures
        r == (first_usable_door(doors@, near@, 0) is Some),
{
    let mut i: usize = 0;
    while i < doors.len()
        invariant
            i <= doors@.len(),
            near@.len() == doors@.len(),
            first_usable_door(doors@, near@, 0) == first_usable_door(doors@, near@, i as int),
        decreases doors.len() - i,
    {
        if doors[i].state == DoorState::Unlocked && near[i] {
            return true;
        }
        i += 1;
    }
    false
}

/// Progress is kept: a room the session remembers cleared, whatever rooms are
/// cleared afterwards, is still remembered cleared, is loaded cleared with its
/// doors unlocked, and never gets enemies spawned into it.
pub proof fn lemma_cleared_room_stays_cleared(cleared: Set<u32>, room: Room, later: Seq<u32>, living_enemies: usize)
    requires
        cleared.contains(room.room_id),
    ensures
        cleared_after(cleared, later).contains(room.room_id),
        initial_room_state(cleared_after(cleared, later), room.room_id) == RoomState::Cleared,
        initial_door_state(cleared_after(cleared, later), room.room_id) == DoorState::Unlocked,
        !spawns_enemies(cleared_after(cleared, later), room, living_enemies),
    decreases later.len(),
{
    if later.len() > 0 {
        lemma_cleared_room_stays_cleared(cleared, room, later.drop_last(), living_enemies);
    }
}

/// The session after a run of cleared rooms holds exactly the rooms it held
/// before and the rooms of the run: no room is ever removed, and no other room
/// is added.
pub proof fn lemma_session_keeps_every_cleared_room(cleared: Set<u32>, later: Seq<u32>)
    ensures
        cleared_after(cleared, later) == cleared + later.to_set(),
    decreases later.len(),
{
    if later.len() > 0 {
        lemma_session_keeps_every_cleared_room(cleared, later.drop_last());
        assert forall|x: u32| later.to_set().contains(x) <==> later.drop_last().to_set().insert(later.last()).contains(x) by {
            if later.to_set().contains(x) {
                let i = choose|i: int| 0 <= i < later.len() && later[i] == x;
                if i < later.len() - 1 {
                    assert(later.drop_last()[i] == x);
                }
            }
            if later.drop_last().to_set().contains(x) {
                let i = choose|i: int| 0 <= i < later.drop_last().len() && later.drop_last()[i] == x;
                assert(later[i] == x);
            }
            if x == later.last() {
                assert(later[later.len() - 1] == x);
            }
        }
        assert(cleared_after(cleared, later) =~= cleared + later.to_set());
    } else {
        assert(cleared_after(cleared, later) =~= cleared + later.to_set());
    }
}

/// Every spawn point that spawns on activation gets exactly one enemy, and no
/// other does: the active spawn points are exactly the indices whose flag is
/// set, each once, in increasing order.
pub proof fn lemma_every_active_spawn_point_spawns(flags: Seq<bool>)
    requires
        flags.len() <= usize::MAX,
    ensures
        forall|x: usize| #[trigger] active_spawn_points(flags).contains(x) <==> (x < flags.len() && flags[x as int]),
        forall|k: int| 0 <= k < active_spawn_points(flags).len() ==> {
            &&& #[trigger] active_spawn_points(flags)[k] < flags.len()
            &&& flags[active_spawn_points(flags)[k] as int]
        },
        forall|k1: int, k2: int|
            0 <= k1 < k2 < active_spawn_points(flags).len() ==> #[trigger] active_spawn_points(flags)[k1]
                < #[trigger] active_spawn_points(flags)[k2],
    decreases flags.len(),
{
    if flags.len() > 0 {
        let rest = flags.drop_last();
        let n = flags.len() - 1;
        lemma_every_active_spawn_point_spawns(rest);
        let a = active_spawn_points(flags);
        let r = active_spawn_points(rest);
        assert(forall|j: int| 0 <= j < rest.len() ==> rest[j] == flags[j]);
        if flags[n] {
            assert(flags.last() == flags[n]);
            assert(a =~= r.push(n as usize));
        } else {
            assert(a =~= r);
        }
        assert forall|k: int| 0 <= k < a.len() implies {
            &&& #[trigger] a[k] < flags.len()
            &&& flags[a[k] as int]
        } by {
            if k < r.len() {
                assert(a[k] == r[k]);
            }
        }
        assert forall|k1: int, k2: int| 0 <= k1 < k2 < a.len() implies #[trigger] a[k1] < #[trigger] a[k2] by {
            if k2 < r.len() {
                assert(a[k1] == r[k1] && a[k2] == r[k2]);
            } else {
                assert(a[k1] == r[k1]);
            }
        }
        assert forall|x: usize| #[trigger] a.contains(x) <==> (x < flags.len() && flags[x as int]) by {
            if a.contains(x) {
                let k = choose|k: int| 0 <= k < a.len() && a[k] == x;
                assert(a[k] < flags.len() && flags[a[k] as int]);
            }
            if x < flags.len() && flags[x as int] {
                if (x as int) < n {
                    assert(r.contains(x));
                    let k = choose|k: int| 0 <= k < r.len() && r[k] == x;
                    assert(a[k] == x);
                } else {
                    assert(a[a.len() - 1] == x);
                }
            }
        }
    } else {
        assert(active_spawn_points(flags) =~= Seq::<usize>::empty());
    }
}

/// A cleared room never keeps a locked door: once its doors are unlocked, none is
/// locked, a second unlocking finds no locked door and changes nothing, and each
/// door keeps its id and the room it leads to.
pub proof fn lemma_cleared_room_doors_open(doors: Seq<Door>)
    ensures
        doors_unlocked(doors).len() == doors.len(),
        forall|i: int| 0 <= i < doors.len() ==> {
            &&& (#[trigger] doors_unlocked(doors)[i]).state == DoorState::Unlocked
            &&& doors_unlocked(doors)[i].door_id == doors[i].door_id
            &&& doors_unlocked(doors)[i].connected_room_id == doors[i].connected_room_id
        },
        locked_door_ids(doors_unlocked(doors)).len() == 0,
        doors_unlocked(doors_unlocked(doors)) == doors_unlocked(doors),
    decreases doors.len(),
{
    if doors.len() > 0 {
        lemma_cleared_room_doors_open(doors.drop_last());
        assert(doors_unlocked(doors).drop_last() =~= doors_unlocked(doors.drop_last()));
    }
    assert(doors_unlocked(doors_unlocked(doors)) =~= doors_unlocked(doors));
}

} // verus!
