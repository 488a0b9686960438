//! Loot on the ground: which loot table an enemy drops from, the drop used when
//! the table is not loaded, and picking items up, each item at most once.
use vstd::prelude::*;

use crate::chance::random_in_range;

verus! {

/// The item dropped when an enemy's loot table is not available: gold coins.
pub const FALLBACK_DROP_ITEM_ID: u32 = 1;

/// How many of the fallback item are dropped.
pub const FALLBACK_DROP_QUANTITY: u32 = 5;

/// The kinds of enemies.
#[derive(Clone, Copy, PartialEq, Eq, Structural, Debug)]
pub enum EnemyType {
    Slime,
}

/// How picked-up items are collected.
#[derive(Clone, Copy, PartialEq, Eq, Structural, Debug)]
pub enum PickupMode {
    /// The pickup key picks up the nearest item in range.
    Manual,
    /// Every item in range is picked up at once.
    Automatic,
}

/// How a dropped item looks.
#[derive(Clone, Copy, PartialEq, Eq, Structural, Debug)]
pub enum DropLook {
    GoldCoin,
    HealthPotion,
    Other,
}

/// An item lying in the world.
#[derive(Clone, Copy, PartialEq, Eq, Structural, Debug)]
pub struct WorldItem {
    pub item_id: u32,
    pub quantity: u32,
    pub picked_up: bool,
}

/// An item was picked up (the inventory takes it in next).
#[derive(Clone, Copy, PartialEq, Eq, Structural, Debug)]
pub struct ItemPickedUp {
    pub item_index: usize,
    pub item_id: u32,
    pub quantity: u32,
}

/// One entry of a loot table (its drop chance stays with the caller, who rolls
/// it): the item and how many of it drop.
#[derive(Clone, Copy, PartialEq, Eq, Structural, Debug)]
pub struct LootEntry {
    pub item_id: u32,
    pub quantity_min: u32,
    pub quantity_max: u32,
}

/// A loot table.
#[derive(Clone, Debug)]
pub struct LootTable {
    pub id: String,
    pub entries: Vec<LootEntry>,
}

/// An item dropped on the ground.
#[derive(Clone, Copy, PartialEq, Eq, Structural, Debug)]
pub struct LootDrop {
    pub item_id: u32,
    pub quantity: u32,
}

/// The entries whose drop chance came up, in order.
pub open spec fn entries_dropped(entries: Seq<LootEntry>, chance_passed: Seq<bool>) -> Seq<LootEntry>
    decreases entries.len(),
{
    if entries.len() == 0 {
        Seq::empty()
    } else {
        let rest = entries_dropped(entries.drop_last(), chance_passed);
        if chance_passed[entries.len() - 1] {
            rest.push(entries.last())
        } else {
            rest
        }
    }
}

/// `drops` are the entries `dropped`, each with a quantity in its range.
pub open spec fn drops_match(drops: Seq<LootDrop>, dropped: Seq<LootEntry>) -> bool {
    &&& drops.len() == dropped.len()
    &&& forall|k: int| 0 <= k < drops.len() ==> {
        &&& (#[trigger] drops[k]).item_id == dropped[k].item_id
        &&& dropped[k].quantity_min <= drops[k].quantity <= dropped[k].quantity_max
    }
}

/// The first table, at or after `from`, whose id is `id`.
pub open spec fn first_table(tables: Seq<LootTable>, id: Seq<char>, from: int) -> Option<int>
    decreases tables.len() - from,
{
    if from < 0 || from >= tables.len() {
        None
    } else if tables[from].id@ == id {
        Some(from)
    } else {
        first_table(tables, id, from + 1)
    }
}

/// The indices, in order, of the items that are in range and not yet picked up.
pub open spec fn collectable(items: Seq<WorldItem>, in_range: Seq<bool>) -> Seq<usize>
    decreases items.len(),
{
    if items.len() == 0 {
        Seq::empty()
    } else {
        let rest = collectable(items.drop_last(), in_range);
        let i = items.len() - 1;
        if in_range[i] && !items[i].picked_up {
            rest.push(i as usize)
        } else {
            rest
        }
    }
}

/// The loot table an enemy type drops from.
pub fn loot_table_id(enemy_type: EnemyType) -> (id: &'static str)
    ensures
        id@ == "slime"@,
{
    match enemy_type {
        EnemyType::Slime => "slime",
    }
}

/// The item dropped when the loot table is not loaded: five gold coins.
pub fn fallback_drop() -> (item: WorldItem)
    ensures
        item == (WorldItem { item_id: FALLBACK_DROP_ITEM_ID, quantity: FALLBACK_DROP_QUANTITY, picked_up: false }),
{
    WorldItem { item_id: FALLBACK_DROP_ITEM_ID, quantity: FALLBACK_DROP_QUANTITY, picked_up: false }
}

/// A dropped item shows its quantity when there is more than one.
pub fn shows_quantity_label(quantity: u32) -> (r: bool)
    ensures
        r == (quantity > 1),
{
    quantity > 1
}

/// How a dropped item looks: item 1 is a gold coin, item 2 a health potion.
pub fn drop_look(item_id: u32) -> (look: DropLook)
    ensures
        look == (if item_id == 1 {
            DropLook::GoldCoin
        } else if item_id == 2 {
            DropLook::HealthPotion
        } else {
            DropLook::Other
        }),
{
    match item_id {
        1 => DropLook::GoldCoin,
        2 => DropLook::HealthPotion,
        _ => DropLook::Other,
    }
}

/// The index of the first loot table of the enemy type's table id.
pub fn find_loot_table(tables: &Vec<LootTable>, enemy_type: EnemyType) -> (r: Option<usize>)
    ensures
        match r {
            Some(k) => first_table(tables@, "slime"@, 0) == Some(k as int),
            None => first_table(tables@, "slime"@, 0) is None,
        },
{
    let wanted = loot_table_id(enemy_type).to_string();
    let mut k: usize = 0;
    while k < tables.len()
        invariant
            k <= tables@.len(),
            wanted@ == "slime"@,
            first_table(tables@, "slime"@, 0) == first_table(tables@, "slime"@, k as int),
        decreases tables.len() - k,
    {
        if tables[k].id == wanted {
            return Some(k);
        }
        k += 1;
    }
    None
}

/// The items a table drops: one per entry whose chance came up
/// (`chance_passed[i]` for entry `i`), in order, each in a random quantity within
/// the entry's range.
pub fn roll_loot_drops(table: &LootTable, chance_passed: &Vec<bool>) -> (drops: Vec<LootDrop>)
    requires
        chance_passed@.len() == table.entries@.len(),
        forall|i: int| 0 <= i < table.entries@.len() ==> (#[trigger] table.entries@[i]).quantity_min
            <= table.entries@[i].quantity_max,
    ensures
        drops_match(drops@, entries_dropped(table.entries@, chance_passed@)),
{
    let mut drops: Vec<LootDrop> = Vec::new();
    let mut i: usize = 0;
    while i < table.entries.len()
        invariant
            i <= table.entries@.len(),
            chance_passed@.len() == table.entries@.len(),
            forall|j: int| 0 <= j < table.entries@.len() ==> (#[trigger] table.entries@[j]).quantity_min
                <= table.entries@[j].quantity_max,
            drops_match(drops@, entries_dropped(table.entries@.take(i as int), chance_passed@)),
        decreases table.entries.len() - i,
    {
        let entry = table.entries[i];
        if chance_passed[i] {
            let quantity = random_in_range(entry.quantity_min, entry.quantity_max);
            drops.push(LootDrop { item_id: entry.item_id, quantity });
        }
        i += 1;
        assert(table.entries@.take(i as int).drop_last() =~= table.entries@.take(i - 1));
    }
    assert(table.entries@.take(i as int) =~= table.entries@);
    drops
}

/// The loot of a defeated enemy: rolled from its type's table when that table is
/// loaded (`chance_passed` holds the table's rolls), else the fallback drop of
/// five gold coins.
pub fn loot_for_defeat(tables: &Vec<LootTable>, enemy_type: EnemyType, chance_passed: &Vec<bool>) -> (drops: Vec<LootDrop>)
    requires
        forall|k: int| 0 <= k < tables@.len() ==> forall|i: int| 0 <= i < (#[trigger] tables@[k]).entries@.len()
            ==> (#[trigger] tables@[k].entries@[i]).quantity_min <= tables@[k].entries@[i].quantity_max,
        first_table(tables@, "slime"@, 0) matches Some(k) ==> chance_passed@.len() == tables@[k].entries@.len(),
    ensures
        match first_table(tables@, "slime"@, 0) {
            Some(k) => drops_match(drops@, entries_dropped(tables@[k].entries@, chance_passed@)),
            None => drops@ == seq![LootDrop { item_id: FALLBACK_DROP_ITEM_ID, quantity: FALLBACK_DROP_QUANTITY }],
        },
{
    proof {
        lemma_first_table(tables@, "slime"@, 0);
    }
    match find_loot_table(tables, enemy_type) {
        Some(k) => roll_loot_drops(&tables[k], chance_passed),
        None => {
            let drops = vec![LootDrop { item_id: FALLBACK_DROP_ITEM_ID, quantity: FALLBACK_DROP_QUANTITY }];
            assert(drops@ =~= seq![LootDrop { item_id: FALLBACK_DROP_ITEM_ID, quantity: FALLBACK_DROP_QUANTITY }]);
            drops
        },
    }
}

/// Where `first_table` points: a table of that id with none before it.
pub proof fn lemma_first_table(tables: Seq<LootTable>, id: Seq<char>, from: int)
    requires
        0 <= from,
    ensures
        match first_table(tables, id, from) {
            Some(k) => from <= k < tables.len() && tables[k].id@ == id,
            None => true,
        },
    decreases tables.len() - from,
{
    if from < tables.len() && tables[from].id@ != id {
        lemma_first_table(tables, id, from + 1);
    }
}

impl WorldItem {
    /// Claims the item for a player: succeeds only if nobody picked it up before,
    /// and marks it picked up.
    pub fn claim(&mut self) -> (ok: bool)
        ensures
            ok == claim_succeeds(*old(self)),
            *final(self) == claimed(*old(self)),
    {
        if self.picked_up {
            return false;
        }
        self.picked_up = true;
        true
    }
}

/// Manual pickup: in manual mode, when the pickup key was pressed, the nearest
/// item in range (`nearest`, chosen by the caller among the items not yet picked
/// up) is claimed and reported.
pub fn manual_pickup(
    mode: PickupMode,
    key_pressed: bool,
    items: &mut Vec<WorldItem>,
    nearest: Option<usize>,
) -> (picked: Option<ItemPickedUp>)
    requires
        nearest matches Some(i) ==> i < old(items)@.len(),
    ensures
        mode == PickupMode::Manual && key_pressed && nearest is Some && !old(items)@[nearest.unwrap() as int].picked_up ==> {
            let i = nearest.unwrap();
            &&& picked == Some(
                ItemPickedUp { item_index: i, item_id: old(items)@[i as int].item_id, quantity: old(items)@[i as int].quantity },
            )
            &&& final(items)@ == old(items)@.update(i as int, WorldItem { picked_up: true, ..old(items)@[i as int] })
        },
        !(mode == PickupMode::Manual && key_pressed && nearest is Some && !old(items)@[nearest.unwrap() as int].picked_up)
            ==> picked is None && final(items)@ == old(items)@,
{
    if mode != PickupMode::Manual || !key_pressed {
        return None;
    }
    match nearest {
        Some(i) => {
            let mut item = items[i];
            if item.claim() {
                items.set(i, item);
                Some(ItemPickedUp { item_index: i, item_id: item.item_id, quantity: item.quantity })
            } else {
                None
            }
        },
        None => None,
    }
}

/// Automatic pickup: in automatic mode every item in range that nobody picked up
/// yet is claimed; returns the pickups in item order.
pub fn automatic_pickup(mode: PickupMode, items: &mut Vec<WorldItem>, in_range: &Vec<bool>) -> (picked: Vec<ItemPickedUp>)
    requires
        in_range@.len() == old(items)@.len(),
    ensures
        final(items)@.len() == old(items)@.len(),
        mode != PickupMode::Automatic ==> picked@.len() == 0 && final(items)@ == old(items)@,
        mode == PickupMode::Automatic ==> {
            &&& picked@.map_values(|p: ItemPickedUp| p.item_index) == collectable(old(items)@, in_range@)
            &&& forall|k: int| 0 <= k < picked@.len() ==> {
                let i = (#[trigger] picked@[k]).item_index as int;
                &&& picked@[k].item_id == old(items)@[i].item_id
                &&& picked@[k].quantity == old(items)@[i].quantity
            }
            &&& final(items)@ == after_automatic_pickup(old(items)@, in_range@)
        },
{
    let mut picked: Vec<ItemPickedUp> = Vec::new();
    if mode != PickupMode::Automatic {
        return picked;
    }
    let ghost original = items@;
    let mut i: usize = 0;
    while i < items.len()
        invariant
            i <= items@.len(),
            items@.len() == original.len(),
            in_range@.len() == original.len(),
            picked@.map_values(|p: ItemPickedUp| p.item_index) == collectable(original.take(i as int), in_range@),
            forall|k: int| 0 <= k < picked@.len() ==> {
                let j = (#[trigger] picked@[k]).item_index as int;
                &&& 0 <= j < i
                &&& picked@[k].item_id == original[j].item_id
                &&& picked@[k].quantity == original[j].quantity
            },
            forall|j: int| 0 <= j < i ==> (#[trigger] items@[j]) == (if in_range@[j] {
                WorldItem { picked_up: true, ..original[j] }
            } else {
                original[j]
            }),
            forall|j: int| i <= j < items@.len() ==> #[trigger] items@[j] == original[j],
        decreases items.len() - i,
    {
        let ghost before = picked@;
        if in_range[i] {
            let mut item = items[i];
            if item.claim() {
                picked.push(ItemPickedUp { item_index: i, item_id: item.item_id, quantity: item.quantity });
                assert(picked@.map_values(|p: ItemPickedUp| p.item_index) =~= before.map_values(
                    |p: ItemPickedUp| p.item_index,
                ).push(i));
            }
            items.set(i, item);
        }
        i += 1;
        assert(original.take(i as int).drop_last() =~= original.take(i - 1));
    }
    assert(original.take(i as int) =~= original);
    assert(items@ =~= after_automatic_pickup(original, in_range@));
    picked
}

/// A claim of the item succeeds: nobody picked it up before.
pub open spec fn claim_succeeds(item: WorldItem) -> bool {
    !item.picked_up
}

/// The item once claimed: marked picked up.
pub open spec fn claimed(item: WorldItem) -> WorldItem {
    WorldItem { picked_up: true, ..item }
}

/// The items after automatic pickup: every item in range is marked picked up.
pub open spec fn after_automatic_pickup(items: Seq<WorldItem>, in_range: Seq<bool>) -> Seq<WorldItem> {
    Seq::new(
        items.len(),
        |i: int|
            if in_range[i] {
                claimed(items[i])
            } else {
                items[i]
            },
    )
}

/// Every index `collectable` lists is an item in range that nobody picked up.
proof fn lemma_collectable_index(items: Seq<WorldItem>, in_range: Seq<bool>, k: int)
    requires
        items.len() <= usize::MAX,
        in_range.len() >= items.len(),
        0 <= k < collectable(items, in_range).len(),
    ensures
        ({
            let i = collectable(items, in_range)[k] as int;
            0 <= i < items.len() && !items[i].picked_up && in_range[i]
        }),
    decreases items.len(),
{
    let rest = collectable(items.drop_last(), in_range);
    let last = items.len() - 1;
    let whole = collectable(items, in_range);
    if in_range[last] && !items[last].picked_up {
        assert(whole == rest.push(last as usize));
    } else {
        assert(whole == rest);
    }
    if k < rest.len() {
        lemma_collectable_index(items.drop_last(), in_range, k);
        let i = rest[k] as int;
        assert(items.drop_last()[i] == items[i]);
    }
}

/// An item is picked up at most once: once claimed, a second claim of it fails;
/// automatic pickup reports only items in range that nobody had picked up; and a
/// later automatic pickup, whatever is in range then, never reports an item the
/// earlier one reported.
pub proof fn lemma_item_picked_up_once(
    item: WorldItem,
    items: Seq<WorldItem>,
    in_range: Seq<bool>,
    later_in_range: Seq<bool>,
    k: int,
    m: int,
)
    requires
        items.len() <= usize::MAX,
        in_range.len() == items.len(),
        later_in_range.len() == items.len(),
        0 <= k < collectable(items, in_range).len(),
        0 <= m < collectable(after_automatic_pickup(items, in_range), later_in_range).len(),
    ensures
        !claim_succeeds(claimed(item)),
        ({
            let i = collectable(items, in_range)[k] as int;
            0 <= i < items.len() && !items[i].picked_up && in_range[i]
        }),
        collectable(items, in_range)[k] != collectable(after_automatic_pickup(items, in_range), later_in_range)[m],
{
    let after = after_automatic_pickup(items, in_range);
    lemma_collectable_index(items, in_range, k);
    lemma_collectable_index(after, later_in_range, m);
    let i = collectable(items, in_range)[k] as int;
    assert(after[i].picked_up);
}

} // verus!
