//! The player's inventory: a fixed row of slots, each empty or holding a stack of
//! one item, and the rules by which picked-up items are stacked or placed.
use vstd::prelude::*;

use crate::text::{unknown_item_label, unknown_item_name};
use vstd::string::StringSliceAdditionalSpecFns;

verus! {

broadcast use vstd::string::group_string_axioms;

/// Number of slots in a player's inventory.
pub const INVENTORY_SIZE: usize = 30;

/// Stack limit of an item that has no definition.
pub const DEFAULT_MAX_STACK: u32 = 99;

/// One occupied inventory slot: which item, and how many of it.
#[derive(Clone, Copy, PartialEq, Eq, Structural, Debug)]
pub struct InventorySlot {
    pub item_id: u32,
    pub quantity: u32,
}

/// The result of putting `incoming` items onto a stack of `current`.
#[derive(Clone, Copy, PartialEq, Eq, Structural, Debug)]
pub enum StackResult {
    /// Everything fits: the stack now holds this many.
    Merge(u32),
    /// The stack is filled to `remaining`; `overflow` items are left over.
    Split { remaining: u32, overflow: u32 },
}

/// What handling one picked-up item did to the inventory.
#[derive(Clone, Copy, PartialEq, Eq, Structural, Debug)]
pub enum PickupOutcome {
    /// No stack of the item and no empty slot: nothing changed.
    InventoryFull,
    /// Merged into the stack at `slot_index`, which now holds `total_quantity`.
    Stacked { slot_index: usize, total_quantity: u32 },
    /// The stack at `slot_index` was filled to its limit; the `overflow` went to
    /// `overflow_slot`, or was dropped when no slot was empty.
    SplitStack { slot_index: usize, overflow_slot: Option<usize>, overflow: u32 },
    /// The item started a new stack in the empty slot `slot_index`.
    Placed { slot_index: usize },
}

/// The definition of an item kind, as loaded from the item data file.
#[derive(Clone, Debug)]
pub struct ItemDefinition {
    pub id: u32,
    pub name: String,
    pub icon_path: String,
    pub stackable: bool,
    pub max_stack: u32,
}

/// What the inventory screen shows for one slot.
#[derive(Clone, Debug)]
pub struct InventorySlotUiData {
    pub item_id: Option<u32>,
    pub quantity: u32,
    pub item_name: String,
    pub icon_path: String,
}

/// A player's inventory.
#[derive(Clone, Debug)]
pub struct Inventory {
    pub slots: Vec<Option<InventorySlot>>,
}

/// `slot` holds a stack of `item_id`.
pub open spec fn holds_item(slot: Option<InventorySlot>, item_id: u32) -> bool {
    match slot {
        Some(s) => s.item_id == item_id,
        None => false,
    }
}

/// The first index at or after `from` whose slot holds `item_id`.
pub open spec fn first_holding(slots: Seq<Option<InventorySlot>>, item_id: u32, from: int) -> Option<int>
    decreases slots.len() - from,
{
    if from < 0 || from >= slots.len() {
        None
    } else if holds_item(slots[from], item_id) {
        Some(from)
    } else {
        first_holding(slots, item_id, from + 1)
    }
}

/// The first empty slot at or after `from`.
pub open spec fn first_empty(slots: Seq<Option<InventorySlot>>, from: int) -> Option<int>
    decreases slots.len() - from,
{
    if from < 0 || from >= slots.len() {
        None
    } else if slots[from] is None {
        Some(from)
    } else {
        first_empty(slots, from + 1)
    }
}

/// How many items the slot at `i` holds (0 when empty).
pub open spec fn quantity_at(slots: Seq<Option<InventorySlot>>, i: int) -> u32 {
    match slots[i] {
        Some(s) => s.quantity,
        None => 0,
    }
}

/// Stacking `incoming` onto `current` with the limit `max_stack`.
pub open spec fn stack_result(current: u32, incoming: u32, max_stack: u32) -> StackResult {
    if current + incoming <= max_stack {
        StackResult::Merge((current + incoming) as u32)
    } else {
        StackResult::Split { remaining: max_stack, overflow: (current + incoming - max_stack) as u32 }
    }
}

/// An item can be taken in: it has a stack, or some slot is empty.
pub open spec fn can_take(slots: Seq<Option<InventorySlot>>, item_id: u32) -> bool {
    first_holding(slots, item_id, 0) is Some || first_empty(slots, 0) is Some
}

/// Adding the item does not overflow a `u32` stack count.
pub open spec fn pickup_fits(slots: Seq<Option<InventorySlot>>, item_id: u32, quantity: u32) -> bool {
    match first_holding(slots, item_id, 0) {
        Some(i) => quantity_at(slots, i) + quantity <= u32::MAX,
        None => true,
    }
}

/// The slots after picking up `quantity` of `item_id`, and what happened: merge
/// into the first stack of the item when there is one (a full stack spills its
/// overflow into the first empty slot), else start a stack in the first empty slot.
pub open spec fn after_pickup(
    slots: Seq<Option<InventorySlot>>,
    item_id: u32,
    quantity: u32,
    max_stack: u32,
) -> (Seq<Option<InventorySlot>>, PickupOutcome) {
    match first_holding(slots, item_id, 0) {
        Some(i) => match stack_result(quantity_at(slots, i), quantity, max_stack) {
            StackResult::Merge(total) => (
                slots.update(i, Some(InventorySlot { item_id, quantity: total })),
                PickupOutcome::Stacked { slot_index: i as usize, total_quantity: total },
            ),
            StackResult::Split { remaining, overflow } => {
                let filled = slots.update(i, Some(InventorySlot { item_id, quantity: remaining }));
                match first_empty(filled, 0) {
                    Some(j) => (
                        filled.update(j, Some(InventorySlot { item_id, quantity: overflow })),
                        PickupOutcome::SplitStack {
                            slot_index: i as usize,
                            overflow_slot: Some(j as usize),
                            overflow,
                        },
                    ),
                    None => (
                        filled,
                        PickupOutcome::SplitStack { slot_index: i as usize, overflow_slot: None, overflow },
                    ),
                }
            },
        },
        None => match first_empty(slots, 0) {
            Some(j) => (
                slots.update(j, Some(InventorySlot { item_id, quantity })),
                PickupOutcome::Placed { slot_index: j as usize },
            ),
            None => (slots, PickupOutcome::InventoryFull),
        },
    }
}

/// How many of `item_id` the slot holds.
pub open spec fn held_of(slot: Option<InventorySlot>, item_id: u32) -> int {
    match slot {
        Some(s) => if s.item_id == item_id { s.quantity as int } else { 0 },
        None => 0,
    }
}

/// How many of `item_id` the slots hold in all.
pub open spec fn total_of(slots: Seq<Option<InventorySlot>>, item_id: u32) -> int
    decreases slots.len(),
{
    if slots.len() == 0 {
        0
    } else {
        total_of(slots.drop_last(), item_id) + held_of(slots.last(), item_id)
    }
}

/// The index of the first definition with id `id`.
pub open spec fn first_definition(defs: Seq<ItemDefinition>, id: u32, from: int) -> Option<int>
    decreases defs.len() - from,
{
    if from < 0 || from >= defs.len() {
        None
    } else if defs[from].id == id {
        Some(from)
    } else {
        first_definition(defs, id, from + 1)
    }
}

/// The stack limit of `id`: that of its first definition, else the default.
pub open spec fn max_stack_of(defs: Seq<ItemDefinition>, id: u32) -> u32 {
    match first_definition(defs, id, 0) {
        Some(k) => defs[k].max_stack,
        None => DEFAULT_MAX_STACK,
    }
}

/// The path of the icon shown for items without a definition.
pub open spec fn unknown_icon_path() -> Seq<char> {
    seq!['s', 'p', 'r', 'i', 't', 'e', 's', '/', 'i', 't', 'e', 'm', 's', '/', 'u', 'n', 'k', 'n', 'o', 'w', 'n', '.', 'p', 'n', 'g']
}

/// What the inventory screen shows for `slot`, given the item definitions.
pub open spec fn slot_ui_matches(slot: Option<InventorySlot>, defs: Seq<ItemDefinition>, ui: InventorySlotUiData) -> bool {
    match slot {
        Some(s) => {
            &&& ui.item_id == Some(s.item_id)
            &&& ui.quantity == s.quantity
            &&& match first_definition(defs, s.item_id, 0) {
                Some(k) => ui.item_name@ == defs[k].name@ && ui.icon_path@ == defs[k].icon_path@,
                None => ui.item_name@ == unknown_item_label(s.item_id) && ui.icon_path@ == unknown_icon_path(),
            }
        },
        None => {
            &&& ui.item_id is None
            &&& ui.quantity == 0
            &&& ui.item_name@.len() == 0
            &&& ui.icon_path@.len() == 0
        },
    }
}

/// Where `first_holding` points: a holding slot with none before it.
pub proof fn lemma_first_holding(slots: Seq<Option<InventorySlot>>, item_id: u32, from: int)
    requires
        0 <= from,
    ensures
        match first_holding(slots, item_id, from) {
            Some(i) => from <= i < slots.len() && holds_item(slots[i], item_id) && forall|k: int|
                from <= k < i ==> !holds_item(#[trigger] slots[k], item_id),
            None => forall|k: int| from <= k < slots.len() ==> !holds_item(#[trigger] slots[k], item_id),
        },
    decreases slots.len() - from,
{
    if from < slots.len() && !holds_item(slots[from], item_id) {
        lemma_first_holding(slots, item_id, from + 1);
    }
}

/// Where `first_empty` points: an empty slot with none before it.
pub proof fn lemma_first_empty(slots: Seq<Option<InventorySlot>>, from: int)
    requires
        0 <= from,
    ensures
        match first_empty(slots, from) {
            Some(i) => from <= i < slots.len() && slots[i] is None && forall|k: int|
                from <= k < i ==> #[trigger] slots[k] is Some,
            None => forall|k: int| from <= k < slots.len() ==> #[trigger] slots[k] is Some,
        },
    decreases slots.len() - from,
{
    if from < slots.len() && slots[from] is Some {
        lemma_first_empty(slots, from + 1);
    }
}

/// Where `first_definition` points: a definition of `id` with none before it.
pub proof fn lemma_first_definition(defs: Seq<ItemDefinition>, id: u32, from: int)
    requires
        0 <= from,
    ensures
        match first_definition(defs, id, from) {
            Some(k) => from <= k < defs.len() && defs[k].id == id && forall|j: int|
                from <= j < k ==> (#[trigger] defs[j]).id != id,
            None => forall|j: int| from <= j < defs.len() ==> (#[trigger] defs[j]).id != id,
        },
    decreases defs.len() - from,
{
    if from < defs.len() && defs[from].id != id {
        lemma_first_definition(defs, id, from + 1);
    }
}

/// Changing one slot changes an item's total by the difference of the two slots.
proof fn lemma_total_of_update(
    slots: Seq<Option<InventorySlot>>,
    i: int,
    v: Option<InventorySlot>,
    item_id: u32,
)
    requires
        0 <= i < slots.len(),
    ensures
        total_of(slots.update(i, v), item_id) == total_of(slots, item_id) - held_of(slots[i], item_id)
            + held_of(v, item_id),
    decreases slots.len(),
{
    let u = slots.update(i, v);
    if i == slots.len() - 1 {
        assert(u.drop_last() =~= slots.drop_last());
    } else {
        lemma_total_of_update(slots.drop_last(), i, v, item_id);
        assert(u.drop_last() =~= slots.drop_last().update(i, v));
    }
}

/// Picking up items loses none and touches no other item: the inventory is full
/// exactly when the item has no stack and no slot is empty, and then nothing
/// changes; otherwise the item's total grows by the quantity picked up, less the
/// overflow of a full stack that found no empty slot; every other item's total
/// stays as it was.
pub proof fn lemma_pickup_conserves_items(
    slots: Seq<Option<InventorySlot>>,
    item_id: u32,
    quantity: u32,
    max_stack: u32,
)
    requires
        pickup_fits(slots, item_id, quantity),
    ensures
        ({
            let (after, out) = after_pickup(slots, item_id, quantity, max_stack);
            &&& (out == PickupOutcome::InventoryFull) == !can_take(slots, item_id)
            &&& out == PickupOutcome::InventoryFull ==> after == slots
            &&& match out {
                PickupOutcome::InventoryFull => total_of(after, item_id) == total_of(slots, item_id),
                PickupOutcome::SplitStack { overflow_slot: None, overflow, .. } => total_of(after, item_id)
                    == total_of(slots, item_id) + quantity - overflow,
                _ => total_of(after, item_id) == total_of(slots, item_id) + quantity,
            }
            &&& forall|other: u32| other != item_id ==> #[trigger] total_of(after, other) == total_of(slots, other)
        }),
{
    lemma_first_holding(slots, item_id, 0);
    lemma_first_empty(slots, 0);
    let (after, out) = after_pickup(slots, item_id, quantity, max_stack);
    match first_holding(slots, item_id, 0) {
        Some(i) => {
            let cur = quantity_at(slots, i);
            match stack_result(cur, quantity, max_stack) {
                StackResult::Merge(total) => {
                    let v = Some(InventorySlot { item_id, quantity: total });
                    lemma_total_of_update(slots, i, v, item_id);
                    assert forall|other: u32| other != item_id implies #[trigger] total_of(after, other)
                        == total_of(slots, other) by {
                        lemma_total_of_update(slots, i, v, other);
                    }
                },
                StackResult::Split { remaining, overflow } => {
                    let v = Some(InventorySlot { item_id, quantity: remaining });
                    let filled = slots.update(i, v);
                    lemma_total_of_update(slots, i, v, item_id);
                    lemma_first_empty(filled, 0);
                    match first_empty(filled, 0) {
                        Some(j) => {
                            let w = Some(InventorySlot { item_id, quantity: overflow });
                            lemma_total_of_update(filled, j, w, item_id);
                            assert forall|other: u32| other != item_id implies #[trigger] total_of(after, other)
                                == total_of(slots, other) by {
                                lemma_total_of_update(slots, i, v, other);
                                lemma_total_of_update(filled, j, w, other);
                            }
                        },
                        None => {
                            assert forall|other: u32| other != item_id implies #[trigger] total_of(after, other)
                                == total_of(slots, other) by {
                                lemma_total_of_update(slots, i, v, other);
                            }
                        },
                    }
                },
            }
        },
        None => {
            match first_empty(slots, 0) {
                Some(j) => {
                    let w = Some(InventorySlot { item_id, quantity });
                    lemma_total_of_update(slots, j, w, item_id);
                    assert forall|other: u32| other != item_id implies #[trigger] total_of(after, other)
                        == total_of(slots, other) by {
                        lemma_total_of_update(slots, j, w, other);
                    }
                },
                None => {},
            }
        },
    }
}

/// Stacks stay within their limit: when every stack of the item is within
/// `max_stack` and no more than `max_stack` are picked up, every stack of the item
/// is still within `max_stack` afterwards.
pub proof fn lemma_pickup_respects_stack_limit(
    slots: Seq<Option<InventorySlot>>,
    item_id: u32,
    quantity: u32,
    max_stack: u32,
)
    requires
        pickup_fits(slots, item_id, quantity),
        quantity <= max_stack,
        forall|k: int| 0 <= k < slots.len() && holds_item(#[trigger] slots[k], item_id) ==> quantity_at(slots, k) <= max_stack,
    ensures
        ({
            let after = after_pickup(slots, item_id, quantity, max_stack).0;
            forall|k: int| 0 <= k < after.len() && holds_item(#[trigger] after[k], item_id) ==> quantity_at(after, k) <= max_stack
        }),
{
    lemma_first_holding(slots, item_id, 0);
    lemma_first_empty(slots, 0);
    match first_holding(slots, item_id, 0) {
        Some(i) => {
            let filled = slots.update(i, Some(InventorySlot { item_id, quantity: max_stack }));
            lemma_first_empty(filled, 0);
        },
        None => {},
    }
}

/// How many bytes of an item's name fit in an inventory slot.
pub const SLOT_NAME_BYTES: usize = 8;

/// The number of slots that show an item.
pub open spec fn used_slots(ui: Seq<InventorySlotUiData>) -> nat
    decreases ui.len(),
{
    if ui.len() == 0 {
        0
    } else {
        used_slots(ui.drop_last()) + if ui.last().item_id is Some {
            1nat
        } else {
            0nat
        }
    }
}

/// The name shown in a slot: names longer than eight bytes are cut to their
/// first eight bytes followed by `...`.
pub fn slot_display_name(name: &str) -> (shown: String)
    requires
        name.len() > SLOT_NAME_BYTES ==> vstd::utf8::is_char_boundary(name.spec_bytes(), SLOT_NAME_BYTES as int),
    ensures
        name.len() <= SLOT_NAME_BYTES ==> shown@ == name@,
        name.len() > SLOT_NAME_BYTES ==> exists|head: Seq<char>|
            #[trigger] vstd::utf8::encode_utf8(head) == name.spec_bytes().subrange(0, SLOT_NAME_BYTES as int) && shown@ == head
                + seq!['.', '.', '.'],
{
    if name.len() > SLOT_NAME_BYTES {
        let (head, _rest) = name.split_at(SLOT_NAME_BYTES);
        let mut shown = head.to_string();
        let dots = "...";
        shown.append(dots);
        proof {
            reveal_strlit("...");
            assert(dots@ =~= seq!['.', '.', '.']);
            assert(shown@ =~= head@ + seq!['.', '.', '.']);
            assert(vstd::utf8::encode_utf8(head@) == name.spec_bytes().subrange(0, SLOT_NAME_BYTES as int));
        }
        shown
    } else {
        name.to_string()
    }
}

/// How many slots of the inventory screen show an item (the "Used" count).
pub fn used_slot_count(ui: &Vec<InventorySlotUiData>) -> (n: usize)
    ensures
        n == used_slots(ui@),
{
    let mut n: usize = 0;
    let mut i: usize = 0;
    while i < ui.len()
        invariant
            i <= ui@.len(),
            n == used_slots(ui@.take(i as int)),
            n <= i,
        decreases ui.len() - i,
    {
        if ui[i].item_id.is_some() {
            n += 1;
        }
        i += 1;
        assert(ui@.take(i as int).drop_last() =~= ui@.take(i - 1));
    }
    assert(ui@.take(i as int) =~= ui@);
    n
}

/// Stacks `incoming` items onto a stack of `current` under the limit `max_stack`.
pub fn calculate_stack_result(current: u32, incoming: u32, max_stack: u32) -> (r: StackResult)
    requires
        current + incoming <= u32::MAX,
    ensures
        r == stack_result(current, incoming, max_stack),
{
    let total = current + incoming;
    if total <= max_stack {
        StackResult::Merge(total)
    } else {
        StackResult::Split { remaining: max_stack, overflow: total - max_stack }
    }
}

/// The index of the first definition of `id`, if any.
pub fn find_item_definition(defs: &Vec<ItemDefinition>, id: u32) -> (r: Option<usize>)
    ensures
        match r {
            Some(k) => first_definition(defs@, id, 0) == Some(k as int),
            None => first_definition(defs@, id, 0) is None,
        },
{
    let mut k: usize = 0;
    while k < defs.len()
        invariant
            k <= defs.len(),
            first_definition(defs@, id, 0) == first_definition(defs@, id, k as int),
        decreases defs.len() - k,
    {
        if defs[k].id == id {
            return Some(k);
        }
        k += 1;
    }
    None
}

/// The stack limit of an item: that of its definition, or 99 without one.
pub fn max_stack_for(defs: &Vec<ItemDefinition>, id: u32) -> (r: u32)
    ensures
        r == max_stack_of(defs@, id),
{
    proof {
        lemma_first_definition(defs@, id, 0);
    }
    match find_item_definition(defs, id) {
        Some(k) => defs[k].max_stack,
        None => DEFAULT_MAX_STACK,
    }
}

impl Inventory {
    /// An inventory of `INVENTORY_SIZE` empty slots.
    pub fn new() -> (inv: Inventory)
        ensures
            inv.slots@.len() == INVENTORY_SIZE,
            forall|i: int| 0 <= i < inv.slots@.len() ==> inv.slots@[i] is None,
    {
        let mut slots: Vec<Option<InventorySlot>> = Vec::new();
        let mut i: usize = 0;
        while i < INVENTORY_SIZE
            invariant
                i <= INVENTORY_SIZE,
                slots@.len() == i,
                forall|k: int| 0 <= k < slots@.len() ==> slots@[k] is None,
            decreases INVENTORY_SIZE - i,
        {
            slots.push(None);
            i += 1;
        }
        Inventory { slots }
    }

    /// The first slot that holds a stack of `item_id`.
    pub fn find_stackable_slot(&self, item_id: u32) -> (r: Option<usize>)
        ensures
            match r {
                Some(i) => first_holding(self.slots@, item_id, 0) == Some(i as int),
                None => first_holding(self.slots@, item_id, 0) is None,
            },
    {
        let mut i: usize = 0;
        while i < self.slots.len()
            invariant
                i <= self.slots@.len(),
                first_holding(self.slots@, item_id, 0) == first_holding(self.slots@, item_id, i as int),
            decreases self.slots.len() - i,
        {
            match &self.slots[i] {
                Some(s) => {
                    if s.item_id == item_id {
                        return Some(i);
                    }
                },
                None => {},
            }
            i += 1;
        }
        None
    }

    /// The first empty slot.
    pub fn find_empty_slot(&self) -> (r: Option<usize>)
        ensures
            match r {
                Some(i) => first_empty(self.slots@, 0) == Some(i as int),
                None => first_empty(self.slots@, 0) is None,
            },
    {
        let mut i: usize = 0;
        while i < self.slots.len()
            invariant
                i <= self.slots@.len(),
                first_empty(self.slots@, 0) == first_empty(self.slots@, i as int),
            decreases self.slots.len() - i,
        {
            match &self.slots[i] {
                Some(_) => {},
                None => {
                    return Some(i);
                },
            }
            i += 1;
        }
        None
    }

    /// The item can be taken in: it already has a stack, or some slot is empty.
    pub fn can_add_item(&self, item_id: u32, quantity: u32) -> (r: bool)
        ensures
            r == can_take(self.slots@, item_id),
    {
        self.find_stackable_slot(item_id).is_some() || self.find_empty_slot().is_some()
    }

    /// Adding `quantity` of `item_id` to its stack does not overflow the stack's
    /// count.
    pub fn pickup_fits(&self, item_id: u32, quantity: u32) -> (r: bool)
        ensures
            r == pickup_fits(self.slots@, item_id, quantity),
    {
        proof {
            lemma_first_holding(self.slots@, item_id, 0);
        }
        match self.find_stackable_slot(item_id) {
            Some(i) => {
                let current = match &self.slots[i] {
                    Some(s) => s.quantity,
                    None => 0,
                };
                current <= u32::MAX - quantity
            },
            None => true,
        }
    }

    /// Takes in `quantity` of a picked-up `item_id` whose stack limit is `max_stack`.
    pub fn add_item(&mut self, item_id: u32, quantity: u32, max_stack: u32) -> (out: PickupOutcome)
        requires
            pickup_fits(old(self).slots@, item_id, quantity),
        ensures
            (final(self).slots@, out) == after_pickup(old(self).slots@, item_id, quantity, max_stack),
    {
        proof {
            lemma_first_holding(self.slots@, item_id, 0);
            lemma_first_empty(self.slots@, 0);
        }
        if !self.can_add_item(item_id, quantity) {
            return PickupOutcome::InventoryFull;
        }
        match self.find_stackable_slot(item_id) {
            Some(i) => {
                let current = match &self.slots[i] {
                    Some(s) => s.quantity,
                    None => 0,
                };
                match calculate_stack_result(current, quantity, max_stack) {
                    StackResult::Merge(total) => {
                        self.slots.set(i, Some(InventorySlot { item_id, quantity: total }));
                        PickupOutcome::Stacked { slot_index: i, total_quantity: total }
                    },
                    StackResult::Split { remaining, overflow } => {
                        self.slots.set(i, Some(InventorySlot { item_id, quantity: remaining }));
                        proof {
                            lemma_first_empty(self.slots@, 0);
                        }
                        match self.find_empty_slot() {
                            Some(j) => {
                                self.slots.set(j, Some(InventorySlot { item_id, quantity: overflow }));
                                PickupOutcome::SplitStack { slot_index: i, overflow_slot: Some(j), overflow }
                            },
                            None => PickupOutcome::SplitStack { slot_index: i, overflow_slot: None, overflow },
                        }
                    },
                }
            },
            None => {
                match self.find_empty_slot() {
                    Some(j) => {
                        self.slots.set(j, Some(InventorySlot { item_id, quantity }));
                        PickupOutcome::Placed { slot_index: j }
                    },
                    None => PickupOutcome::InventoryFull,
                }
            },
        }
    }

    /// What the inventory screen shows for every slot, in slot order: the item's
    /// name and icon from its first definition, or `Item #<id>` and the unknown
    /// icon without one; empty slots show nothing.
    pub fn ui_data(&self, defs: &Vec<ItemDefinition>) -> (ui: Vec<InventorySlotUiData>)
        ensures
            ui@.len() == self.slots@.len(),
            forall|i: int| 0 <= i < ui@.len() ==> slot_ui_matches(#[trigger] self.slots@[i], defs@, ui@[i]),
    {
        let mut ui: Vec<InventorySlotUiData> = Vec::new();
        let mut i: usize = 0;
        while i < self.slots.len()
            invariant
                i <= self.slots@.len(),
                ui@.len() == i,
                forall|k: int| 0 <= k < ui@.len() ==> slot_ui_matches(#[trigger] self.slots@[k], defs@, ui@[k]),
            decreases self.slots.len() - i,
        {
            let entry = match &self.slots[i] {
                Some(s) => {
                    proof {
                        lemma_first_definition(defs@, s.item_id, 0);
                    }
                    match find_item_definition(defs, s.item_id) {
                        Some(k) => InventorySlotUiData {
                            item_id: Some(s.item_id),
                            quantity: s.quantity,
                            item_name: defs[k].name.clone(),
                            icon_path: defs[k].icon_path.clone(),
                        },
                        None => {
                            let icon = "sprites/items/unknown.png".to_string();
                            proof {
                                reveal_strlit("sprites/items/unknown.png");
                                assert(icon@ =~= unknown_icon_path());
                            }
                            InventorySlotUiData {
                                item_id: Some(s.item_id),
                                quantity: s.quantity,
                                item_name: unknown_item_name(s.item_id),
                                icon_path: icon,
                            }
                        },
                    }
                },
                None => InventorySlotUiData {
                    item_id: None,
                    quantity: 0,
                    item_name: String::new(),
                    icon_path: String::new(),
                },
            };
            assert(slot_ui_matches(self.slots@[i as int], defs@, entry));
            ui.push(entry);
            i += 1;
        }
        ui
    }
}

} // verus!
