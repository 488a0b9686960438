use rust_shadow_dungeon::text::{decimal_string, unknown_item_name};
use rust_shadow_dungeon::inventory::{
    calculate_stack_result, max_stack_for, slot_display_name, used_slot_count, Inventory, InventorySlot,
    ItemDefinition, PickupOutcome, StackResult, INVENTORY_SIZE,
};

fn gold_coin() -> ItemDefinition {
    ItemDefinition {
        id: 1,
        name: "Gold Coin".to_string(),
        icon_path: "sprites/items/gold_coin.png".to_string(),
        stackable: true,
        max_stack: 99,
    }
}

fn pick_up(inventory: &mut Inventory, defs: &Vec<ItemDefinition>, item_id: u32, quantity: u32) -> PickupOutcome {
    assert!(inventory.pickup_fits(item_id, quantity));
    let max_stack = max_stack_for(defs, item_id);
    inventory.add_item(item_id, quantity, max_stack)
}

#[test]
fn test_item_picked_up_adds_to_inventory() {
    let defs = vec![gold_coin()];
    let mut inventory = Inventory::new();
    pick_up(&mut inventory, &defs, 1, 5);
    assert!(inventory.slots[0].is_some());
    let slot = inventory.slots[0].as_ref().unwrap();
    assert_eq!(slot.item_id, 1);
    assert_eq!(slot.quantity, 5);
}

#[test]
fn test_item_stacking_in_inventory() {
    let defs = vec![gold_coin()];
    let mut inventory = Inventory::new();
    pick_up(&mut inventory, &defs, 1, 10);
    pick_up(&mut inventory, &defs, 1, 5);
    assert!(inventory.slots[0].is_some());
    let slot = inventory.slots[0].as_ref().unwrap();
    assert_eq!(slot.item_id, 1);
    assert_eq!(slot.quantity, 15);
}

#[test]
fn test_inventory_full_event() {
    let mut inventory = Inventory::new();
    for i in 0..30 {
        inventory.slots[i] = Some(InventorySlot { item_id: i as u32 + 1, quantity: 1 });
    }
    let defs = vec![ItemDefinition {
        id: 100,
        name: "New Item".to_string(),
        icon_path: "sprites/items/new.png".to_string(),
        stackable: false,
        max_stack: 1,
    }];
    let outcome = pick_up(&mut inventory, &defs, 100, 1);
    assert_eq!(outcome, PickupOutcome::InventoryFull);
    let empty_slots: usize = inventory.slots.iter().filter(|s| s.is_none()).count();
    assert_eq!(empty_slots, 0, "Inventory should still be full");
    let has_item_100 = inventory.slots.iter().any(|s| s.as_ref().map_or(false, |slot| slot.item_id == 100));
    assert!(!has_item_100, "Item 100 should not be in inventory when full");
}

#[test]
fn test_inventory_ui_data_format() {
    let mut inventory = Inventory::new();
    inventory.slots[0] = Some(InventorySlot { item_id: 1, quantity: 10 });
    inventory.slots[1] = Some(InventorySlot { item_id: 2, quantity: 3 });
    let defs = vec![
        gold_coin(),
        ItemDefinition {
            id: 2,
            name: "Health Potion".to_string(),
            icon_path: "sprites/items/health_potion.png".to_string(),
            stackable: true,
            max_stack: 99,
        },
    ];
    let ui = inventory.ui_data(&defs);
    assert_eq!(ui.len(), 30);
    assert!(ui[0].item_id.is_some());
    assert_eq!(ui[0].item_id, Some(1));
    assert_eq!(ui[0].quantity, 10);
    assert_eq!(ui[0].item_name, "Gold Coin");
    assert!(ui[1].item_id.is_some());
    assert_eq!(ui[1].item_id, Some(2));
    assert_eq!(ui[1].quantity, 3);
    assert_eq!(ui[1].item_name, "Health Potion");
    assert!(ui[2].item_id.is_none());
}

#[test]
fn test_stacked_items_show_as_single_slot() {
    let mut inventory = Inventory::new();
    inventory.slots[0] = Some(InventorySlot { item_id: 1, quantity: 50 });
    let defs = vec![gold_coin()];
    let ui = inventory.ui_data(&defs);
    assert_eq!(ui[0].item_id, Some(1));
    assert_eq!(ui[0].quantity, 50);
    assert_eq!(ui[0].quantity, 50);
}

#[test]
fn new_inventory_has_thirty_empty_slots() {
    let inventory = Inventory::new();
    assert_eq!(inventory.slots.len(), INVENTORY_SIZE);
    assert!(inventory.slots.iter().all(|s| s.is_none()));
    assert_eq!(inventory.find_empty_slot(), Some(0));
    assert_eq!(inventory.find_stackable_slot(1), None);
}

#[test]
fn stack_result_merges_within_limit_and_splits_beyond() {
    assert_eq!(calculate_stack_result(10, 5, 99), StackResult::Merge(15));
    assert_eq!(calculate_stack_result(90, 9, 99), StackResult::Merge(99));
    assert_eq!(calculate_stack_result(90, 15, 99), StackResult::Split { remaining: 99, overflow: 6 });
}

#[test]
fn full_stack_spills_overflow_into_first_empty_slot() {
    let mut inventory = Inventory::new();
    inventory.slots[0] = Some(InventorySlot { item_id: 7, quantity: 95 });
    inventory.slots[1] = Some(InventorySlot { item_id: 8, quantity: 1 });
    let outcome = inventory.add_item(7, 10, 99);
    assert_eq!(outcome, PickupOutcome::SplitStack { slot_index: 0, overflow_slot: Some(2), overflow: 6 });
    assert_eq!(inventory.slots[0], Some(InventorySlot { item_id: 7, quantity: 99 }));
    assert_eq!(inventory.slots[1], Some(InventorySlot { item_id: 8, quantity: 1 }));
    assert_eq!(inventory.slots[2], Some(InventorySlot { item_id: 7, quantity: 6 }));
}

#[test]
fn overflow_is_dropped_when_no_slot_is_empty() {
    let mut inventory = Inventory::new();
    for i in 0..30 {
        inventory.slots[i] = Some(InventorySlot { item_id: 1, quantity: 99 });
    }
    let outcome = inventory.add_item(1, 4, 99);
    assert_eq!(outcome, PickupOutcome::SplitStack { slot_index: 0, overflow_slot: None, overflow: 4 });
    assert!(inventory.slots.iter().all(|s| *s == Some(InventorySlot { item_id: 1, quantity: 99 })));
}

#[test]
fn total_of_an_item_grows_by_what_was_picked_up() {
    let mut inventory = Inventory::new();
    inventory.slots[3] = Some(InventorySlot { item_id: 2, quantity: 40 });
    let before: u32 = inventory.slots.iter().flatten().filter(|s| s.item_id == 2).map(|s| s.quantity).sum();
    inventory.add_item(2, 70, 99);
    let after: u32 = inventory.slots.iter().flatten().filter(|s| s.item_id == 2).map(|s| s.quantity).sum();
    assert_eq!(after, before + 70);
}

#[test]
fn unknown_items_show_fallback_name_and_icon() {
    let mut inventory = Inventory::new();
    inventory.slots[0] = Some(InventorySlot { item_id: 42, quantity: 2 });
    let ui = inventory.ui_data(&Vec::new());
    assert_eq!(ui[0].item_name, "Item #42");
    assert_eq!(ui[0].icon_path, "sprites/items/unknown.png");
    assert_eq!(ui[1].item_name, "");
    assert_eq!(ui[1].quantity, 0);
}

#[test]
fn max_stack_defaults_to_ninety_nine() {
    let defs = vec![ItemDefinition {
        id: 5,
        name: "Key".to_string(),
        icon_path: "sprites/items/key.png".to_string(),
        stackable: false,
        max_stack: 1,
    }];
    assert_eq!(max_stack_for(&defs, 5), 1);
    assert_eq!(max_stack_for(&defs, 6), 99);
}

#[test]
fn long_names_are_cut_to_eight_bytes() {
    assert_eq!(slot_display_name("Gold Coin"), "Gold Coi...");
    assert_eq!(slot_display_name("Potion"), "Potion");
    assert_eq!(slot_display_name("12345678"), "12345678");
}

#[test]
fn used_slots_count_items_shown() {
    let mut inventory = Inventory::new();
    inventory.slots[0] = Some(InventorySlot { item_id: 1, quantity: 10 });
    inventory.slots[7] = Some(InventorySlot { item_id: 2, quantity: 1 });
    let ui = inventory.ui_data(&vec![gold_coin()]);
    assert_eq!(used_slot_count(&ui), 2);
}

#[test]
fn pickup_fits_detects_stack_count_overflow() {
    let mut inventory = Inventory::new();
    inventory.slots[0] = Some(InventorySlot { item_id: 1, quantity: u32::MAX - 1 });
    assert!(inventory.pickup_fits(1, 1));
    assert!(!inventory.pickup_fits(1, 2));
    assert!(inventory.pickup_fits(2, u32::MAX));
}

#[test]
fn numbers_are_written_in_decimal() {
    assert_eq!(decimal_string(0), "0");
    assert_eq!(decimal_string(7), "7");
    assert_eq!(decimal_string(10), "10");
    assert_eq!(decimal_string(1207), "1207");
    assert_eq!(decimal_string(u32::MAX), "4294967295");
    assert_eq!(unknown_item_name(0), "Item #0");
    assert_eq!(unknown_item_name(305), "Item #305");
}
