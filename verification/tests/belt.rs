use realms_core::belt::{
    belt_pos_of, can_move_into_belt, equipped_belt, is_available_cell, is_belt_cell, place_at,
    wire_cell, BELT_INVENTORY_SLOT_END, BELT_INVENTORY_SLOT_START,
};
use realms_core::item::{ItemPos, ItemRow, ItemWindow, WINDOW_BELT};

fn row(window: ItemWindow, pos: i32, vnum: i64) -> ItemRow {
    ItemRow { id: 0, window, pos, count: 10, vnum, sockets: [0; 3], attrs: [(0, 0); 7] }
}

#[test]
fn grade_rule_matches_belt_inventory_helper() {
    let cell = |i: u16| BELT_INVENTORY_SLOT_START + i;
    assert!(is_available_cell(cell(0), 1));
    assert!(!is_available_cell(cell(1), 1));
    assert!(is_available_cell(cell(0), 2));
    assert!(is_available_cell(cell(1), 2));
    assert!(!is_available_cell(cell(4), 2));
    assert!(!is_available_cell(cell(2), 2));
    assert!(is_available_cell(cell(4), 3));
    assert!(!is_available_cell(cell(0), 0));
    assert!((0..16).all(|i| is_available_cell(cell(i), 7)));
    assert!(!is_available_cell(cell(16), 7));
}

#[test]
fn can_move_into_belt_only_use_potions() {
    assert!(can_move_into_belt(3, 0));
    assert!(can_move_into_belt(3, 7));
    assert!(can_move_into_belt(3, 11));
    assert!(!can_move_into_belt(3, 2));
    assert!(!can_move_into_belt(3, 8));
    assert!(!can_move_into_belt(1, 0));
    assert!(!can_move_into_belt(4, 0));
}

#[test]
fn belt_cells_are_inventory_window_242_258() {
    assert_eq!(BELT_INVENTORY_SLOT_START, 242);
    assert_eq!(BELT_INVENTORY_SLOT_END, 258);
    let p = |w: u8, cell: u16| ItemPos { window: w, cell };
    assert!(!is_belt_cell(p(1, 241)));
    assert!(is_belt_cell(p(1, 242)));
    assert!(is_belt_cell(p(1, 257)));
    assert!(!is_belt_cell(p(1, 258)));
    assert!(!is_belt_cell(p(WINDOW_BELT, 0)));
    assert!(!is_belt_cell(p(2, 242)));
}

#[test]
fn wire_and_db_positions_roundtrip() {
    let belt_item = row(ItemWindow::BeltInventory, 3, 27001);
    assert_eq!(wire_cell(&belt_item), 245);
    assert_eq!(wire_cell(&row(ItemWindow::Inventory, 7, 27001)), 7);
    let mut it = row(ItemWindow::BeltInventory, 0, 27001);
    place_at(&mut it, false, 12);
    assert_eq!((it.window, it.pos), (ItemWindow::Inventory, 12));
    place_at(&mut it, true, 242);
    assert_eq!((it.window, it.pos), (ItemWindow::BeltInventory, 0));
    assert_eq!(belt_pos_of(257), 15);
}

#[test]
fn equipped_belt_is_wear_slot_23() {
    let inv = vec![row(ItemWindow::Inventory, 203, 1), row(ItemWindow::Equipment, 203, 18000)];
    assert_eq!(equipped_belt(&inv).map(|b| b.vnum), Some(18000));
    assert!(equipped_belt(&inv[..1]).is_none());
}
