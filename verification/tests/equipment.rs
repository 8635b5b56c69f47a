use realms_core::item::{consume_arrow, equipped_armor, ArmorProto, ItemRow, ItemWindow, INVENTORY_MAX_NUM, WEAR_ARROW};

fn row(id: i64, window: ItemWindow, pos: i32, count: i64, vnum: i64) -> ItemRow {
    ItemRow { id, window, pos, count, vnum, sockets: [0; 3], attrs: [(0, 0); 7] }
}

#[test]
fn arrow_shot_takes_one_and_keeps_the_row() {
    let arrow_cell = (INVENTORY_MAX_NUM + WEAR_ARROW) as i32;
    let mut inv = vec![
        row(1, ItemWindow::Inventory, arrow_cell, 50, 8000),
        row(2, ItemWindow::Equipment, arrow_cell, 1, 8000),
    ];
    assert_eq!(consume_arrow(&mut inv), Some(1));
    assert_eq!(inv[1].count, 0);
    assert_eq!(inv[0].count, 50);
    assert_eq!(consume_arrow(&mut inv), Some(1));
    assert_eq!(inv[1].count, -1);
    assert_eq!(inv.len(), 2);
}

#[test]
fn arrow_shot_without_arrows_changes_nothing() {
    let mut inv = vec![row(1, ItemWindow::Equipment, (INVENTORY_MAX_NUM + 4) as i32, 1, 100)];
    assert_eq!(consume_arrow(&mut inv), None);
    assert_eq!(inv[0].count, 1);
}

#[test]
fn armor_total_counts_armor_subtypes_only() {
    let armor = |sub: i16, v1: i32, v5: i32| Some(ArmorProto { b_type: 2, b_sub_type: sub, values: [0, v1, 0, 0, 0, v5] });
    let protos = vec![
        armor(0, 10, 3),
        armor(1, 5, 0),
        armor(3, 100, 100),
        armor(4, 2, 1),
        Some(ArmorProto { b_type: 1, b_sub_type: 0, values: [0, 50, 0, 0, 0, 5] }),
        None,
    ];
    assert_eq!(equipped_armor(&protos), 16 + 5 + 4);
    assert_eq!(equipped_armor(&[]), 0);
}
