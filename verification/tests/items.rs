use realms_core::item::{is_gold_item, ItemPos, ItemRow, ItemWindow, INVENTORY_MAX_NUM, ITEM_GOLD_VNUM, WEAR_MAX_NUM};
use realms_core::items::{
    ability_up_apply, apply_place, apply_split, apply_stack, count_material, drop_want,
    first_free_cell, gold_after_add, gold_drop_allowed, is_consumable, is_equip_position,
    apply_belt_move, move_source, parse_item_move, plan_drop, plan_move, potion_effect, use_potion, MoveFacts, refine_fee, refine_outcome, scroll_fits, take_count,
    use_action, DropPlan, MovePlan, RefineOutcome, UseAction, AFFECT_ATT_SPEED,
    AFFECT_CAST_SPEED, AFFECT_DEF_GRADE, AFFECT_MOV_SPEED, AFF_ATT_SPEED_POTION,
    AFF_MOV_SPEED_POTION, AUTOUSE_GOLD, USE_ABILITY_UP, USE_TREASURE_BOX, USE_TUNING,
};
use realms_core::random::RandomSource;

fn row(id: i64, window: ItemWindow, pos: i32, count: i64, vnum: i64) -> ItemRow {
    ItemRow { id, window, pos, count, vnum, sockets: [0; 3], attrs: [(0, 0); 7] }
}

#[test]
fn use_gate_only_consumables() {
    assert!(is_consumable(3));
    assert!(is_consumable(4));
    assert!(!is_consumable(1));
    assert!(!is_consumable(2));
    assert!(!is_consumable(0));
}

#[test]
fn equip_position_accepts_drag_and_double_click() {
    let p = |w: u8, cell: u16| ItemPos { window: w, cell };
    assert!(is_equip_position(p(1, INVENTORY_MAX_NUM + 4)));
    assert!(is_equip_position(p(2, INVENTORY_MAX_NUM + 4)));
    assert!(is_equip_position(p(1, INVENTORY_MAX_NUM + WEAR_MAX_NUM - 1)));
    assert!(!is_equip_position(p(1, 7)));
    assert!(!is_equip_position(p(1, INVENTORY_MAX_NUM + WEAR_MAX_NUM)));
    assert!(!is_equip_position(p(5, INVENTORY_MAX_NUM + 4)));
}

#[test]
fn drop_want_clamps_to_stack() {
    assert_eq!(drop_want(0, 5), 5);
    assert_eq!(drop_want(3, 5), 3);
    assert_eq!(drop_want(9, 5), 5);
    assert_eq!(drop_want(0, 1), 1);
    assert_eq!(drop_want(200, 0), 0);
}

#[test]
fn gold_drop_uses_vnum_1() {
    assert_eq!(ITEM_GOLD_VNUM, 1);
    assert!(is_gold_item(1));
    assert!(!is_gold_item(2));
}

#[test]
fn refine_roll_is_1_to_100() {
    let mut rng = RandomSource::new();
    for _ in 0..200 {
        let r = rng.roll_1_100();
        assert!((1..=100).contains(&r), "roll {r}");
    }
}

#[test]
fn count_material_excludes_skip_and_sums_stacks() {
    let inv = vec![
        row(1, ItemWindow::Inventory, 0, 2, 30053),
        row(2, ItemWindow::Inventory, 1, 3, 30053),
        row(3, ItemWindow::Inventory, 2, 5, 30053),
        row(4, ItemWindow::Inventory, 3, 9, 999),
    ];
    assert_eq!(count_material(&inv, 30053, &[]), 10);
    assert_eq!(count_material(&inv, 30053, &[1]), 7);
    assert_eq!(count_material(&inv, 30053, &[0, 1, 2]), 0);
    assert_eq!(count_material(&inv, 999, &[]), 9);
    assert_eq!(count_material(&inv, 111, &[]), 0);
}

#[test]
fn ability_up_apply_matches_cpp_switch() {
    let cases = [
        (8, AFFECT_MOV_SPEED, 19u8, AFF_MOV_SPEED_POTION),
        (7, AFFECT_ATT_SPEED, 17, AFF_ATT_SPEED_POTION),
        (5, 204, 12, 0),
        (6, 205, 14, 0),
        (3, 206, 13, 0),
        (4, 207, 15, 0),
        (9, AFFECT_CAST_SPEED, 21, 0),
        (53, 202, 95, 0),
        (54, AFFECT_DEF_GRADE, 96, 0),
    ];
    for (apply, dw_type, point, flag) in cases {
        assert_eq!(ability_up_apply(apply), Some((dw_type, point, flag)), "APPLY {apply}");
    }
    assert_eq!(ability_up_apply(1), None);
    assert_eq!(ability_up_apply(10), None);
    assert_eq!(ability_up_apply(14), None);
    assert_eq!(ability_up_apply(0), None);
    assert_eq!(ability_up_apply(-1), None);
}

#[test]
fn use_subtype_constants_match_cpp_enums() {
    assert_eq!(USE_TREASURE_BOX, 4);
    assert_eq!(USE_ABILITY_UP, 7);
    assert_eq!(AUTOUSE_GOLD, 3);
    assert_eq!(USE_TUNING, 2);
    assert_eq!(AFFECT_MOV_SPEED, 200);
    assert_eq!(AFFECT_ATT_SPEED, 201);
    assert_eq!(AFFECT_CAST_SPEED, 217);
    assert_eq!(AFFECT_DEF_GRADE, 226);
    assert_eq!(AFF_MOV_SPEED_POTION, 12);
    assert_eq!(AFF_ATT_SPEED_POTION, 13);
}

#[test]
fn autouse_gold_caps_at_gold_max() {
    assert_eq!(gold_after_add(100, 50), 150);
    assert_eq!(gold_after_add(0, 5000), 5000);
    assert_eq!(gold_after_add(1_999_999_900, 500), 2_000_000_000);
    assert_eq!(gold_after_add(2_000_000_000, 5), 2_000_000_000);
    assert_eq!(gold_after_add(100, 0), 100);
    assert_eq!(gold_after_add(100, -50), 50);
}

#[test]
fn potion_restores_capped_and_reports_no_effect() {
    assert_eq!(potion_effect(50, 10, 100, 100, [30, 0, 0, 0, 0]), Some((80, 10)));
    assert_eq!(potion_effect(90, 10, 100, 100, [30, 0, 0, 0, 0]), Some((100, 10)));
    assert_eq!(potion_effect(100, 100, 100, 100, [30, 30, 0, 10, 10]), None);
    assert_eq!(potion_effect(50, 50, 200, 100, [0, 0, 0, 10, 20]), Some((70, 70)));
}

#[test]
fn use_action_branches() {
    assert_eq!(use_action(3, 7, false, false, None), UseAction::AbilityUp);
    assert_eq!(use_action(3, 4, false, false, None), UseAction::TreasureBox);
    assert_eq!(use_action(4, 3, false, false, None), UseAction::GoldBag);
    assert_eq!(use_action(1, 0, true, true, Some(4)), UseAction::Unequip);
    assert_eq!(use_action(1, 0, false, false, Some(4)), UseAction::Equip(4));
    assert_eq!(use_action(1, 0, false, false, None), UseAction::NotUsable);
    assert_eq!(use_action(3, 0, false, false, None), UseAction::Potion);
}

#[test]
fn drop_plan_and_take_count() {
    let mut inv = vec![row(1, ItemWindow::Inventory, 4, 5, 27001)];
    let cell = ItemPos { window: 1, cell: 4 };
    assert_eq!(plan_drop(&inv, 0, cell, 2), DropPlan::Dead);
    assert_eq!(plan_drop(&inv, 10, ItemPos { window: 2, cell: 4 }, 2), DropPlan::BadCell);
    assert_eq!(plan_drop(&inv, 10, ItemPos { window: 1, cell: 5 }, 2), DropPlan::Empty);
    assert_eq!(plan_drop(&inv, 10, cell, 2), DropPlan::Drop { idx: 0, want: 2 });
    assert!(!take_count(&mut inv, 0, 2));
    assert_eq!(inv[0].count, 3);
    assert!(take_count(&mut inv, 0, 3));
    assert!(inv.is_empty());
    assert!(gold_drop_allowed(10, 10));
    assert!(!gold_drop_allowed(11, 10));
}

#[test]
fn item_move_plans() {
    let inv = vec![
        row(1, ItemWindow::Inventory, 0, 10, 27001),
        row(2, ItemWindow::Inventory, 1, 195, 27001),
        row(3, ItemWindow::Equipment, 184, 1, 11),
        row(4, ItemWindow::Inventory, 2, 1, 12),
    ];
    let inv_pos = |cell: u16| ItemPos { window: 1, cell };
    let none = MoveFacts { wear_slot: None, belt_item: false, belt_grade: 0 };
    let wear5 = MoveFacts { wear_slot: Some(5), belt_item: false, belt_grade: 0 };
    assert_eq!(plan_move(&inv, inv_pos(0), inv_pos(1), 0, none), MovePlan::Stack { src: 0, dst: 1, add: 5 });
    assert_eq!(plan_move(&inv, inv_pos(0), inv_pos(9), 4, none), MovePlan::Split { src: 0, want: 4 });
    assert_eq!(plan_move(&inv, inv_pos(0), inv_pos(9), 0, none), MovePlan::Relocate { src: 0 });
    assert_eq!(plan_move(&inv, inv_pos(0), inv_pos(9), 11, none), MovePlan::Ignore, "more than the stack");
    assert_eq!(plan_move(&inv, inv_pos(0), inv_pos(2), 0, none), MovePlan::Ignore, "another item");
    assert_eq!(plan_move(&inv, inv_pos(0), inv_pos(0), 0, none), MovePlan::Ignore, "same cell");
    assert_eq!(plan_move(&inv, inv_pos(2), ItemPos { window: 2, cell: 185 }, 0, wear5), MovePlan::Equip { src: 3, wear: 5 });
    assert_eq!(plan_move(&inv, inv_pos(2), ItemPos { window: 2, cell: 184 }, 0, MoveFacts { wear_slot: Some(4), ..wear5 }), MovePlan::Ignore, "slot taken");
    assert_eq!(plan_move(&inv, inv_pos(2), ItemPos { window: 2, cell: 185 }, 0, none), MovePlan::Ignore, "not wearable");
    assert_eq!(
        plan_move(&inv, inv_pos(2), ItemPos { window: 2, cell: 185 }, 0, MoveFacts { wear_slot: Some(4), ..wear5 }),
        MovePlan::Ignore,
        "wrong wear slot"
    );
    assert_eq!(plan_move(&inv, ItemPos { window: 2, cell: 184 }, inv_pos(9), 0, none), MovePlan::Unequip { src: 2 });
    assert_eq!(plan_move(&inv, ItemPos { window: 2, cell: 184 }, inv_pos(0), 0, none), MovePlan::Ignore, "cell taken");
    assert_eq!(plan_move(&inv, inv_pos(7), inv_pos(9), 0, none), MovePlan::Ignore, "no item");
}

#[test]
fn item_move_packet_layout() {
    assert_eq!(
        parse_item_move(&[13, 1, 0, 0, 1, 242, 0, 0]),
        Some((ItemPos { window: 1, cell: 0 }, ItemPos { window: 1, cell: 242 }, 0))
    );
    assert_eq!(parse_item_move(&[13, 2, 0xb8, 0, 1, 5, 1, 3]), Some((ItemPos { window: 2, cell: 184 }, ItemPos { window: 1, cell: 261 }, 3)));
    assert_eq!(parse_item_move(&[13, 1, 0, 0, 1, 242, 0]), None);
}

#[test]
fn belt_moves_are_gated_by_grade_and_item() {
    // a potion at inventory 0 and a grade-1 belt equipped (cell 203)
    let mut inv = vec![row(1, ItemWindow::Inventory, 0, 10, 27001), row(2, ItemWindow::Equipment, 203, 1, 18000)];
    let inv_pos = |cell: u16| ItemPos { window: 1, cell };
    let potion = MoveFacts { wear_slot: None, belt_item: true, belt_grade: 1 };
    assert_eq!(move_source(&inv, inv_pos(0), inv_pos(242)), Some(0));
    let p = plan_move(&inv, inv_pos(0), inv_pos(242), 0, potion);
    assert_eq!(p, MovePlan::Belt { src: 0, to_belt: true, cell: 242 });
    apply_belt_move(&mut inv, 0, true, 242);
    assert_eq!((inv[0].window, inv[0].pos), (ItemWindow::BeltInventory, 0));
    // grade 1 does not open cell 243
    assert_eq!(move_source(&inv, inv_pos(242), inv_pos(243)), Some(0));
    assert_eq!(plan_move(&inv, inv_pos(242), inv_pos(243), 0, potion), MovePlan::Ignore);
    // back to inventory cell 5
    let p = plan_move(&inv, inv_pos(242), inv_pos(5), 0, potion);
    assert_eq!(p, MovePlan::Belt { src: 0, to_belt: false, cell: 5 });
    apply_belt_move(&mut inv, 0, false, 5);
    assert_eq!((inv[0].window, inv[0].pos), (ItemWindow::Inventory, 5));
    // not a belt item, or no belt
    assert_eq!(plan_move(&inv, inv_pos(5), inv_pos(242), 0, MoveFacts { belt_item: false, ..potion }), MovePlan::Ignore);
    assert_eq!(plan_move(&inv, inv_pos(5), inv_pos(242), 0, MoveFacts { belt_grade: 0, ..potion }), MovePlan::Ignore);
    // part of a stack does not go onto the belt
    assert_eq!(plan_move(&inv, inv_pos(5), inv_pos(242), 3, potion), MovePlan::Ignore);
    assert_eq!(plan_move(&inv, inv_pos(5), inv_pos(242), 10, potion), MovePlan::Belt { src: 0, to_belt: true, cell: 242 });
}

#[test]
fn item_move_effects_conserve_units() {
    let mut inv = vec![row(1, ItemWindow::Inventory, 0, 10, 27001), row(2, ItemWindow::Inventory, 1, 195, 27001)];
    assert!(!apply_stack(&mut inv, 0, 1, 5));
    assert_eq!((inv[0].count, inv[1].count), (5, 200));
    apply_split(&mut inv, 0, 2, 77, 9);
    assert_eq!(inv[0].count, 3);
    assert_eq!((inv[2].id, inv[2].pos, inv[2].count, inv[2].vnum), (77, 9, 2, 27001));
    apply_place(&mut inv, 2, ItemWindow::Equipment, 184);
    assert_eq!((inv[2].window, inv[2].pos), (ItemWindow::Equipment, 184));
    let mut inv2 = vec![row(1, ItemWindow::Inventory, 0, 3, 5), row(2, ItemWindow::Inventory, 1, 1, 5)];
    assert!(apply_stack(&mut inv2, 0, 1, 3), "emptied source is removed");
    assert_eq!(inv2.len(), 1);
    assert_eq!(inv2[0].count, 4);
    assert_eq!(first_free_cell(&inv2), 0);
}

#[test]
fn refine_rules() {
    assert_eq!(refine_fee(100, true), 100);
    assert_eq!(refine_fee(100, false), 500);
    assert!(scroll_fits(6, Some(702)));
    assert!(!scroll_fits(6, Some(501)));
    assert!(!scroll_fits(6, None));
    assert!(!scroll_fits(1, Some(501)));
    assert!(scroll_fits(1, Some(702)));
    assert!(scroll_fits(1, None));
    assert_eq!(refine_outcome(42, 42, false, None), RefineOutcome::Success);
    assert_eq!(refine_outcome(43, 42, true, Some(9)), RefineOutcome::Downgrade(9));
    assert_eq!(refine_outcome(43, 42, true, None), RefineOutcome::Kept);
    assert_eq!(refine_outcome(43, 42, false, Some(9)), RefineOutcome::Destroyed);
}

#[test]
fn refined_item_keeps_cell_and_bonuses() {
    let mut r = row(7, ItemWindow::Inventory, 12, 3, 11200);
    r.sockets = [1, 2, 3];
    r.attrs[0] = (5, 20);
    let n = realms_core::items::refined_row(r, 11201);
    assert_eq!(n.vnum, 11201);
    assert_eq!(n.count, 1);
    assert_eq!(n.id, 7);
    assert_eq!(n.pos, 12);
    assert_eq!(n.sockets, [1, 2, 3]);
    assert_eq!(n.attrs[0], (5, 20));
}

#[test]
fn potion_consumes_one_unit_only_when_it_heals() {
    let mut inv = vec![row(1, ItemWindow::Inventory, 0, 2, 27001)];
    // flat heal of 50 HP, below the maximum
    assert_eq!(use_potion(&mut inv, 0, 100, 50, 200, 100, [50, 0, 0, 0, 0]), Some((150, 50)));
    assert_eq!(inv[0].count, 1);
    // full HP: no effect, nothing consumed
    assert_eq!(use_potion(&mut inv, 0, 200, 50, 200, 100, [50, 0, 0, 0, 0]), None);
    assert_eq!(inv[0].count, 1);
    // capped at the maximum, last unit removes the row
    assert_eq!(use_potion(&mut inv, 0, 190, 50, 200, 100, [50, 0, 0, 0, 0]), Some((200, 50)));
    assert!(inv.is_empty());
}
