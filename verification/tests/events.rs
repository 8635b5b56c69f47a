use realms_core::events::{
    mob_action, pickup_in_range, MobAction,
    affect_remove_packet, apply_kill_reward, apply_mob_damage, drops_item, free_slot, hp_percent,
    level_up_step, next_item_id, pay_skill_cost, saturating_sub_i32, stack_pickup, town_revive_position,
    parse_pickup, PendingPickups, VidCounter, GC_AFFECT_REMOVE, ITEM_ID_RANGE_START,
};
use realms_core::item::{ItemRow, ItemWindow, INVENTORY_MAX_NUM, ITEM_COUNT_LIMIT};

fn row(id: i64, window: ItemWindow, pos: i32, count: i64, vnum: i64) -> ItemRow {
    ItemRow { id, window, pos, count, vnum, sockets: [0; 3], attrs: [(0, 0); 7] }
}

#[test]
fn mob_damage_kills_at_zero_and_saturates() {
    assert_eq!(apply_mob_damage(100, 30), (70, false));
    assert_eq!(apply_mob_damage(30, 30), (0, true));
    assert_eq!(apply_mob_damage(10, 50), (0, true));
    assert_eq!(apply_mob_damage(i32::MIN, 1), (0, true));
    assert_eq!(apply_mob_damage(5, i32::MIN), (i32::MAX, false));
    assert_eq!(saturating_sub_i32(i32::MAX, -1), i32::MAX);
}

#[test]
fn skill_costs_are_paid_saturating() {
    assert_eq!(pay_skill_cost(500, 300, 40, 10), (490, 260));
    assert_eq!(pay_skill_cost(i32::MIN, i32::MIN, 1, 1), (i32::MIN, i32::MIN));
}

#[test]
fn hp_percent_formula_and_clamp() {
    assert_eq!(hp_percent(50, 200), 25);
    assert_eq!(hp_percent(199, 200), 99);
    assert_eq!(hp_percent(300, 200), 100);
    assert_eq!(hp_percent(-10, 200), 0);
    assert_eq!(hp_percent(10, 0), 0);
    assert_eq!(hp_percent(10, -5), 0);
    // the product saturates before the division
    assert_eq!(hp_percent(i32::MAX, i32::MAX), 1);
    assert_eq!(hp_percent(i32::MAX / 50, i32::MAX / 100), 100);
}

#[test]
fn affect_remove_wire() {
    let p = affect_remove_packet(0x0102_0304, 7);
    assert_eq!(p, [GC_AFFECT_REMOVE, 0x04, 0x03, 0x02, 0x01, 7]);
    assert_eq!(p[0], 127);
}

#[test]
fn pickup_fills_stacks_then_leaves_rest() {
    let mut inv = vec![
        row(1, ItemWindow::Inventory, 0, 190, 27001),
        row(2, ItemWindow::Inventory, 1, 5, 27002),
        row(3, ItemWindow::Inventory, 2, 150, 27001),
    ];
    let (left, touched) = stack_pickup(&mut inv, 27001, 70);
    assert_eq!(touched, vec![0, 2]);
    assert_eq!(inv[0].count, ITEM_COUNT_LIMIT);
    assert_eq!(inv[2].count, 200);
    assert_eq!(inv[1].count, 5);
    assert_eq!(left, 10);
}

#[test]
fn pickup_skips_socketed_and_other_windows() {
    let mut socketed = row(1, ItemWindow::Inventory, 0, 10, 27001);
    socketed.sockets = [1, 0, 0];
    let mut inv = vec![
        socketed,
        row(2, ItemWindow::Equipment, 4, 10, 27001),
        row(3, ItemWindow::Inventory, 5, 10, 27001),
    ];
    let (left, touched) = stack_pickup(&mut inv, 27001, 3);
    assert_eq!(left, 0);
    assert_eq!(touched, vec![2]);
    assert_eq!(inv[0].count, 10);
    assert_eq!(inv[1].count, 10);
    assert_eq!(inv[2].count, 13);
}

#[test]
fn pickup_without_stacks_keeps_everything() {
    let mut inv = vec![row(1, ItemWindow::Inventory, 0, 200, 27001)];
    let (left, touched) = stack_pickup(&mut inv, 27001, 4);
    assert_eq!(left, 4);
    assert!(touched.is_empty());
    assert_eq!(inv[0].count, 200);
}

#[test]
fn free_slot_is_first_unoccupied_cell() {
    let inv = vec![
        row(1, ItemWindow::Inventory, 0, 1, 10),
        row(2, ItemWindow::Inventory, 1, 1, 10),
        row(3, ItemWindow::Equipment, 2, 1, 10),
    ];
    assert_eq!(free_slot(&inv, INVENTORY_MAX_NUM), Some(2));
    assert_eq!(free_slot(&inv, 2), None);
    assert_eq!(free_slot(&[], INVENTORY_MAX_NUM), Some(0));
}

#[test]
fn kill_reward_caps_and_saturates() {
    assert_eq!(apply_kill_reward(100, 50, 20, 7), (120, 57));
    assert_eq!(apply_kill_reward(i32::MAX - 1, 0, 5, i64::MAX), (i32::MAX, i32::MAX));
    assert_eq!(apply_kill_reward(0, 0, i64::MAX, 0), (i32::MAX, 0));
}

#[test]
fn level_up_spends_experience() {
    assert_eq!(level_up_step(300, 1, 300), Some((0, 2)));
    assert_eq!(level_up_step(450, 4, 300), Some((150, 5)));
    assert_eq!(level_up_step(299, 1, 300), None);
    assert_eq!(level_up_step(1000, 1, 0), None);
    assert_eq!(level_up_step(1000, i16::MAX, 10), Some((990, i16::MAX)));
}

#[test]
fn drop_roll_uses_rate() {
    assert!(drops_item(27001, 149, 50));
    assert!(!drops_item(27001, 150, 50));
    assert!(!drops_item(0, 0, 100));
    assert!(!drops_item(27001, 99, 0));
}

#[test]
fn revive_goes_to_exit_or_village() {
    assert_eq!(town_revive_position(1000, 2000), (1000, 2000));
    assert_eq!(town_revive_position(0, 2000), (969600, 278400));
    assert_eq!(town_revive_position(1000, -1), (969600, 278400));
}

#[test]
fn vid_counters_start_apart_and_count_up() {
    let mut npcs = VidCounter::for_npcs();
    let mut items = VidCounter::for_items();
    assert_eq!(npcs.next_vid(), 10000);
    assert_eq!(npcs.next_vid(), 10001);
    assert_eq!(items.next_vid(), 50000);
    assert_eq!(items.next_vid(), 50001);
}

#[test]
fn new_item_ids_follow_the_range() {
    assert_eq!(next_item_id(None), ITEM_ID_RANGE_START);
    assert_eq!(next_item_id(None), 100_000_000);
    assert_eq!(next_item_id(Some(100_000_041)), 100_000_042);
}

#[test]
fn pickup_request_layout() {
    assert_eq!(parse_pickup(&[15, 0x50, 0xc3, 0, 0]), Some(50000));
    assert_eq!(parse_pickup(&[15, 1, 0, 0]), None);
}

#[test]
fn pickup_is_asked_once_until_its_result() {
    let mut p = PendingPickups::new();
    assert!(p.begin(50000));
    assert!(!p.begin(50000));
    assert!(p.begin(50001));
    p.finish(50000);
    assert!(p.begin(50000));
    p.finish(7);
    assert!(!p.begin(50001));
}

#[test]
fn pickup_range_and_mob_decisions() {
    assert!(pickup_in_range(600));
    assert!(!pickup_in_range(601));
    assert_eq!(mob_action(5001, 300), MobAction::DropAggro);
    assert_eq!(mob_action(300, 300), MobAction::Attack);
    assert_eq!(mob_action(301, 300), MobAction::Chase);
}
