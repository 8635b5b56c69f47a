use realms_core::dragon_soul::{
    check_materials, ds_result, grid_cell, grid_vnum, is_refine_sub, parse, FAIL, NOT_ENOUGH_MAT,
    NOT_ENOUGH_MONEY, SUCCEED,
};
use realms_core::item::{ItemRow, ItemWindow};
use realms_core::land::{land_buy_valid, map_of, parse_land_buy, parse_land_transfer};
use realms_core::locale::{lang_index, locale_request_lang};
use realms_core::movement::{
    move_outcome, plan_position, position_reply, posture, MoveOutcome, MoveVerdict, PositionPlan,
    POSITION_GENERAL, POSITION_SITTING_CHAIR, POSITION_SITTING_GROUND,
};

#[test]
fn parse_layout_is_byte_exact() {
    let mut pkt = [0u8; 47];
    pkt[0] = 205;
    pkt[1] = 3;
    assert_eq!(parse(&pkt).unwrap().0, 3);
    assert!(parse(&[205; 46]).is_none());
    assert!(parse(&[205; 48]).is_none());
    let mut o = pkt;
    o[1] = 0;
    assert_eq!(parse(&o).unwrap().0, 0);
}

#[test]
fn dragon_soul_grid_and_result() {
    let mut pkt = [0u8; 47];
    pkt[1] = 1;
    pkt[5] = 1;
    pkt[6] = 7;
    pkt[7] = 0;
    let (_, grid) = parse(&pkt).unwrap();
    assert_eq!(grid_cell(grid[0]), None);
    assert_eq!(grid_cell(grid[1]), Some(7));
    let row = |pos: i32, vnum: i64, count: i64| ItemRow { id: 1, window: ItemWindow::Inventory, pos, count, vnum, sockets: [0; 3], attrs: [(0, 0); 7] };
    let inv = vec![row(3, 100, 1), row(7, 110000, 1), row(8, 30, 5)];
    assert_eq!(grid_vnum(&inv, &grid), 110000);
    assert_eq!(grid_vnum(&inv[..1], &grid), 0);
    assert!(check_materials(&inv, &[(30, 5), (0, 9)]));
    assert!(!check_materials(&inv, &[(30, 6)]));
    assert_eq!(ds_result(false, 0, 0, true, true), NOT_ENOUGH_MAT);
    assert_eq!(ds_result(true, 5, 9, true, true), NOT_ENOUGH_MONEY);
    assert_eq!(ds_result(true, 9, 9, false, true), NOT_ENOUGH_MAT);
    assert_eq!(ds_result(true, 9, 9, true, true), SUCCEED);
    assert_eq!(ds_result(true, 9, 9, true, false), FAIL);
    assert!(is_refine_sub(1) && is_refine_sub(4) && !is_refine_sub(0) && !is_refine_sub(5));
}

#[test]
fn dungeon_create_wire_and_binding() {
    assert_eq!(map_of(&[110, 41, 0, 0, 0]), Some(41));
    assert_eq!(map_of(&[110, 0xA8, 0x61, 0, 0]), Some(0x61A8));
    assert_eq!(map_of(&[110, 41, 0, 0]), None);
    assert_eq!(map_of(&[110, 41, 0, 0, 0, 0]), None);
}

#[test]
fn land_requests_parse() {
    let mut b = vec![0u8; 29];
    b[1..5].copy_from_slice(&41i32.to_le_bytes());
    b[5..9].copy_from_slice(&(-5i32).to_le_bytes());
    b[13..17].copy_from_slice(&300i32.to_le_bytes());
    b[17..21].copy_from_slice(&200i32.to_le_bytes());
    b[21..29].copy_from_slice(&5_000_000_000i64.to_le_bytes());
    let l = parse_land_buy(&b).unwrap();
    assert_eq!((l.map_index, l.x, l.y, l.width, l.height, l.price), (41, -5, 0, 300, 200, 5_000_000_000));
    assert!(land_buy_valid(&l));
    assert!(parse_land_buy(&b[..28]).is_none());
    let mut t = vec![0u8; 9];
    t[1..5].copy_from_slice(&7u32.to_le_bytes());
    t[5..9].copy_from_slice(&99u32.to_le_bytes());
    assert_eq!(parse_land_transfer(&t), Some((7, 99)));
    assert_eq!(parse_land_transfer(&t[..8]), None);
}

#[test]
fn lang_index_parity() {
    assert_eq!(lang_index("ES"), 5);
    assert_eq!(lang_index("en"), 4);
    assert_eq!(lang_index("xx"), 5);
    assert_eq!(lang_index("es"), 5);
    assert_eq!(lang_index("tr"), 15);
    assert_eq!(lang_index("AE"), 0);
    assert_eq!(lang_index(""), 5);
}

#[test]
fn locale_request_language() {
    assert_eq!(locale_request_lang(&[132, b'E', b'S', 0]), Some("es".to_string()));
    assert_eq!(locale_request_lang(&[132, b'E', b'S', b'X']), None);
    assert_eq!(locale_request_lang(&[132, b'E', b'S']), None);
}

#[test]
fn posture_matches_cpp_position_switch() {
    assert_eq!(posture(0), Some((false, 0)));
    assert_eq!(posture(3), Some((true, 4)));
    assert_eq!(posture(4), Some((true, 4)));
    assert_eq!(posture(1), None);
    assert_eq!(posture(2), None);
    assert_eq!(posture(5), None);
    assert_eq!(posture(0xFF), None);
    assert_eq!(POSITION_GENERAL, 0);
    assert_eq!(POSITION_SITTING_CHAIR, 3);
    assert_eq!(POSITION_SITTING_GROUND, 4);
}

#[test]
fn position_reply_wire_shape() {
    let vid: u32 = 0x1122_3344;
    let reply = position_reply(vid, POSITION_SITTING_GROUND);
    assert_eq!(reply.len(), 6);
    assert_eq!(reply[0], 43);
    assert_eq!(&reply[1..5], &[0x44, 0x33, 0x22, 0x11]);
    assert_eq!(reply[5], 4);
}

#[test]
fn position_plan_and_move_outcomes() {
    assert!(matches!(plan_position(&[28], 10, 1), PositionPlan::Malformed));
    assert!(matches!(plan_position(&[28, 3], 0, 1), PositionPlan::Dead));
    assert!(matches!(plan_position(&[28, 1], 10, 1), PositionPlan::Unknown));
    match plan_position(&[28, 3], 10, 7) {
        PositionPlan::Apply { sitting, reply } => {
            assert!(sitting);
            assert_eq!(reply, [43, 7, 0, 0, 0, 4]);
        }
        _ => panic!("apply"),
    }
    assert_eq!(move_outcome(MoveVerdict::Accepted), MoveOutcome::Publish);
    assert_eq!(move_outcome(MoveVerdict::NotMove), MoveOutcome::Action);
    assert_eq!(move_outcome(MoveVerdict::SlowTimer), MoveOutcome::Kick);
    assert_eq!(move_outcome(MoveVerdict::FastTimer), MoveOutcome::Kick);
    assert_eq!(move_outcome(MoveVerdict::TooFar), MoveOutcome::Refuse);
    assert_eq!(move_outcome(MoveVerdict::ExceedsEnvelope), MoveOutcome::Refuse);
    assert_eq!(move_outcome(MoveVerdict::InvalidFunc), MoveOutcome::Refuse);
}
