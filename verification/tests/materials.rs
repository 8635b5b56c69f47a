use realms_core::item::{ItemRow, ItemWindow};
use realms_core::materials::{materials_ready, remove_materials, MaterialChange};

fn row(id: i64, pos: i32, count: i64, vnum: i64) -> ItemRow {
    ItemRow { id, window: ItemWindow::Inventory, pos, count, vnum, sockets: [0; 3], attrs: [(0, 0); 7] }
}

fn counts(inv: &[ItemRow]) -> Vec<(i64, i64)> {
    inv.iter().map(|r| (r.id, r.count)).collect()
}

#[test]
fn materials_taken_in_order_and_emptied_rows_removed() {
    let mut inv = vec![row(1, 0, 2, 30053), row(2, 1, 1, 11), row(3, 2, 3, 30053), row(4, 3, 5, 30053)];
    let changes = remove_materials(&mut inv, &[(30053, 4)], &[]);
    assert_eq!(counts(&inv), vec![(2, 1), (3, 1), (4, 5)]);
    assert_eq!(changes.len(), 2);
    assert!(matches!(changes[0], MaterialChange::Deleted(r) if r.id == 1 && r.count == 0));
    assert!(matches!(changes[1], MaterialChange::Updated(r) if r.id == 3 && r.count == 1));
}

#[test]
fn materials_skip_ids_and_zero_entries() {
    let mut inv = vec![row(1, 0, 1, 11), row(2, 1, 5, 30053), row(3, 2, 5, 30053)];
    // id 1 is the item being refined; id 2 is the scroll here
    let changes = remove_materials(&mut inv, &[(0, 9), (30053, 0), (30053, 2)], &[1, 2]);
    assert_eq!(counts(&inv), vec![(1, 1), (2, 5), (3, 3)]);
    assert_eq!(changes.len(), 1);
    assert!(matches!(changes[0], MaterialChange::Updated(r) if r.id == 3 && r.count == 3));
}

#[test]
fn materials_several_kinds() {
    let mut inv = vec![row(1, 0, 3, 100), row(2, 1, 3, 200), row(3, 2, 3, 100)];
    let changes = remove_materials(&mut inv, &[(100, 3), (200, 1)], &[]);
    assert_eq!(counts(&inv), vec![(2, 2), (3, 3)]);
    assert_eq!(changes.len(), 2);
    assert!(matches!(changes[0], MaterialChange::Deleted(r) if r.id == 1));
    assert!(matches!(changes[1], MaterialChange::Updated(r) if r.id == 2 && r.count == 2));
}

#[test]
fn materials_short_takes_what_there_is() {
    let mut inv = vec![row(1, 0, 2, 100)];
    let changes = remove_materials(&mut inv, &[(100, 5)], &[]);
    assert!(inv.is_empty());
    assert_eq!(changes.len(), 1);
}

#[test]
fn materials_ready_counts_stacks_outside_skip() {
    let inv = vec![row(1, 0, 2, 30053), row(2, 1, 3, 30053), row(3, 2, 1, 11)];
    assert!(materials_ready(&inv, &[(30053, 5)], &[]));
    assert!(!materials_ready(&inv, &[(30053, 5)], &[0]));
    assert!(materials_ready(&inv, &[(30053, 3), (11, 1), (0, 99), (50, 0)], &[0]));
    assert!(!materials_ready(&inv, &[(30053, 1), (12, 1)], &[]));
    assert!(materials_ready(&inv, &[], &[]));
}

#[test]
fn kept_rows_stay_kept_when_earlier_rows_leave() {
    // material A at 0, the target (vnum 11200) at 1, another 11200 at 2
    let mut inv = vec![row(1, 0, 1, 30053), row(2, 1, 1, 11200), row(3, 2, 1, 11200)];
    let changes = remove_materials(&mut inv, &[(30053, 1), (11200, 1)], &[2]);
    assert_eq!(changes.len(), 2);
    assert_eq!(counts(&inv), vec![(2, 1)]);
}
