use realms_core::item::{ItemRow, ItemWindow};
use realms_core::items::RefineOutcome;
use realms_core::refine::{apply_refine, apply_refine_by_id, refine_prepare, RefineRefusal};

fn row(id: i64, pos: i32, count: i64, vnum: i64) -> ItemRow {
    ItemRow { id, window: ItemWindow::Inventory, pos, count, vnum, sockets: [0; 3], attrs: [(0, 0); 7] }
}

fn counts(inv: &[ItemRow]) -> Vec<(i64, i64)> {
    inv.iter().map(|r| (r.id, r.count)).collect()
}

#[test]
fn refine_refused_without_gold_changes_nothing() {
    let mut inv = vec![row(1, 0, 1, 11200), row(2, 1, 5, 30053)];
    // no scroll: the fee is five times the cost
    let r = refine_prepare(&mut inv, 0, None, 1000, 4999, &[(30053, 2)]);
    assert!(matches!(r, Err(RefineRefusal::NotEnoughGold)));
    assert_eq!(counts(&inv), vec![(1, 1), (2, 5)]);
}

#[test]
fn refine_refused_without_materials_changes_nothing() {
    let mut inv = vec![row(1, 0, 1, 30053), row(2, 1, 1, 30053)];
    // the target itself is never counted as material
    let r = refine_prepare(&mut inv, 0, None, 10, 50, &[(30053, 2)]);
    assert!(matches!(r, Err(RefineRefusal::MissingMaterial)));
    assert_eq!(counts(&inv), vec![(1, 1), (2, 1)]);
}

#[test]
fn refine_with_scroll_takes_materials_and_one_scroll() {
    let mut inv = vec![row(1, 0, 1, 11200), row(2, 1, 3, 30053), row(3, 2, 2, 25040)];
    let r = refine_prepare(&mut inv, 0, Some(2), 1000, 1000, &[(30053, 3)]).unwrap();
    assert_eq!(r.fee, 1000);
    assert_eq!(r.changes.len(), 1);
    assert_eq!(r.scroll, Some((1, false)));
    assert_eq!(counts(&inv), vec![(1, 1), (3, 1)]);
}

#[test]
fn refine_outcomes_on_the_target() {
    let base = vec![row(1, 0, 1, 11200), row(2, 1, 1, 25040)];
    let mut inv = base.clone();
    apply_refine(&mut inv, 0, RefineOutcome::Success, 11201);
    assert_eq!((inv[0].vnum, inv[0].count, inv[0].pos), (11201, 1, 0));
    let mut inv = base.clone();
    apply_refine(&mut inv, 0, RefineOutcome::Downgrade(11199), 11201);
    assert_eq!(inv[0].vnum, 11199);
    let mut inv = base.clone();
    apply_refine(&mut inv, 0, RefineOutcome::Kept, 11201);
    assert_eq!(inv[0].vnum, 11200);
    let mut inv = base.clone();
    apply_refine(&mut inv, 0, RefineOutcome::Destroyed, 11201);
    assert_eq!(counts(&inv), vec![(2, 1)]);
}

#[test]
fn refine_target_is_found_again_by_id() {
    // materials before the target were used up: the target moved from 1 to 0
    let mut inv = vec![row(1, 0, 2, 30053), row(2, 1, 1, 11200)];
    let paid = refine_prepare(&mut inv, 1, None, 10, 100, &[(30053, 2)]).unwrap();
    assert_eq!(paid.fee, 50);
    assert_eq!(counts(&inv), vec![(2, 1)]);
    assert_eq!(apply_refine_by_id(&mut inv, 2, RefineOutcome::Success, 11201), Some(0));
    assert_eq!((inv[0].id, inv[0].vnum, inv[0].count), (2, 11201, 1));
    assert_eq!(apply_refine_by_id(&mut inv, 9, RefineOutcome::Destroyed, 11201), None);
    assert_eq!(inv.len(), 1);
}

#[test]
fn refine_never_takes_the_target_as_material() {
    // material A, the target T (vnum 11200), another row C of T's vnum
    let mut inv = vec![row(1, 0, 1, 30053), row(2, 1, 1, 11200), row(3, 2, 1, 11200)];
    let paid = refine_prepare(&mut inv, 1, None, 10, 100, &[(30053, 1), (11200, 1)]).unwrap();
    assert_eq!(paid.changes.len(), 2);
    assert_eq!(counts(&inv), vec![(2, 1)]);
    assert_eq!(apply_refine_by_id(&mut inv, 2, RefineOutcome::Success, 11201), Some(0));
    assert_eq!((inv[0].id, inv[0].vnum), (2, 11201));
}
