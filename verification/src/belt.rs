//! The potion belt: its cells travel in the inventory window at cells
//! 242..258, while the store keeps them as window `BeltInventory` at
//! positions 0..15. The grade of the equipped belt opens the cells, and
//! only potions go in.

use vstd::prelude::*;
use crate::item::{
    equipped_index, is_equipped_at, ItemPos, ItemRow, ItemWindow, INVENTORY_MAX_NUM,
    WEAR_BELT, WINDOW_INVENTORY,
};

verus! {

/// First wire cell of the belt (180 inventory + 32 wear + 12 + 18 reserved).
pub const BELT_INVENTORY_SLOT_START: u16 = 242;
/// Cells of the belt.
pub const BELT_INVENTORY_SLOT_COUNT: u16 = 16;
/// One past the last wire cell of the belt.
pub const BELT_INVENTORY_SLOT_END: u16 = 258;

pub const ITEM_USE: i16 = 3;
pub const USE_POTION: i16 = 0;
pub const USE_ABILITY_UP: i16 = 7;
pub const USE_POTION_NODELAY: i16 = 11;

/// A wire position of the belt: inventory window, cells 242..258.
pub open spec fn is_belt_cell_spec(p: ItemPos) -> bool {
    p.window == WINDOW_INVENTORY && BELT_INVENTORY_SLOT_START <= p.cell < BELT_INVENTORY_SLOT_END
}

pub fn is_belt_cell(p: ItemPos) -> (r: bool)
    ensures
        r == is_belt_cell_spec(p),
{
    p.window == WINDOW_INVENTORY && BELT_INVENTORY_SLOT_START <= p.cell && p.cell
        < BELT_INVENTORY_SLOT_END
}

/// The wire cell of a stored row: belt rows at 242 + pos, the others at pos.
pub open spec fn wire_cell_spec(it: ItemRow) -> u16 {
    if it.window == ItemWindow::BeltInventory {
        (BELT_INVENTORY_SLOT_START + (it.pos as u16)) as u16
    } else {
        it.pos as u16
    }
}

pub fn wire_cell(it: &ItemRow) -> (c: u16)
    requires
        it.window == ItemWindow::BeltInventory ==> BELT_INVENTORY_SLOT_START + (it.pos as u16)
            <= u16::MAX,
    ensures
        c == wire_cell_spec(*it),
{
    if it.window == ItemWindow::BeltInventory {
        BELT_INVENTORY_SLOT_START + it.pos as u16
    } else {
        it.pos as u16
    }
}

/// The store position (0..15) of a belt wire cell.
pub fn belt_pos_of(cell: u16) -> (p: i32)
    requires
        cell >= BELT_INVENTORY_SLOT_START,
    ensures
        p == cell - BELT_INVENTORY_SLOT_START,
{
    (cell - BELT_INVENTORY_SLOT_START) as i32
}

/// Puts a row at a wire cell: on the belt as window `BeltInventory` at the
/// belt position, elsewhere as window `Inventory` at the cell.
pub fn place_at(it: &mut ItemRow, to_belt: bool, cell: u16)
    requires
        to_belt ==> cell >= BELT_INVENTORY_SLOT_START,
    ensures
        final(it).id == old(it).id,
        final(it).count == old(it).count,
        final(it).vnum == old(it).vnum,
        final(it).sockets == old(it).sockets,
        final(it).attrs == old(it).attrs,
        to_belt ==> final(it).window == ItemWindow::BeltInventory && final(it).pos == cell
            - BELT_INVENTORY_SLOT_START,
        !to_belt ==> final(it).window == ItemWindow::Inventory && final(it).pos == cell,
{
    if to_belt {
        it.window = ItemWindow::BeltInventory;
        it.pos = belt_pos_of(cell);
    } else {
        it.window = ItemWindow::Inventory;
        it.pos = cell as i32;
    }
}

/// The grade a belt needs to open cell `i` of the belt.
pub open spec fn belt_rule(i: int) -> i32 {
    if i == 0 {
        1
    } else if i == 1 {
        2
    } else if i == 2 || i == 6 {
        4
    } else if i == 3 || i == 7 || i == 11 {
        6
    } else if i == 4 || i == 5 {
        3
    } else if 8 <= i <= 10 {
        5
    } else {
        7
    }
}

/// Whether a belt of `grade` opens the wire cell `cell`.
pub open spec fn is_available_cell_spec(cell: u16, grade: i32) -> bool {
    let i = cell - BELT_INVENTORY_SLOT_START;
    i < BELT_INVENTORY_SLOT_COUNT && belt_rule(i) <= grade
}

pub fn is_available_cell(cell: u16, grade: i32) -> (r: bool)
    requires
        cell >= BELT_INVENTORY_SLOT_START,
    ensures
        r == is_available_cell_spec(cell, grade),
{
    let rule: [i32; 16] = [1, 2, 4, 6, 3, 3, 4, 6, 5, 5, 5, 6, 7, 7, 7, 7];
    let i = (cell - BELT_INVENTORY_SLOT_START) as usize;
    if i >= 16 {
        return false;
    }
    assert(rule@[i as int] == belt_rule(i as int));
    rule[i] <= grade
}

/// Only `USE` items of subtype potion, no-delay potion or ability-up.
pub open spec fn can_move_into_belt_spec(b_type: i16, b_sub_type: i16) -> bool {
    b_type == ITEM_USE && (b_sub_type == USE_POTION || b_sub_type == USE_POTION_NODELAY
        || b_sub_type == USE_ABILITY_UP)
}

pub fn can_move_into_belt(b_type: i16, b_sub_type: i16) -> (r: bool)
    ensures
        r == can_move_into_belt_spec(b_type, b_sub_type),
{
    b_type == ITEM_USE && (b_sub_type == USE_POTION || b_sub_type == USE_POTION_NODELAY
        || b_sub_type == USE_ABILITY_UP)
}

/// The equipped belt (slot 23, wire cell 203), if any.
pub fn equipped_belt(inventory: &[ItemRow]) -> (r: Option<&ItemRow>)
    ensures
        r matches Some(b) ==> exists|i: int|
            0 <= i < inventory@.len() && inventory@[i] == *b && is_equipped_at(*b, WEAR_BELT)
                && forall|k: int| 0 <= k < i ==> !is_equipped_at(#[trigger] inventory@[k], WEAR_BELT),
        r is None ==> forall|k: int|
            0 <= k < inventory@.len() ==> !is_equipped_at(#[trigger] inventory@[k], WEAR_BELT),
{
    match equipped_index(inventory, WEAR_BELT) {
        Some(i) => Some(&inventory[i]),
        None => None,
    }
}

/// A higher grade never closes a cell that a lower grade opens.
pub proof fn law_belt_grades_are_monotonic(cell: u16, g1: i32, g2: i32)
    requires
        cell >= BELT_INVENTORY_SLOT_START,
        g1 <= g2,
        is_available_cell_spec(cell, g1),
    ensures
        is_available_cell_spec(cell, g2),
{
}

/// Grade 7 opens all sixteen cells, and no grade opens a cell past them.
pub proof fn law_belt_full_grade_opens_every_cell(cell: u16)
    requires
        cell >= BELT_INVENTORY_SLOT_START,
    ensures
        is_available_cell_spec(cell, 7) <==> cell < BELT_INVENTORY_SLOT_END,
{
}

/// A row placed on a belt cell reads back at the same wire cell.
pub proof fn law_belt_place_then_wire_cell(it: ItemRow, cell: u16)
    requires
        BELT_INVENTORY_SLOT_START <= cell < BELT_INVENTORY_SLOT_END,
        it.window == ItemWindow::BeltInventory,
        it.pos == cell - BELT_INVENTORY_SLOT_START,
    ensures
        wire_cell_spec(it) == cell,
{
}

} // verus!
