//! The item model of a character: where a stored item lives (window and
//! position), the wire position of an inventory cell, and the layout
//! constants of the inventory and equipment grids.

use vstd::prelude::*;

verus! {

/// Cells of the carried inventory (5 pages of 9x4).
pub const INVENTORY_MAX_NUM: u16 = 180;
/// Equipment slots; the wire cell of slot `w` is `INVENTORY_MAX_NUM + w`.
pub const WEAR_MAX_NUM: u16 = 32;
/// Stack limit of a countable item.
pub const ITEM_COUNT_LIMIT: i64 = 200;
/// Equipment slot of the boots.
pub const WEAR_FOOTS: u16 = 2;
/// Equipment slot of the weapon.
pub const WEAR_WEAPON: u16 = 4;
/// Equipment slot of the arrows.
pub const WEAR_ARROW: u16 = 9;
/// Equipment slot of the belt.
pub const WEAR_BELT: u16 = 23;
/// Vnum of the gold item on the ground.
pub const ITEM_GOLD_VNUM: i64 = 1;

/// The store window of an item row.
#[derive(Debug, Clone, Copy, PartialEq, Eq, Structural)]
pub enum ItemWindow {
    Inventory,
    Equipment,
    BeltInventory,
    Safebox,
    Other,
}

/// One stored item of a character.
#[derive(Debug, Clone, Copy)]
pub struct ItemRow {
    pub id: i64,
    pub window: ItemWindow,
    pub pos: i32,
    pub count: i64,
    pub vnum: i64,
    pub sockets: [i64; 3],
    pub attrs: [(u8, i16); 7],
}

/// A position on the wire: a window number and a cell in it.
#[derive(Debug, Clone, Copy, PartialEq, Eq, Structural)]
pub struct ItemPos {
    pub window: u8,
    pub cell: u16,
}

/// Wire window of the carried inventory (the belt travels in it too).
pub const WINDOW_INVENTORY: u8 = 1;
/// Wire window of the equipment.
pub const WINDOW_EQUIPMENT: u8 = 2;
/// The belt window number of the enum, which the client never sends.
pub const WINDOW_BELT: u8 = 6;

/// The ground gold is the item of vnum 1.
pub fn is_gold_item(vnum: i64) -> (r: bool)
    ensures
        r == (vnum == ITEM_GOLD_VNUM),
{
    vnum == 1
}

/// Index of the first equipped item in wire cell `180 + wear`.
pub open spec fn is_equipped_at(it: ItemRow, wear: u16) -> bool {
    it.window == ItemWindow::Equipment && (it.pos as u16) == INVENTORY_MAX_NUM + wear
}

/// The first index of `inv` whose item is equipped in slot `wear`.
pub fn equipped_index(inventory: &[ItemRow], wear: u16) -> (r: Option<usize>)
    requires
        wear < WEAR_MAX_NUM,
    ensures
        r matches Some(i) ==> i < inventory@.len() && is_equipped_at(inventory@[i as int], wear)
            && forall|k: int| 0 <= k < i ==> !is_equipped_at(#[trigger] inventory@[k], wear),
        r is None ==> forall|k: int|
            0 <= k < inventory@.len() ==> !is_equipped_at(#[trigger] inventory@[k], wear),
{
    let mut i: usize = 0;
    while i < inventory.len()
        invariant
            i <= inventory@.len(),
            wear < WEAR_MAX_NUM,
            forall|k: int| 0 <= k < i ==> !is_equipped_at(#[trigger] inventory@[k], wear),
        decreases inventory@.len() - i,
    {
        let it = &inventory[i];
        if it.window == ItemWindow::Equipment && it.pos as u16 == INVENTORY_MAX_NUM + wear {
            return Some(i);
        }
        i = i + 1;
    }
    None
}

/// The index of the equipped arrows.
pub fn equipped_arrow_index(inventory: &[ItemRow]) -> (r: Option<usize>)
    ensures
        r matches Some(i) ==> i < inventory@.len() && is_equipped_at(inventory@[i as int], WEAR_ARROW)
            && forall|k: int| 0 <= k < i ==> !is_equipped_at(#[trigger] inventory@[k], WEAR_ARROW),
        r is None ==> forall|k: int|
            0 <= k < inventory@.len() ==> !is_equipped_at(#[trigger] inventory@[k], WEAR_ARROW),
{
    equipped_index(inventory, WEAR_ARROW)
}

/// Shoots one arrow: the equipped arrows lose one unit and stay equipped
/// (at 0 the next shot is refused). Returns the index of the arrows, or
/// `None` when none are equipped (nothing changes).
pub fn consume_arrow(inventory: &mut Vec<ItemRow>) -> (r: Option<usize>)
    requires
        forall|k: int| 0 <= k < old(inventory)@.len() ==> #[trigger] old(inventory)@[k].count > i64::MIN,
    ensures
        r matches Some(i) ==> {
            &&& i < old(inventory)@.len()
            &&& is_equipped_at(old(inventory)@[i as int], WEAR_ARROW)
            &&& forall|k: int| 0 <= k < i ==> !is_equipped_at(#[trigger] old(inventory)@[k], WEAR_ARROW)
            &&& final(inventory)@ == old(inventory)@.update(
                i as int,
                ItemRow { count: (old(inventory)@[i as int].count - 1) as i64, ..old(inventory)@[i as int] },
            )
        },
        r is None ==> final(inventory)@ == old(inventory)@ && forall|k: int|
            0 <= k < old(inventory)@.len() ==> !is_equipped_at(#[trigger] old(inventory)@[k], WEAR_ARROW),
{
    match equipped_arrow_index(inventory.as_slice()) {
        None => None,
        Some(i) => {
            let mut row = inventory[i];
            assert(row.count > i64::MIN);
            row.count = row.count - 1;
            inventory.set(i, row);
            Some(i)
        },
    }
}

/// The use values of an item proto that the armor total reads.
#[derive(Debug, Clone, Copy)]
pub struct ArmorProto {
    pub b_type: i16,
    pub b_sub_type: i16,
    pub values: [i32; 6],
}

/// Armor item type.
pub const ITEM_TYPE_ARMOR: i16 = 2;

/// An equipped proto counts when it is armor of subtype body, head, shield
/// or feet (0, 1, 2, 4).
pub open spec fn counts_as_armor(p: Option<ArmorProto>) -> bool {
    p matches Some(a) && a.b_type == ITEM_TYPE_ARMOR && (a.b_sub_type == 0 || a.b_sub_type == 1
        || a.b_sub_type == 2 || a.b_sub_type == 4)
}

/// Its defence: `value1 + 2 * value5`.
pub open spec fn armor_term(p: Option<ArmorProto>) -> int {
    if counts_as_armor(p) {
        p.unwrap().values@[1] + 2 * p.unwrap().values@[5]
    } else {
        0
    }
}

/// The defence of the equipped items (their protos, in inventory order).
pub open spec fn armor_sum(s: Seq<Option<ArmorProto>>) -> int
    decreases s.len(),
{
    if s.len() == 0 {
        0
    } else {
        armor_sum(s.drop_last()) + armor_term(s.last())
    }
}

/// The machine sum never leaves `i32`: each term, its doubled value and
/// every partial sum fit.
pub open spec fn armor_fits(s: Seq<Option<ArmorProto>>) -> bool {
    &&& forall|i: int| 0 <= i < s.len() && counts_as_armor(#[trigger] s[i]) ==> i32::MIN <= 2 * s[i].unwrap().values@[5] <= i32::MAX
        && i32::MIN <= armor_term(s[i]) <= i32::MAX
    &&& forall|k: int| 0 <= k <= s.len() ==> i32::MIN <= #[trigger] armor_sum(s.take(k)) <= i32::MAX
}

/// The armor total of the equipped items, from the protos the store
/// returned for them (`None` for an item without proto).
pub fn equipped_armor(protos: &[Option<ArmorProto>]) -> (armor: i32)
    requires
        armor_fits(protos@),
    ensures
        armor == armor_sum(protos@),
{
    let mut armor: i32 = 0;
    let mut i: usize = 0;
    while i < protos.len()
        invariant
            i <= protos@.len(),
            armor_fits(protos@),
            armor == armor_sum(protos@.take(i as int)),
        decreases protos@.len() - i,
    {
        proof {
            assert(protos@.take(i as int + 1).drop_last() =~= protos@.take(i as int));
            assert(protos@.take(i as int + 1).last() == protos@[i as int]);
            assert(i32::MIN <= armor_sum(protos@.take(i as int + 1)) <= i32::MAX);
        }
        if let Some(p) = protos[i] {
            if p.b_type == ITEM_TYPE_ARMOR && (p.b_sub_type == 0 || p.b_sub_type == 1 || p.b_sub_type == 2
                || p.b_sub_type == 4) {
                assert(counts_as_armor(protos@[i as int]));
                let d: i32 = 2 * p.values[5];
                let t: i32 = p.values[1] + d;
                armor = armor + t;
            }
        }
        i = i + 1;
    }
    assert(protos@.take(i as int) =~= protos@);
    armor
}

} // verus!
