//! Item rules of the game loop: which items a use applies to, the buffs of
//! ability-up potions, gold bags, potions, dropping, and moving items in
//! the inventory (move, stack, split, equip, unequip), plus the refine
//! rules (fee, materials, outcome).

use vstd::prelude::*;
use crate::belt::{
    is_available_cell, is_available_cell_spec, is_belt_cell, is_belt_cell_spec,
    place_at, BELT_INVENTORY_SLOT_START,
};
use crate::item::{
    ItemPos, ItemRow, ItemWindow, INVENTORY_MAX_NUM, ITEM_COUNT_LIMIT, WEAR_MAX_NUM,
    WINDOW_EQUIPMENT, WINDOW_INVENTORY,
};

verus! {

/// Consumable item type.
pub const ITEM_TYPE_USE: i16 = 3;
/// Auto-use item type (also consumable).
pub const ITEM_TYPE_AUTOUSE: i16 = 4;
/// Refine scroll subtype.
pub const USE_TUNING: i16 = 2;
/// Treasure box subtype.
pub const USE_TREASURE_BOX: i16 = 4;
/// Ability-up potion subtype.
pub const USE_ABILITY_UP: i16 = 7;
/// Gold bag subtype of auto-use items.
pub const AUTOUSE_GOLD: i16 = 3;

pub const APPLY_CON: i32 = 3;
pub const APPLY_INT: i32 = 4;
pub const APPLY_STR: i32 = 5;
pub const APPLY_DEX: i32 = 6;
pub const APPLY_ATT_SPEED: i32 = 7;
pub const APPLY_MOV_SPEED: i32 = 8;
pub const APPLY_CAST_SPEED: i32 = 9;
pub const APPLY_ATT_GRADE_BONUS: i32 = 53;
pub const APPLY_DEF_GRADE_BONUS: i32 = 54;

pub const AFFECT_MOV_SPEED: u32 = 200;
pub const AFFECT_ATT_SPEED: u32 = 201;
pub const AFFECT_ATT_GRADE: u32 = 202;
pub const AFFECT_STR: u32 = 204;
pub const AFFECT_DEX: u32 = 205;
pub const AFFECT_CON: u32 = 206;
pub const AFFECT_INT: u32 = 207;
pub const AFFECT_CAST_SPEED: u32 = 217;
pub const AFFECT_DEF_GRADE: u32 = 226;

pub const AFF_MOV_SPEED_POTION: u32 = 12;
pub const AFF_ATT_SPEED_POTION: u32 = 13;

pub const POINT_ST: u8 = 12;
pub const POINT_HT: u8 = 13;
pub const POINT_DX: u8 = 14;
pub const POINT_IQ: u8 = 15;
pub const POINT_ATT_SPEED: u8 = 17;
pub const POINT_MOV_SPEED: u8 = 19;
pub const POINT_CASTING_SPEED: u8 = 21;
pub const POINT_ATT_GRADE_BONUS: u8 = 95;
pub const POINT_DEF_GRADE_BONUS: u8 = 96;

/// Gold cap of a character.
pub const GOLD_MAX: i64 = 2_000_000_000;

/// The buff of an ability-up potion by its apply: `(affect type, point,
/// flag)`; applies without a case give `None` (no buff, not consumed).
pub open spec fn ability_up_apply_spec(apply: i32) -> Option<(u32, u8, u32)> {
    if apply == APPLY_MOV_SPEED {
        Some((AFFECT_MOV_SPEED, POINT_MOV_SPEED, AFF_MOV_SPEED_POTION))
    } else if apply == APPLY_ATT_SPEED {
        Some((AFFECT_ATT_SPEED, POINT_ATT_SPEED, AFF_ATT_SPEED_POTION))
    } else if apply == APPLY_STR {
        Some((AFFECT_STR, POINT_ST, 0))
    } else if apply == APPLY_DEX {
        Some((AFFECT_DEX, POINT_DX, 0))
    } else if apply == APPLY_CON {
        Some((AFFECT_CON, POINT_HT, 0))
    } else if apply == APPLY_INT {
        Some((AFFECT_INT, POINT_IQ, 0))
    } else if apply == APPLY_CAST_SPEED {
        Some((AFFECT_CAST_SPEED, POINT_CASTING_SPEED, 0))
    } else if apply == APPLY_ATT_GRADE_BONUS {
        Some((AFFECT_ATT_GRADE, POINT_ATT_GRADE_BONUS, 0))
    } else if apply == APPLY_DEF_GRADE_BONUS {
        Some((AFFECT_DEF_GRADE, POINT_DEF_GRADE_BONUS, 0))
    } else {
        None
    }
}

pub fn ability_up_apply(apply: i32) -> (r: Option<(u32, u8, u32)>)
    ensures
        r == ability_up_apply_spec(apply),
{
    if apply == APPLY_MOV_SPEED {
        Some((AFFECT_MOV_SPEED, POINT_MOV_SPEED, AFF_MOV_SPEED_POTION))
    } else if apply == APPLY_ATT_SPEED {
        Some((AFFECT_ATT_SPEED, POINT_ATT_SPEED, AFF_ATT_SPEED_POTION))
    } else if apply == APPLY_STR {
        Some((AFFECT_STR, POINT_ST, 0))
    } else if apply == APPLY_DEX {
        Some((AFFECT_DEX, POINT_DX, 0))
    } else if apply == APPLY_CON {
        Some((AFFECT_CON, POINT_HT, 0))
    } else if apply == APPLY_INT {
        Some((AFFECT_INT, POINT_IQ, 0))
    } else if apply == APPLY_CAST_SPEED {
        Some((AFFECT_CAST_SPEED, POINT_CASTING_SPEED, 0))
    } else if apply == APPLY_ATT_GRADE_BONUS {
        Some((AFFECT_ATT_GRADE, POINT_ATT_GRADE_BONUS, 0))
    } else if apply == APPLY_DEF_GRADE_BONUS {
        Some((AFFECT_DEF_GRADE, POINT_DEF_GRADE_BONUS, 0))
    } else {
        None
    }
}

/// Gold after a bag: the sum capped at `GOLD_MAX`, as an `i32`.
pub open spec fn gold_after_add_spec(current: i32, add: i32) -> i32 {
    let s = current + add;
    (if s < GOLD_MAX { s } else { GOLD_MAX as int }) as i32
}

pub fn gold_after_add(current: i32, add: i32) -> (g: i32)
    ensures
        g == gold_after_add_spec(current, add),
{
    let s: i64 = current as i64 + add as i64;
    let m: i64 = if s < GOLD_MAX { s } else { GOLD_MAX };
    m as i32
}

/// Only `USE` and `AUTOUSE` items are applied and consumed by a use.
pub open spec fn is_consumable_spec(b_type: i16) -> bool {
    b_type == ITEM_TYPE_USE || b_type == ITEM_TYPE_AUTOUSE
}

pub fn is_consumable(b_type: i16) -> (r: bool)
    ensures
        r == is_consumable_spec(b_type),
{
    b_type == ITEM_TYPE_USE || b_type == ITEM_TYPE_AUTOUSE
}

/// The count a drop takes: 0 or more than the stack means the whole stack.
pub open spec fn drop_want_spec(count: u8, stack: i64) -> i64 {
    if count == 0 || count > stack {
        stack
    } else {
        count as i64
    }
}

pub fn drop_want(count: u8, stack: i64) -> (w: i64)
    ensures
        w == drop_want_spec(count, stack),
{
    if count == 0 || (count as i64) > stack {
        stack
    } else {
        count as i64
    }
}

/// An equipment position: inventory or equipment window, cells 180..212
/// (a drag sends the inventory window, a double click the equipment one).
pub open spec fn is_equip_position_spec(p: ItemPos) -> bool {
    (p.window == WINDOW_INVENTORY || p.window == WINDOW_EQUIPMENT) && INVENTORY_MAX_NUM <= p.cell
        < INVENTORY_MAX_NUM + WEAR_MAX_NUM
}

pub fn is_equip_position(p: ItemPos) -> (r: bool)
    ensures
        r == is_equip_position_spec(p),
{
    (p.window == WINDOW_INVENTORY || p.window == WINDOW_EQUIPMENT) && p.cell >= INVENTORY_MAX_NUM
        && p.cell < INVENTORY_MAX_NUM + WEAR_MAX_NUM
}

/// A row stored in window `w` at wire cell `c`.
pub open spec fn at_cell(it: ItemRow, w: ItemWindow, c: u16) -> bool {
    it.window == w && (it.pos as u16) == c
}

/// The first row of `s` in window `w` at cell `c`.
pub open spec fn first_at(s: Seq<ItemRow>, w: ItemWindow, c: u16) -> Option<int> {
    if exists|i: int| 0 <= i < s.len() && at_cell(s[i], w, c) {
        Some(
            choose|i: int|
                0 <= i < s.len() && at_cell(s[i], w, c) && forall|k: int|
                    0 <= k < i ==> !at_cell(#[trigger] s[k], w, c),
        )
    } else {
        None
    }
}

proof fn lemma_min_match(s: Seq<ItemRow>, w: ItemWindow, c: u16, i: int)
    requires
        0 <= i < s.len(),
        at_cell(s[i], w, c),
    ensures
        exists|j: int|
            0 <= j < s.len() && at_cell(s[j], w, c) && forall|k: int| 0 <= k < j ==> !at_cell(#[trigger] s[k], w, c),
    decreases i,
{
    if exists|k: int| 0 <= k < i && at_cell(s[k], w, c) {
        let k = choose|k: int| 0 <= k < i && at_cell(s[k], w, c);
        lemma_min_match(s, w, c, k);
    }
}

/// `first_at` names a matching row with no match before it.
pub proof fn lemma_first_at_some(s: Seq<ItemRow>, w: ItemWindow, c: u16)
    ensures
        first_at(s, w, c) matches Some(i) ==> 0 <= i < s.len() && at_cell(s[i], w, c) && forall|k: int|
            0 <= k < i ==> !at_cell(#[trigger] s[k], w, c),
        first_at(s, w, c) is None ==> forall|k: int| 0 <= k < s.len() ==> !at_cell(#[trigger] s[k], w, c),
{
    if exists|i: int| 0 <= i < s.len() && at_cell(s[i], w, c) {
        let i = choose|i: int| 0 <= i < s.len() && at_cell(s[i], w, c);
        lemma_min_match(s, w, c, i);
    }
}

proof fn lemma_first_at(s: Seq<ItemRow>, w: ItemWindow, c: u16, i: int)
    requires
        0 <= i < s.len(),
        at_cell(s[i], w, c),
        forall|k: int| 0 <= k < i ==> !at_cell(#[trigger] s[k], w, c),
    ensures
        first_at(s, w, c) == Some(i),
{
    let j = choose|j: int|
        0 <= j < s.len() && at_cell(s[j], w, c) && forall|k: int| 0 <= k < j ==> !at_cell(#[trigger] s[k], w, c);
    if j < i {
        assert(!at_cell(s[j], w, c));
    }
    if i < j {
        assert(!at_cell(s[i], w, c));
    }
}

/// Index of the first row in window `w` at cell `c`.
pub fn find_at(inv: &[ItemRow], w: ItemWindow, c: u16) -> (r: Option<usize>)
    ensures
        r matches Some(i) ==> first_at(inv@, w, c) == Some(i as int) && i < inv@.len() && at_cell(inv@[i as int], w, c),
        r is None ==> first_at(inv@, w, c) is None,
{
    let mut i: usize = 0;
    while i < inv.len()
        invariant
            i <= inv@.len(),
            forall|k: int| 0 <= k < i ==> !at_cell(#[trigger] inv@[k], w, c),
        decreases inv@.len() - i,
    {
        if inv[i].window == w && inv[i].pos as u16 == c {
            proof {
                lemma_first_at(inv@, w, c, i as int);
            }
            return Some(i);
        }
        i = i + 1;
    }
    None
}

/// The first inventory cell (0..180) that holds no inventory row, 0 when
/// every cell is taken.
pub open spec fn first_free_cell_spec(s: Seq<ItemRow>) -> u16 {
    if exists|c: u16| c < INVENTORY_MAX_NUM && first_at(s, ItemWindow::Inventory, c) is None {
        choose|c: u16|
            c < INVENTORY_MAX_NUM && first_at(s, ItemWindow::Inventory, c) is None && forall|d: u16|
                d < c ==> !(first_at(s, ItemWindow::Inventory, d) is None)
    } else {
        0
    }
}

pub fn first_free_cell(inv: &[ItemRow]) -> (c: u16)
    ensures
        c == first_free_cell_spec(inv@),
        c < INVENTORY_MAX_NUM,
{
    let mut c: u16 = 0;
    while c < INVENTORY_MAX_NUM
        invariant
            c <= INVENTORY_MAX_NUM,
            forall|d: u16| d < c ==> !(first_at(inv@, ItemWindow::Inventory, d) is None),
        decreases INVENTORY_MAX_NUM - c,
    {
        if find_at(inv, ItemWindow::Inventory, c).is_none() {
            proof {
                let w = choose|w: u16|
                    w < INVENTORY_MAX_NUM && first_at(inv@, ItemWindow::Inventory, w) is None
                        && forall|d: u16| d < w ==> !(first_at(inv@, ItemWindow::Inventory, d) is None);
                if w < c {
                }
                if c < w {
                }
                assert(w == c);
            }
            return c;
        }
        c = c + 1;
    }
    0
}

/// Sum of the counts of the rows of `vnum`, the indices of `skip` left out.
pub open spec fn material_total(s: Seq<ItemRow>, vnum: i64, skip: Seq<usize>) -> int
    decreases s.len(),
{
    if s.len() == 0 {
        0
    } else {
        let i = (s.len() - 1) as int;
        material_total(s.drop_last(), vnum, skip) + if !skip.contains(i as usize) && s[i].vnum == vnum {
            s[i].count as int
        } else {
            0
        }
    }
}

/// Counts are whole stacks within the i64 range the sums need.
pub open spec fn counts_bounded(s: Seq<ItemRow>) -> bool {
    forall|i: int| 0 <= i < s.len() ==> 0 <= #[trigger] s[i].count <= 0x1_0000_0000
}

proof fn lemma_material_total_bounds(s: Seq<ItemRow>, vnum: i64, skip: Seq<usize>)
    requires
        counts_bounded(s),
    ensures
        0 <= material_total(s, vnum, skip) <= s.len() * 0x1_0000_0000,
    decreases s.len(),
{
    if s.len() > 0 {
        assert(counts_bounded(s.drop_last()));
        lemma_material_total_bounds(s.drop_last(), vnum, skip);
        assert(0 <= s[s.len() - 1].count <= 0x1_0000_0000);
    }
}

fn contains_index(skip: &[usize], i: usize) -> (r: bool)
    ensures
        r == skip@.contains(i),
{
    let mut k: usize = 0;
    while k < skip.len()
        invariant
            k <= skip@.len(),
            forall|j: int| 0 <= j < k ==> skip@[j] != i,
        decreases skip@.len() - k,
    {
        if skip[k] == i {
            return true;
        }
        k = k + 1;
    }
    false
}

/// The running sum of material `vnum` never leaves `i64` as the rows are
/// added up in order.
pub open spec fn material_sums_fit(s: Seq<ItemRow>, vnum: i64, skip: Seq<usize>) -> bool {
    forall|k: int| 0 <= k <= s.len() ==> i64::MIN <= #[trigger] material_total(s.take(k), vnum, skip) <= i64::MAX
}

/// Whole stacks in an inventory of at most 2^28 rows always sum within
/// `i64`.
pub proof fn lemma_material_sums_fit(s: Seq<ItemRow>, vnum: i64, skip: Seq<usize>)
    requires
        counts_bounded(s),
        s.len() <= 0x1000_0000,
    ensures
        material_sums_fit(s, vnum, skip),
{
    assert forall|k: int| 0 <= k <= s.len() implies i64::MIN <= #[trigger] material_total(s.take(k), vnum, skip)
        <= i64::MAX by {
        assert(counts_bounded(s.take(k)));
        lemma_material_total_bounds(s.take(k), vnum, skip);
        assert(k * 0x1_0000_0000 <= 0x1000_0000 * 0x1_0000_0000) by (nonlinear_arith)
            requires
                k <= 0x1000_0000,
        ;
    }
}

/// Count of material `vnum` in the inventory, the rows at `skip` left out
/// (the item being refined and the scroll).
pub fn count_material(inventory: &[ItemRow], vnum: i64, skip: &[usize]) -> (n: i64)
    requires
        material_sums_fit(inventory@, vnum, skip@),
    ensures
        n == material_total(inventory@, vnum, skip@),
{
    let mut total: i64 = 0;
    let mut i: usize = 0;
    while i < inventory.len()
        invariant
            i <= inventory@.len(),
            material_sums_fit(inventory@, vnum, skip@),
            total == material_total(inventory@.take(i as int), vnum, skip@),
        decreases inventory@.len() - i,
    {
        proof {
            assert(inventory@.take(i as int + 1).drop_last() =~= inventory@.take(i as int));
            assert(i64::MIN <= material_total(inventory@.take(i as int + 1), vnum, skip@) <= i64::MAX);
        }
        if !contains_index(skip, i) && inventory[i].vnum == vnum {
            total = total + inventory[i].count;
        }
        i = i + 1;
    }
    assert(inventory@.take(i as int) =~= inventory@);
    total
}

/// Division truncated toward zero, as the machine divides.
pub open spec fn trunc_div(a: int, b: int) -> int {
    if a >= 0 {
        a / b
    } else {
        -((-a) / b)
    }
}

/// `min(x, cap)` of the potion steps.
pub open spec fn capped(x: int, cap: int) -> int {
    if x < cap {
        x
    } else {
        cap
    }
}

/// HP after the flat part of a potion.
pub open spec fn flat_step(cur: i32, max: i32, add: i32) -> int {
    if add != 0 && cur < max {
        capped(cur + add, max as int)
    } else {
        cur as int
    }
}

/// A value after the percent part of a potion.
pub open spec fn percent_step(cur: int, max: i32, pct: i32) -> int {
    if pct != 0 && cur < max {
        capped(cur + trunc_div(pct * max, 100), max as int)
    } else {
        cur
    }
}

/// A potion: the new `(hp, mp)`, or `None` when it has no effect. `v` are
/// the proto values: flat HP, flat SP, -, HP percent, SP percent of the
/// maxima; each step is capped at its maximum.
pub open spec fn potion_effect_spec(hp: i32, mp: i32, max_hp: i32, max_mp: i32, v: Seq<i32>) -> Option<(i32, i32)> {
    let hp1 = flat_step(hp, max_hp, v[0]);
    let mp1 = flat_step(mp, max_mp, v[1]);
    let used = (v[0] != 0 && hp < max_hp) || (v[1] != 0 && mp < max_mp) || (v[3] != 0 && hp1 < max_hp)
        || (v[4] != 0 && mp1 < max_mp);
    if used {
        Some((percent_step(hp1, max_hp, v[3]) as i32, percent_step(mp1, max_mp, v[4]) as i32))
    } else {
        None
    }
}

/// The machine never overflows on the steps a potion takes.
pub open spec fn potion_fits(hp: i32, mp: i32, max_hp: i32, max_mp: i32, v: Seq<i32>) -> bool {
    let hp1 = flat_step(hp, max_hp, v[0]);
    let mp1 = flat_step(mp, max_mp, v[1]);
    &&& (v[0] != 0 && hp < max_hp) ==> i32::MIN <= hp + v[0] <= i32::MAX
    &&& (v[1] != 0 && mp < max_mp) ==> i32::MIN <= mp + v[1] <= i32::MAX
    &&& (v[3] != 0 && hp1 < max_hp) ==> i32::MIN <= v[3] * max_hp <= i32::MAX && i32::MIN <= hp1
        + trunc_div(v[3] * max_hp, 100) <= i32::MAX
    &&& (v[4] != 0 && mp1 < max_mp) ==> i32::MIN <= v[4] * max_mp <= i32::MAX && i32::MIN <= mp1
        + trunc_div(v[4] * max_mp, 100) <= i32::MAX
}

fn trunc_div_100(p: i64) -> (r: i64)
    requires
        -0x1_0000_0000 <= p <= 0x1_0000_0000,
    ensures
        r == trunc_div(p as int, 100),
{
    if p >= 0 {
        p / 100
    } else {
        -((-p) / 100)
    }
}

/// The HP/MP a potion restores (flat amounts first, then percentages of
/// the maxima), each capped at its maximum.
pub fn potion_effect(hp: i32, mp: i32, max_hp: i32, max_mp: i32, v: [i32; 5]) -> (r: Option<(i32, i32)>)
    requires
        potion_fits(hp, mp, max_hp, max_mp, v@),
    ensures
        r == potion_effect_spec(hp, mp, max_hp, max_mp, v@),
{
    let mut used = false;
    let mut h: i64 = hp as i64;
    let mut m: i64 = mp as i64;
    if v[0] != 0 && hp < max_hp {
        let t = hp as i64 + v[0] as i64;
        h = if t < max_hp as i64 { t } else { max_hp as i64 };
        used = true;
    }
    if v[1] != 0 && mp < max_mp {
        let t = mp as i64 + v[1] as i64;
        m = if t < max_mp as i64 { t } else { max_mp as i64 };
        used = true;
    }
    assert(h == flat_step(hp, max_hp, v@[0]));
    assert(m == flat_step(mp, max_mp, v@[1]));
    if v[3] != 0 && h < max_hp as i64 {
        let add = trunc_div_100(v[3] as i64 * max_hp as i64);
        let t = h + add;
        h = if t < max_hp as i64 { t } else { max_hp as i64 };
        used = true;
    }
    if v[4] != 0 && m < max_mp as i64 {
        let add = trunc_div_100(v[4] as i64 * max_mp as i64);
        let t = m + add;
        m = if t < max_mp as i64 { t } else { max_mp as i64 };
        used = true;
    }
    if used {
        Some((h as i32, m as i32))
    } else {
        None
    }
}

/// What a `CG_ITEM_USE` does once the item's proto is known.
#[derive(Debug, Clone, Copy, PartialEq, Eq, Structural)]
pub enum UseAction {
    /// Ability-up potion: apply the buff of value 0.
    AbilityUp,
    /// Treasure box: nothing happens, nothing is consumed.
    TreasureBox,
    /// Gold bag: add value 0 to the gold.
    GoldBag,
    /// Double click on an equipped item: unequip it to the first free cell.
    Unequip,
    /// Double click on an equipable item: equip it in this wear slot.
    Equip(u16),
    /// Neither consumable nor equipable: ignored.
    NotUsable,
    /// A potion.
    Potion,
}

pub open spec fn use_action_spec(b_type: i16, b_sub_type: i16, equip_window: bool, row_equipped: bool, equip_slot: Option<u16>) -> UseAction {
    if b_sub_type == USE_ABILITY_UP && b_type == ITEM_TYPE_USE {
        UseAction::AbilityUp
    } else if b_sub_type == USE_TREASURE_BOX && b_type == ITEM_TYPE_USE {
        UseAction::TreasureBox
    } else if b_sub_type == AUTOUSE_GOLD && b_type == ITEM_TYPE_AUTOUSE {
        UseAction::GoldBag
    } else if equip_window && row_equipped {
        UseAction::Unequip
    } else if !is_consumable_spec(b_type) {
        match equip_slot {
            Some(s) => UseAction::Equip(s),
            None => UseAction::NotUsable,
        }
    } else {
        UseAction::Potion
    }
}

/// The branch of a use: subtype first, then the equip toggle, then the
/// consumable gate. `equip_slot` is the wear slot the item's wear flags give.
pub fn use_action(b_type: i16, b_sub_type: i16, equip_window: bool, row_equipped: bool, equip_slot: Option<u16>) -> (a: UseAction)
    ensures
        a == use_action_spec(b_type, b_sub_type, equip_window, row_equipped, equip_slot),
{
    if b_sub_type == USE_ABILITY_UP && b_type == ITEM_TYPE_USE {
        UseAction::AbilityUp
    } else if b_sub_type == USE_TREASURE_BOX && b_type == ITEM_TYPE_USE {
        UseAction::TreasureBox
    } else if b_sub_type == AUTOUSE_GOLD && b_type == ITEM_TYPE_AUTOUSE {
        UseAction::GoldBag
    } else if equip_window && row_equipped {
        UseAction::Unequip
    } else if !is_consumable(b_type) {
        match equip_slot {
            Some(s) => UseAction::Equip(s),
            None => UseAction::NotUsable,
        }
    } else {
        UseAction::Potion
    }
}

/// The row a use targets: at an equipment position, an equipment or
/// inventory row at that cell; elsewhere an inventory row.
pub open spec fn use_target_ok(it: ItemRow, p: ItemPos) -> bool {
    (if is_equip_position_spec(p) {
        it.window == ItemWindow::Equipment || it.window == ItemWindow::Inventory
    } else {
        it.window == ItemWindow::Inventory
    }) && (it.pos as u16) == p.cell
}

pub fn find_use_target(inv: &[ItemRow], p: ItemPos) -> (r: Option<usize>)
    ensures
        r matches Some(i) ==> i < inv@.len() && use_target_ok(inv@[i as int], p) && forall|k: int|
            0 <= k < i ==> !use_target_ok(#[trigger] inv@[k], p),
        r is None ==> forall|k: int| 0 <= k < inv@.len() ==> !use_target_ok(#[trigger] inv@[k], p),
{
    let eq = is_equip_position(p);
    let mut i: usize = 0;
    while i < inv.len()
        invariant
            i <= inv@.len(),
            eq == is_equip_position_spec(p),
            forall|k: int| 0 <= k < i ==> !use_target_ok(#[trigger] inv@[k], p),
        decreases inv@.len() - i,
    {
        let it = &inv[i];
        let win_ok = if eq {
            it.window == ItemWindow::Equipment || it.window == ItemWindow::Inventory
        } else {
            it.window == ItemWindow::Inventory
        };
        if win_ok && it.pos as u16 == p.cell {
            return Some(i);
        }
        i = i + 1;
    }
    None
}

/// What removing `n` units of row `idx` does: the row is gone when its
/// count drops to 0 or below, otherwise it keeps the rest.
pub open spec fn take_count_spec(s: Seq<ItemRow>, idx: int, n: i64) -> Seq<ItemRow> {
    let r = s[idx];
    if r.count - n <= 0 {
        s.remove(idx)
    } else {
        s.update(idx, ItemRow { count: (r.count - n) as i64, ..r })
    }
}

/// Takes `n` units of the row at `idx` (a drop, a use, a scroll); returns
/// whether the row was removed.
pub fn take_count(inv: &mut Vec<ItemRow>, idx: usize, n: i64) -> (removed: bool)
    requires
        idx < old(inv)@.len(),
        0 <= n <= 0x1_0000_0000,
        0 <= old(inv)@[idx as int].count <= 0x1_0000_0000,
    ensures
        removed == (old(inv)@[idx as int].count - n <= 0),
        final(inv)@ == take_count_spec(old(inv)@, idx as int, n),
{
    let left = inv[idx].count - n;
    if left <= 0 {
        inv.remove(idx);
        true
    } else {
        let mut r = inv[idx];
        r.count = left;
        inv.set(idx, r);
        false
    }
}

/// Drinks the potion at `idx`: when it heals (`potion_effect`), the row
/// loses exactly one unit (removed at 0) and the new `(hp, mp)` is
/// returned; when it does nothing, the inventory stays as it is.
pub fn use_potion(
    inv: &mut Vec<ItemRow>,
    idx: usize,
    hp: i32,
    mp: i32,
    max_hp: i32,
    max_mp: i32,
    v: [i32; 5],
) -> (r: Option<(i32, i32)>)
    requires
        idx < old(inv)@.len(),
        0 <= old(inv)@[idx as int].count <= 0x1_0000_0000,
        potion_fits(hp, mp, max_hp, max_mp, v@),
    ensures
        r == potion_effect_spec(hp, mp, max_hp, max_mp, v@),
        r matches Some(t) ==> (t.0 == hp || t.0 <= max_hp) && (t.1 == mp || t.1 <= max_mp),
        r is Some ==> final(inv)@ == take_count_spec(old(inv)@, idx as int, 1),
        r is None ==> final(inv)@ == old(inv)@,
{
    let r = potion_effect(hp, mp, max_hp, max_mp, v);
    if r.is_some() {
        take_count(inv, idx, 1);
    }
    r
}

/// What a drop of an inventory cell does.
#[derive(Debug, Clone, Copy, PartialEq, Eq, Structural)]
pub enum DropPlan {
    /// The character is dead.
    Dead,
    /// Not an inventory cell below 180.
    BadCell,
    /// No item there.
    Empty,
    /// Drop `want` units of row `idx` to the ground.
    Drop { idx: usize, want: i64 },
}

pub open spec fn drop_plan_spec(inv: Seq<ItemRow>, hp: i64, cell: ItemPos, count: u8) -> DropPlan {
    if hp <= 0 {
        DropPlan::Dead
    } else if cell.window != WINDOW_INVENTORY || cell.cell >= INVENTORY_MAX_NUM {
        DropPlan::BadCell
    } else {
        match first_at(inv, ItemWindow::Inventory, cell.cell) {
            None => DropPlan::Empty,
            Some(i) => DropPlan::Drop { idx: i as usize, want: drop_want_spec(count, inv[i].count) },
        }
    }
}

pub fn plan_drop(inv: &[ItemRow], hp: i64, cell: ItemPos, count: u8) -> (p: DropPlan)
    ensures
        p == drop_plan_spec(inv@, hp, cell, count),
{
    if hp <= 0 {
        return DropPlan::Dead;
    }
    if cell.window != WINDOW_INVENTORY || cell.cell >= INVENTORY_MAX_NUM {
        return DropPlan::BadCell;
    }
    match find_at(inv, ItemWindow::Inventory, cell.cell) {
        None => DropPlan::Empty,
        Some(i) => DropPlan::Drop { idx: i, want: drop_want(count, inv[i].count) },
    }
}

/// Whether a gold drop is allowed: no more than the purse holds.
pub fn gold_drop_allowed(gold: u32, purse: i32) -> (ok: bool)
    ensures
        ok == (gold <= purse),
{
    (gold as i64) <= (purse as i64)
}

/// Length of `CG_ITEM_MOVE`: header, source position (window, cell),
/// target position, units (0 = all).
pub const CG_ITEM_MOVE_SIZE: usize = 8;

/// `(from, to, units)` of a `CG_ITEM_MOVE`, `None` when it is too short
/// (logged, the connection goes on).
pub fn parse_item_move(pkt: &[u8]) -> (r: Option<(ItemPos, ItemPos, u8)>)
    ensures
        pkt@.len() < CG_ITEM_MOVE_SIZE ==> r is None,
        pkt@.len() >= CG_ITEM_MOVE_SIZE ==> r == Some(
            (
                ItemPos { window: pkt@[1], cell: (pkt@[2] + pkt@[3] * 256) as u16 },
                ItemPos { window: pkt@[4], cell: (pkt@[5] + pkt@[6] * 256) as u16 },
                pkt@[7],
            ),
        ),
{
    if pkt.len() < CG_ITEM_MOVE_SIZE {
        return None;
    }
    Some(
        (
            ItemPos { window: pkt[1], cell: pkt[2] as u16 + pkt[3] as u16 * 256 },
            ItemPos { window: pkt[4], cell: pkt[5] as u16 + pkt[6] as u16 * 256 },
            pkt[7],
        ),
    )
}

/// What the store knows of the moved item and the belt, looked up once the
/// moved row is known (`move_source`).
#[derive(Debug, Clone, Copy)]
pub struct MoveFacts {
    /// The wear slot the item's wear flags name (`None`: no proto, or not
    /// wearable).
    pub wear_slot: Option<u16>,
    /// Whether the item may sit on the belt (`can_move_into_belt` of its
    /// proto; `false` without proto).
    pub belt_item: bool,
    /// The grade of the equipped belt (value 0 of its proto; 0 without a
    /// belt, which opens no cell).
    pub belt_grade: i32,
}

/// What a `CG_ITEM_MOVE` does to the rows.
#[derive(Debug, Clone, Copy, PartialEq, Eq, Structural)]
pub enum MovePlan {
    /// Nothing changes.
    Ignore,
    /// Move the inventory row `src` into wear slot `wear`.
    Equip { src: usize, wear: u16 },
    /// Move the equipped row `src` to the free inventory cell.
    Unequip { src: usize },
    /// Move `add` units from `src` onto the same item at `dst`.
    Stack { src: usize, dst: usize, add: i64 },
    /// Split `want` units of `src` into a new row at the free cell.
    Split { src: usize, want: i64 },
    /// Move the whole row `src` to the free cell.
    Relocate { src: usize },
    /// Move the whole row `src` to wire cell `cell`: onto the belt
    /// (`to_belt`) or back to the inventory.
    Belt { src: usize, to_belt: bool, cell: u16 },
}

/// An inventory cell that is neither a wear slot nor a belt cell.
pub open spec fn plain_inventory_cell(p: ItemPos) -> bool {
    p.window == WINDOW_INVENTORY && !is_equip_position_spec(p) && !is_belt_cell_spec(p)
}

/// A move that involves the belt: one side is a belt cell, the other a belt
/// cell or a plain inventory cell.
pub open spec fn is_belt_move(pos: ItemPos, to: ItemPos) -> bool {
    &&& is_belt_cell_spec(pos) || is_belt_cell_spec(to)
    &&& is_belt_cell_spec(pos) || plain_inventory_cell(pos)
    &&& is_belt_cell_spec(to) || plain_inventory_cell(to)
}

/// The windows a move may go between: inventory to inventory, inventory to
/// a wear slot, a wear slot to the inventory, or a belt move.
pub open spec fn move_route_ok(pos: ItemPos, to: ItemPos) -> bool {
    let equipping = is_equip_position_spec(to);
    let unequipping = is_equip_position_spec(pos);
    ||| is_belt_move(pos, to)
    ||| !unequipping && !equipping && pos.window == WINDOW_INVENTORY && to.window == WINDOW_INVENTORY
    ||| equipping && pos.window == WINDOW_INVENTORY
    ||| unequipping && to.window == WINDOW_INVENTORY
}

/// The stored row a move takes: a belt row for a belt cell (at its belt
/// position), an equipped row when unequipping, an inventory row otherwise.
pub open spec fn move_source_spec(inv: Seq<ItemRow>, pos: ItemPos, to: ItemPos) -> Option<int> {
    if is_belt_move(pos, to) && is_belt_cell_spec(pos) {
        first_at(inv, ItemWindow::BeltInventory, (pos.cell - BELT_INVENTORY_SLOT_START) as u16)
    } else if !is_belt_move(pos, to) && is_equip_position_spec(pos) {
        first_at(inv, ItemWindow::Equipment, pos.cell)
    } else {
        first_at(inv, ItemWindow::Inventory, pos.cell)
    }
}

/// A belt move of the row `src`: the whole row only; onto the belt only a
/// belt item, into a cell the belt's grade opens and that is free; back to
/// the inventory only into a free cell.
pub open spec fn belt_plan_spec(inv: Seq<ItemRow>, src: int, to: ItemPos, num: u8, f: MoveFacts) -> MovePlan {
    if !(num == 0 || num == inv[src].count) {
        MovePlan::Ignore
    } else if is_belt_cell_spec(to) {
        if f.belt_item && is_available_cell_spec(to.cell, f.belt_grade) && first_at(
            inv,
            ItemWindow::BeltInventory,
            (to.cell - BELT_INVENTORY_SLOT_START) as u16,
        ) is None {
            MovePlan::Belt { src: src as usize, to_belt: true, cell: to.cell }
        } else {
            MovePlan::Ignore
        }
    } else if first_at(inv, ItemWindow::Inventory, to.cell) is None {
        MovePlan::Belt { src: src as usize, to_belt: false, cell: to.cell }
    } else {
        MovePlan::Ignore
    }
}

/// Equipping the row `src` into the slot of wire cell `to`: the whole row,
/// an empty slot, and the slot the item's wear flags name.
pub open spec fn equip_plan_spec(inv: Seq<ItemRow>, src: int, to: ItemPos, num: u8, f: MoveFacts) -> MovePlan {
    let wear = (to.cell - INVENTORY_MAX_NUM) as u16;
    if num == 0 && first_at(inv, ItemWindow::Equipment, to.cell) is None && f.wear_slot == Some(wear) {
        MovePlan::Equip { src: src as usize, wear }
    } else {
        MovePlan::Ignore
    }
}

/// Units a stack of `src` onto `dst` moves: what was asked (everything for
/// 0), at most the room left in `dst`.
pub open spec fn stack_units(inv: Seq<ItemRow>, src: int, dst: int, want: int) -> int {
    let room = ITEM_COUNT_LIMIT - inv[dst].count;
    let asked = if want == 0 { inv[src].count as int } else { want };
    if room < asked { room } else { asked }
}

/// Moving inside the inventory: onto the same item (same vnum and sockets)
/// it stacks, onto another item nothing happens; into a free cell part of
/// the stack splits off or the whole row moves.
pub open spec fn inventory_plan_spec(inv: Seq<ItemRow>, src: int, to: ItemPos, want: int) -> MovePlan {
    match first_at(inv, ItemWindow::Inventory, to.cell) {
        Some(dst) => if inv[src].vnum == inv[dst].vnum && inv[src].sockets@ == inv[dst].sockets@ && stack_units(
            inv,
            src,
            dst,
            want,
        ) > 0 {
            MovePlan::Stack { src: src as usize, dst: dst as usize, add: stack_units(inv, src, dst, want) as i64 }
        } else {
            MovePlan::Ignore
        },
        None => if 0 < want < inv[src].count {
            MovePlan::Split { src: src as usize, want: want as i64 }
        } else {
            MovePlan::Relocate { src: src as usize }
        },
    }
}

/// The move decision: a move outside the allowed windows, onto its own
/// cell, of an empty cell or of more units than the row holds does
/// nothing; otherwise the kind of move decides.
pub open spec fn move_plan_spec(inv: Seq<ItemRow>, pos: ItemPos, to: ItemPos, num: u8, f: MoveFacts) -> MovePlan {
    if !move_route_ok(pos, to) || pos.cell == to.cell {
        MovePlan::Ignore
    } else {
        match move_source_spec(inv, pos, to) {
            None => MovePlan::Ignore,
            Some(src) => if num > inv[src].count {
                MovePlan::Ignore
            } else if is_belt_move(pos, to) {
                belt_plan_spec(inv, src, to, num, f)
            } else if is_equip_position_spec(to) {
                equip_plan_spec(inv, src, to, num, f)
            } else if is_equip_position_spec(pos) {
                if first_at(inv, ItemWindow::Inventory, to.cell) is Some {
                    MovePlan::Ignore
                } else {
                    MovePlan::Unequip { src: src as usize }
                }
            } else {
                inventory_plan_spec(inv, src, to, num as int)
            },
        }
    }
}

fn same_sockets(a: [i64; 3], b: [i64; 3]) -> (r: bool)
    ensures
        r == (a@ == b@),
{
    let r = a[0] == b[0] && a[1] == b[1] && a[2] == b[2];
    if r {
        assert(a@ =~= b@);
    } else {
        assert(a@ != b@);
    }
    r
}

fn belt_move(pos: ItemPos, to: ItemPos) -> (r: bool)
    ensures
        r == is_belt_move(pos, to),
{
    let from_belt = is_belt_cell(pos);
    let to_belt = is_belt_cell(to);
    let plain_from = pos.window == WINDOW_INVENTORY && !is_equip_position(pos) && !from_belt;
    let plain_to = to.window == WINDOW_INVENTORY && !is_equip_position(to) && !to_belt;
    (from_belt || to_belt) && (from_belt || plain_from) && (to_belt || plain_to)
}

/// The row a move would take (its proto and the belt are looked up before
/// `plan_move`).
pub fn move_source(inv: &[ItemRow], pos: ItemPos, to: ItemPos) -> (r: Option<usize>)
    ensures
        match move_source_spec(inv@, pos, to) {
            Some(i) => r == Some(i as usize),
            None => r is None,
        },
{
    let belt = belt_move(pos, to);
    let found = if belt && is_belt_cell(pos) {
        find_at(inv, ItemWindow::BeltInventory, pos.cell - BELT_INVENTORY_SLOT_START)
    } else if !belt && is_equip_position(pos) {
        find_at(inv, ItemWindow::Equipment, pos.cell)
    } else {
        find_at(inv, ItemWindow::Inventory, pos.cell)
    };
    proof {
        let w = if belt && is_belt_cell_spec(pos) {
            ItemWindow::BeltInventory
        } else if !belt && is_equip_position_spec(pos) {
            ItemWindow::Equipment
        } else {
            ItemWindow::Inventory
        };
        let c = if belt && is_belt_cell_spec(pos) {
            (pos.cell - BELT_INVENTORY_SLOT_START) as u16
        } else {
            pos.cell
        };
        lemma_first_at_some(inv@, w, c);
    }
    found
}

/// Decides a `CG_ITEM_MOVE` from `pos` to `to` of `num` units (0 = all),
/// with what the store says of the moved item and the belt.
pub fn plan_move(inv: &[ItemRow], pos: ItemPos, to: ItemPos, num: u8, f: MoveFacts) -> (p: MovePlan)
    requires
        counts_bounded(inv@),
    ensures
        p == move_plan_spec(inv@, pos, to, num, f),
{
    let belt = belt_move(pos, to);
    let equipping = is_equip_position(to);
    let unequipping = is_equip_position(pos);
    let inv_to_inv = !unequipping && !equipping && pos.window == WINDOW_INVENTORY && to.window
        == WINDOW_INVENTORY;
    if !(belt || inv_to_inv || (equipping && pos.window == WINDOW_INVENTORY) || (unequipping
        && to.window == WINDOW_INVENTORY)) {
        return MovePlan::Ignore;
    }
    if pos.cell == to.cell {
        return MovePlan::Ignore;
    }
    let src = match move_source(inv, pos, to) {
        None => return MovePlan::Ignore,
        Some(s) => s,
    };
    proof {
        lemma_first_at_some(inv@, ItemWindow::BeltInventory, (pos.cell - BELT_INVENTORY_SLOT_START) as u16);
        lemma_first_at_some(inv@, ItemWindow::Equipment, pos.cell);
        lemma_first_at_some(inv@, ItemWindow::Inventory, pos.cell);
    }
    let want = num as i64;
    if want > inv[src].count {
        return MovePlan::Ignore;
    }
    if belt {
        if !(num == 0 || want == inv[src].count) {
            return MovePlan::Ignore;
        }
        if is_belt_cell(to) {
            if f.belt_item && is_available_cell(to.cell, f.belt_grade) && find_at(
                inv,
                ItemWindow::BeltInventory,
                to.cell - BELT_INVENTORY_SLOT_START,
            ).is_none() {
                return MovePlan::Belt { src, to_belt: true, cell: to.cell };
            }
            return MovePlan::Ignore;
        }
        if find_at(inv, ItemWindow::Inventory, to.cell).is_none() {
            return MovePlan::Belt { src, to_belt: false, cell: to.cell };
        }
        return MovePlan::Ignore;
    }
    if equipping {
        let wear = to.cell - INVENTORY_MAX_NUM;
        let slot_ok = match f.wear_slot {
            Some(w) => w == wear,
            None => false,
        };
        if num != 0 || find_at(inv, ItemWindow::Equipment, to.cell).is_some() || !slot_ok {
            return MovePlan::Ignore;
        }
        return MovePlan::Equip { src, wear };
    }
    if unequipping {
        if find_at(inv, ItemWindow::Inventory, to.cell).is_some() {
            return MovePlan::Ignore;
        }
        return MovePlan::Unequip { src };
    }
    match find_at(inv, ItemWindow::Inventory, to.cell) {
        Some(dst) => {
            if inv[src].vnum == inv[dst].vnum && same_sockets(inv[src].sockets, inv[dst].sockets) {
                let room = ITEM_COUNT_LIMIT - inv[dst].count;
                let asked = if want == 0 { inv[src].count } else { want };
                let add = if room < asked { room } else { asked };
                if add <= 0 {
                    MovePlan::Ignore
                } else {
                    MovePlan::Stack { src, dst, add }
                }
            } else {
                MovePlan::Ignore
            }
        },
        None => {
            if want > 0 && want < inv[src].count {
                MovePlan::Split { src, want }
            } else {
                MovePlan::Relocate { src }
            }
        },
    }
}

/// A row put at wire cell `cell`: on the belt (window `BeltInventory` at
/// its belt position) or in the inventory; all else kept.
pub open spec fn belt_placed(r: ItemRow, to_belt: bool, cell: u16) -> ItemRow {
    if to_belt {
        ItemRow { window: ItemWindow::BeltInventory, pos: (cell - BELT_INVENTORY_SLOT_START) as i32, ..r }
    } else {
        ItemRow { window: ItemWindow::Inventory, pos: cell as i32, ..r }
    }
}

/// Carries out a belt move of row `src`.
pub fn apply_belt_move(inv: &mut Vec<ItemRow>, src: usize, to_belt: bool, cell: u16)
    requires
        src < old(inv)@.len(),
        to_belt ==> cell >= BELT_INVENTORY_SLOT_START,
    ensures
        final(inv)@ == old(inv)@.update(src as int, belt_placed(old(inv)@[src as int], to_belt, cell)),
{
    let mut r = inv[src];
    place_at(&mut r, to_belt, cell);
    assert(r == belt_placed(old(inv)@[src as int], to_belt, cell));
    inv.set(src, r);
}

/// A row moved to window `w` at `cell`, all else kept.
pub open spec fn placed(r: ItemRow, w: ItemWindow, cell: u16) -> ItemRow {
    ItemRow { window: w, pos: cell as i32, ..r }
}

/// Puts row `src` in window `w` at `cell` (equip, unequip, relocate).
pub fn apply_place(inv: &mut Vec<ItemRow>, src: usize, w: ItemWindow, cell: u16)
    requires
        src < old(inv)@.len(),
    ensures
        final(inv)@ == old(inv)@.update(src as int, placed(old(inv)@[src as int], w, cell)),
{
    let mut r = inv[src];
    r.window = w;
    r.pos = cell as i32;
    inv.set(src, r);
}

/// The rows after a stack of `add` units from `src` onto `dst`: `dst` gains
/// them, `src` loses them and is removed when emptied.
pub open spec fn stack_spec(s: Seq<ItemRow>, src: int, dst: int, add: i64) -> Seq<ItemRow> {
    let d = s.update(dst, ItemRow { count: (s[dst].count + add) as i64, ..s[dst] });
    take_count_spec(d, src, add)
}

pub fn apply_stack(inv: &mut Vec<ItemRow>, src: usize, dst: usize, add: i64) -> (src_removed: bool)
    requires
        src < old(inv)@.len(),
        dst < old(inv)@.len(),
        src != dst,
        0 < add <= ITEM_COUNT_LIMIT,
        counts_bounded(old(inv)@),
        old(inv)@[dst as int].count + add <= ITEM_COUNT_LIMIT,
    ensures
        src_removed == (old(inv)@[src as int].count - add <= 0),
        final(inv)@ == stack_spec(old(inv)@, src as int, dst as int, add),
{
    let mut d = inv[dst];
    d.count = d.count + add;
    inv.set(dst, d);
    take_count(inv, src, add)
}

/// The rows after a split: `src` keeps `count - want`, a new row `new_id`
/// with `want` units of the same item lands in inventory cell `cell`.
pub open spec fn split_spec(s: Seq<ItemRow>, src: int, want: i64, new_id: i64, cell: u16) -> Seq<ItemRow> {
    let r = s[src];
    s.update(src, ItemRow { count: (r.count - want) as i64, ..r }).push(
        ItemRow { id: new_id, window: ItemWindow::Inventory, pos: cell as i32, count: want, ..r },
    )
}

pub fn apply_split(inv: &mut Vec<ItemRow>, src: usize, want: i64, new_id: i64, cell: u16)
    requires
        src < old(inv)@.len(),
        0 < want < old(inv)@[src as int].count,
    ensures
        final(inv)@ == split_spec(old(inv)@, src as int, want, new_id, cell),
{
    let mut r = inv[src];
    r.count = r.count - want;
    inv.set(src, r);
    let mut n = inv[src];
    n.id = new_id;
    n.window = ItemWindow::Inventory;
    n.pos = cell as i32;
    n.count = want;
    inv.push(n);
}

/// A stack conserves the units: what `src` loses `dst` gains, and `dst`
/// never passes the stack limit.
pub proof fn law_stack_conserves_units(s: Seq<ItemRow>, src: int, dst: int, add: i64)
    requires
        0 <= src < s.len(),
        0 <= dst < s.len(),
        src != dst,
        0 < add,
        s[src].count - add > 0,
        s[dst].count + add <= ITEM_COUNT_LIMIT,
    ensures
        stack_spec(s, src, dst, add)[src].count + stack_spec(s, src, dst, add)[dst].count == s[src].count
            + s[dst].count,
        stack_spec(s, src, dst, add)[dst].count <= ITEM_COUNT_LIMIT,
        stack_spec(s, src, dst, add).len() == s.len(),
{
}

/// A split conserves the units of the stack.
pub proof fn law_split_conserves_units(s: Seq<ItemRow>, src: int, want: i64, new_id: i64, cell: u16)
    requires
        0 <= src < s.len(),
        0 < want < s[src].count,
    ensures
        split_spec(s, src, want, new_id, cell)[src].count + split_spec(s, src, want, new_id, cell)[s.len() as int].count
            == s[src].count,
        split_spec(s, src, want, new_id, cell)[s.len() as int].vnum == s[src].vnum,
{
}

/// A move plan always names an existing row, and never stacks beyond the
/// limit.
pub proof fn law_move_plan_in_bounds(inv: Seq<ItemRow>, pos: ItemPos, to: ItemPos, num: u8, f: MoveFacts)
    requires
        counts_bounded(inv),
        inv.len() <= usize::MAX,
    ensures
        match move_plan_spec(inv, pos, to, num, f) {
            MovePlan::Ignore => true,
            MovePlan::Equip { src, wear } => src < inv.len() && wear < WEAR_MAX_NUM,
            MovePlan::Unequip { src } => src < inv.len(),
            MovePlan::Stack { src, dst, add } => src < inv.len() && dst < inv.len() && src != dst && 0 < add
                && inv[dst as int].count + add <= ITEM_COUNT_LIMIT,
            MovePlan::Split { src, want } => src < inv.len() && 0 < want < inv[src as int].count,
            MovePlan::Relocate { src } => src < inv.len(),
            MovePlan::Belt { src, to_belt, cell } => src < inv.len() && (to_belt ==> f.belt_item
                && is_available_cell_spec(cell, f.belt_grade) && cell >= BELT_INVENTORY_SLOT_START),
        },
{
    lemma_first_at_some(inv, ItemWindow::BeltInventory, (pos.cell - BELT_INVENTORY_SLOT_START) as u16);
    lemma_first_at_some(inv, ItemWindow::Equipment, pos.cell);
    lemma_first_at_some(inv, ItemWindow::Inventory, pos.cell);
    lemma_first_at_some(inv, ItemWindow::Inventory, to.cell);
    lemma_first_at_some(inv, ItemWindow::Equipment, to.cell);
}

/// A stack moves what the player asked for and no more: for `num > 0`
/// exactly `min(num, room)` units, where `room` is what the target stack
/// can still take; only `num == 0` moves the whole source stack (again at
/// most `room`). The units stacked never exceed the source stack.
pub proof fn law_stack_moves_what_was_asked(inv: Seq<ItemRow>, pos: ItemPos, to: ItemPos, num: u8, f: MoveFacts)
    requires
        counts_bounded(inv),
        inv.len() <= usize::MAX,
    ensures
        match move_plan_spec(inv, pos, to, num, f) {
            MovePlan::Stack { src, dst, add } => {
                let room = ITEM_COUNT_LIMIT - inv[dst as int].count;
                &&& num > 0 ==> add <= num
                &&& num > 0 ==> add == (if room < num { room } else { num as int })
                &&& num == 0 ==> add == (if room < inv[src as int].count { room } else {
                    inv[src as int].count as int
                })
                &&& add <= inv[src as int].count
            },
            _ => true,
        },
{
    lemma_first_at_some(inv, ItemWindow::BeltInventory, (pos.cell - BELT_INVENTORY_SLOT_START) as u16);
    lemma_first_at_some(inv, ItemWindow::Equipment, pos.cell);
    lemma_first_at_some(inv, ItemWindow::Inventory, pos.cell);
    if move_route_ok(pos, to) && pos.cell != to.cell {
        if let Some(src) = move_source_spec(inv, pos, to) {
            if num <= inv[src].count && !is_belt_move(pos, to) && !is_equip_position_spec(to)
                && !is_equip_position_spec(pos) {
                lemma_inventory_stack(inv, src, to, num as int);
            }
        }
    }
}

/// What each planned move acts on: a stack joins the item at the source
/// cell to the same item (same vnum and sockets) at the target cell; a
/// split takes exactly the units asked, fewer than the stack holds, into a
/// free cell; a relocation moves the whole row (`num` 0 or the whole
/// count) into a free cell; equipping takes the whole row into the free
/// wear slot its flags name; unequipping needs a free inventory cell. A
/// move onto its own cell, or of more units than the row holds, is ignored.
pub proof fn law_move_plan_targets(inv: Seq<ItemRow>, pos: ItemPos, to: ItemPos, num: u8, f: MoveFacts)
    requires
        counts_bounded(inv),
        inv.len() <= usize::MAX,
    ensures
        pos.cell == to.cell ==> move_plan_spec(inv, pos, to, num, f) is Ignore,
        match move_plan_spec(inv, pos, to, num, f) {
            MovePlan::Stack { src, dst, add } => {
                &&& at_cell(inv[src as int], ItemWindow::Inventory, pos.cell)
                &&& at_cell(inv[dst as int], ItemWindow::Inventory, to.cell)
                &&& inv[src as int].vnum == inv[dst as int].vnum
                &&& inv[src as int].sockets@ == inv[dst as int].sockets@
                &&& num <= inv[src as int].count
            },
            MovePlan::Split { src, want } => {
                &&& at_cell(inv[src as int], ItemWindow::Inventory, pos.cell)
                &&& want == num
                &&& 0 < want < inv[src as int].count
                &&& first_at(inv, ItemWindow::Inventory, to.cell) is None
            },
            MovePlan::Relocate { src } => {
                &&& at_cell(inv[src as int], ItemWindow::Inventory, pos.cell)
                &&& (num == 0 || num == inv[src as int].count)
                &&& first_at(inv, ItemWindow::Inventory, to.cell) is None
            },
            MovePlan::Equip { src, wear } => {
                &&& num == 0
                &&& wear == to.cell - INVENTORY_MAX_NUM
                &&& f.wear_slot == Some(wear)
                &&& first_at(inv, ItemWindow::Equipment, to.cell) is None
            },
            MovePlan::Unequip { src } => {
                &&& at_cell(inv[src as int], ItemWindow::Equipment, pos.cell)
                &&& num <= inv[src as int].count
                &&& first_at(inv, ItemWindow::Inventory, to.cell) is None
            },
            MovePlan::Belt { src, to_belt, cell } => {
                &&& cell == to.cell
                &&& (num == 0 || num == inv[src as int].count)
            },
            MovePlan::Ignore => true,
        },
{
    lemma_first_at_some(inv, ItemWindow::BeltInventory, (pos.cell - BELT_INVENTORY_SLOT_START) as u16);
    lemma_first_at_some(inv, ItemWindow::Equipment, pos.cell);
    lemma_first_at_some(inv, ItemWindow::Inventory, pos.cell);
    lemma_first_at_some(inv, ItemWindow::Inventory, to.cell);
    lemma_first_at_some(inv, ItemWindow::Equipment, to.cell);
}

/// A stack planned inside the inventory takes `stack_units` from `src`.
proof fn lemma_inventory_stack(inv: Seq<ItemRow>, src: int, to: ItemPos, want: int)
    requires
        counts_bounded(inv),
        inv.len() <= usize::MAX,
        0 <= src < inv.len(),
        0 <= want <= inv[src].count,
        want <= 255,
    ensures
        inventory_plan_spec(inv, src, to, want) matches MovePlan::Stack { src: s, dst, add } ==> s == src && 0
            <= dst < inv.len() && add == stack_units(inv, src, dst as int, want),
{
    lemma_first_at_some(inv, ItemWindow::Inventory, to.cell);
    if let Some(dst) = first_at(inv, ItemWindow::Inventory, to.cell) {
        assert(0 <= inv[dst].count);
        assert(stack_units(inv, src, dst, want) <= 0x1_0000_0000);
    }
}

/// A potion with a flat SP (or HP) amount, used below the maximum, always
/// has an effect and restores `min(value + amount, maximum)` before any
/// percentage; with no percentage of its own that is the final value. A
/// potion whose values are all zero has no effect.
pub proof fn law_flat_potion_restores(hp: i32, mp: i32, max_hp: i32, max_mp: i32, v: Seq<i32>)
    requires
        v.len() == 5,
        potion_fits(hp, mp, max_hp, max_mp, v),
    ensures
        (v[1] != 0 && mp < max_mp) ==> potion_effect_spec(hp, mp, max_hp, max_mp, v) is Some,
        (v[0] != 0 && hp < max_hp) ==> potion_effect_spec(hp, mp, max_hp, max_mp, v) is Some,
        (v[1] != 0 && mp < max_mp && v[4] == 0) ==> potion_effect_spec(hp, mp, max_hp, max_mp, v)->Some_0.1
            == (if mp + v[1] < max_mp { mp + v[1] } else { max_mp as int }),
        (v[0] != 0 && hp < max_hp && v[3] == 0) ==> potion_effect_spec(hp, mp, max_hp, max_mp, v)->Some_0.0
            == (if hp + v[0] < max_hp { hp + v[0] } else { max_hp as int }),
        (v[1] == 0 && v[4] == 0) ==> (potion_effect_spec(hp, mp, max_hp, max_mp, v) matches Some(t) ==> t.1 == mp),
        (v[0] == 0 && v[3] == 0) ==> (potion_effect_spec(hp, mp, max_hp, max_mp, v) matches Some(t) ==> t.0 == hp),
        (v[0] == 0 && v[1] == 0 && v[3] == 0 && v[4] == 0) ==> potion_effect_spec(hp, mp, max_hp, max_mp, v) is None,
{
}

/// A percentage potion (no flat amount) used below the maximum always has
/// an effect and restores `pct` percent of the maximum, capped at the
/// maximum.
pub proof fn law_percent_potion_restores(hp: i32, mp: i32, max_hp: i32, max_mp: i32, v: Seq<i32>)
    requires
        v.len() == 5,
        potion_fits(hp, mp, max_hp, max_mp, v),
    ensures
        (v[1] == 0 && v[4] > 0 && 0 <= mp < max_mp) ==> potion_effect_spec(hp, mp, max_hp, max_mp, v) is Some
            && potion_effect_spec(hp, mp, max_hp, max_mp, v)->Some_0.1 == (if mp + v[4] * max_mp / 100 < max_mp {
            mp + v[4] * max_mp / 100
        } else {
            max_mp as int
        }),
        (v[0] == 0 && v[3] > 0 && 0 <= hp < max_hp) ==> potion_effect_spec(hp, mp, max_hp, max_mp, v) is Some
            && potion_effect_spec(hp, mp, max_hp, max_mp, v)->Some_0.0 == (if hp + v[3] * max_hp / 100 < max_hp {
            hp + v[3] * max_hp / 100
        } else {
            max_hp as int
        }),
{
    if v[4] > 0 && 0 <= mp < max_mp {
        assert(v[4] * max_mp >= 0) by (nonlinear_arith)
            requires
                v[4] > 0,
                max_mp > 0,
        ;
    }
    if v[3] > 0 && 0 <= hp < max_hp {
        assert(v[3] * max_hp >= 0) by (nonlinear_arith)
            requires
                v[3] > 0,
                max_hp > 0,
        ;
    }
}

/// Refine kinds of `CG_REFINE`.
pub const REFINE_TYPE_NORMAL: u8 = 0;
pub const REFINE_TYPE_SCROLL: u8 = 1;
/// Blue-dragon scroll (value 0 of the scroll).
pub const BDRAGON_SCROLL: i32 = 6;
/// Refine set a generic scroll may not touch.
pub const REFINE_SET_501: i64 = 501;
/// Refine set the blue-dragon scroll requires.
pub const REFINE_SET_702: i64 = 702;

/// The gold a refine costs: the recipe cost with a scroll, five times it
/// without.
pub open spec fn refine_fee_spec(cost: i32, with_scroll: bool) -> i64 {
    if with_scroll {
        cost as i64
    } else {
        (cost * 5) as i64
    }
}

pub fn refine_fee(cost: i32, with_scroll: bool) -> (f: i64)
    ensures
        f == refine_fee_spec(cost, with_scroll),
{
    if with_scroll {
        cost as i64
    } else {
        cost as i64 * 5
    }
}

/// Whether a scroll of value `scroll_value` may refine an item of refine
/// set `refine_set` (`None` when the target has no refine row).
pub open spec fn scroll_fits_spec(scroll_value: i32, refine_set: Option<i64>) -> bool {
    if scroll_value == BDRAGON_SCROLL {
        refine_set == Some(REFINE_SET_702)
    } else {
        refine_set != Some(REFINE_SET_501)
    }
}

pub fn scroll_fits(scroll_value: i32, refine_set: Option<i64>) -> (ok: bool)
    ensures
        ok == scroll_fits_spec(scroll_value, refine_set),
{
    if scroll_value == BDRAGON_SCROLL {
        match refine_set {
            Some(s) => s == REFINE_SET_702,
            None => false,
        }
    } else {
        match refine_set {
            Some(s) => s != REFINE_SET_501,
            None => true,
        }
    }
}

/// The outcome of a refine once paid for.
#[derive(Debug, Clone, Copy, PartialEq, Eq, Structural)]
pub enum RefineOutcome {
    /// The item becomes the refined vnum.
    Success,
    /// With a scroll: the item falls back to this vnum.
    Downgrade(i64),
    /// With a scroll, no lower level: nothing changes but the fee.
    Kept,
    /// Without a scroll: the item is destroyed.
    Destroyed,
}

pub open spec fn refine_outcome_spec(roll: i32, prob: i32, with_scroll: bool, fail_vnum: Option<i64>) -> RefineOutcome {
    if roll <= prob {
        RefineOutcome::Success
    } else if with_scroll {
        match fail_vnum {
            Some(v) => RefineOutcome::Downgrade(v),
            None => RefineOutcome::Kept,
        }
    } else {
        RefineOutcome::Destroyed
    }
}

pub fn refine_outcome(roll: i32, prob: i32, with_scroll: bool, fail_vnum: Option<i64>) -> (o: RefineOutcome)
    ensures
        o == refine_outcome_spec(roll, prob, with_scroll, fail_vnum),
{
    if roll <= prob {
        RefineOutcome::Success
    } else if with_scroll {
        match fail_vnum {
            Some(v) => RefineOutcome::Downgrade(v),
            None => RefineOutcome::Kept,
        }
    } else {
        RefineOutcome::Destroyed
    }
}

/// The row an item becomes when a refine replaces it (success, or the
/// fall-back of a scroll): same id, cell, sockets and attributes, the new
/// vnum, one unit.
pub fn refined_row(row: ItemRow, vnum: i64) -> (r: ItemRow)
    ensures
        r == (ItemRow { vnum: vnum, count: 1, ..row }),
{
    let mut r = row;
    r.vnum = vnum;
    r.count = 1;
    r
}

/// A certain refine (probability 100) always succeeds, an impossible one
/// (probability 0) never does.
pub proof fn law_refine_probability_bounds(roll: i32, with_scroll: bool, fail_vnum: Option<i64>)
    requires
        1 <= roll <= 100,
    ensures
        refine_outcome_spec(roll, 100, with_scroll, fail_vnum) == RefineOutcome::Success,
        refine_outcome_spec(roll, 0, with_scroll, fail_vnum) != RefineOutcome::Success,
{
}

/// The gold cap holds: a gold bag never takes the purse past `GOLD_MAX`,
/// and below the cap it adds exactly (whenever the sum is an `i32` or more).
pub proof fn law_gold_cap(current: i32, add: i32)
    requires
        current + add >= i32::MIN,
    ensures
        gold_after_add_spec(current, add) <= GOLD_MAX,
        current + add <= GOLD_MAX ==> gold_after_add_spec(current, add) == current + add,
{
}

} // verus!
