//! What a session does with the events of the shared world: damage taken
//! from a mob, skill costs, the target's health bar, the affect-removal
//! packet, pickups (asked once, stacked into the inventory, the rest into a
//! free cell under a new item id), kill rewards with level-ups, and the vid
//! counters of spawned mobs and ground items.

use vstd::prelude::*;
use crate::item::{ItemRow, ItemWindow, INVENTORY_MAX_NUM, ITEM_COUNT_LIMIT};
use crate::items::{at_cell, find_at, first_at, lemma_first_at_some};
use crate::wire::le32;

verus! {

/// Header of `GC_AFFECT_REMOVE`.
pub const GC_AFFECT_REMOVE: u8 = 127;

/// `i32` saturating subtraction.
pub open spec fn sat_sub(a: i32, b: i32) -> i32 {
    let d = a - b;
    (if d > i32::MAX { i32::MAX as int } else if d < i32::MIN { i32::MIN as int } else { d }) as i32
}

pub fn saturating_sub_i32(a: i32, b: i32) -> (r: i32)
    ensures
        r == sat_sub(a, b),
{
    let d: i64 = a as i64 - b as i64;
    if d > i32::MAX as i64 {
        i32::MAX
    } else if d < i32::MIN as i64 {
        i32::MIN
    } else {
        d as i32
    }
}

/// A mob hit: the HP after the damage (not below 0) and whether the
/// character died.
pub open spec fn mob_damage_spec(hp: i32, damage: i32) -> (i32, bool) {
    let h = sat_sub(hp, damage);
    if h <= 0 {
        (0, true)
    } else {
        (h, false)
    }
}

pub fn apply_mob_damage(hp: i32, damage: i32) -> (r: (i32, bool))
    ensures
        r == mob_damage_spec(hp, damage),
{
    let h = saturating_sub_i32(hp, damage);
    if h <= 0 {
        (0, true)
    } else {
        (h, false)
    }
}

/// The costs of a skill: `(hp, mp)` after paying them (saturating).
pub fn pay_skill_cost(hp: i32, mp: i32, sp_cost: i32, hp_cost: i32) -> (r: (i32, i32))
    ensures
        r == (sat_sub(hp, hp_cost), sat_sub(mp, sp_cost)),
{
    (saturating_sub_i32(hp, hp_cost), saturating_sub_i32(mp, sp_cost))
}

/// The health bar of a target: `hp * 100 / max_hp` (the product saturating,
/// division toward zero) clamped to 0..100; 0 without a maximum.
pub open spec fn hp_percent_spec(hp: i32, max_hp: i32) -> u8 {
    if max_hp > 0 {
        let p = hp * 100;
        let ps: int = if p > i32::MAX { i32::MAX as int } else if p < i32::MIN { i32::MIN as int } else { p };
        let q: int = if ps >= 0 { ps / (max_hp as int) } else { -((-ps) / (max_hp as int)) };
        (if q < 0 { 0 } else if q > 100 { 100 } else { q }) as u8
    } else {
        0
    }
}

pub fn hp_percent(hp: i32, max_hp: i32) -> (r: u8)
    ensures
        r == hp_percent_spec(hp, max_hp),
        r <= 100,
{
    if max_hp <= 0 {
        return 0;
    }
    let p: i64 = hp as i64 * 100;
    let ps: i64 = if p > i32::MAX as i64 { i32::MAX as i64 } else if p < i32::MIN as i64 { i32::MIN as i64 } else { p };
    let q: i64 = if ps >= 0 { ps / (max_hp as i64) } else { -((-ps) / (max_hp as i64)) };
    if q < 0 {
        0
    } else if q > 100 {
        100
    } else {
        q as u8
    }
}

/// `GC_AFFECT_REMOVE`: header, affect type (LE), point.
pub open spec fn affect_remove_spec(dw_type: u32, point: u8) -> Seq<u8> {
    seq![GC_AFFECT_REMOVE] + le32(dw_type) + seq![point]
}

pub fn affect_remove_packet(dw_type: u32, point: u8) -> (b: [u8; 6])
    ensures
        b@ == affect_remove_spec(dw_type, point),
{
    let b: [u8; 6] = [
        GC_AFFECT_REMOVE,
        (dw_type % 256) as u8,
        ((dw_type / 256) % 256) as u8,
        ((dw_type / 65536) % 256) as u8,
        (dw_type / 16777216) as u8,
        point,
    ];
    assert(b@ =~= affect_remove_spec(dw_type, point));
    b
}

/// A stack a picked-up item of `vnum` merges into: an inventory row of the
/// same vnum, without sockets.
pub open spec fn merges_into(r: ItemRow, vnum: i64) -> bool {
    r.window == ItemWindow::Inventory && r.vnum == vnum && r.sockets@ == seq![0i64, 0i64, 0i64]
}

/// A stack with room left.
pub open spec fn has_room(r: ItemRow, vnum: i64) -> bool {
    merges_into(r, vnum) && r.count < ITEM_COUNT_LIMIT
}

/// Units of `vnum` held in mergeable stacks.
pub open spec fn stacked_total(s: Seq<ItemRow>, vnum: i64) -> int
    decreases s.len(),
{
    if s.len() == 0 {
        0
    } else {
        stacked_total(s.drop_last(), vnum) + if merges_into(s.last(), vnum) { s.last().count as int } else { 0 }
    }
}

proof fn lemma_stacked_total_update(s: Seq<ItemRow>, vnum: i64, i: int, r: ItemRow)
    requires
        0 <= i < s.len(),
        merges_into(s[i], vnum) == merges_into(r, vnum),
    ensures
        stacked_total(s.update(i, r), vnum) == stacked_total(s, vnum) + if merges_into(r, vnum) {
            r.count - s[i].count
        } else {
            0
        },
    decreases s.len(),
{
    if i == s.len() - 1 {
        assert(s.update(i, r).drop_last() =~= s.drop_last());
    } else {
        assert(s.update(i, r).drop_last() =~= s.drop_last().update(i, r));
        lemma_stacked_total_update(s.drop_last(), vnum, i, r);
    }
}

/// The number of stacks of `vnum` that still have room.
pub open spec fn room_count(s: Seq<ItemRow>, vnum: i64) -> nat
    decreases s.len(),
{
    if s.len() == 0 {
        0
    } else {
        room_count(s.drop_last(), vnum) + if has_room(s.last(), vnum) { 1nat } else { 0nat }
    }
}

proof fn lemma_room_count_update(s: Seq<ItemRow>, vnum: i64, i: int, r: ItemRow)
    requires
        0 <= i < s.len(),
        has_room(s[i], vnum),
        !has_room(r, vnum),
    ensures
        room_count(s.update(i, r), vnum) + 1 == room_count(s, vnum),
    decreases s.len(),
{
    if i == s.len() - 1 {
        assert(s.update(i, r).drop_last() =~= s.drop_last());
    } else {
        assert(s.update(i, r).drop_last() =~= s.drop_last().update(i, r));
        lemma_room_count_update(s.drop_last(), vnum, i, r);
    }
}

fn find_room(inv: &[ItemRow], vnum: i64) -> (r: Option<usize>)
    ensures
        r matches Some(i) ==> i < inv@.len() && has_room(inv@[i as int], vnum) && forall|k: int|
            0 <= k < i ==> !has_room(#[trigger] inv@[k], vnum),
        r is None ==> forall|k: int| 0 <= k < inv@.len() ==> !has_room(#[trigger] inv@[k], vnum),
{
    let mut i: usize = 0;
    while i < inv.len()
        invariant
            i <= inv@.len(),
            forall|k: int| 0 <= k < i ==> !has_room(#[trigger] inv@[k], vnum),
        decreases inv@.len() - i,
    {
        let r = &inv[i];
        if r.window == ItemWindow::Inventory && r.vnum == vnum && r.sockets[0] == 0 && r.sockets[1] == 0
            && r.sockets[2] == 0 && r.count < ITEM_COUNT_LIMIT {
            assert(r.sockets@ =~= seq![0i64, 0i64, 0i64]);
            return Some(i);
        }
        proof {
            if has_room(inv@[i as int], vnum) {
                assert(inv@[i as int].sockets@[0] == 0);
                assert(inv@[i as int].sockets@[1] == 0);
                assert(inv@[i as int].sockets@[2] == 0);
            }
        }
        i = i + 1;
    }
    None
}

/// Merges `count` picked-up units of `vnum` into the stacks with room, the
/// first one first, each up to the stack limit. Returns the units left (for
/// a new row) and the rows updated, in order.
pub fn stack_pickup(inv: &mut Vec<ItemRow>, vnum: i64, count: i64) -> (r: (i64, Vec<usize>))
    requires
        0 <= count <= u32::MAX,
        forall|k: int| 0 <= k < old(inv)@.len() ==> 0 <= #[trigger] old(inv)@[k].count <= ITEM_COUNT_LIMIT,
    ensures
        final(inv)@.len() == old(inv)@.len(),
        forall|k: int| 0 <= k < final(inv)@.len() ==> 0 <= #[trigger] final(inv)@[k].count <= ITEM_COUNT_LIMIT,
        forall|k: int|
            0 <= k < final(inv)@.len() ==> (#[trigger] final(inv)@[k]) == (ItemRow { count: final(inv)@[k].count, ..old(inv)@[k] }),
        forall|k: int| 0 <= k < final(inv)@.len() && !merges_into(old(inv)@[k], vnum) ==> #[trigger] final(inv)@[k].count == old(inv)@[k].count,
        0 <= r.0 <= count,
        stacked_total(final(inv)@, vnum) == stacked_total(old(inv)@, vnum) + (count - r.0),
        r.0 > 0 ==> forall|k: int| 0 <= k < final(inv)@.len() ==> !has_room(#[trigger] final(inv)@[k], vnum),
        forall|j: int| 0 <= j < r.1@.len() ==> #[trigger] r.1@[j] < final(inv)@.len() && merges_into(final(inv)@[r.1@[j] as int], vnum),
{
    let mut remaining: i64 = count;
    let mut touched: Vec<usize> = Vec::new();
    loop
        invariant
            inv@.len() == old(inv)@.len(),
            forall|k: int| 0 <= k < inv@.len() ==> 0 <= #[trigger] inv@[k].count <= ITEM_COUNT_LIMIT,
            forall|k: int| 0 <= k < inv@.len() ==> (#[trigger] inv@[k]) == (ItemRow { count: inv@[k].count, ..old(inv)@[k] }),
            forall|k: int| 0 <= k < inv@.len() && !merges_into(old(inv)@[k], vnum) ==> #[trigger] inv@[k].count == old(inv)@[k].count,
            0 <= remaining <= count,
            stacked_total(inv@, vnum) == stacked_total(old(inv)@, vnum) + (count - remaining),
            forall|j: int| 0 <= j < touched@.len() ==> #[trigger] touched@[j] < inv@.len() && merges_into(inv@[touched@[j] as int], vnum),
        ensures
            inv@.len() == old(inv)@.len(),
            forall|k: int| 0 <= k < inv@.len() ==> 0 <= #[trigger] inv@[k].count <= ITEM_COUNT_LIMIT,
            forall|k: int| 0 <= k < inv@.len() ==> (#[trigger] inv@[k]) == (ItemRow { count: inv@[k].count, ..old(inv)@[k] }),
            forall|k: int| 0 <= k < inv@.len() && !merges_into(old(inv)@[k], vnum) ==> #[trigger] inv@[k].count == old(inv)@[k].count,
            0 <= remaining <= count,
            stacked_total(inv@, vnum) == stacked_total(old(inv)@, vnum) + (count - remaining),
            remaining > 0 ==> forall|k: int| 0 <= k < inv@.len() ==> !has_room(#[trigger] inv@[k], vnum),
            forall|j: int| 0 <= j < touched@.len() ==> #[trigger] touched@[j] < inv@.len() && merges_into(inv@[touched@[j] as int], vnum),
        decreases room_count(inv@, vnum), remaining,
    {
        let idx = match find_room(inv.as_slice(), vnum) {
            None => break,
            Some(i) => i,
        };
        let cur = inv[idx].count;
        let room = ITEM_COUNT_LIMIT - cur;
        let add = if room < remaining { room } else { remaining };
        let mut row = inv[idx];
        row.count = cur + add;
        let ghost before = inv@;
        proof {
            assert(merges_into(before[idx as int], vnum));
            assert(merges_into(row, vnum));
            lemma_stacked_total_update(before, vnum, idx as int, row);
            if add == room {
                lemma_room_count_update(before, vnum, idx as int, row);
            }
        }
        inv.set(idx, row);
        remaining = remaining - add;
        touched.push(idx);
        proof {
            assert forall|j: int| 0 <= j < touched@.len() implies #[trigger] touched@[j] < inv@.len() && merges_into(inv@[touched@[j] as int], vnum) by {
                if j < touched@.len() - 1 {
                    let t = touched@[j];
                    assert(merges_into(before[t as int], vnum));
                }
            }
        }
        if remaining <= 0 {
            break;
        }
    }
    (remaining, touched)
}

/// The first inventory cell below `limit` that holds no inventory row.
pub open spec fn free_slot_spec(s: Seq<ItemRow>, limit: u16) -> Option<u16> {
    if exists|c: u16| c < limit && first_at(s, ItemWindow::Inventory, c) is None {
        Some(choose|c: u16| c < limit && first_at(s, ItemWindow::Inventory, c) is None && forall|d: u16| d < c ==> !(first_at(s, ItemWindow::Inventory, d) is None))
    } else {
        None
    }
}

/// A free inventory cell below `limit` (picked-up items, GM items).
pub fn free_slot(inv: &[ItemRow], limit: u16) -> (r: Option<u16>)
    ensures
        r == free_slot_spec(inv@, limit),
        r matches Some(c) ==> c < limit && forall|k: int| 0 <= k < inv@.len() ==> !at_cell(#[trigger] inv@[k], ItemWindow::Inventory, c),
{
    let mut c: u16 = 0;
    while c < limit
        invariant
            c <= limit,
            forall|d: u16| d < c ==> !(first_at(inv@, ItemWindow::Inventory, d) is None),
        decreases limit - c,
    {
        if find_at(inv, ItemWindow::Inventory, c).is_none() {
            proof {
                let w = choose|w: u16| w < limit && first_at(inv@, ItemWindow::Inventory, w) is None && forall|d: u16| d < w ==> !(first_at(inv@, ItemWindow::Inventory, d) is None);
                if w < c {
                }
                if c < w {
                }
                lemma_first_at_some(inv@, ItemWindow::Inventory, c);
            }
            return Some(c);
        }
        c = c + 1;
    }
    None
}

/// Experience and gold after a kill reward: each gain capped at `i32::MAX`,
/// narrowed to `i32` and added saturating.
pub open spec fn sat_add(a: i32, b: i32) -> i32 {
    let s = a + b;
    (if s > i32::MAX { i32::MAX as int } else if s < i32::MIN { i32::MIN as int } else { s }) as i32
}

pub open spec fn capped_gain(g: i64) -> i32 {
    (if g < i32::MAX { g } else { i32::MAX as i64 }) as i32
}

fn cap_gain(g: i64) -> (r: i32)
    ensures
        r == capped_gain(g),
{
    let c: i64 = if g < i32::MAX as i64 { g } else { i32::MAX as i64 };
    #[verifier::truncate]
    (c as i32)
}

fn saturating_add_i32(a: i32, b: i32) -> (r: i32)
    ensures
        r == sat_add(a, b),
{
    let s: i64 = a as i64 + b as i64;
    if s > i32::MAX as i64 {
        i32::MAX
    } else if s < i32::MIN as i64 {
        i32::MIN
    } else {
        s as i32
    }
}

pub fn apply_kill_reward(exp: i32, gold: i32, exp_gain: i64, gold_gain: i64) -> (r: (i32, i32))
    ensures
        r == (sat_add(exp, capped_gain(exp_gain)), sat_add(gold, capped_gain(gold_gain))),
{
    (saturating_add_i32(exp, cap_gain(exp_gain)), saturating_add_i32(gold, cap_gain(gold_gain)))
}

/// One level-up: when the experience reaches the amount of the level, it
/// is spent and the level goes up (saturating); `None` otherwise. The next
/// amount is looked up for the new level before the next step.
pub open spec fn level_up_spec(exp: i32, level: i16, next_exp: i64) -> Option<(i32, i16)> {
    if next_exp > 0 && exp >= next_exp {
        Some(((exp - next_exp) as i32, (if level < i16::MAX { level + 1 } else { level as int }) as i16))
    } else {
        None
    }
}

pub fn level_up_step(exp: i32, level: i16, next_exp: i64) -> (r: Option<(i32, i16)>)
    ensures
        r == level_up_spec(exp, level, next_exp),
{
    if next_exp > 0 && (exp as i64) >= next_exp {
        let lv: i16 = if level < i16::MAX { level + 1 } else { level };
        Some(((exp as i64 - next_exp) as i32, lv))
    } else {
        None
    }
}

/// Whether a killed mob drops its item: it has one and the percent roll is
/// below the drop rate.
pub fn drops_item(drop_item: i64, roll: u32, drop_rate: u16) -> (d: bool)
    ensures
        d == (drop_item > 0 && roll % 100 < drop_rate),
{
    drop_item > 0 && roll % 100 < drop_rate as u32
}

/// Where a dead character revives in town: its exit position when it has
/// one, the village of map 41 otherwise.
pub fn town_revive_position(exit_x: i32, exit_y: i32) -> (p: (i32, i32))
    ensures
        p == (if exit_x > 0 && exit_y > 0 { (exit_x, exit_y) } else { (969600i32, 278400i32) }),
{
    if exit_x > 0 && exit_y > 0 {
        (exit_x, exit_y)
    } else {
        (969600, 278400)
    }
}

/// Vids handed out in order (mobs from 10 000, ground items from 50 000,
/// wrapping like the counter they stand for).
pub struct VidCounter {
    next: u32,
}

impl VidCounter {
    pub closed spec fn peek(&self) -> u32 {
        self.next
    }

    /// Mob vids start at 10 000.
    pub fn for_npcs() -> (c: VidCounter)
        ensures
            c.peek() == 10000,
    {
        VidCounter { next: 10000 }
    }

    /// Ground-item vids start at 50 000.
    pub fn for_items() -> (c: VidCounter)
        ensures
            c.peek() == 50000,
    {
        VidCounter { next: 50000 }
    }

    /// The next vid.
    pub fn next_vid(&mut self) -> (v: u32)
        ensures
            v == old(self).peek(),
            final(self).peek() == (if old(self).peek() == u32::MAX { 0 } else { old(self).peek() + 1 }),
    {
        let v = self.next;
        self.next = if v == u32::MAX { 0 } else { v + 1 };
        v
    }
}

/// Items the channel creates (picked up, given by a GM) take their ids from
/// the range that starts here.
pub const ITEM_ID_RANGE_START: i64 = 100_000_000;
/// End of that range (the store is asked for its highest id below it).
pub const ITEM_ID_RANGE_END: i64 = 200_000_000;

/// The id of a new item: one past the highest id the store holds in the
/// range, or the start of the range.
pub fn next_item_id(max_in_range: Option<i64>) -> (id: i64)
    requires
        max_in_range != Some(i64::MAX),
    ensures
        id == match max_in_range {
            Some(m) => m + 1,
            None => ITEM_ID_RANGE_START as int,
        },
{
    match max_in_range {
        Some(m) => m + 1,
        None => ITEM_ID_RANGE_START,
    }
}

/// Length of `CG_ITEM_PICKUP`: header and the vid of the ground item.
pub const CG_ITEM_PICKUP_SIZE: usize = 5;

/// The ground-item vid of a pickup request, `None` when it is too short
/// (logged, the connection goes on).
pub fn parse_pickup(pkt: &[u8]) -> (r: Option<u32>)
    ensures
        pkt@.len() < CG_ITEM_PICKUP_SIZE ==> r is None,
        pkt@.len() >= CG_ITEM_PICKUP_SIZE ==> r == Some(
            (pkt@[1] + pkt@[2] * 256 + pkt@[3] * 65536 + pkt@[4] * 16777216) as u32,
        ),
{
    if pkt.len() < CG_ITEM_PICKUP_SIZE {
        return None;
    }
    Some(pkt[1] as u32 + pkt[2] as u32 * 256 + pkt[3] as u32 * 65536 + pkt[4] as u32 * 16777216)
}

/// The pickups a session has asked the world for and not yet seen
/// answered: a vid is asked for once until its result arrives.
pub struct PendingPickups {
    vids: Vec<u32>,
}

impl PendingPickups {
    pub closed spec fn view(&self) -> Set<u32> {
        self.vids@.to_set()
    }

    /// No vid is pending twice.
    pub closed spec fn wf(&self) -> bool {
        self.vids@.no_duplicates()
    }

    pub fn new() -> (r: PendingPickups)
        ensures
            r.wf(),
            r.view() == Set::<u32>::empty(),
    {
        let r = PendingPickups { vids: Vec::new() };
        assert(r.view() =~= Set::<u32>::empty());
        r
    }

    fn position(&self, vid: u32) -> (r: Option<usize>)
        ensures
            r is Some <==> self.view().contains(vid),
            r matches Some(i) ==> i < self.vids@.len() && self.vids@[i as int] == vid,
    {
        let mut i: usize = 0;
        while i < self.vids.len()
            invariant
                i <= self.vids@.len(),
                forall|k: int| 0 <= k < i ==> self.vids@[k] != vid,
            decreases self.vids@.len() - i,
        {
            if self.vids[i] == vid {
                assert(self.vids@.contains(vid));
                return Some(i);
            }
            i = i + 1;
        }
        None
    }

    /// Asks for `vid`: true when it was not pending (it is now), false when
    /// a pickup of it is already under way (the request is ignored).
    pub fn begin(&mut self, vid: u32) -> (fresh: bool)
        requires
            old(self).wf(),
        ensures
            final(self).wf(),
            fresh == !old(self).view().contains(vid),
            final(self).view() == old(self).view().insert(vid),
    {
        if self.position(vid).is_some() {
            assert(self.view().insert(vid) =~= self.view());
            return false;
        }
        let ghost before = self.vids@;
        self.vids.push(vid);
        proof {
            before.lemma_push_to_set_commute(vid);
        }
        true
    }

    /// The result of the pickup of `vid` arrived: it is no longer pending.
    pub fn finish(&mut self, vid: u32)
        requires
            old(self).wf(),
        ensures
            final(self).wf(),
            final(self).view() == old(self).view().remove(vid),
    {
        match self.position(vid) {
            None => {
                assert(self.view().remove(vid) =~= self.view());
            },
            Some(i) => {
                let ghost before = self.vids@;
                self.vids.remove(i);
                proof {
                    let after = self.vids@;
                    assert(after =~= before.remove(i as int));
                    assert forall|x: u32| #[trigger] after.to_set().contains(x) <==> before.to_set().remove(vid).contains(x) by {
                        if after.contains(x) {
                            let k = choose|k: int| 0 <= k < after.len() && after[k] == x;
                            if k < i {
                                assert(before[k] == x);
                                assert(k != i);
                            } else {
                                assert(before[k + 1] == x);
                                assert(k + 1 != i);
                            }
                        }
                        if before.contains(x) && x != vid {
                            let k = choose|k: int| 0 <= k < before.len() && before[k] == x;
                            if k < i {
                                assert(after[k] == x);
                            } else {
                                assert(k != i);
                                assert(after[k - 1] == x);
                            }
                        }
                    }
                    assert(after.to_set() =~= before.to_set().remove(vid));
                    assert forall|a: int, b: int| 0 <= a < b < after.len() implies after[a] != after[b] by {
                        let a0 = if a < i { a } else { a + 1 };
                        let b0 = if b < i { b } else { b + 1 };
                        assert(after[a] == before[a0]);
                        assert(after[b] == before[b0]);
                    }
                }
            },
        }
    }
}

/// A pickup is asked for once until its result: a second request of the
/// same vid is ignored, and after the result the vid can be asked again.
pub proof fn law_pickup_once_until_result(pending: Set<u32>, vid: u32)
    ensures
        pending.insert(vid).contains(vid),
        !pending.insert(vid).remove(vid).contains(vid),
{
}

/// Largest distance at which a ground item is picked up.
pub const PICKUP_RANGE: i32 = 600;

/// Whether a pickup at distance `dist` of the item goes ahead (farther
/// requests are ignored).
pub fn pickup_in_range(dist: i32) -> (ok: bool)
    ensures
        ok == (dist <= PICKUP_RANGE),
{
    dist <= PICKUP_RANGE
}

/// Distance beyond which a hostile mob gives up its target.
pub const DE_AGGRO_DISTANCE: i32 = 5000;

/// What a hostile mob does on an AI tick.
#[derive(Debug, Clone, Copy, PartialEq, Eq, Structural)]
pub enum MobAction {
    /// The player is too far: the mob loses its aggro.
    DropAggro,
    /// The player is within melee range: the mob attacks.
    Attack,
    /// Otherwise the mob steps toward the player.
    Chase,
}

/// The decision of a hostile mob at distance `dist` of its player, with
/// melee range `melee`.
pub fn mob_action(dist: i32, melee: i32) -> (a: MobAction)
    ensures
        a == (if dist > DE_AGGRO_DISTANCE {
            MobAction::DropAggro
        } else if dist <= melee {
            MobAction::Attack
        } else {
            MobAction::Chase
        }),
{
    if dist > DE_AGGRO_DISTANCE {
        MobAction::DropAggro
    } else if dist <= melee {
        MobAction::Attack
    } else {
        MobAction::Chase
    }
}

} // verus!
