//! Taking the materials of a refine recipe out of the inventory: each
//! material is taken from its stacks in inventory order, the rows whose id
//! is in `skip` (the item being refined and the scroll) left alone; a stack
//! that runs out is removed, one that keeps units is updated.

use vstd::prelude::*;
use crate::item::ItemRow;
use crate::items::{count_material, counts_bounded, material_total};

verus! {

/// What taking materials did to one row, in the order it happened.
#[derive(Debug, Clone, Copy)]
pub enum MaterialChange {
    /// The row kept units; its new value.
    Updated(ItemRow),
    /// The row ran out and left the inventory; its last value.
    Deleted(ItemRow),
}

/// A row that material `vnum` is taken from: the right vnum, and not one of
/// the rows kept out by id (the item being refined and the scroll).
pub open spec fn takes_from(s: Seq<ItemRow>, i: int, vnum: i64, skip: Seq<i64>) -> bool {
    s[i].vnum == vnum && !skip.contains(s[i].id)
}

/// Taking `need` units of `vnum` from the rows `i..` of `s`: the rows that
/// stay (in order) and the changes made (in order).
pub open spec fn take_pass(s: Seq<ItemRow>, vnum: i64, skip: Seq<i64>, i: int, need: int) -> (
    Seq<ItemRow>,
    Seq<MaterialChange>,
)
    decreases s.len() - i,
{
    if i < 0 || i >= s.len() {
        (Seq::empty(), Seq::empty())
    } else if takes_from(s, i, vnum, skip) && need > 0 {
        let take = if need < s[i].count { need } else { s[i].count as int };
        let r = ItemRow { count: (s[i].count - take) as i64, ..s[i] };
        let rest = take_pass(s, vnum, skip, i + 1, need - take);
        if r.count <= 0 {
            (rest.0, seq![MaterialChange::Deleted(r)] + rest.1)
        } else {
            (seq![r] + rest.0, seq![MaterialChange::Updated(r)] + rest.1)
        }
    } else {
        let rest = take_pass(s, vnum, skip, i + 1, need);
        (seq![s[i]] + rest.0, rest.1)
    }
}

/// All materials of a recipe, from the `k`-th on; a material with vnum 0 or
/// no count is left out. The rows whose id is in `skip` are never taken
/// from, whatever rows leave before them.
pub open spec fn take_all(s: Seq<ItemRow>, mats: Seq<(i64, i32)>, skip: Seq<i64>, k: int) -> (
    Seq<ItemRow>,
    Seq<MaterialChange>,
)
    decreases mats.len() - k,
{
    if k < 0 || k >= mats.len() {
        (s, Seq::empty())
    } else if mats[k].0 == 0 || mats[k].1 <= 0 {
        take_all(s, mats, skip, k + 1)
    } else {
        let p = take_pass(s, mats[k].0, skip, 0, mats[k].1 as int);
        let q = take_all(p.0, mats, skip, k + 1);
        (q.0, p.1 + q.1)
    }
}

fn contains_id(skip: &[i64], i: i64) -> (r: bool)
    ensures
        r == skip@.contains(i),
{
    let mut k: usize = 0;
    while k < skip.len()
        invariant
            k <= skip@.len(),
            forall|j: int| 0 <= j < k ==> skip@[j] != i,
        decreases skip@.len() - k,
    {
        if skip[k] == i {
            return true;
        }
        k = k + 1;
    }
    false
}

fn take_one(inv: &Vec<ItemRow>, vnum: i64, skip: &[i64], need: i64) -> (r: (Vec<ItemRow>, Vec<MaterialChange>))
    requires
        counts_bounded(inv@),
        0 < need <= i32::MAX,
    ensures
        r.0@ == take_pass(inv@, vnum, skip@, 0, need as int).0,
        r.1@ == take_pass(inv@, vnum, skip@, 0, need as int).1,
        counts_bounded(r.0@),
{
    let ghost total = take_pass(inv@, vnum, skip@, 0, need as int);
    let mut out: Vec<ItemRow> = Vec::new();
    let mut changes: Vec<MaterialChange> = Vec::new();
    let mut left: i64 = need;
    let mut i: usize = 0;
    while i < inv.len()
        invariant
            i <= inv@.len(),
            counts_bounded(inv@),
            counts_bounded(out@),
            0 <= left <= need,
            total == take_pass(inv@, vnum, skip@, 0, need as int),
            out@ + take_pass(inv@, vnum, skip@, i as int, left as int).0 == total.0,
            changes@ + take_pass(inv@, vnum, skip@, i as int, left as int).1 == total.1,
        decreases inv@.len() - i,
    {
        let ghost rest_before = take_pass(inv@, vnum, skip@, i as int, left as int);
        let row = inv[i];
        assert(0 <= inv@[i as int].count <= 0x1_0000_0000);
        if row.vnum == vnum && !contains_id(skip, row.id) && left > 0 {
            let take: i64 = if left < row.count { left } else { row.count };
            let mut r = row;
            r.count = row.count - take;
            let ghost rest = take_pass(inv@, vnum, skip@, i as int + 1, left - take);
            left = left - take;
            if r.count <= 0 {
                proof {
                    assert(rest_before.1 == seq![MaterialChange::Deleted(r)] + rest.1);
                    assert(changes@.push(MaterialChange::Deleted(r)) + rest.1 =~= changes@ + (seq![
                        MaterialChange::Deleted(r),
                    ] + rest.1));
                }
                changes.push(MaterialChange::Deleted(r));
            } else {
                proof {
                    assert(rest_before.0 == seq![r] + rest.0);
                    assert(out@.push(r) + rest.0 =~= out@ + (seq![r] + rest.0));
                    assert(changes@.push(MaterialChange::Updated(r)) + rest.1 =~= changes@ + (seq![
                        MaterialChange::Updated(r),
                    ] + rest.1));
                }
                out.push(r);
                changes.push(MaterialChange::Updated(r));
            }
        } else {
            let ghost rest = take_pass(inv@, vnum, skip@, i as int + 1, left as int);
            proof {
                assert(rest_before.0 == seq![row] + rest.0);
                assert(out@.push(row) + rest.0 =~= out@ + (seq![row] + rest.0));
            }
            out.push(row);
        }
        i = i + 1;
    }
    proof {
        assert(out@ + Seq::<ItemRow>::empty() =~= out@);
        assert(changes@ + Seq::<MaterialChange>::empty() =~= changes@);
    }
    (out, changes)
}

/// Takes every material of a recipe out of the inventory; returns the
/// changes, in order, for the client and the store.
pub fn remove_materials(inv: &mut Vec<ItemRow>, mats: &[(i64, i32)], skip: &[i64]) -> (changes: Vec<
    MaterialChange,
>)
    requires
        counts_bounded(old(inv)@),
    ensures
        final(inv)@ == take_all(old(inv)@, mats@, skip@, 0).0,
        changes@ == take_all(old(inv)@, mats@, skip@, 0).1,
        counts_bounded(final(inv)@),
{
    let ghost start = inv@;
    let mut changes: Vec<MaterialChange> = Vec::new();
    let mut k: usize = 0;
    while k < mats.len()
        invariant
            k <= mats@.len(),
            counts_bounded(inv@),
            take_all(inv@, mats@, skip@, k as int).0 == take_all(start, mats@, skip@, 0).0,
            changes@ + take_all(inv@, mats@, skip@, k as int).1 == take_all(start, mats@, skip@, 0).1,
        decreases mats@.len() - k,
    {
        let (vnum, count) = mats[k];
        if vnum != 0 && count > 0 {
            let ghost before = inv@;
            let (rest, mut ch) = take_one(inv, vnum, skip, count as i64);
            proof {
                let q = take_all(rest@, mats@, skip@, k as int + 1);
                assert(take_all(before, mats@, skip@, k as int).1 == ch@ + q.1);
                assert(changes@ + ch@ + q.1 =~= changes@ + (ch@ + q.1));
            }
            *inv = rest;
            changes.append(&mut ch);
        }
        k = k + 1;
    }
    proof {
        assert(changes@ + Seq::<MaterialChange>::empty() =~= changes@);
    }
    changes
}

proof fn lemma_take_pass_keeps(s: Seq<ItemRow>, vnum: i64, skip: Seq<i64>, i: int, need: int, j: int)
    requires
        0 <= i <= j < s.len(),
        skip.contains(s[j].id),
    ensures
        take_pass(s, vnum, skip, i, need).0.contains(s[j]),
    decreases s.len() - i,
{
    let t = take_pass(s, vnum, skip, i, need);
    if i == j {
        assert(!takes_from(s, i, vnum, skip));
        let rest = take_pass(s, vnum, skip, i + 1, need);
        assert(t.0 == seq![s[i]] + rest.0);
        assert(t.0[0] == s[j]);
    } else {
        if takes_from(s, i, vnum, skip) && need > 0 {
            let take = if need < s[i].count { need } else { s[i].count as int };
            lemma_take_pass_keeps(s, vnum, skip, i + 1, need - take, j);
            let rest = take_pass(s, vnum, skip, i + 1, need - take);
            let k = choose|k: int| 0 <= k < rest.0.len() && rest.0[k] == s[j];
            let r = ItemRow { count: (s[i].count - take) as i64, ..s[i] };
            if r.count <= 0 {
                assert(t.0[k] == s[j]);
            } else {
                assert(t.0 == seq![r] + rest.0);
                assert(t.0[k + 1] == s[j]);
            }
        } else {
            lemma_take_pass_keeps(s, vnum, skip, i + 1, need, j);
            let rest = take_pass(s, vnum, skip, i + 1, need);
            let k = choose|k: int| 0 <= k < rest.0.len() && rest.0[k] == s[j];
            assert(t.0 == seq![s[i]] + rest.0);
            assert(t.0[k + 1] == s[j]);
        }
    }
}

/// A row kept out by id is never taken from: it is still there, unchanged,
/// after every material of the recipe.
pub proof fn lemma_take_all_keeps(s: Seq<ItemRow>, mats: Seq<(i64, i32)>, skip: Seq<i64>, k: int, x: ItemRow)
    requires
        0 <= k,
        s.contains(x),
        skip.contains(x.id),
    ensures
        take_all(s, mats, skip, k).0.contains(x),
    decreases mats.len() - k,
{
    if k < mats.len() {
        if mats[k].0 == 0 || mats[k].1 <= 0 {
            lemma_take_all_keeps(s, mats, skip, k + 1, x);
        } else {
            let j = choose|j: int| 0 <= j < s.len() && s[j] == x;
            lemma_take_pass_keeps(s, mats[k].0, skip, 0, mats[k].1 as int, j);
            let p = take_pass(s, mats[k].0, skip, 0, mats[k].1 as int);
            lemma_take_all_keeps(p.0, mats, skip, k + 1, x);
        }
    }
}

/// Units held in the rows `i..` of `s`.
pub open spec fn units_from(s: Seq<ItemRow>, i: int) -> int
    decreases s.len() - i,
{
    if i < 0 || i >= s.len() {
        0
    } else {
        s[i].count + units_from(s, i + 1)
    }
}

/// Units of `vnum` in the rows `i..` that materials are taken from.
pub open spec fn available_from(s: Seq<ItemRow>, vnum: i64, skip: Seq<i64>, i: int) -> int
    decreases s.len() - i,
{
    if i < 0 || i >= s.len() {
        0
    } else {
        (if takes_from(s, i, vnum, skip) { s[i].count as int } else { 0 }) + available_from(s, vnum, skip, i + 1)
    }
}

proof fn lemma_take_pass_units(s: Seq<ItemRow>, vnum: i64, skip: Seq<i64>, i: int, need: int)
    requires
        counts_bounded(s),
        0 <= i,
        0 <= need,
    ensures
        units_from(take_pass(s, vnum, skip, i, need).0, 0) == units_from(s, i) - if need < available_from(s, vnum, skip, i) {
            need
        } else {
            available_from(s, vnum, skip, i)
        },
        0 <= available_from(s, vnum, skip, i),
    decreases s.len() - i,
{
    if i >= s.len() {
    } else {
        assert(0 <= s[i].count);
        let c = s[i].count as int;
        if takes_from(s, i, vnum, skip) && need > 0 {
            let take = if need < c { need } else { c };
            lemma_take_pass_units(s, vnum, skip, i + 1, need - take);
            let r = ItemRow { count: (c - take) as i64, ..s[i] };
            let rest = take_pass(s, vnum, skip, i + 1, need - take);
            if r.count > 0 {
                lemma_units_cons(r, rest.0);
            }
        } else {
            lemma_take_pass_units(s, vnum, skip, i + 1, need);
            let rest = take_pass(s, vnum, skip, i + 1, need);
            lemma_units_cons(s[i], rest.0);
        }
    }
}

proof fn lemma_units_cons(r: ItemRow, t: Seq<ItemRow>)
    ensures
        units_from(seq![r] + t, 0) == r.count + units_from(t, 0),
{
    lemma_units_shift(seq![r] + t, t, 1);
}

proof fn lemma_units_shift(a: Seq<ItemRow>, t: Seq<ItemRow>, k: int)
    requires
        0 <= k <= a.len(),
        a.len() == t.len() + k,
        forall|j: int| 0 <= j < t.len() ==> a[j + k] == t[j],
    ensures
        units_from(a, k) == units_from(t, 0),
    decreases t.len(),
{
    lemma_units_shift_at(a, t, k, 0);
}

proof fn lemma_units_shift_at(a: Seq<ItemRow>, t: Seq<ItemRow>, k: int, j: int)
    requires
        0 <= k,
        0 <= j <= t.len(),
        a.len() == t.len() + k,
        forall|m: int| 0 <= m < t.len() ==> a[m + k] == t[m],
    ensures
        units_from(a, j + k) == units_from(t, j),
    decreases t.len() - j,
{
    if j < t.len() {
        lemma_units_shift_at(a, t, k, j + 1);
        assert(a[j + k] == t[j]);
    }
}

/// A material takes exactly what the recipe asks when the stacks hold
/// that much, and everything they hold otherwise: the inventory loses
/// `min(need, available)` units and no others.
pub proof fn law_material_taken_exactly(s: Seq<ItemRow>, vnum: i64, skip: Seq<i64>, need: int)
    requires
        counts_bounded(s),
        0 <= need,
    ensures
        units_from(take_pass(s, vnum, skip, 0, need).0, 0) == units_from(s, 0) - if need < available_from(s, vnum, skip, 0) {
            need
        } else {
            available_from(s, vnum, skip, 0)
        },
{
    lemma_take_pass_units(s, vnum, skip, 0, need);
}

/// Every material of the recipe (empty slots skipped) is held in at least
/// its count, the rows of `skip` left out.
pub open spec fn materials_held(inv: Seq<ItemRow>, mats: Seq<(i64, i32)>, skip: Seq<usize>) -> bool {
    forall|j: int|
        0 <= j < mats.len() ==> (#[trigger] mats[j]).0 != 0 && mats[j].1 > 0 ==> material_total(inv, mats[j].0, skip)
            >= mats[j].1
}

/// Whether the inventory holds the whole recipe; checked before anything
/// is taken, so a missing material leaves the inventory as it is.
pub fn materials_ready(inv: &[ItemRow], mats: &[(i64, i32)], skip: &[usize]) -> (ok: bool)
    requires
        counts_bounded(inv@),
        inv@.len() <= 0x1000_0000,
    ensures
        ok == materials_held(inv@, mats@, skip@),
{
    let mut j: usize = 0;
    while j < mats.len()
        invariant
            j <= mats@.len(),
            counts_bounded(inv@),
            inv@.len() <= 0x1000_0000,
            forall|q: int|
                0 <= q < j ==> (#[trigger] mats@[q]).0 != 0 && mats@[q].1 > 0 ==> material_total(inv@, mats@[q].0, skip@)
                    >= mats@[q].1,
        decreases mats@.len() - j,
    {
        let (mv, mc) = mats[j];
        if mv != 0 && mc > 0 {
            proof {
                crate::items::lemma_material_sums_fit(inv@, mv, skip@);
            }
            let have = count_material(inv, mv, skip);
            if have < mc as i64 {
                assert(!(mats@[j as int].0 != 0 && mats@[j as int].1 > 0 ==> material_total(inv@, mats@[j as int].0, skip@)
                    >= mats@[j as int].1));
                return false;
            }
        }
        j = j + 1;
    }
    true
}

} // verus!
