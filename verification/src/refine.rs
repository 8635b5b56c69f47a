//! Running a refine on the inventory once its recipe is known: the fee and
//! the materials are checked before anything is touched, then the
//! materials are taken and the scroll (when there is one) loses a unit;
//! after the roll the target row, found again by its id, is replaced, kept
//! or destroyed.

use vstd::prelude::*;
use crate::item::ItemRow;
use crate::items::{
    counts_bounded, refine_fee, refine_fee_spec, refined_row, take_count, take_count_spec,
    RefineOutcome,
};
use crate::materials::{
    lemma_take_all_keeps, materials_held, materials_ready, remove_materials, take_all, MaterialChange,
};

verus! {

/// Why a refine stops before anything is taken.
#[derive(Debug, Clone, Copy, PartialEq, Eq, Structural)]
pub enum RefineRefusal {
    /// The purse holds less than the fee.
    NotEnoughGold,
    /// A material of the recipe is missing.
    MissingMaterial,
}

/// What paying for a refine did: the fee to charge, the rows the
/// materials changed (in order), and the scroll row that lost a unit with
/// whether it ran out.
#[derive(Debug)]
pub struct RefinePaid {
    pub fee: i64,
    pub changes: Vec<MaterialChange>,
    pub scroll: Option<(usize, bool)>,
}

/// The rows a refine never counts as material: the target and the scroll,
/// by index before anything is taken.
pub open spec fn refine_skip(target: usize, scroll: Option<usize>) -> Seq<usize> {
    match scroll {
        Some(s) => seq![target, s],
        None => seq![target],
    }
}

/// The same rows by id, which stays true while rows are taken away: the
/// materials are never taken from them.
pub open spec fn refine_skip_ids(inv: Seq<ItemRow>, target: usize, scroll: Option<usize>) -> Seq<i64> {
    match scroll {
        Some(s) => seq![inv[target as int].id, inv[s as int].id],
        None => seq![inv[target as int].id],
    }
}

/// `i` is the first row of `s` with id `id`.
pub open spec fn is_first_id(s: Seq<ItemRow>, i: int, id: i64) -> bool {
    &&& 0 <= i < s.len()
    &&& s[i].id == id
    &&& forall|j: int| 0 <= j < i ==> #[trigger] s[j].id != id
}

/// The first row with id `id`.
pub fn find_id(inv: &[ItemRow], id: i64) -> (r: Option<usize>)
    ensures
        r matches Some(i) ==> is_first_id(inv@, i as int, id),
        r is None ==> forall|j: int| 0 <= j < inv@.len() ==> #[trigger] inv@[j].id != id,
{
    let mut i: usize = 0;
    while i < inv.len()
        invariant
            i <= inv@.len(),
            forall|j: int| 0 <= j < i ==> #[trigger] inv@[j].id != id,
        decreases inv@.len() - i,
    {
        if inv[i].id == id {
            return Some(i);
        }
        i = i + 1;
    }
    None
}

/// Pays for a refine of the row at `target` (with the scroll at `scroll`,
/// if any) whose recipe costs `cost` and asks for `mats`: the fee is the
/// cost with a scroll and five times it without. Too little gold or a
/// missing material refuses and changes nothing. Otherwise the materials
/// are taken, never from the target nor the scroll (kept out by their ids,
/// so rows that leave before them cannot shift the protection onto another
/// row), and the scroll, found again by its id, loses one unit.
pub fn refine_prepare(
    inv: &mut Vec<ItemRow>,
    target: usize,
    scroll: Option<usize>,
    cost: i32,
    gold: i32,
    mats: &[(i64, i32)],
) -> (r: Result<RefinePaid, RefineRefusal>)
    requires
        target < old(inv)@.len(),
        scroll matches Some(s) ==> s < old(inv)@.len(),
        counts_bounded(old(inv)@),
        old(inv)@.len() <= 0x1000_0000,
    ensures
        ({
            let fee = refine_fee_spec(cost, scroll is Some);
            let skip = refine_skip(target, scroll);
            let ids = refine_skip_ids(old(inv)@, target, scroll);
            let after = take_all(old(inv)@, mats@, ids, 0).0;
            &&& gold < fee ==> (r matches Err(RefineRefusal::NotEnoughGold) && final(inv)@ == old(inv)@)
            &&& gold >= fee && !materials_held(old(inv)@, mats@, skip) ==> (r matches Err(
                RefineRefusal::MissingMaterial,
            ) && final(inv)@ == old(inv)@)
            &&& gold >= fee && materials_held(old(inv)@, mats@, skip) ==> (r matches Ok(p) && p.fee == fee
                && p.changes@ == take_all(old(inv)@, mats@, ids, 0).1 && after.contains(old(inv)@[target as int])
                && match scroll {
                None => p.scroll is None && final(inv)@ == after,
                Some(si) => after.contains(old(inv)@[si as int]) && match p.scroll {
                    None => final(inv)@ == after && forall|j: int|
                        0 <= j < after.len() ==> #[trigger] after[j].id != old(inv)@[si as int].id,
                    Some(c) => is_first_id(after, c.0 as int, old(inv)@[si as int].id) && c.1 == (after[c.0 as int].count
                        - 1 <= 0) && final(inv)@ == take_count_spec(after, c.0 as int, 1),
                },
            })
        }),
{
    let fee = refine_fee(cost, scroll.is_some());
    if (gold as i64) < fee {
        return Err(RefineRefusal::NotEnoughGold);
    }
    let skip: Vec<usize> = match scroll {
        Some(s) => vec![target, s],
        None => vec![target],
    };
    assert(skip@ =~= refine_skip(target, scroll));
    if !materials_ready(inv.as_slice(), mats, skip.as_slice()) {
        return Err(RefineRefusal::MissingMaterial);
    }
    let scroll_id: Option<i64> = match scroll {
        Some(s) => Some(inv[s].id),
        None => None,
    };
    let ids: Vec<i64> = match scroll {
        Some(s) => vec![inv[target].id, inv[s].id],
        None => vec![inv[target].id],
    };
    assert(ids@ =~= refine_skip_ids(inv@, target, scroll));
    proof {
        let s0 = inv@;
        assert(s0.contains(s0[target as int]));
        assert(ids@.contains(s0[target as int].id)) by {
            assert(ids@[0] == s0[target as int].id);
        }
        lemma_take_all_keeps(s0, mats@, ids@, 0, s0[target as int]);
        match scroll {
            Some(si) => {
                assert(s0.contains(s0[si as int]));
                assert(ids@[1] == s0[si as int].id);
                lemma_take_all_keeps(s0, mats@, ids@, 0, s0[si as int]);
            },
            None => {},
        }
    }
    let changes = remove_materials(inv, mats, ids.as_slice());
    let consumed = match scroll_id {
        None => None,
        Some(sid) => match find_id(inv.as_slice(), sid) {
            None => None,
            Some(k) => {
                assert(0 <= inv@[k as int].count <= 0x1_0000_0000);
                let removed = take_count(inv, k, 1);
                Some((k, removed))
            },
        },
    };
    Ok(RefinePaid { fee, changes, scroll: consumed })
}

/// What the roll did to the target row: a success or the fall-back of a
/// scroll replaces it (same cell and bonuses, one unit), a kept item stays
/// as it is, a failed refine without scroll destroys it.
pub open spec fn refine_result_spec(s: Seq<ItemRow>, target: int, outcome: RefineOutcome, refined_vnum: i64) -> Seq<
    ItemRow,
> {
    match outcome {
        RefineOutcome::Success => s.update(target, ItemRow { vnum: refined_vnum, count: 1, ..s[target] }),
        RefineOutcome::Downgrade(v) => s.update(target, ItemRow { vnum: v, count: 1, ..s[target] }),
        RefineOutcome::Kept => s,
        RefineOutcome::Destroyed => s.remove(target),
    }
}

/// Applies the outcome of the roll to the row at `target`.
pub fn apply_refine(inv: &mut Vec<ItemRow>, target: usize, outcome: RefineOutcome, refined_vnum: i64)
    requires
        target < old(inv)@.len(),
    ensures
        final(inv)@ == refine_result_spec(old(inv)@, target as int, outcome, refined_vnum),
{
    match outcome {
        RefineOutcome::Success => {
            let r = refined_row(inv[target], refined_vnum);
            inv.set(target, r);
        },
        RefineOutcome::Downgrade(v) => {
            let r = refined_row(inv[target], v);
            inv.set(target, r);
        },
        RefineOutcome::Kept => {},
        RefineOutcome::Destroyed => {
            inv.remove(target);
        },
    }
}

/// Applies the outcome of the roll to the target, found again by its id
/// (taking the materials may have moved it): the row with id `target_id`
/// is replaced, kept or destroyed. Returns where it was found; when no row
/// has that id nothing changes.
pub fn apply_refine_by_id(inv: &mut Vec<ItemRow>, target_id: i64, outcome: RefineOutcome, refined_vnum: i64) -> (r:
    Option<usize>)
    ensures
        r matches Some(k) ==> is_first_id(old(inv)@, k as int, target_id) && final(inv)@ == refine_result_spec(
            old(inv)@,
            k as int,
            outcome,
            refined_vnum,
        ),
        r is None ==> final(inv)@ == old(inv)@ && forall|j: int|
            0 <= j < old(inv)@.len() ==> #[trigger] old(inv)@[j].id != target_id,
{
    match find_id(inv.as_slice(), target_id) {
        None => None,
        Some(k) => {
            apply_refine(inv, k, outcome, refined_vnum);
            Some(k)
        },
    }
}

} // verus!
