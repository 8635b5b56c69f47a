//! Dragon-soul refine: the 47-byte request, the item its grid names, the
//! material check and the result code of the reply.

use vstd::prelude::*;
use crate::item::ItemRow;
use crate::items::counts_bounded;
use crate::materials::{materials_held, materials_ready};

verus! {

/// Size of `CG_DRAGON_SOUL_REFINE`: header, subheader, fifteen 3-byte cells.
pub const DS_REFINE_SIZE: usize = 47;
/// Result: materials missing.
pub const NOT_ENOUGH_MAT: u8 = 10;
/// Result: not enough gold.
pub const NOT_ENOUGH_MONEY: u8 = 8;
/// Result: refined.
pub const SUCCEED: u8 = 11;
/// Result: the roll failed.
pub const FAIL: u8 = 5;

/// `(subheader, cells)` of an exactly 47-byte request.
pub fn parse(b: &[u8]) -> (r: Option<(u8, [[u8; 3]; 15])>)
    ensures
        b@.len() != DS_REFINE_SIZE ==> r is None,
        b@.len() == DS_REFINE_SIZE ==> (r matches Some(t) && t.0 == b@[1] && forall|i: int|
            0 <= i < 15 ==> #[trigger] t.1@[i]@ == b@.subrange(2 + i * 3, 5 + i * 3)),
{
    if b.len() != DS_REFINE_SIZE {
        return None;
    }
    let mut g: [[u8; 3]; 15] = [[0u8; 3]; 15];
    let mut i: usize = 0;
    while i < 15
        invariant
            b@.len() == DS_REFINE_SIZE,
            i <= 15,
            forall|k: int| 0 <= k < i ==> #[trigger] g@[k]@ == b@.subrange(2 + k * 3, 5 + k * 3),
        decreases 15 - i,
    {
        let cell: [u8; 3] = [b[2 + i * 3], b[3 + i * 3], b[4 + i * 3]];
        assert(cell@ =~= b@.subrange(2 + i * 3, 5 + i * 3));
        g.set(i, cell);
        i = i + 1;
    }
    Some((b[1], g))
}

/// The inventory cell a grid entry names (`None` for an empty entry).
pub open spec fn grid_cell_spec(c: Seq<u8>) -> Option<u16> {
    if c[0] == 0 && c[1] == 0 && c[2] == 0 {
        None
    } else {
        Some((c[1] + c[2] * 256) as u16)
    }
}

pub fn grid_cell(c: [u8; 3]) -> (r: Option<u16>)
    ensures
        r == grid_cell_spec(c@),
{
    if c[0] == 0 && c[1] == 0 && c[2] == 0 {
        None
    } else {
        Some(c[1] as u16 + (c[2] as u16) * 256)
    }
}

/// The first row (any window) at cell `c`.
pub open spec fn row_at(inv: Seq<ItemRow>, c: u16) -> Option<int> {
    if exists|i: int| 0 <= i < inv.len() && (inv[i].pos as u16) == c {
        Some(choose|i: int| 0 <= i < inv.len() && (inv[i].pos as u16) == c && forall|k: int| 0 <= k < i ==> (#[trigger] inv[k].pos as u16) != c)
    } else {
        None
    }
}

fn find_pos(inv: &[ItemRow], c: u16) -> (r: Option<usize>)
    ensures
        r matches Some(i) ==> i < inv@.len() && row_at(inv@, c) == Some(i as int),
        r is None ==> row_at(inv@, c) is None,
{
    let mut i: usize = 0;
    while i < inv.len()
        invariant
            i <= inv@.len(),
            forall|k: int| 0 <= k < i ==> (#[trigger] inv@[k].pos as u16) != c,
        decreases inv@.len() - i,
    {
        if inv[i].pos as u16 == c {
            proof {
                let j = choose|j: int| 0 <= j < inv@.len() && (inv@[j].pos as u16) == c && forall|k: int| 0 <= k < j ==> (#[trigger] inv@[k].pos as u16) != c;
                if j < i {
                    assert((inv@[j].pos as u16) != c);
                }
                if i < j {
                    assert((inv@[i as int].pos as u16) != c);
                }
            }
            return Some(i);
        }
        i = i + 1;
    }
    None
}

/// The vnum of the item a grid refines: the first entry whose cell holds a
/// row, 0 when none does.
pub open spec fn grid_vnum_spec(inv: Seq<ItemRow>, grid: Seq<Seq<u8>>, k: int) -> i64
    decreases 15 - k,
{
    if k >= 15 || k < 0 {
        0
    } else {
        match grid_cell_spec(grid[k]) {
            None => grid_vnum_spec(inv, grid, k + 1),
            Some(c) => match row_at(inv, c) {
                Some(i) => inv[i].vnum,
                None => grid_vnum_spec(inv, grid, k + 1),
            },
        }
    }
}

pub fn grid_vnum(inv: &[ItemRow], grid: &[[u8; 3]; 15]) -> (v: i64)
    ensures
        v == grid_vnum_spec(inv@, grid@.map_values(|c: [u8; 3]| c@), 0),
{
    let ghost g = grid@.map_values(|c: [u8; 3]| c@);
    let mut k: usize = 0;
    while k < 15
        invariant
            k <= 15,
            g == grid@.map_values(|c: [u8; 3]| c@),
            grid_vnum_spec(inv@, g, 0) == grid_vnum_spec(inv@, g, k as int),
        decreases 15 - k,
    {
        assert(g[k as int] == grid@[k as int]@);
        match grid_cell(grid[k]) {
            None => {},
            Some(c) => {
                match find_pos(inv, c) {
                    Some(i) => {
                        return inv[i].vnum;
                    },
                    None => {},
                }
            },
        }
        k = k + 1;
    }
    0
}

/// Every material of the recipe (vnum and count, empty slots skipped) is
/// held in the inventory in at least that count.
pub fn check_materials(inv: &[ItemRow], mats: &[(i64, i32)]) -> (ok: bool)
    requires
        counts_bounded(inv@),
        inv@.len() <= 0x1000_0000,
    ensures
        ok == materials_held(inv@, mats@, Seq::empty()),
{
    let none: [usize; 0] = [];
    assert(none@ =~= Seq::<usize>::empty());
    materials_ready(inv, mats, &none)
}

/// The result code of a refine: no item or no recipe and missing
/// materials give `NOT_ENOUGH_MAT`, too little gold `NOT_ENOUGH_MONEY`,
/// else the roll decides.
pub open spec fn ds_result_spec(has_recipe: bool, gold: i64, fee: i64, mats_ok: bool, success: bool) -> u8 {
    if !has_recipe {
        NOT_ENOUGH_MAT
    } else if gold < fee {
        NOT_ENOUGH_MONEY
    } else if !mats_ok {
        NOT_ENOUGH_MAT
    } else if success {
        SUCCEED
    } else {
        FAIL
    }
}

pub fn ds_result(has_recipe: bool, gold: i64, fee: i64, mats_ok: bool, success: bool) -> (r: u8)
    ensures
        r == ds_result_spec(has_recipe, gold, fee, mats_ok, success),
{
    if !has_recipe {
        NOT_ENOUGH_MAT
    } else if gold < fee {
        NOT_ENOUGH_MONEY
    } else if !mats_ok {
        NOT_ENOUGH_MAT
    } else if success {
        SUCCEED
    } else {
        FAIL
    }
}

/// Only subheaders 1 to 4 refine.
pub fn is_refine_sub(sub: u8) -> (r: bool)
    ensures
        r == (1 <= sub <= 4),
{
    1 <= sub && sub <= 4
}

} // verus!
