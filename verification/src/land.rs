//! Fixed-size requests of the world: dungeon creation and land purchase or
//! transfer.

use vstd::prelude::*;
use crate::wire::le32;

verus! {

/// Size of `CG_DUNGEON`: header and the map index.
pub const CG_DUNGEON_SIZE: usize = 5;
/// Size of `CG_LAND_BUY`: header, map, x, y, width, height, price (i64).
pub const CG_LAND_BUY_SIZE: usize = 29;
/// Size of `CG_LAND_TRANSFER`: header, land id, new owner.
pub const CG_LAND_TRANSFER_SIZE: usize = 9;

/// The little-endian `i32` at `o`.
pub open spec fn rd32_spec(b: Seq<u8>, o: int) -> i32 {
    (b[o] + b[o + 1] * 256 + b[o + 2] * 65536 + b[o + 3] * 16777216) as u32 as i32
}

pub fn rd32(b: &[u8], o: usize) -> (v: i32)
    requires
        o + 4 <= b@.len(),
    ensures
        v == rd32_spec(b@, o as int),
{
    let u: u32 = b[o] as u32 + (b[o + 1] as u32) * 256 + (b[o + 2] as u32) * 65536 + (b[o + 3] as u32) * 16777216;
    u as i32
}

/// The map of a `CG_DUNGEON`: exactly five bytes, else `None`.
pub fn map_of(pkt: &[u8]) -> (r: Option<i32>)
    ensures
        pkt@.len() != CG_DUNGEON_SIZE ==> r is None,
        pkt@.len() == CG_DUNGEON_SIZE ==> r == Some(rd32_spec(pkt@, 1)),
{
    if pkt.len() != CG_DUNGEON_SIZE {
        return None;
    }
    Some(rd32(pkt, 1))
}

/// A land purchase.
#[derive(Debug, Clone, Copy, PartialEq, Eq, Structural)]
pub struct LandBuy {
    pub map_index: i32,
    pub x: i32,
    pub y: i32,
    pub width: i32,
    pub height: i32,
    pub price: i64,
}

/// The little-endian `i64` at `o`.
pub open spec fn rd64_spec(b: Seq<u8>, o: int) -> i64 {
    ((rd32_spec(b, o) as u32) + (rd32_spec(b, o + 4) as u32) * 0x1_0000_0000) as u64 as i64
}

/// A `CG_LAND_BUY` of exactly 29 bytes.
pub fn parse_land_buy(pkt: &[u8]) -> (r: Option<LandBuy>)
    ensures
        pkt@.len() != CG_LAND_BUY_SIZE ==> r is None,
        pkt@.len() == CG_LAND_BUY_SIZE ==> r == Some(LandBuy {
            map_index: rd32_spec(pkt@, 1),
            x: rd32_spec(pkt@, 5),
            y: rd32_spec(pkt@, 9),
            width: rd32_spec(pkt@, 13),
            height: rd32_spec(pkt@, 17),
            price: rd64_spec(pkt@, 21),
        }),
{
    if pkt.len() != CG_LAND_BUY_SIZE {
        return None;
    }
    let lo = rd32(pkt, 21) as u32;
    let hi = rd32(pkt, 25) as u32;
    let price: i64 = (lo as u64 + (hi as u64) * 0x1_0000_0000u64) as i64;
    Some(LandBuy {
        map_index: rd32(pkt, 1),
        x: rd32(pkt, 5),
        y: rd32(pkt, 9),
        width: rd32(pkt, 13),
        height: rd32(pkt, 17),
        price,
    })
}

/// A purchase is stored only with a positive price, width and height.
pub fn land_buy_valid(b: &LandBuy) -> (ok: bool)
    ensures
        ok == (b.price > 0 && b.width > 0 && b.height > 0),
{
    b.price > 0 && b.width > 0 && b.height > 0
}

/// A `CG_LAND_TRANSFER` of exactly 9 bytes: `(land id, new owner)`.
pub fn parse_land_transfer(pkt: &[u8]) -> (r: Option<(u32, u32)>)
    ensures
        pkt@.len() != CG_LAND_TRANSFER_SIZE ==> r is None,
        pkt@.len() == CG_LAND_TRANSFER_SIZE ==> r == Some(
            (rd32_spec(pkt@, 1) as u32, rd32_spec(pkt@, 5) as u32),
        ),
{
    if pkt.len() != CG_LAND_TRANSFER_SIZE {
        return None;
    }
    Some((rd32(pkt, 1) as u32, rd32(pkt, 5) as u32))
}

} // verus!
