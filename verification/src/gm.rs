//! Player and GM commands of the chat: the information line, the walk-mode
//! packet, skill level-up with its master grade, stat points added and
//! taken back, and the arithmetic of the warp and item commands.

use vstd::prelude::*;
use crate::chat::{gc_chat, gc_chat_spec, CHAT_TYPE_INFO};
use crate::entry::race_to_job_spec;
use crate::wire::le32;

verus! {

/// Chat type of a notice.
pub const CHAT_TYPE_NOTICE: u8 = 2;
/// Header of `GC_WALK_MODE`.
pub const GC_WALK_MODE: u8 = 111;
pub const WALKMODE_RUN: u8 = 0;
pub const WALKMODE_WALK: u8 = 1;
/// Highest skill level.
pub const SKILL_LEVEL_MAX: u8 = 40;
/// Skills in the skill blob.
pub const SKILL_MAX_NUM: usize = 255;
/// Bytes of one skill record: master type, level, next-read time.
pub const PLAYER_SKILL_SIZE: usize = 6;
/// Highest value of a base stat.
pub const STAT_MAX: i16 = 90;

/// The `GC_CHAT` information line a command answers with.
pub fn gm_info(vid: u32, empire: u8, text: &[u8]) -> (b: Vec<u8>)
    requires
        9 + text@.len() <= u16::MAX,
    ensures
        b@ == gc_chat_spec(CHAT_TYPE_INFO, vid, empire, text@),
{
    gc_chat(CHAT_TYPE_INFO, vid, empire, text)
}

/// `GC_WALK_MODE`: header, vid, mode (walk 1, run 0).
pub open spec fn walk_mode_spec(vid: u32, walk: bool) -> Seq<u8> {
    seq![GC_WALK_MODE] + le32(vid) + seq![if walk { WALKMODE_WALK } else { WALKMODE_RUN }]
}

pub fn walk_mode_packet(vid: u32, walk: bool) -> (b: [u8; 6])
    ensures
        b@ == walk_mode_spec(vid, walk),
{
    let b: [u8; 6] = [
        GC_WALK_MODE,
        (vid % 256) as u8,
        ((vid / 256) % 256) as u8,
        ((vid / 65536) % 256) as u8,
        (vid / 16777216) as u8,
        if walk { WALKMODE_WALK } else { WALKMODE_RUN },
    ];
    assert(b@ =~= walk_mode_spec(vid, walk));
    b
}

/// Master grade of a skill level: normal below 20, master from 20, grand
/// master from 30, perfect master from 40.
pub open spec fn master_type_spec(level: u8) -> u8 {
    if level >= 40 {
        3
    } else if level >= 30 {
        2
    } else if level >= 20 {
        1
    } else {
        0
    }
}

pub fn master_type_for_level(level: u8) -> (m: u8)
    ensures
        m == master_type_spec(level),
{
    if level >= 40 {
        3
    } else if level >= 30 {
        2
    } else if level >= 20 {
        1
    } else {
        0
    }
}

/// The level after one level-up: one more, at most 40.
pub open spec fn next_skill_level(level: u8) -> u8 {
    if level >= SKILL_LEVEL_MAX {
        SKILL_LEVEL_MAX
    } else {
        (level + 1) as u8
    }
}

/// The blob after raising skill `vnum`: its level goes up by one (at most
/// 40) and its master type follows the new level; skill 0 changes nothing.
pub open spec fn skillup_spec(blob: Seq<u8>, vnum: u32) -> Seq<u8> {
    if vnum == 0 {
        blob
    } else {
        let off = vnum * PLAYER_SKILL_SIZE;
        let lv = next_skill_level(blob[off + 1]);
        blob.update(off + 1, lv).update(off, master_type_spec(lv))
    }
}

/// Raises skill `vnum` in the skill blob; `None` (and no change) for skill 0.
pub fn skillup_apply(blob: &mut Vec<u8>, vnum: u32) -> (r: Option<u8>)
    requires
        vnum == 0 || vnum * PLAYER_SKILL_SIZE + 2 <= old(blob)@.len(),
    ensures
        final(blob)@ == skillup_spec(old(blob)@, vnum),
        vnum == 0 ==> r is None,
        vnum != 0 ==> r == Some(next_skill_level(old(blob)@[vnum * PLAYER_SKILL_SIZE + 1])),
{
    if vnum == 0 {
        return None;
    }
    let v: usize = vnum as usize;
    let n: usize = blob.len();
    assert(v * 6 + 2 <= n) by (nonlinear_arith)
        requires
            v * 6 + 2 <= n,
    ;
    let off = v * PLAYER_SKILL_SIZE;
    let cur = blob[off + 1];
    let new_level = if cur >= SKILL_LEVEL_MAX { SKILL_LEVEL_MAX } else { cur + 1 };
    blob.set(off + 1, new_level);
    blob.set(off, master_type_for_level(new_level));
    Some(new_level)
}

/// Whether `/skillup` does anything before the blob is touched: a skill in
/// range, a skill group and a skill point.
pub open spec fn skillup_allowed_spec(vnum: Option<u32>, skill_group: i16, skill_point: i32) -> bool {
    vnum matches Some(v) && v < SKILL_MAX_NUM && skill_group != 0 && skill_point >= 1
}

pub fn skillup_allowed(vnum: Option<u32>, skill_group: i16, skill_point: i32) -> (ok: bool)
    ensures
        ok == skillup_allowed_spec(vnum, skill_group, skill_point),
{
    match vnum {
        None => false,
        Some(v) => (v as usize) < SKILL_MAX_NUM && skill_group != 0 && skill_point >= 1,
    }
}

/// The skill blob to raise: the stored one when it has the full size,
/// zeros otherwise.
pub fn skill_blob_or_default(stored: Option<Vec<u8>>) -> (b: Vec<u8>)
    ensures
        b@.len() == SKILL_MAX_NUM * PLAYER_SKILL_SIZE,
        match stored {
            Some(s) => if s@.len() == SKILL_MAX_NUM * PLAYER_SKILL_SIZE {
                b@ == s@
            } else {
                b@ == Seq::new((SKILL_MAX_NUM * PLAYER_SKILL_SIZE) as nat, |i: int| 0u8)
            },
            None => b@ == Seq::new((SKILL_MAX_NUM * PLAYER_SKILL_SIZE) as nat, |i: int| 0u8),
        },
{
    match stored {
        Some(s) => {
            if s.len() == SKILL_MAX_NUM * PLAYER_SKILL_SIZE {
                return s;
            }
        },
        None => {},
    }
    let mut b: Vec<u8> = Vec::new();
    let mut i: usize = 0;
    while i < SKILL_MAX_NUM * PLAYER_SKILL_SIZE
        invariant
            i <= SKILL_MAX_NUM * PLAYER_SKILL_SIZE,
            b@ == Seq::new(i as nat, |k: int| 0u8),
        decreases SKILL_MAX_NUM * PLAYER_SKILL_SIZE - i,
    {
        b.push(0u8);
        i = i + 1;
        assert(b@ =~= Seq::new(i as nat, |k: int| 0u8));
    }
    b
}

/// Grid coordinates of `/warp` to units (x100, saturating).
pub fn warp_units(x: i32, y: i32) -> (r: (i32, i32))
    ensures
        r.0 == (if x * 100 > i32::MAX { i32::MAX as int } else if x * 100 < i32::MIN { i32::MIN as int } else { x * 100 }),
        r.1 == (if y * 100 > i32::MAX { i32::MAX as int } else if y * 100 < i32::MIN { i32::MIN as int } else { y * 100 }),
{
    let wx: i64 = x as i64 * 100;
    let wy: i64 = y as i64 * 100;
    let rx: i32 = if wx > i32::MAX as i64 { i32::MAX } else if wx < i32::MIN as i64 { i32::MIN } else { wx as i32 };
    let ry: i32 = if wy > i32::MAX as i64 { i32::MAX } else if wy < i32::MIN as i64 { i32::MIN } else { wy as i32 };
    (rx, ry)
}

/// The base stats of a stat command.
#[derive(Debug, Clone, Copy, PartialEq, Eq, Structural)]
pub enum StatPoint {
    St,
    Dx,
    Ht,
    Iq,
}

/// What a stat command reads and writes of a character.
#[derive(Debug, Clone, Copy, PartialEq, Eq, Structural)]
pub struct CharacterStats {
    pub job: i16,
    pub st: i16,
    pub ht: i16,
    pub dx: i16,
    pub iq: i16,
    pub stat_point: i16,
    pub stat_reset_count: i16,
}

pub open spec fn stat_of(s: CharacterStats, p: StatPoint) -> i16 {
    match p {
        StatPoint::St => s.st,
        StatPoint::Dx => s.dx,
        StatPoint::Ht => s.ht,
        StatPoint::Iq => s.iq,
    }
}

pub open spec fn with_stat(s: CharacterStats, p: StatPoint, v: i16) -> CharacterStats {
    match p {
        StatPoint::St => CharacterStats { st: v, ..s },
        StatPoint::Dx => CharacterStats { dx: v, ..s },
        StatPoint::Ht => CharacterStats { ht: v, ..s },
        StatPoint::Iq => CharacterStats { iq: v, ..s },
    }
}

pub fn stat_value(s: &CharacterStats, p: StatPoint) -> (v: i16)
    ensures
        v == stat_of(*s, p),
{
    match p {
        StatPoint::St => s.st,
        StatPoint::Dx => s.dx,
        StatPoint::Ht => s.ht,
        StatPoint::Iq => s.iq,
    }
}

pub fn set_stat(s: &mut CharacterStats, p: StatPoint, v: i16)
    ensures
        *final(s) == with_stat(*old(s), p, v),
{
    match p {
        StatPoint::St => s.st = v,
        StatPoint::Dx => s.dx = v,
        StatPoint::Ht => s.ht = v,
        StatPoint::Iq => s.iq = v,
    }
}

/// The initial value of a stat for the character's race (its job through
/// the race; unknown races count as assassin).
pub open spec fn job_initial_stat_spec(race: i16, p: StatPoint) -> i16 {
    let job: int = if 0 <= race < 8 { (race % 4) as int } else { 1 };
    let init: (i16, i16, i16, i16) = if job == 0 {
        (6, 4, 3, 3)
    } else if job == 1 {
        (4, 3, 6, 3)
    } else if job == 2 {
        (5, 3, 3, 5)
    } else {
        (3, 4, 3, 6)
    };
    match p {
        StatPoint::St => init.0,
        StatPoint::Ht => init.1,
        StatPoint::Dx => init.2,
        StatPoint::Iq => init.3,
    }
}

pub fn job_initial_stat(race: i16, p: StatPoint) -> (v: i16)
    ensures
        v == job_initial_stat_spec(race, p),
{
    let job: i16 = if 0 <= race && race < 8 { race % 4 } else { 1 };
    let init: (i16, i16, i16, i16) = if job == 0 {
        (6, 4, 3, 3)
    } else if job == 1 {
        (4, 3, 6, 3)
    } else if job == 2 {
        (5, 3, 3, 5)
    } else {
        (3, 4, 3, 6)
    };
    match p {
        StatPoint::St => init.0,
        StatPoint::Ht => init.1,
        StatPoint::Dx => init.2,
        StatPoint::Iq => init.3,
    }
}

/// `/stat`: spends stat points on a base stat up to 90; `None` (no change)
/// without enough points or at the cap.
pub open spec fn stat_add_spec(s: CharacterStats, p: StatPoint, amount: i32) -> Option<(CharacterStats, i32)> {
    let cur = stat_of(s, p) as int;
    let applied = (if cur + amount < STAT_MAX { cur + amount } else { STAT_MAX as int }) - cur;
    if s.stat_point < amount || applied <= 0 {
        None
    } else {
        Some((
            CharacterStats { stat_point: (s.stat_point - applied) as i16, ..with_stat(s, p, (cur + applied) as i16) },
            applied as i32,
        ))
    }
}

pub fn gm_stat(s: &mut CharacterStats, p: StatPoint, amount: i32) -> (applied: Option<i32>)
    ensures
        match stat_add_spec(*old(s), p, amount) {
            None => applied is None && *final(s) == *old(s),
            Some(t) => applied == Some(t.1) && *final(s) == t.0,
        },
{
    if (s.stat_point as i32) < amount {
        return None;
    }
    let cur = stat_value(s, p);
    let target: i64 = if (cur as i64) + (amount as i64) < STAT_MAX as i64 {
        cur as i64 + amount as i64
    } else {
        STAT_MAX as i64
    };
    let applied: i64 = target - cur as i64;
    if applied <= 0 {
        return None;
    }
    set_stat(s, p, (cur as i64 + applied) as i16);
    s.stat_point = (s.stat_point as i64 - applied) as i16;
    Some(applied as i32)
}

/// `/stat-`: takes points back from a base stat down to the race's initial
/// value, one reset each; `None` (no change) without resets or at the floor.
pub open spec fn stat_minus_spec(s: CharacterStats, p: StatPoint, amount: i32) -> Option<(CharacterStats, i16)> {
    let floor = job_initial_stat_spec(s.job, p) as int;
    let cur = stat_of(s, p) as int;
    let asked = amount as i16 as int;
    let d = if cur - floor < asked { cur - floor } else { asked };
    let applied = if d < 0 { 0 } else { d };
    if s.stat_reset_count < 1 || applied <= 0 {
        None
    } else {
        let sp = s.stat_point + applied;
        let rc = s.stat_reset_count - applied;
        Some((
            CharacterStats {
                stat_point: (if sp < STAT_MAX * 100 { sp } else { STAT_MAX * 100 }) as i16,
                stat_reset_count: (if rc < 0 { 0 } else { rc }) as i16,
                ..with_stat(s, p, (cur - applied) as i16)
            },
            applied as i16,
        ))
    }
}

pub fn gm_stat_minus(s: &mut CharacterStats, p: StatPoint, amount: i32) -> (applied: Option<i16>)
    requires
        i16::MIN <= stat_of(*old(s), p) - job_initial_stat_spec(old(s).job, p),
    ensures
        match stat_minus_spec(*old(s), p, amount) {
            None => applied is None && *final(s) == *old(s),
            Some(t) => applied == Some(t.1) && *final(s) == t.0,
        },
{
    if s.stat_reset_count < 1 {
        return None;
    }
    let floor = job_initial_stat(s.job, p);
    let cur = stat_value(s, p);
    let asked = amount as i16;
    let room = cur as i32 - floor as i32;
    let d: i32 = if room < asked as i32 { room } else { asked as i32 };
    let applied: i32 = if d < 0 { 0 } else { d };
    if applied <= 0 {
        return None;
    }
    set_stat(s, p, (cur as i32 - applied) as i16);
    let sp: i32 = s.stat_point as i32 + applied;
    s.stat_point = if sp < (STAT_MAX as i32) * 100 { sp as i16 } else { (STAT_MAX * 100) as i16 };
    let rc: i32 = s.stat_reset_count as i32 - applied;
    s.stat_reset_count = if rc < 0 { 0 } else { rc as i16 };
    Some(applied as i16)
}

/// A stat raised by `/stat` never passes 90, and the points spent are the
/// points the stat gained.
pub proof fn law_stat_add_caps_and_conserves(s: CharacterStats, p: StatPoint, amount: i32)
    requires
        stat_add_spec(s, p, amount) is Some,
    ensures
        stat_of(stat_add_spec(s, p, amount).unwrap().0, p) <= STAT_MAX,
        stat_of(stat_add_spec(s, p, amount).unwrap().0, p) - stat_of(s, p) == s.stat_point
            - stat_add_spec(s, p, amount).unwrap().0.stat_point,
{
}

/// A stat taken back by `/stat-` never falls below the race's initial value.
pub proof fn law_stat_minus_floor(s: CharacterStats, p: StatPoint, amount: i32)
    requires
        stat_minus_spec(s, p, amount) is Some,
    ensures
        stat_of(stat_minus_spec(s, p, amount).unwrap().0, p) >= job_initial_stat_spec(s.job, p),
{
}

/// A level-up never passes level 40, and the master type always matches
/// the new level.
pub proof fn law_skillup_caps_and_grades(blob: Seq<u8>, vnum: u32)
    requires
        vnum != 0,
        vnum * PLAYER_SKILL_SIZE + 2 <= blob.len(),
    ensures
        skillup_spec(blob, vnum)[vnum * PLAYER_SKILL_SIZE + 1] <= SKILL_LEVEL_MAX,
        skillup_spec(blob, vnum)[vnum * PLAYER_SKILL_SIZE as int] == master_type_spec(
            skillup_spec(blob, vnum)[vnum * PLAYER_SKILL_SIZE + 1],
        ),
{
}

/// `/restart_here` and `/restart_town` act only on a dead character (HP at
/// or below 0); alive, the command is ignored.
pub fn restart_allowed(hp: i32) -> (ok: bool)
    ensures
        ok == (hp <= 0),
{
    hp <= 0
}

} // verus!
