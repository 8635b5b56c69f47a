//! Posture and movement of the player: the `CG_CHARACTER_POSITION` switch
//! (stand up / sit down) with its `GC_CHARACTER_POSITION` reply, and what
//! the channel does with each verdict of the movement validator.

use vstd::prelude::*;
use crate::wire::le32;

verus! {

/// Standing.
pub const POSITION_GENERAL: u8 = 0;
/// Sitting on a chair (answered as sitting on the ground).
pub const POSITION_SITTING_CHAIR: u8 = 3;
/// Sitting on the ground.
pub const POSITION_SITTING_GROUND: u8 = 4;
/// Header of `GC_CHARACTER_POSITION`.
pub const GC_CHARACTER_POSITION: u8 = 43;

/// The posture a requested position leads to: `(sitting, wire position of
/// the reply)`; `None` for a position without a case.
pub open spec fn posture_spec(position: u8) -> Option<(bool, u8)> {
    if position == POSITION_GENERAL {
        Some((false, POSITION_GENERAL))
    } else if position == POSITION_SITTING_CHAIR || position == POSITION_SITTING_GROUND {
        Some((true, POSITION_SITTING_GROUND))
    } else {
        None
    }
}

pub fn posture(position: u8) -> (r: Option<(bool, u8)>)
    ensures
        r == posture_spec(position),
{
    if position == POSITION_GENERAL {
        Some((false, POSITION_GENERAL))
    } else if position == POSITION_SITTING_CHAIR || position == POSITION_SITTING_GROUND {
        Some((true, POSITION_SITTING_GROUND))
    } else {
        None
    }
}

/// `GC_CHARACTER_POSITION`: header, vid (LE), position.
pub open spec fn position_reply_spec(vid: u32, wire_pos: u8) -> Seq<u8> {
    seq![GC_CHARACTER_POSITION] + le32(vid) + seq![wire_pos]
}

pub fn position_reply(vid: u32, wire_pos: u8) -> (b: [u8; 6])
    ensures
        b@ == position_reply_spec(vid, wire_pos),
{
    let b: [u8; 6] = [
        GC_CHARACTER_POSITION,
        (vid % 256) as u8,
        ((vid / 256) % 256) as u8,
        ((vid / 65536) % 256) as u8,
        (vid / 16777216) as u8,
        wire_pos,
    ];
    assert(b@ =~= position_reply_spec(vid, wire_pos));
    b
}

/// What a `CG_CHARACTER_POSITION` does.
pub enum PositionPlan {
    /// Shorter than two bytes.
    Malformed,
    /// The character is dead: nothing changes.
    Dead,
    /// A position without a case.
    Unknown,
    /// The new posture and the reply to send.
    Apply { sitting: bool, reply: [u8; 6] },
}

pub fn plan_position(pkt: &[u8], hp: i64, vid: u32) -> (p: PositionPlan)
    ensures
        pkt@.len() < 2 <==> p is Malformed,
        pkt@.len() >= 2 ==> {
            if hp <= 0 {
                p is Dead
            } else {
                match posture_spec(pkt@[1]) {
                    None => p is Unknown,
                    Some(t) => p matches PositionPlan::Apply { sitting, reply } && sitting == t.0
                        && reply@ == position_reply_spec(vid, t.1),
                }
            }
        },
{
    if pkt.len() < 2 {
        return PositionPlan::Malformed;
    }
    if hp <= 0 {
        return PositionPlan::Dead;
    }
    match posture(pkt[1]) {
        None => PositionPlan::Unknown,
        Some((sitting, wire_pos)) => PositionPlan::Apply { sitting, reply: position_reply(vid, wire_pos) },
    }
}

/// The verdicts of the movement validator on a `CG_MOVE`.
#[derive(Debug, Clone, Copy, PartialEq, Eq, Structural)]
pub enum MoveVerdict {
    Accepted,
    NotMove,
    SlowTimer,
    FastTimer,
    TooFar,
    ExceedsEnvelope,
    InvalidFunc,
}

/// What the channel does after the verdict.
#[derive(Debug, Clone, Copy, PartialEq, Eq, Structural)]
pub enum MoveOutcome {
    /// The new position is published (world intent, chat and party peers).
    Publish,
    /// An action (attack, skill, combo), not a move.
    Action,
    /// A speedhack: the connection is closed.
    Kick,
    /// The move is refused; the position stays.
    Refuse,
}

pub open spec fn move_outcome_spec(v: MoveVerdict) -> MoveOutcome {
    match v {
        MoveVerdict::Accepted => MoveOutcome::Publish,
        MoveVerdict::NotMove => MoveOutcome::Action,
        MoveVerdict::SlowTimer | MoveVerdict::FastTimer => MoveOutcome::Kick,
        _ => MoveOutcome::Refuse,
    }
}

pub fn move_outcome(v: MoveVerdict) -> (o: MoveOutcome)
    ensures
        o == move_outcome_spec(v),
{
    match v {
        MoveVerdict::Accepted => MoveOutcome::Publish,
        MoveVerdict::NotMove => MoveOutcome::Action,
        MoveVerdict::SlowTimer | MoveVerdict::FastTimer => MoveOutcome::Kick,
        _ => MoveOutcome::Refuse,
    }
}

/// Speed of the movement envelope: the base speed scaled by the move-speed
/// point (percent).
pub fn envelope_speed(base: u32, mov_speed: u16) -> (s: u32)
    requires
        base * mov_speed <= u32::MAX,
    ensures
        s == base * mov_speed / 100,
{
    base * (mov_speed as u32) / 100
}

/// The reply never carries the chair position, and asking again for the
/// replied position leads to the same posture.
pub proof fn law_posture_reply_never_chair(position: u8)
    ensures
        posture_spec(position) matches Some(t) ==> t.1 != POSITION_SITTING_CHAIR,
        posture_spec(position) matches Some(t) ==> posture_spec(t.1) == Some(t),
{
}

} // verus!
