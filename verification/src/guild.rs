//! Guild requests (`CG_GUILD`): the subheader dispatch, the name of a new
//! guild, and who may invite and join, decided over the members of the
//! guilds of the process; the chat lines each answer carries.

use vstd::prelude::*;
use crate::text::{cstr_bytes, first_nul, string_from_utf8_lossy, utf8_lossy};

verus! {

/// Header and subheader of `CG_GUILD`.
pub const CG_GUILD_FIXED: usize = 2;
/// A create request: the fixed part and a 13-byte name.
pub const CG_GUILD_CREATE_TOTAL: usize = 15;
/// An invite: the fixed part and the vid of the invited player.
pub const CG_GUILD_ADD_MEMBER_TOTAL: usize = 6;
/// An invite answer: the fixed part, the guild id and the accept byte.
pub const CG_GUILD_INVITE_ANSWER_TOTAL: usize = 7;
pub const SUB_CG_GUILD_ADD_MEMBER: u8 = 0;
pub const SUB_CG_GUILD_CREATE: u8 = 1;
pub const SUB_CG_GUILD_INVITE_ANSWER: u8 = 11;

/// A guild as the rules read it: its id and the player ids of its members.
#[derive(Debug, Clone)]
pub struct GuildMembers {
    pub id: i64,
    pub members: Vec<i64>,
}

/// What a `CG_GUILD` asks.
#[derive(Debug, Clone, PartialEq, Eq)]
pub enum GuildRequest {
    /// Shorter than its fixed part, or than its own layout.
    Ignore,
    /// Create a guild of this name.
    Create(String),
    /// Invite the player of this vid.
    Invite(u32),
    /// Answer the invitation of a guild: its id and whether it is accepted.
    Answer(i64, bool),
    /// A subheader without a handler: logged, the connection goes on.
    Unknown(u8),
}

pub open spec fn le32_at(pkt: Seq<u8>, o: int) -> u32 {
    (pkt[o] + pkt[o + 1] * 256 + pkt[o + 2] * 65536 + pkt[o + 3] * 16777216) as u32
}

/// The name of a create request: the 13 bytes after the fixed part (fewer
/// when the packet is shorter), cut at the first NUL, decoded lossily.
pub open spec fn guild_name_spec(pkt: Seq<u8>) -> Seq<char> {
    let end = if pkt.len() < CG_GUILD_CREATE_TOTAL { pkt.len() as int } else { CG_GUILD_CREATE_TOTAL as int };
    utf8_lossy(cstr_bytes(pkt.subrange(CG_GUILD_FIXED as int, end)))
}

fn guild_name(pkt: &[u8]) -> (s: String)
    requires
        pkt@.len() >= CG_GUILD_FIXED,
    ensures
        s@ == guild_name_spec(pkt@),
{
    let end = if pkt.len() < CG_GUILD_CREATE_TOTAL { pkt.len() } else { CG_GUILD_CREATE_TOTAL };
    let raw = vstd::slice::slice_subrange(pkt, CG_GUILD_FIXED, end);
    let n = first_nul(raw);
    let name = vstd::slice::slice_subrange(raw, 0, n);
    assert(name@ == cstr_bytes(raw@));
    string_from_utf8_lossy(name)
}

fn read_le32(pkt: &[u8], o: usize) -> (v: u32)
    requires
        o + 4 <= pkt@.len(),
    ensures
        v == le32_at(pkt@, o as int),
{
    pkt[o] as u32 + pkt[o + 1] as u32 * 256 + pkt[o + 2] as u32 * 65536 + pkt[o + 3] as u32 * 16777216
}

/// Reads a `CG_GUILD` packet.
pub fn parse_guild_request(pkt: &[u8]) -> (r: GuildRequest)
    ensures
        pkt@.len() < CG_GUILD_FIXED ==> r == GuildRequest::Ignore,
        pkt@.len() >= CG_GUILD_FIXED ==> {
            if pkt@[1] == SUB_CG_GUILD_CREATE {
                r matches GuildRequest::Create(n) && n@ == guild_name_spec(pkt@)
            } else if pkt@[1] == SUB_CG_GUILD_ADD_MEMBER {
                if pkt@.len() < CG_GUILD_ADD_MEMBER_TOTAL {
                    r == GuildRequest::Ignore
                } else {
                    r == GuildRequest::Invite(le32_at(pkt@, 2))
                }
            } else if pkt@[1] == SUB_CG_GUILD_INVITE_ANSWER {
                if pkt@.len() < CG_GUILD_INVITE_ANSWER_TOTAL {
                    r == GuildRequest::Ignore
                } else {
                    r == GuildRequest::Answer(le32_at(pkt@, 2) as i64, pkt@[6] != 0)
                }
            } else {
                r == GuildRequest::Unknown(pkt@[1])
            }
        },
{
    if pkt.len() < CG_GUILD_FIXED {
        return GuildRequest::Ignore;
    }
    let sub = pkt[1];
    if sub == SUB_CG_GUILD_CREATE {
        GuildRequest::Create(guild_name(pkt))
    } else if sub == SUB_CG_GUILD_ADD_MEMBER {
        if pkt.len() < CG_GUILD_ADD_MEMBER_TOTAL {
            GuildRequest::Ignore
        } else {
            GuildRequest::Invite(read_le32(pkt, 2))
        }
    } else if sub == SUB_CG_GUILD_INVITE_ANSWER {
        if pkt.len() < CG_GUILD_INVITE_ANSWER_TOTAL {
            GuildRequest::Ignore
        } else {
            GuildRequest::Answer(read_le32(pkt, 2) as i64, pkt[6] != 0)
        }
    } else {
        GuildRequest::Unknown(sub)
    }
}

/// Whether player `p` belongs to guild `g`.
pub open spec fn is_member_spec(g: GuildMembers, p: i64) -> bool {
    g.members@.contains(p)
}

/// Whether player `p` belongs to any guild.
pub open spec fn in_any_guild(gs: Seq<GuildMembers>, p: i64) -> bool {
    exists|i: int| 0 <= i < gs.len() && is_member_spec(#[trigger] gs[i], p)
}

/// The first guild (by index) that satisfies `f`.
pub open spec fn is_first_where(gs: Seq<GuildMembers>, i: int, f: spec_fn(GuildMembers) -> bool) -> bool {
    &&& 0 <= i < gs.len()
    &&& f(gs[i])
    &&& forall|j: int| 0 <= j < i ==> !f(#[trigger] gs[j])
}

fn is_member(g: &GuildMembers, p: i64) -> (r: bool)
    ensures
        r == is_member_spec(*g, p),
{
    let mut k: usize = 0;
    while k < g.members.len()
        invariant
            k <= g.members@.len(),
            forall|j: int| 0 <= j < k ==> g.members@[j] != p,
        decreases g.members@.len() - k,
    {
        if g.members[k] == p {
            assert(g.members@[k as int] == p);
            return true;
        }
        k = k + 1;
    }
    false
}

/// The first guild of which `p` is a member.
pub fn guild_of(gs: &[GuildMembers], p: i64) -> (r: Option<usize>)
    ensures
        r matches Some(i) ==> is_first_where(gs@, i as int, |g: GuildMembers| is_member_spec(g, p)),
        r is None ==> !in_any_guild(gs@, p),
{
    let mut i: usize = 0;
    while i < gs.len()
        invariant
            i <= gs@.len(),
            forall|j: int| 0 <= j < i ==> !is_member_spec(#[trigger] gs@[j], p),
        decreases gs@.len() - i,
    {
        if is_member(&gs[i], p) {
            return Some(i);
        }
        i = i + 1;
    }
    None
}

/// The first guild with id `gid`.
pub fn guild_by_id(gs: &[GuildMembers], gid: i64) -> (r: Option<usize>)
    ensures
        r matches Some(i) ==> is_first_where(gs@, i as int, |g: GuildMembers| g.id == gid),
        r is None ==> forall|j: int| 0 <= j < gs@.len() ==> #[trigger] gs@[j].id != gid,
{
    let mut i: usize = 0;
    while i < gs.len()
        invariant
            i <= gs@.len(),
            forall|j: int| 0 <= j < i ==> #[trigger] gs@[j].id != gid,
        decreases gs@.len() - i,
    {
        if gs[i].id == gid {
            return Some(i);
        }
        i = i + 1;
    }
    None
}

/// What an invitation leads to.
#[derive(Debug, Clone, Copy, PartialEq, Eq)]
pub enum InvitePlan {
    /// The invited vid is not connected.
    PlayerNotFound,
    /// The invited player already belongs to a guild.
    AlreadyInGuild,
    /// The inviter belongs to no guild.
    NotInGuild,
    /// The guild at this index invites the player.
    Invite(usize),
}

/// An invitation of `target` by `inviter`: an offline target is not found;
/// a target in any guild cannot be invited; otherwise the inviter's first
/// guild invites, and an inviter without a guild is told so.
pub fn plan_invite(gs: &[GuildMembers], inviter: u32, target: u32, target_online: bool) -> (p: InvitePlan)
    ensures
        !target_online ==> p == InvitePlan::PlayerNotFound,
        target_online && in_any_guild(gs@, target as i64) ==> p == InvitePlan::AlreadyInGuild,
        target_online && !in_any_guild(gs@, target as i64) ==> match p {
            InvitePlan::Invite(i) => is_first_where(gs@, i as int, |g: GuildMembers| is_member_spec(g, inviter as i64)),
            InvitePlan::NotInGuild => !in_any_guild(gs@, inviter as i64),
            _ => false,
        },
{
    if !target_online {
        return InvitePlan::PlayerNotFound;
    }
    if guild_of(gs, target as i64).is_some() {
        return InvitePlan::AlreadyInGuild;
    }
    match guild_of(gs, inviter as i64) {
        None => InvitePlan::NotInGuild,
        Some(i) => InvitePlan::Invite(i),
    }
}

/// What an answer to an invitation leads to. In every case but the first
/// the pending invitation of the guild is consumed.
#[derive(Debug, Clone, Copy, PartialEq, Eq)]
pub enum AnswerPlan {
    /// No guild has that id: nothing happens.
    UnknownGuild,
    /// Declined: silence.
    Declined(usize),
    /// Accepted by a player who already belongs to a guild: refused.
    AlreadyInGuild(usize),
    /// Accepted: the guild adds the player if its invitation stands.
    Join(usize),
}

/// The answer of `player` to the invitation of guild `gid`.
pub fn plan_invite_answer(gs: &[GuildMembers], gid: i64, accept: bool, player: u32) -> (p: AnswerPlan)
    ensures
        (forall|j: int| 0 <= j < gs@.len() ==> #[trigger] gs@[j].id != gid) <==> p == AnswerPlan::UnknownGuild,
        p matches AnswerPlan::Declined(i) ==> !accept && is_first_where(gs@, i as int, |g: GuildMembers| g.id == gid),
        p matches AnswerPlan::AlreadyInGuild(i) ==> accept && in_any_guild(gs@, player as i64) && is_first_where(
            gs@,
            i as int,
            |g: GuildMembers| g.id == gid,
        ),
        p matches AnswerPlan::Join(i) ==> accept && !in_any_guild(gs@, player as i64) && is_first_where(
            gs@,
            i as int,
            |g: GuildMembers| g.id == gid,
        ),
{
    let already = guild_of(gs, player as i64).is_some();
    let i = match guild_by_id(gs, gid) {
        None => return AnswerPlan::UnknownGuild,
        Some(i) => i,
    };
    if accept {
        if already {
            AnswerPlan::AlreadyInGuild(i)
        } else {
            AnswerPlan::Join(i)
        }
    } else {
        AnswerPlan::Declined(i)
    }
}

/// The chat line of an invitation that is refused.
pub fn invite_error_text(p: InvitePlan) -> (t: Option<&'static str>)
    ensures
        match p {
            InvitePlan::PlayerNotFound => t matches Some(m) && m@ == "<Guild> Cannot find the player."@,
            InvitePlan::AlreadyInGuild => t matches Some(m) && m@ == "<Guild> The player is already in a guild."@,
            InvitePlan::NotInGuild => t matches Some(m) && m@ == "<Guild> You are not in a guild."@,
            InvitePlan::Invite(_) => t is None,
        },
{
    match p {
        InvitePlan::PlayerNotFound => Some("<Guild> Cannot find the player."),
        InvitePlan::AlreadyInGuild => Some("<Guild> The player is already in a guild."),
        InvitePlan::NotInGuild => Some("<Guild> You are not in a guild."),
        InvitePlan::Invite(_) => None,
    }
}

/// The chat line of an answer: joining and the refusal speak, the others
/// are silent. `joined` is whether the guild took the player in.
pub fn answer_text(p: AnswerPlan, joined: bool) -> (t: Option<&'static str>)
    ensures
        match p {
            AnswerPlan::AlreadyInGuild(_) => t matches Some(m) && m@ == "<Guild> The player is already in a guild."@,
            AnswerPlan::Join(_) => if joined {
                t matches Some(m) && m@ == "<Guild> You have joined the guild."@
            } else {
                t is None
            },
            _ => t is None,
        },
{
    match p {
        AnswerPlan::AlreadyInGuild(_) => Some("<Guild> The player is already in a guild."),
        AnswerPlan::Join(_) => if joined {
            Some("<Guild> You have joined the guild.")
        } else {
            None
        },
        _ => None,
    }
}

/// How a guild creation ended.
#[derive(Debug, Clone, Copy, PartialEq, Eq)]
pub enum CreateResult {
    Created,
    DuplicateName,
    InvalidName,
}

/// The chat line of a creation that failed (the success line names the
/// guild).
pub fn create_error_text(r: CreateResult) -> (t: Option<&'static str>)
    ensures
        match r {
            CreateResult::Created => t is None,
            CreateResult::DuplicateName => t matches Some(m) && m@ == "<Guild> A guild with that name already exists."@,
            CreateResult::InvalidName => t matches Some(m) && m@ == "<Guild> The guild name is invalid."@,
        },
{
    match r {
        CreateResult::Created => None,
        CreateResult::DuplicateName => Some("<Guild> A guild with that name already exists."),
        CreateResult::InvalidName => Some("<Guild> The guild name is invalid."),
    }
}

} // verus!
