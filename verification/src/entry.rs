//! Entry of a player into the channel: the first packet of a connection,
//! the character-select phase (create, delete, empire, rename), the stats
//! of a new character, the empire byte of the account, the listen address
//! and the channel-status reply.

use vstd::prelude::*;
use vstd::string::StringSliceAdditionalSpecFns;
use vstd::utf8::*;
use crate::text::{cstr, cstr_chars, is_ascii_alnum_byte, str_chars_vec, string_from_chars};
use crate::wire::le32;

verus! {

/// Keepalive: time sync.
pub const CG_TIME_SYNC: u8 = 0xfc;
/// Keepalive: pong.
pub const CG_PONG: u8 = 0xfe;
/// Create a character.
pub const CG_CHARACTER_CREATE: u8 = 4;
/// Delete a character.
pub const CG_CHARACTER_DELETE: u8 = 5;
/// Select a character (ends the select phase).
pub const CG_CHARACTER_SELECT: u8 = 6;
/// Choose the empire.
pub const CG_EMPIRE: u8 = 90;
/// Rename a character.
pub const CG_CHANGE_NAME: u8 = 106;
/// Login of the guild-mark connection.
pub const CG_MARK_LOGIN: u8 = 0x64;
/// Mark index list of the guild-mark connection.
pub const CG_MARK_IDXLIST: u8 = 0x68;
/// Channel state check of the server list.
pub const CG_STATE_CHECKER: u8 = 0xce;
/// The login packet of the channel.
pub const CG_LOGIN3: u8 = 111;
/// Enter the game after loading the map.
pub const CG_ENTERGAME: u8 = 10;
/// Client version (ignored).
pub const CG_CLIENT_VERSION2: u8 = 0xf1;
/// Reply to the state check.
pub const GC_RESPOND_CHANNELSTATUS: u8 = 0xd2;
/// Empires are 1..3; a chosen empire must be below this.
pub const EMPIRE_MAX_NUM: u8 = 4;
/// Character slots of an account.
pub const PLAYER_PER_ACCOUNT: u8 = 5;
/// Longest character name.
pub const CHARACTER_NAME_MAX_LEN: usize = 24;
/// Map of a new character.
pub const CREATE_MAP: i32 = 41;
/// Position of a new character (units).
pub const CREATE_X: i32 = 969600;
pub const CREATE_Y: i32 = 278400;

/// What the first packet of a channel connection is.
#[derive(Debug, Clone, Copy, PartialEq, Eq, Structural)]
pub enum FirstPacket {
    /// A keepalive: keep reading.
    Keepalive,
    /// The guild-mark connection: close without answering.
    MarkConnection,
    /// The server list checks the channel: answer the status, then close.
    StateCheck,
    /// The login of a normal connection.
    Login,
    /// Anything else closes the connection.
    Unexpected,
}

pub open spec fn first_packet_spec(h: u8) -> FirstPacket {
    if h == CG_TIME_SYNC || h == CG_PONG {
        FirstPacket::Keepalive
    } else if h == CG_MARK_LOGIN || h == CG_MARK_IDXLIST {
        FirstPacket::MarkConnection
    } else if h == CG_STATE_CHECKER {
        FirstPacket::StateCheck
    } else if h == CG_LOGIN3 {
        FirstPacket::Login
    } else {
        FirstPacket::Unexpected
    }
}

pub fn first_packet(h: u8) -> (k: FirstPacket)
    ensures
        k == first_packet_spec(h),
{
    if h == CG_TIME_SYNC || h == CG_PONG {
        FirstPacket::Keepalive
    } else if h == CG_MARK_LOGIN || h == CG_MARK_IDXLIST {
        FirstPacket::MarkConnection
    } else if h == CG_STATE_CHECKER {
        FirstPacket::StateCheck
    } else if h == CG_LOGIN3 {
        FirstPacket::Login
    } else {
        FirstPacket::Unexpected
    }
}

/// Packets of the select phase.
#[derive(Debug, Clone, Copy, PartialEq, Eq, Structural)]
pub enum SelectKind {
    Keepalive,
    Create,
    Delete,
    Empire,
    ChangeName,
    Select,
    Other,
}

pub open spec fn select_kind_spec(h: u8) -> SelectKind {
    if h == CG_TIME_SYNC || h == CG_PONG {
        SelectKind::Keepalive
    } else if h == CG_CHARACTER_CREATE {
        SelectKind::Create
    } else if h == CG_CHARACTER_DELETE {
        SelectKind::Delete
    } else if h == CG_EMPIRE {
        SelectKind::Empire
    } else if h == CG_CHANGE_NAME {
        SelectKind::ChangeName
    } else if h == CG_CHARACTER_SELECT {
        SelectKind::Select
    } else {
        SelectKind::Other
    }
}

/// Dispatch of the select loop: only unknown headers close.
pub fn select_kind(h: u8) -> (k: SelectKind)
    ensures
        k == select_kind_spec(h),
{
    if h == CG_TIME_SYNC || h == CG_PONG {
        SelectKind::Keepalive
    } else if h == CG_CHARACTER_CREATE {
        SelectKind::Create
    } else if h == CG_CHARACTER_DELETE {
        SelectKind::Delete
    } else if h == CG_EMPIRE {
        SelectKind::Empire
    } else if h == CG_CHANGE_NAME {
        SelectKind::ChangeName
    } else if h == CG_CHARACTER_SELECT {
        SelectKind::Select
    } else {
        SelectKind::Other
    }
}

/// What the loading phase does with a packet.
#[derive(Debug, Clone, Copy, PartialEq, Eq, Structural)]
pub enum LoadingKind {
    /// Keepalives and the client version are skipped.
    Skip,
    /// The client entered the game.
    EnterGame,
    /// Anything else closes.
    Unexpected,
}

pub fn loading_kind(h: u8) -> (k: LoadingKind)
    ensures
        (h == CG_TIME_SYNC || h == CG_PONG || h == CG_CLIENT_VERSION2) ==> k == LoadingKind::Skip,
        h == CG_ENTERGAME ==> k == LoadingKind::EnterGame,
        !(h == CG_TIME_SYNC || h == CG_PONG || h == CG_CLIENT_VERSION2 || h == CG_ENTERGAME)
            ==> k == LoadingKind::Unexpected,
{
    if h == CG_TIME_SYNC || h == CG_PONG || h == CG_CLIENT_VERSION2 {
        LoadingKind::Skip
    } else if h == CG_ENTERGAME {
        LoadingKind::EnterGame
    } else {
        LoadingKind::Unexpected
    }
}

/// The phases of a channel connection, in the order they come.
#[derive(Debug, Clone, Copy, PartialEq, Eq, Structural)]
pub enum ChannelPhase {
    /// Waiting for the first packet (the login).
    Login,
    /// Character select: create, delete, empire, rename, select.
    Select,
    /// The character is loaded; waiting for the client to enter.
    Loading,
    /// In the world: the game loop dispatches every packet.
    Game,
}

/// The place of a phase in the order.
pub open spec fn phase_rank(p: ChannelPhase) -> int {
    match p {
        ChannelPhase::Login => 0,
        ChannelPhase::Select => 1,
        ChannelPhase::Loading => 2,
        ChannelPhase::Game => 3,
    }
}

/// What a packet leads to in a phase.
#[derive(Debug, Clone, Copy, PartialEq, Eq, Structural)]
pub enum PhaseStep {
    /// A keepalive (or an ignored version): keep reading.
    Stay,
    /// The server list checks the channel: answer the status, then close.
    AnswerStatusAndClose,
    /// The login: check it; the select phase follows when it is admitted.
    CheckLogin,
    /// A request of the select phase, answered within it.
    SelectRequest(SelectKind),
    /// A character is selected: load it; the loading phase follows when the
    /// slot holds one.
    LoadCharacter,
    /// The client entered the game.
    EnterGame,
    /// The game loop dispatches the packet.
    Dispatch,
    /// Close the connection (a guild-mark connection, or a packet the phase
    /// does not take).
    Close,
}

pub open spec fn phase_step_spec(phase: ChannelPhase, h: u8) -> PhaseStep {
    match phase {
        ChannelPhase::Login => match first_packet_spec(h) {
            FirstPacket::Keepalive => PhaseStep::Stay,
            FirstPacket::StateCheck => PhaseStep::AnswerStatusAndClose,
            FirstPacket::Login => PhaseStep::CheckLogin,
            _ => PhaseStep::Close,
        },
        ChannelPhase::Select => match select_kind_spec(h) {
            SelectKind::Keepalive => PhaseStep::Stay,
            SelectKind::Select => PhaseStep::LoadCharacter,
            SelectKind::Other => PhaseStep::Close,
            k => PhaseStep::SelectRequest(k),
        },
        ChannelPhase::Loading => if h == CG_TIME_SYNC || h == CG_PONG || h == CG_CLIENT_VERSION2 {
            PhaseStep::Stay
        } else if h == CG_ENTERGAME {
            PhaseStep::EnterGame
        } else {
            PhaseStep::Close
        },
        ChannelPhase::Game => PhaseStep::Dispatch,
    }
}

/// What packet `h` leads to in `phase`.
pub fn phase_step(phase: ChannelPhase, h: u8) -> (s: PhaseStep)
    ensures
        s == phase_step_spec(phase, h),
{
    match phase {
        ChannelPhase::Login => match first_packet(h) {
            FirstPacket::Keepalive => PhaseStep::Stay,
            FirstPacket::StateCheck => PhaseStep::AnswerStatusAndClose,
            FirstPacket::Login => PhaseStep::CheckLogin,
            _ => PhaseStep::Close,
        },
        ChannelPhase::Select => match select_kind(h) {
            SelectKind::Keepalive => PhaseStep::Stay,
            SelectKind::Select => PhaseStep::LoadCharacter,
            SelectKind::Other => PhaseStep::Close,
            k => PhaseStep::SelectRequest(k),
        },
        ChannelPhase::Loading => match loading_kind(h) {
            LoadingKind::Skip => PhaseStep::Stay,
            LoadingKind::EnterGame => PhaseStep::EnterGame,
            LoadingKind::Unexpected => PhaseStep::Close,
        },
        ChannelPhase::Game => PhaseStep::Dispatch,
    }
}

pub open spec fn next_phase_spec(phase: ChannelPhase, step: PhaseStep, ok: bool) -> Option<ChannelPhase> {
    match step {
        PhaseStep::Stay | PhaseStep::SelectRequest(_) | PhaseStep::Dispatch => Some(phase),
        PhaseStep::CheckLogin => if ok { Some(ChannelPhase::Select) } else { None },
        PhaseStep::LoadCharacter => if ok { Some(ChannelPhase::Loading) } else { None },
        PhaseStep::EnterGame => Some(ChannelPhase::Game),
        PhaseStep::AnswerStatusAndClose | PhaseStep::Close => None,
    }
}

/// The phase after `step` was carried out (`None`: the connection closes).
/// `ok` is how the step's own work ended: the login admitted, the selected
/// slot holding a character.
pub fn next_phase(phase: ChannelPhase, step: PhaseStep, ok: bool) -> (r: Option<ChannelPhase>)
    ensures
        r == next_phase_spec(phase, step, ok),
{
    match step {
        PhaseStep::Stay | PhaseStep::SelectRequest(_) | PhaseStep::Dispatch => Some(phase),
        PhaseStep::CheckLogin => if ok { Some(ChannelPhase::Select) } else { None },
        PhaseStep::LoadCharacter => if ok { Some(ChannelPhase::Loading) } else { None },
        PhaseStep::EnterGame => Some(ChannelPhase::Game),
        PhaseStep::AnswerStatusAndClose | PhaseStep::Close => None,
    }
}

/// The phases come in order: a packet never takes a connection back to an
/// earlier phase nor skips one, and once in the game it stays there.
pub proof fn law_phases_in_order(phase: ChannelPhase, h: u8, ok: bool)
    ensures
        next_phase_spec(phase, phase_step_spec(phase, h), ok) matches Some(q) ==> phase_rank(phase) <= phase_rank(q)
            <= phase_rank(phase) + 1,
        phase == ChannelPhase::Game ==> next_phase_spec(phase, phase_step_spec(phase, h), ok) == Some(
            ChannelPhase::Game,
        ),
{
}

/// A valid character name: 2 to 24 bytes, all ASCII letters or digits.
pub open spec fn valid_name_spec(b: Seq<u8>) -> bool {
    2 <= b.len() <= CHARACTER_NAME_MAX_LEN && forall|i: int| 0 <= i < b.len() ==> is_ascii_alnum_byte(b[i])
}

pub fn check_name(name: &str) -> (ok: bool)
    ensures
        ok == valid_name_spec(name.spec_bytes()),
{
    let b = name.as_bytes();
    if b.len() < 2 || b.len() > CHARACTER_NAME_MAX_LEN {
        return false;
    }
    let mut i: usize = 0;
    while i < b.len()
        invariant
            b@ == name.spec_bytes(),
            2 <= b@.len() <= CHARACTER_NAME_MAX_LEN,
            i <= b@.len(),
            forall|k: int| 0 <= k < i ==> is_ascii_alnum_byte(b@[k]),
        decreases b@.len() - i,
    {
        let c = b[i];
        if !((c >= 48 && c <= 57) || (c >= 65 && c <= 90) || (c >= 97 && c <= 122)) {
            assert(!is_ascii_alnum_byte(b@[i as int]));
            return false;
        }
        i = i + 1;
    }
    true
}

/// Race of the client (0..7) to job (0..3); other races are refused.
pub open spec fn race_to_job_spec(race: u16) -> Option<u16> {
    if race < 8 {
        Some((race % 4) as u16)
    } else {
        None
    }
}

pub fn race_to_job(race: u16) -> (j: Option<u16>)
    ensures
        j == race_to_job_spec(race),
{
    if race == 0 || race == 4 {
        Some(0)
    } else if race == 1 || race == 5 {
        Some(1)
    } else if race == 2 || race == 6 {
        Some(2)
    } else if race == 3 || race == 7 {
        Some(3)
    } else {
        None
    }
}

/// `(st, ht, dx, iq, max_hp, max_sp, hp_per_ht, sp_per_iq, max_stamina)` of
/// a job (warrior, assassin, sura; every other job as shaman).
pub open spec fn job_initial_points_spec(job: u16) -> (i16, i16, i16, i16, i32, i32, i32, i32, i16) {
    if job == 0 {
        (6, 4, 3, 3, 600, 200, 40, 20, 800)
    } else if job == 1 {
        (4, 3, 6, 3, 650, 200, 40, 20, 800)
    } else if job == 2 {
        (5, 3, 3, 5, 650, 200, 40, 20, 800)
    } else {
        (3, 4, 3, 6, 700, 200, 40, 20, 800)
    }
}

pub fn job_initial_points(job: u16) -> (p: (i16, i16, i16, i16, i32, i32, i32, i32, i16))
    ensures
        p == job_initial_points_spec(job),
{
    if job == 0 {
        (6, 4, 3, 3, 600, 200, 40, 20, 800)
    } else if job == 1 {
        (4, 3, 6, 3, 650, 200, 40, 20, 800)
    } else if job == 2 {
        (5, 3, 3, 5, 650, 200, 40, 20, 800)
    } else {
        (3, 4, 3, 6, 700, 200, 40, 20, 800)
    }
}

/// The stats a new character is stored with.
#[derive(Debug, Clone, Copy, PartialEq, Eq, Structural)]
pub struct NewCharacterStats {
    pub st: i16,
    pub ht: i16,
    pub dx: i16,
    pub iq: i16,
    pub hp: i32,
    pub mp: i32,
    pub stamina: i16,
}

/// hp = max_hp + ht * hp_per_ht, mp = max_sp + iq * sp_per_iq, stamina =
/// max_stamina.
pub open spec fn new_character_stats_spec(job: u16) -> NewCharacterStats {
    let p = job_initial_points_spec(job);
    NewCharacterStats {
        st: p.0,
        ht: p.1,
        dx: p.2,
        iq: p.3,
        hp: (p.4 + p.1 * p.6) as i32,
        mp: (p.5 + p.3 * p.7) as i32,
        stamina: p.8,
    }
}

pub fn new_character_stats(job: u16) -> (s: NewCharacterStats)
    ensures
        s == new_character_stats_spec(job),
{
    let (st, ht, dx, iq, max_hp, max_sp, hp_per_ht, sp_per_iq, max_stamina) = job_initial_points(job);
    NewCharacterStats {
        st,
        ht,
        dx,
        iq,
        hp: max_hp + (ht as i32) * hp_per_ht,
        mp: max_sp + (iq as i32) * sp_per_iq,
        stamina: max_stamina,
    }
}

/// The first checks of a `CG_CHARACTER_CREATE`, before the store is asked.
#[derive(Debug, Clone, Copy, PartialEq, Eq, Structural)]
pub enum CreateCheck {
    /// Slot out of range: the connection closes.
    Close,
    /// `GC_CHARACTER_CREATE_FAILURE` with this type.
    Fail(u8),
    /// Go on with the store checks, with the job of the race.
    Proceed(u16),
}

pub open spec fn create_check_spec(index: u8, name: Seq<u8>, shape: u8, race: u16, login: Seq<u8>) -> CreateCheck {
    if index >= PLAYER_PER_ACCOUNT {
        CreateCheck::Close
    } else if !valid_name_spec(name) || shape > 1 {
        CreateCheck::Fail(0)
    } else if race_to_job_spec(race) is None {
        CreateCheck::Fail(0)
    } else if login == name {
        CreateCheck::Fail(1)
    } else {
        CreateCheck::Proceed(race_to_job_spec(race).unwrap())
    }
}

/// Create checks in order: slot, name and shape, race, name equal to the
/// account login. (An occupied slot or a taken name fail with type 1 after.)
pub fn create_check(index: u8, name: &str, shape: u8, race: u16, account_login: &str) -> (c: CreateCheck)
    ensures
        c == create_check_spec(index, name.spec_bytes(), shape, race, account_login.spec_bytes()),
{
    if index >= PLAYER_PER_ACCOUNT {
        return CreateCheck::Close;
    }
    if !check_name(name) || shape > 1 {
        return CreateCheck::Fail(0);
    }
    let job = match race_to_job(race) {
        Some(j) => j,
        None => return CreateCheck::Fail(0),
    };
    if crate::text::bytes_eq(account_login.as_bytes(), name.as_bytes()) {
        return CreateCheck::Fail(1);
    }
    CreateCheck::Proceed(job)
}

/// The social-id confirmation of a delete: the last 7 bytes of the social
/// id equal the first 7 bytes of the code.
pub open spec fn social_id_matches(social: Seq<u8>, code: Seq<u8>) -> bool {
    social.len() >= 7 && code.len() >= 7 && code.take(7) == social.skip(social.len() - 7)
}

/// Whether a `CG_CHARACTER_DELETE` may delete the character of the slot:
/// slot in range and holding a character, and the code confirms.
pub fn delete_allowed(index: u8, slot_has_character: bool, social_id: &str, private_code: &[u8]) -> (ok: bool)
    ensures
        ok == (index < PLAYER_PER_ACCOUNT && slot_has_character && social_id_matches(
            social_id.spec_bytes(),
            encode_utf8(cstr_chars(private_code@)),
        )),
{
    if index >= PLAYER_PER_ACCOUNT || !slot_has_character {
        return false;
    }
    let social = social_id.as_bytes();
    let code = cstr(private_code).as_bytes();
    if social.len() < 7 || code.len() < 7 {
        return false;
    }
    let off = social.len() - 7;
    let mut i: usize = 0;
    while i < 7
        invariant
            index < PLAYER_PER_ACCOUNT && slot_has_character,
            social@ == social_id.spec_bytes(),
            code@ == encode_utf8(cstr_chars(private_code@)),
            social@.len() >= 7,
            code@.len() >= 7,
            off == social@.len() - 7,
            off + 7 == social.len(),
            i <= 7,
            forall|k: int| 0 <= k < i ==> code@[k] == social@[off + k],
        decreases 7 - i,
    {
        if code[i] != social[off + i] {
            assert(code@.take(7)[i as int] != social@.skip(off as int)[i as int]);
            return false;
        }
        i = i + 1;
    }
    assert(code@.take(7) =~= social@.skip(off as int));
    true
}

/// What a `CG_EMPIRE` does before the store is asked.
#[derive(Debug, Clone, Copy, PartialEq, Eq, Structural)]
pub enum EmpireCheck {
    /// Empire out of range, or the account already has an empire and
    /// characters: the connection closes.
    Close,
    /// Store the empire and answer `GC_EMPIRE`.
    Proceed,
}

pub open spec fn empire_check_spec(b_empire: u8, account_empire: Option<i16>, has_characters: bool) -> EmpireCheck {
    if b_empire >= EMPIRE_MAX_NUM {
        EmpireCheck::Close
    } else if account_empire matches Some(e) && e > 0 && has_characters {
        EmpireCheck::Close
    } else {
        EmpireCheck::Proceed
    }
}

pub fn empire_check(b_empire: u8, account_empire: Option<i16>, has_characters: bool) -> (c: EmpireCheck)
    ensures
        c == empire_check_spec(b_empire, account_empire, has_characters),
{
    if b_empire >= EMPIRE_MAX_NUM {
        return EmpireCheck::Close;
    }
    match account_empire {
        Some(e) => {
            if e > 0 && has_characters {
                return EmpireCheck::Close;
            }
        },
        None => {},
    }
    EmpireCheck::Proceed
}

/// What a `CG_CHANGE_NAME` does before the store is asked for the name.
#[derive(Debug, Clone, Copy, PartialEq, Eq, Structural)]
pub enum RenameCheck {
    /// Slot out of range or empty: the connection closes.
    Close,
    /// The character may not be renamed: no answer.
    Ignore,
    /// Invalid name: failure of type 0.
    Fail(u8),
    /// Go on: a name taken by another character fails with type 1.
    Proceed,
}

pub open spec fn rename_check_spec(index: u8, slot_has_character: bool, may_rename: bool, name: Seq<u8>) -> RenameCheck {
    if index >= PLAYER_PER_ACCOUNT || !slot_has_character {
        RenameCheck::Close
    } else if !may_rename {
        RenameCheck::Ignore
    } else if !valid_name_spec(name) {
        RenameCheck::Fail(0)
    } else {
        RenameCheck::Proceed
    }
}

pub fn rename_check(index: u8, slot_has_character: bool, may_rename: bool, name: &str) -> (c: RenameCheck)
    ensures
        c == rename_check_spec(index, slot_has_character, may_rename, name.spec_bytes()),
{
    if index >= PLAYER_PER_ACCOUNT || !slot_has_character {
        return RenameCheck::Close;
    }
    if !may_rename {
        return RenameCheck::Ignore;
    }
    if !check_name(name) {
        return RenameCheck::Fail(0);
    }
    RenameCheck::Proceed
}

/// The decimal value of ASCII digits.
pub open spec fn digits_value(d: Seq<u8>) -> nat
    decreases d.len(),
{
    if d.len() == 0 {
        0
    } else {
        digits_value(d.drop_last()) * 10 + (d.last() - 48) as nat
    }
}

pub open spec fn all_digits(d: Seq<char>) -> bool {
    forall|i: int| 0 <= i < d.len() ==> '0' <= #[trigger] d[i] <= '9'
}

/// The value of decimal characters.
pub open spec fn chars_value(d: Seq<char>) -> nat
    decreases d.len(),
{
    if d.len() == 0 {
        0
    } else {
        chars_value(d.drop_last()) * 10 + ((d.last() as u32) - 48) as nat
    }
}

/// `str::parse::<u16>`: an optional `+`, then at least one decimal digit,
/// and a value that fits in 16 bits.
pub open spec fn parse_u16_spec(s: Seq<char>) -> Option<u16> {
    let d = if s.len() > 0 && s[0] == '+' { s.drop_first() } else { s };
    if d.len() > 0 && all_digits(d) && chars_value(d) <= u16::MAX {
        Some(chars_value(d) as u16)
    } else {
        None
    }
}

proof fn lemma_chars_value_grows(d: Seq<char>, k: int)
    requires
        0 <= k <= d.len(),
        all_digits(d),
    ensures
        chars_value(d.take(k)) <= chars_value(d),
    decreases d.len() - k,
{
    if k < d.len() {
        lemma_chars_value_grows(d, k + 1);
        assert(d.take(k + 1).drop_last() =~= d.take(k));
    } else {
        assert(d.take(k) =~= d);
    }
}

/// Decimal text to `u16`, as `str::parse` does it.
pub fn parse_u16(s: &[char]) -> (r: Option<u16>)
    ensures
        r == parse_u16_spec(s@),
{
    let mut start: usize = 0;
    if s.len() > 0 && s[0] == '+' {
        start = 1;
    }
    let ghost d = if s@.len() > 0 && s@[0] == '+' { s@.drop_first() } else { s@ };
    assert(d =~= s@.skip(start as int));
    if start == s.len() {
        return None;
    }
    let mut v: u32 = 0;
    let mut i: usize = start;
    while i < s.len()
        invariant
            start <= i <= s@.len(),
            d == s@.skip(start as int),
            d == (if s@.len() > 0 && s@[0] == '+' { s@.drop_first() } else { s@ }),
            d.len() > 0,
            v as nat == chars_value(d.take(i - start)),
            v <= u16::MAX,
            all_digits(d.take(i - start)),
        decreases s@.len() - i,
    {
        let c = s[i];
        assert(d.take(i - start + 1).drop_last() =~= d.take(i - start));
        assert(d[i - start] == c);
        if !('0' <= c && c <= '9') {
            assert(!('0' <= d[i - start] <= '9'));
            assert(!all_digits(d));
            return None;
        }
        let digit = (c as u32) - 48;
        let nv = v * 10 + digit;
        assert(d.take(i - start + 1).last() == c);
        assert(chars_value(d.take(i - start + 1)) == nv);
        if nv > 65535 {
            proof {
                assert(all_digits(d.take(i - start + 1)));
                if all_digits(d) {
                    lemma_chars_value_grows(d, i - start + 1);
                }
            }
            return None;
        }
        v = nv;
        i = i + 1;
        assert(all_digits(d.take(i - start)));
    }
    assert(d.take(i - start) =~= d);
    Some(v as u16)
}

/// The listen address `addr:port` split at its last colon.
pub open spec fn last_colon(s: Seq<char>) -> Option<int> {
    if exists|i: int| 0 <= i < s.len() && s[i] == ':' {
        Some(choose|i: int| 0 <= i < s.len() && s[i] == ':' && forall|j: int| i < j < s.len() ==> s[j] != ':')
    } else {
        None
    }
}

/// Why a listen address is refused.
#[derive(Debug, Clone, Copy, PartialEq, Eq, Structural)]
pub enum ListenError {
    /// No colon.
    NoPort,
    /// The text after the last colon is not a port.
    BadPort,
}

/// `(address, port)` of `addr:port`.
pub open spec fn parse_listen_spec(s: Seq<char>) -> Result<(Seq<char>, u16), ListenError> {
    match last_colon(s) {
        None => Err(ListenError::NoPort),
        Some(c) => match parse_u16_spec(s.skip(c + 1)) {
            None => Err(ListenError::BadPort),
            Some(p) => Ok((s.take(c), p)),
        },
    }
}

/// Splits the `listen` address of the configuration at its last colon.
pub fn parse_listen(listen: &str) -> (r: Result<(String, u16), ListenError>)
    ensures
        match (r, parse_listen_spec(listen@)) {
            (Ok(a), Ok(b)) => a.0@ == b.0 && a.1 == b.1,
            (Err(a), Err(b)) => a == b,
            _ => false,
        },
{
    let cs = str_chars_vec(listen);
    let mut i: usize = cs.len();
    while i > 0
        invariant
            i <= cs@.len(),
            cs@ == listen@,
            forall|j: int| i <= j < cs@.len() ==> cs@[j] != ':',
        decreases i,
    {
        if cs[i - 1] == ':' {
            let c = i - 1;
            proof {
                assert(exists|k: int| 0 <= k < cs@.len() && cs@[k] == ':');
                let w = choose|k: int| 0 <= k < cs@.len() && cs@[k] == ':' && forall|j: int| k < j < cs@.len() ==> cs@[j] != ':';
                assert(cs@[c as int] == ':' && forall|j: int| c < j < cs@.len() ==> cs@[j] != ':');
                if w < c {
                    assert(cs@[c as int] != ':');
                }
                if w > c {
                    assert(cs@[w] != ':');
                }
                assert(last_colon(listen@) == Some(c as int));
            }
            let head = vstd::slice::slice_subrange(cs.as_slice(), 0, c);
            let tail = vstd::slice::slice_subrange(cs.as_slice(), c + 1, cs.len());
            assert(tail@ =~= listen@.skip(c + 1));
            assert(head@ =~= listen@.take(c as int));
            return match parse_u16(tail) {
                None => Err(ListenError::BadPort),
                Some(p) => Ok((string_from_chars(head), p)),
            };
        }
        i = i - 1;
    }
    assert(!exists|k: int| 0 <= k < cs@.len() && cs@[k] == ':');
    Err(ListenError::NoPort)
}

/// `GC_RESPOND_CHANNELSTATUS`: header, one channel (i32 LE), the port of
/// the listen address (0 when it has none), status (1 open, 0 when no more
/// clients are taken), success byte 1.
pub open spec fn channel_status_spec(port: u16, no_more_clients: bool) -> Seq<u8> {
    seq![GC_RESPOND_CHANNELSTATUS] + le32(1) + seq![(port % 256) as u8, (port / 256) as u8, if no_more_clients {
        0u8
    } else {
        1u8
    }, 1u8]
}

pub open spec fn listen_port(s: Seq<char>) -> u16 {
    match parse_listen_spec(s) {
        Ok(t) => t.1,
        Err(_) => 0,
    }
}

pub fn channel_status_packet(listen: &str, no_more_clients: bool) -> (b: Vec<u8>)
    ensures
        b@ == channel_status_spec(listen_port(listen@), no_more_clients),
{
    let port: u16 = match parse_listen(listen) {
        Ok(t) => t.1,
        Err(_) => 0,
    };
    let mut out: Vec<u8> = Vec::new();
    out.push(GC_RESPOND_CHANNELSTATUS);
    crate::wire::push_u32(&mut out, 1);
    crate::wire::push_u16(&mut out, port);
    out.push(if no_more_clients { 0u8 } else { 1u8 });
    out.push(1u8);
    assert(out@ =~= channel_status_spec(port, no_more_clients));
    out
}

/// The empire byte of `GC_EMPIRE`: the account's empire when it is 1..3,
/// otherwise `random % 3 + 1`.
pub open spec fn empire_byte_spec(empire: Option<i16>, random: u32) -> u8 {
    match empire {
        Some(e) if 1 <= e <= 3 => e as u8,
        _ => (random % 3 + 1) as u8,
    }
}

pub fn empire_byte(empire: Option<i16>, random: u32) -> (b: u8)
    ensures
        b == empire_byte_spec(empire, random),
        1 <= b <= 3,
{
    match empire {
        Some(e) => {
            if 1 <= e && e <= 3 {
                return e as u8;
            }
        },
        None => {},
    }
    (random % 3) as u8 + 1
}

/// The empire byte drawn with a random value from `rng`.
pub fn random_empire_byte(rng: &mut crate::random::RandomSource, empire: Option<i16>) -> (b: u8)
    ensures
        1 <= b <= 3,
        exists|r: u32| b == empire_byte_spec(empire, r),
{
    let r = rng.rand32();
    empire_byte(empire, r)
}

/// The empire byte never falls outside 1..3, whatever the account holds.
pub proof fn law_empire_byte_in_range(empire: Option<i16>, random: u32)
    ensures
        1 <= empire_byte_spec(empire, random) <= 3,
{
}

/// Every race of the client maps to one of the four jobs, and the male and
/// female races of a class share it.
pub proof fn law_race_pairs_share_job(race: u16)
    requires
        race < 4,
    ensures
        race_to_job_spec(race) == race_to_job_spec((race + 4) as u16),
        race_to_job_spec(race) == Some(race),
{
}

} // verus!
