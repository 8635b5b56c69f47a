//! Emotions of the chat commands (`/kiss`, `/dance1`, ...): the table of
//! emotions with their flags, the consent registry of `/emotion_allow`, and
//! the decision of an emotion (refusals, victim, the packet shown around).

use vstd::prelude::*;
use crate::chat::{gc_chat, gc_chat_spec, in_talking_range, CHAT_TYPE_COMMAND};
use crate::text::{ascii_chars, ascii_lower};
use crate::wire::{decimal, push_all, push_decimal};

verus! {

/// The emotion needs a player as victim.
pub const NEED_PC: u32 = 2;
/// The emotion needs a victim of the other sex.
pub const OTHER_SEX_ONLY: u32 = 8;
/// Number of emotions.
pub const EMOTION_COUNT: usize = 21;

/// Name of emotion `i`, as the client is told.
pub open spec fn emotion_name(i: int) -> Seq<char> {
    if i == 0 { seq!['f', 'r', 'e', 'n', 'c', 'h', '_', 'k', 'i', 's', 's'] }
    else if i == 1 { seq!['k', 'i', 's', 's'] }
    else if i == 2 { seq!['s', 'l', 'a', 'p'] }
    else if i == 3 { seq!['c', 'l', 'a', 'p'] }
    else if i == 4 { seq!['c', 'h', 'e', 'e', 'r', '1'] }
    else if i == 5 { seq!['c', 'h', 'e', 'e', 'r', '2'] }
    else if i == 6 { seq!['d', 'a', 'n', 'c', 'e', '1'] }
    else if i == 7 { seq!['d', 'a', 'n', 'c', 'e', '2'] }
    else if i == 8 { seq!['d', 'a', 'n', 'c', 'e', '3'] }
    else if i == 9 { seq!['d', 'a', 'n', 'c', 'e', '4'] }
    else if i == 10 { seq!['d', 'a', 'n', 'c', 'e', '5'] }
    else if i == 11 { seq!['d', 'a', 'n', 'c', 'e', '6'] }
    else if i == 12 { seq!['c', 'o', 'n', 'g', 'r', 'a', 't', 'u', 'l', 'a', 't', 'i', 'o', 'n'] }
    else if i == 13 { seq!['f', 'o', 'r', 'g', 'i', 'v', 'e'] }
    else if i == 14 { seq!['a', 'n', 'g', 'r', 'y'] }
    else if i == 15 { seq!['a', 't', 't', 'r', 'a', 'c', 't', 'i', 'v', 'e'] }
    else if i == 16 { seq!['s', 'a', 'd'] }
    else if i == 17 { seq!['s', 'h', 'y'] }
    else if i == 18 { seq!['c', 'h', 'e', 'e', 'r', 'u', 'p'] }
    else if i == 19 { seq!['b', 'a', 'n', 't', 'e', 'r'] }
    else { seq!['j', 'o', 'y'] }
}

/// Flags of emotion `i`: the kisses need a player of the other sex, the
/// slap a player, the others nothing.
pub open spec fn emotion_flags_spec(i: int) -> u32 {
    if i == 0 || i == 1 {
        NEED_PC | OTHER_SEX_ONLY
    } else if i == 2 {
        NEED_PC
    } else {
        0
    }
}

/// Equal ignoring ASCII case.
pub open spec fn eq_ignore_case(a: Seq<char>, b: Seq<char>) -> bool {
    a.len() == b.len() && forall|i: int| 0 <= i < a.len() ==> ascii_lower(a[i]) == ascii_lower(b[i])
}

/// The emotion a command word names (ignoring ASCII case).
pub open spec fn find_emotion_spec(name: Seq<char>) -> Option<int> {
    if exists|i: int| 0 <= i < EMOTION_COUNT && eq_ignore_case(emotion_name(i), name) {
        Some(choose|i: int| 0 <= i < EMOTION_COUNT && eq_ignore_case(emotion_name(i), name))
    } else {
        None
    }
}

fn emotion_name_bytes(i: usize) -> (b: &'static [u8])
    requires
        i < EMOTION_COUNT,
    ensures
        ascii_chars(b@) == emotion_name(i as int),
        forall|k: int| 0 <= k < b@.len() ==> b@[k] < 128,
{
    let b: &'static [u8] = if i == 0 { &[102, 114, 101, 110, 99, 104, 95, 107, 105, 115, 115] }
    else if i == 1 { &[107, 105, 115, 115] }
    else if i == 2 { &[115, 108, 97, 112] }
    else if i == 3 { &[99, 108, 97, 112] }
    else if i == 4 { &[99, 104, 101, 101, 114, 49] }
    else if i == 5 { &[99, 104, 101, 101, 114, 50] }
    else if i == 6 { &[100, 97, 110, 99, 101, 49] }
    else if i == 7 { &[100, 97, 110, 99, 101, 50] }
    else if i == 8 { &[100, 97, 110, 99, 101, 51] }
    else if i == 9 { &[100, 97, 110, 99, 101, 52] }
    else if i == 10 { &[100, 97, 110, 99, 101, 53] }
    else if i == 11 { &[100, 97, 110, 99, 101, 54] }
    else if i == 12 { &[99, 111, 110, 103, 114, 97, 116, 117, 108, 97, 116, 105, 111, 110] }
    else if i == 13 { &[102, 111, 114, 103, 105, 118, 101] }
    else if i == 14 { &[97, 110, 103, 114, 121] }
    else if i == 15 { &[97, 116, 116, 114, 97, 99, 116, 105, 118, 101] }
    else if i == 16 { &[115, 97, 100] }
    else if i == 17 { &[115, 104, 121] }
    else if i == 18 { &[99, 104, 101, 101, 114, 117, 112] }
    else if i == 19 { &[98, 97, 110, 116, 101, 114] }
    else { &[106, 111, 121] };
    assert(ascii_chars(b@) =~= emotion_name(i as int));
    b
}

pub fn emotion_flags(i: usize) -> (f: u32)
    requires
        i < EMOTION_COUNT,
    ensures
        f == emotion_flags_spec(i as int),
{
    if i == 0 || i == 1 {
        NEED_PC | OTHER_SEX_ONLY
    } else if i == 2 {
        NEED_PC
    } else {
        0
    }
}

fn lower_char(c: char) -> (r: char)
    ensures
        r == ascii_lower(c),
{
    if 'A' <= c && c <= 'Z' {
        let b = c as u8;
        assert(b as u32 == c as u32);
        (b + 32) as char
    } else {
        c
    }
}

proof fn lemma_names_distinct(i: int, j: int, name: Seq<char>)
    requires
        0 <= i < EMOTION_COUNT,
        0 <= j < EMOTION_COUNT,
        eq_ignore_case(emotion_name(i), name),
        eq_ignore_case(emotion_name(j), name),
    ensures
        i == j,
{
    assert forall|k: int| 0 <= k < name.len() implies ascii_lower(emotion_name(i)[k]) == ascii_lower(emotion_name(j)[k]) by {
        assert(ascii_lower(emotion_name(i)[k]) == ascii_lower(name[k]));
        assert(ascii_lower(emotion_name(j)[k]) == ascii_lower(name[k]));
    }
    if i != j {
        assert(emotion_name(i) != emotion_name(j) || i == j);
        assert(ascii_lower(emotion_name(i)[0]) == ascii_lower(emotion_name(j)[0]));
        assert(ascii_lower(emotion_name(i)[1]) == ascii_lower(emotion_name(j)[1]));
        assert(ascii_lower(emotion_name(i)[2]) == ascii_lower(emotion_name(j)[2]));
        assert(emotion_name(i).len() > 5 ==> ascii_lower(emotion_name(i)[5]) == ascii_lower(emotion_name(j)[5]));
    }
}

/// The emotion a command word names, ignoring ASCII case.
pub fn find_emotion(name: &[char]) -> (r: Option<usize>)
    ensures
        match r {
            Some(i) => find_emotion_spec(name@) == Some(i as int) && i < EMOTION_COUNT,
            None => find_emotion_spec(name@) is None,
        },
{
    let mut i: usize = 0;
    while i < EMOTION_COUNT
        invariant
            i <= EMOTION_COUNT,
            forall|k: int| 0 <= k < i ==> !eq_ignore_case(#[trigger] emotion_name(k), name@),
        decreases EMOTION_COUNT - i,
    {
        let b = emotion_name_bytes(i);
        let mut same = b.len() == name.len();
        if same {
            let mut k: usize = 0;
            while k < b.len()
                invariant
                    b@.len() == name@.len(),
                    ascii_chars(b@) == emotion_name(i as int),
                    forall|q: int| 0 <= q < b@.len() ==> b@[q] < 128,
                    k <= b@.len(),
                    same ==> forall|q: int| 0 <= q < k ==> ascii_lower(emotion_name(i as int)[q]) == ascii_lower(name@[q]),
                    !same ==> !eq_ignore_case(emotion_name(i as int), name@),
                decreases b@.len() - k,
            {
                let x = lower_char(b[k] as char);
                let y = lower_char(name[k]);
                assert(emotion_name(i as int)[k as int] == b@[k as int] as char);
                if x != y {
                    same = false;
                }
                k = k + 1;
            }
        }
        if same {
            proof {
                assert(eq_ignore_case(emotion_name(i as int), name@));
                let w = choose|w: int| 0 <= w < EMOTION_COUNT && eq_ignore_case(emotion_name(w), name@);
                lemma_names_distinct(i as int, w, name@);
            }
            return Some(i);
        }
        i = i + 1;
    }
    None
}

/// The sex of a connected player; not stored yet, so never known.
pub fn sex_of(vid: u32) -> (r: Option<u8>)
    ensures
        r is None,
{
    None
}

/// Whether two players are married; no marriage is stored yet.
pub fn is_married_to(a: u32, b: u32) -> (r: bool)
    ensures
        !r,
{
    false
}

/// Opposite sexes, or a sex not known (allowed).
pub open spec fn other_sex_ok_spec(a: Option<u8>, b: Option<u8>) -> bool {
    match (a, b) {
        (Some(x), Some(y)) => x != y,
        _ => true,
    }
}

pub fn other_sex_ok(a: Option<u8>, b: Option<u8>) -> (r: bool)
    ensures
        r == other_sex_ok_spec(a, b),
{
    match (a, b) {
        (Some(x), Some(y)) => x != y,
        _ => true,
    }
}

/// Consents given with `/emotion_allow`: `(giver, allowed)` pairs.
pub struct EmotionAllows {
    pairs: Vec<(u32, u32)>,
}

impl EmotionAllows {
    pub closed spec fn view(&self) -> Set<(u32, u32)> {
        self.pairs@.to_set()
    }

    pub fn new() -> (r: EmotionAllows)
        ensures
            r.view() == Set::<(u32, u32)>::empty(),
    {
        let r = EmotionAllows { pairs: Vec::new() };
        assert(r.view() =~= Set::<(u32, u32)>::empty());
        r
    }

    pub fn contains(&self, p: (u32, u32)) -> (r: bool)
        ensures
            r == self.view().contains(p),
    {
        let mut i: usize = 0;
        while i < self.pairs.len()
            invariant
                i <= self.pairs@.len(),
                forall|k: int| 0 <= k < i ==> self.pairs@[k] != p,
            decreases self.pairs@.len() - i,
        {
            if self.pairs[i].0 == p.0 && self.pairs[i].1 == p.1 {
                assert(self.pairs@.contains(p));
                return true;
            }
            i = i + 1;
        }
        false
    }

    pub fn insert(&mut self, p: (u32, u32))
        ensures
            final(self).view() == old(self).view().insert(p),
    {
        if self.contains(p) {
            assert(self.view().insert(p) =~= self.view());
            return;
        }
        let ghost before = self.pairs@;
        self.pairs.push(p);
        proof {
            before.lemma_push_to_set_commute(p);
        }
    }
}

/// Why an emotion is refused (each answered by an information line).
#[derive(Debug, Clone, Copy, PartialEq, Eq, Structural)]
pub enum EmotionRefusal {
    Riding,
    NoSuchPerson,
    TooClose,
    TooFar,
    OppositeSexOnly,
    NeedsConsent,
}

impl EmotionRefusal {
    /// The information line of the refusal.
    pub fn message(&self) -> (m: &'static str)
        ensures
            m@ == match *self {
                EmotionRefusal::Riding => "You cannot express emotions while riding."@,
                EmotionRefusal::NoSuchPerson => "There is no such person."@,
                EmotionRefusal::TooClose => "You are too close."@,
                EmotionRefusal::TooFar => "You are too far away."@,
                EmotionRefusal::OppositeSexOnly => "You can only do this with someone of the opposite sex."@,
                EmotionRefusal::NeedsConsent => "This action requires mutual consent."@,
            },
    {
        match self {
            EmotionRefusal::Riding => "You cannot express emotions while riding.",
            EmotionRefusal::NoSuchPerson => "There is no such person.",
            EmotionRefusal::TooClose => "You are too close.",
            EmotionRefusal::TooFar => "You are too far away.",
            EmotionRefusal::OppositeSexOnly => "You can only do this with someone of the opposite sex.",
            EmotionRefusal::NeedsConsent => "This action requires mutual consent.",
        }
    }
}

/// What an emotion does.
#[derive(Debug, Clone, PartialEq, Eq)]
pub enum EmotionPlan {
    Refuse(EmotionRefusal),
    /// The victim is the actor: nothing happens.
    Silent,
    /// Show it: the packet goes to the actor and the players in view.
    Show { victim: u32, packet: Vec<u8> },
}

/// `name actor victim` in decimal.
pub open spec fn emotion_payload(name: Seq<u8>, actor: u32, victim: u32) -> Seq<u8> {
    name + seq![32u8] + decimal(actor as nat) + seq![32u8] + decimal(victim as nat)
}

/// Squared distance between two points.
pub open spec fn dist2(ax: i32, ay: i32, bx: i32, by: i32) -> int {
    (bx - ax) * (bx - ax) + (by - ay) * (by - ay)
}

fn dist2_exec(ax: i32, ay: i32, bx: i32, by: i32) -> (d: i128)
    ensures
        d == dist2(ax, ay, bx, by),
{
    let dx: i128 = bx as i128 - ax as i128;
    let dy: i128 = by as i128 - ay as i128;
    assert(0 <= dx * dx <= 0x1_0000_0000_0000_0000) by (nonlinear_arith)
        requires
            -0x1_0000_0000 <= dx <= 0x1_0000_0000,
    ;
    assert(0 <= dy * dy <= 0x1_0000_0000_0000_0000) by (nonlinear_arith)
        requires
            -0x1_0000_0000 <= dy <= 0x1_0000_0000,
    ;
    dx * dx + dy * dy
}

/// The victim a name resolves to: a connected player on the actor's map
/// within view range; `None` otherwise.
pub open spec fn victim_in_view_spec(found: Option<(u32, i32, i32, i32)>, my_map: i32, my_x: i32, my_y: i32) -> Option<(u32, i32, i32)> {
    match found {
        Some(t) => if t.1 == my_map && in_talking_range(my_x, my_y, t.2, t.3) {
            Some((t.0, t.2, t.3))
        } else {
            None
        },
        None => None,
    }
}

pub fn victim_in_view(found: Option<(u32, i32, i32, i32)>, my_map: i32, my_x: i32, my_y: i32) -> (r: Option<(u32, i32, i32)>)
    ensures
        r == victim_in_view_spec(found, my_map, my_x, my_y),
{
    match found {
        Some(t) => {
            if t.1 == my_map && crate::chat::visible_to(crate::chat::CHAT_TYPE_TALKING, my_map, my_x, my_y, t.1, t.2, t.3) {
                Some((t.0, t.2, t.3))
            } else {
                None
            }
        },
        None => None,
    }
}

impl EmotionAllows {
    /// Decides emotion `e` of the actor `my_vid` at `(my_x, my_y)`; `victim`
    /// is the player its argument names, in view. A player emotion needs
    /// the victim's consent (or a marriage), and records the actor's.
    pub fn plan_emotion(
        &mut self,
        e: usize,
        riding: bool,
        my_vid: u32,
        my_x: i32,
        my_y: i32,
        empire: u8,
        victim: Option<(u32, i32, i32)>,
    ) -> (p: EmotionPlan)
        requires
            e < EMOTION_COUNT,
        ensures
            riding ==> p == EmotionPlan::Refuse(EmotionRefusal::Riding) && final(self).view() == old(self).view(),
            !riding ==> match victim {
                None => if emotion_flags_spec(e as int) & NEED_PC != 0 {
                    p == EmotionPlan::Refuse(EmotionRefusal::NoSuchPerson) && final(self).view() == old(self).view()
                } else {
                    p is Show && final(self).view() == old(self).view()
                },
                Some(v) => if v.0 == my_vid {
                    p == EmotionPlan::Silent && final(self).view() == old(self).view()
                } else if dist2(my_x, my_y, v.1, v.2) < 100 {
                    p == EmotionPlan::Refuse(EmotionRefusal::TooClose) && final(self).view() == old(self).view()
                } else if dist2(my_x, my_y, v.1, v.2) > 250000 {
                    p == EmotionPlan::Refuse(EmotionRefusal::TooFar) && final(self).view() == old(self).view()
                } else if emotion_flags_spec(e as int) & NEED_PC != 0 {
                    if old(self).view().contains((v.0, my_vid)) {
                        p is Show && final(self).view() == old(self).view().insert((my_vid, v.0))
                    } else {
                        p == EmotionPlan::Refuse(EmotionRefusal::NeedsConsent) && final(self).view() == old(self).view()
                    }
                } else {
                    p is Show && final(self).view() == old(self).view()
                },
            },
            p matches EmotionPlan::Show { victim: w, packet } ==> {
                &&& packet@ == gc_chat_spec(CHAT_TYPE_COMMAND, 0, empire, emotion_payload(crate::text::ascii_bytes(emotion_name(e as int)), my_vid, w))
                &&& (victim is None ==> w == 0)
                &&& (victim matches Some(v) ==> w == v.0)
            },
    {
        if riding {
            return EmotionPlan::Refuse(EmotionRefusal::Riding);
        }
        let flags = emotion_flags(e);
        let need_pc = flags & NEED_PC != 0;
        let victim_vid: u32 = match victim {
            None => {
                if need_pc {
                    return EmotionPlan::Refuse(EmotionRefusal::NoSuchPerson);
                }
                0
            },
            Some((vid, vx, vy)) => {
                if vid == my_vid {
                    return EmotionPlan::Silent;
                }
                let d = dist2_exec(my_x, my_y, vx, vy);
                if d < 100 {
                    return EmotionPlan::Refuse(EmotionRefusal::TooClose);
                }
                if d > 250000 {
                    return EmotionPlan::Refuse(EmotionRefusal::TooFar);
                }
                if (flags & OTHER_SEX_ONLY) != 0 && !other_sex_ok(sex_of(my_vid), sex_of(vid)) {
                    return EmotionPlan::Refuse(EmotionRefusal::OppositeSexOnly);
                }
                if need_pc {
                    let allowed = self.contains((vid, my_vid));
                    let married = is_married_to(my_vid, vid);
                    if !allowed && !married {
                        return EmotionPlan::Refuse(EmotionRefusal::NeedsConsent);
                    }
                    self.insert((my_vid, vid));
                }
                vid
            },
        };
        let name = emotion_name_bytes(e);
        let mut payload: Vec<u8> = Vec::new();
        push_all(&mut payload, name);
        payload.push(32u8);
        push_decimal(&mut payload, my_vid as u64);
        payload.push(32u8);
        push_decimal(&mut payload, victim_vid as u64);
        proof {
            crate::text::lemma_ascii_bytes(name@);
            assert(payload@ =~= emotion_payload(crate::text::ascii_bytes(emotion_name(e as int)), my_vid, victim_vid));
            crate::wire::lemma_decimal_len(my_vid as nat);
            crate::wire::lemma_decimal_len(victim_vid as nat);
        }
        let packet = gc_chat(CHAT_TYPE_COMMAND, 0, empire, payload.as_slice());
        EmotionPlan::Show { victim: victim_vid, packet }
    }
}

/// Allowing is remembered: after the victim allowed the actor, the player
/// emotion goes through and records the actor's own consent.
pub proof fn law_consent_is_remembered(allows: Set<(u32, u32)>, giver: u32, allowed: u32)
    ensures
        allows.insert((giver, allowed)).contains((giver, allowed)),
{
}

} // verus!
