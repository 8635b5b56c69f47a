//! The friend list (messenger): the `CG_MESSENGER` request, the pending
//! friend requests, the `/messenger_auth` answer and the staff rule.

use vstd::prelude::*;
use vstd::string::StringSliceAdditionalSpecFns;
use crate::command::{split_command_spec, trim_chars};
use crate::text::{
    ascii_lower, cstr_bytes, first_nul, str_chars_vec, str_to_ascii_lowercase, string_from_chars,
    string_from_utf8_lossy, trim_seq, utf8_lossy,
};

verus! {

/// Header and subheader of `CG_MESSENGER`.
pub const CG_MESSENGER_FIXED: usize = 2;
/// A name request: the fixed part and a 24-byte name.
pub const CG_MESSENGER_NAME_TOTAL: usize = 26;
/// An add-by-vid request: the fixed part and a vid.
pub const CG_MESSENGER_ADD_BY_VID_TOTAL: usize = 6;
pub const SUB_CG_ADD_BY_VID: u8 = 0;
pub const SUB_CG_ADD_BY_NAME: u8 = 1;
pub const SUB_CG_REMOVE: u8 = 2;

/// What a `CG_MESSENGER` asks.
#[derive(Debug, Clone, PartialEq, Eq)]
pub enum MessengerRequest {
    /// Shorter than its fixed part (or an add-by-vid without its vid).
    Ignore,
    AddByVid(u32),
    AddByName(String),
    Remove(String),
    /// An unknown subheader: logged, the connection goes on.
    Unknown(u8),
}

/// The name of a name request: the bytes after the fixed part (at most
/// 24), cut at the first NUL, decoded lossily.
pub open spec fn name_at_spec(pkt: Seq<u8>) -> Seq<char> {
    let end = if pkt.len() < CG_MESSENGER_NAME_TOTAL { pkt.len() as int } else { CG_MESSENGER_NAME_TOTAL as int };
    utf8_lossy(cstr_bytes(pkt.subrange(CG_MESSENGER_FIXED as int, end)))
}

pub fn name_at(pkt: &[u8]) -> (s: String)
    requires
        pkt@.len() >= CG_MESSENGER_FIXED,
    ensures
        s@ == name_at_spec(pkt@),
{
    let end = if pkt.len() < CG_MESSENGER_NAME_TOTAL { pkt.len() } else { CG_MESSENGER_NAME_TOTAL };
    let raw = vstd::slice::slice_subrange(pkt, CG_MESSENGER_FIXED, end);
    let n = first_nul(raw);
    let name = vstd::slice::slice_subrange(raw, 0, n);
    assert(name@ == cstr_bytes(raw@));
    string_from_utf8_lossy(name)
}

pub fn parse_request(pkt: &[u8]) -> (r: MessengerRequest)
    ensures
        pkt@.len() < CG_MESSENGER_FIXED ==> r == MessengerRequest::Ignore,
        pkt@.len() >= CG_MESSENGER_FIXED ==> {
            if pkt@[1] == SUB_CG_ADD_BY_VID {
                if pkt@.len() < CG_MESSENGER_ADD_BY_VID_TOTAL {
                    r == MessengerRequest::Ignore
                } else {
                    r == MessengerRequest::AddByVid(crate::land::rd32_spec(pkt@, 2) as u32)
                }
            } else if pkt@[1] == SUB_CG_ADD_BY_NAME {
                r matches MessengerRequest::AddByName(n) && n@ == name_at_spec(pkt@)
            } else if pkt@[1] == SUB_CG_REMOVE {
                r matches MessengerRequest::Remove(n) && n@ == name_at_spec(pkt@)
            } else {
                r == MessengerRequest::Unknown(pkt@[1])
            }
        },
{
    if pkt.len() < CG_MESSENGER_FIXED {
        return MessengerRequest::Ignore;
    }
    let sub = pkt[1];
    if sub == SUB_CG_ADD_BY_VID {
        if pkt.len() < CG_MESSENGER_ADD_BY_VID_TOTAL {
            return MessengerRequest::Ignore;
        }
        return MessengerRequest::AddByVid(crate::land::rd32(pkt, 2) as u32);
    }
    if sub == SUB_CG_ADD_BY_NAME {
        return MessengerRequest::AddByName(name_at(pkt));
    }
    if sub == SUB_CG_REMOVE {
        return MessengerRequest::Remove(name_at(pkt));
    }
    MessengerRequest::Unknown(sub)
}

/// ASCII lowercase of a name.
pub open spec fn lower(s: Seq<char>) -> Seq<char> {
    s.map_values(|c: char| ascii_lower(c))
}

/// Friend requests waiting for an answer: `(inviter, invited)`, both
/// lowercased.
pub struct MessengerRequests {
    pairs: Vec<(String, String)>,
}

impl MessengerRequests {
    pub closed spec fn view(&self) -> Set<(Seq<char>, Seq<char>)> {
        self.pairs@.map_values(|p: (String, String)| (p.0@, p.1@)).to_set()
    }

    /// No request is held twice.
    pub closed spec fn wf(&self) -> bool {
        self.pairs@.map_values(|p: (String, String)| (p.0@, p.1@)).no_duplicates()
    }

    pub fn new() -> (r: MessengerRequests)
        ensures
            r.wf(),
            r.view() == Set::<(Seq<char>, Seq<char>)>::empty(),
    {
        let r = MessengerRequests { pairs: Vec::new() };
        assert(r.view() =~= Set::<(Seq<char>, Seq<char>)>::empty());
        r
    }

    fn position(&self, a: &str, b: &str) -> (r: Option<usize>)
        ensures
            r is Some <==> self.view().contains((a@, b@)),
            r matches Some(i) ==> i < self.pairs@.len() && self.pairs@[i as int].0@ == a@ && self.pairs@[i as int].1@ == b@,
    {
        let ghost m = self.pairs@.map_values(|p: (String, String)| (p.0@, p.1@));
        let mut i: usize = 0;
        while i < self.pairs.len()
            invariant
                i <= self.pairs@.len(),
                m == self.pairs@.map_values(|p: (String, String)| (p.0@, p.1@)),
                forall|k: int| 0 <= k < i ==> #[trigger] m[k] != (a@, b@),
            decreases self.pairs@.len() - i,
        {
            let same_a = crate::text::bytes_eq(self.pairs[i].0.as_str().as_bytes(), a.as_bytes());
            let same_b = crate::text::bytes_eq(self.pairs[i].1.as_str().as_bytes(), b.as_bytes());
            proof {
                vstd::utf8::encode_utf8_decode_utf8(self.pairs@[i as int].0@);
                vstd::utf8::encode_utf8_decode_utf8(a@);
                vstd::utf8::encode_utf8_decode_utf8(self.pairs@[i as int].1@);
                vstd::utf8::encode_utf8_decode_utf8(b@);
            }
            if same_a && same_b {
                assert(m[i as int] == (a@, b@));
                assert(m.contains((a@, b@)));
                return Some(i);
            }
            i = i + 1;
        }
        proof {
            if self.view().contains((a@, b@)) {
                let k = choose|k: int| 0 <= k < m.len() && m[k] == (a@, b@);
                assert(m[k] != (a@, b@));
            }
        }
        None
    }

    /// Records that `inviter` asked `companion` (names lowercased).
    pub fn request(&mut self, inviter: &str, companion: &str)
        requires
            old(self).wf(),
        ensures
            final(self).wf(),
            final(self).view() == old(self).view().insert((lower(inviter@), lower(companion@))),
    {
        let a = str_to_ascii_lowercase(inviter);
        let b = str_to_ascii_lowercase(companion);
        if self.position(a.as_str(), b.as_str()).is_some() {
            assert(self.view().insert((lower(inviter@), lower(companion@))) =~= self.view());
            return;
        }
        let ghost before = self.pairs@;
        let ghost key = (a@, b@);
        self.pairs.push((a, b));
        proof {
            let m0 = before.map_values(|p: (String, String)| (p.0@, p.1@));
            let m1 = self.pairs@.map_values(|p: (String, String)| (p.0@, p.1@));
            assert(m1 =~= m0.push(key));
            m0.lemma_push_to_set_commute(key);
            assert(key == (lower(inviter@), lower(companion@)));
            assert(!m0.contains(key));
            assert forall|x: int, y: int| 0 <= x < y < m1.len() implies m1[x] != m1[y] by {
                if y == m0.len() {
                    assert(m0.contains(m1[x]));
                } else {
                    assert(m0[x] != m0[y]);
                }
            }
        }
    }

    /// Takes the request of `inviter` to `accepter` (names lowercased):
    /// `true` when there was one, which is now gone.
    pub fn take(&mut self, inviter: &str, accepter: &str) -> (found: bool)
        requires
            old(self).wf(),
        ensures
            final(self).wf(),
            found == old(self).view().contains((lower(inviter@), lower(accepter@))),
            final(self).view() == old(self).view().remove((lower(inviter@), lower(accepter@))),
    {
        let a = str_to_ascii_lowercase(inviter);
        let b = str_to_ascii_lowercase(accepter);
        let ghost key = (a@, b@);
        match self.position(a.as_str(), b.as_str()) {
            None => {
                assert(self.view().remove(key) =~= self.view());
                false
            },
            Some(i) => {
                let ghost before = self.pairs@;
                self.pairs.remove(i);
                proof {
                    let m0 = before.map_values(|p: (String, String)| (p.0@, p.1@));
                    let m1 = self.pairs@.map_values(|p: (String, String)| (p.0@, p.1@));
                    assert(m1 =~= m0.remove(i as int));
                    assert forall|x: (Seq<char>, Seq<char>)| #[trigger] m1.to_set().contains(x) <==> m0.to_set().remove(key).contains(x) by {
                        if m1.contains(x) {
                            let k = choose|k: int| 0 <= k < m1.len() && m1[k] == x;
                            let k0 = if k < i { k } else { k + 1 };
                            assert(m0[k0] == x);
                            assert(k0 != i);
                            if x == key {
                                assert(m0[i as int] == key);
                                assert(m0[k0] != m0[i as int]);
                            }
                        }
                        if m0.contains(x) && x != key {
                            let k = choose|k: int| 0 <= k < m0.len() && m0[k] == x;
                            assert(k != i);
                            let k1 = if k < i { k } else { k - 1 };
                            assert(m1[k1] == x);
                        }
                    }
                    assert(m1.to_set() =~= m0.to_set().remove(key));
                    assert forall|x: int, y: int| 0 <= x < y < m1.len() implies m1[x] != m1[y] by {
                        let x0 = if x < i { x } else { x + 1 };
                        let y0 = if y < i { y } else { y + 1 };
                        assert(m0[x0] != m0[y0]);
                    }
                }
                true
            },
        }
    }
}

/// The answer of `/messenger_auth <y|n> <inviter>`.
#[derive(Debug, Clone, PartialEq, Eq)]
pub enum MessengerAuth {
    /// The answer or the inviter is missing: nothing happens.
    Incomplete,
    /// `denied` unless the answer starts with `y`.
    Answer { denied: bool, inviter: String },
}


/// `messenger_auth` followed by nothing, or by a blank and the rest.
pub open spec fn auth_rest(cmd: Seq<char>) -> Option<Seq<char>> {
    let p = seq!['m', 'e', 's', 's', 'e', 'n', 'g', 'e', 'r', '_', 'a', 'u', 't', 'h'];
    if cmd.len() >= p.len() && cmd.take(p.len() as int) == p {
        let r = cmd.skip(p.len() as int);
        if r.len() == 0 || r[0] == ' ' || r[0] == '\t' {
            Some(trim_seq(r))
        } else {
            None
        }
    } else {
        None
    }
}

/// The answer of a command text (`None` when it is not `messenger_auth`).
pub open spec fn messenger_auth_spec(cmd: Seq<char>) -> Option<(bool, bool, Seq<char>)> {
    match auth_rest(cmd) {
        None => None,
        Some(rest) => {
            let parts = split_command_spec(rest);
            let answer = parts.0;
            let inviter = parts.1;
            if answer.len() == 0 || inviter.len() == 0 {
                Some((false, false, Seq::empty()))
            } else {
                Some((true, answer[0] != 'y', inviter))
            }
        },
    }
}

/// Parses `/messenger_auth <answer> <inviter>` (without the slash).
pub fn parse_messenger_auth(cmd: &str) -> (r: Option<MessengerAuth>)
    ensures
        match messenger_auth_spec(cmd@) {
            None => r is None,
            Some(t) => if !t.0 {
                r == Some(MessengerAuth::Incomplete)
            } else {
                r matches Some(MessengerAuth::Answer { denied, inviter }) && denied == t.1 && inviter@ == t.2
            },
        },
{
    let c = str_chars_vec(cmd);
    let p: [char; 14] = ['m', 'e', 's', 's', 'e', 'n', 'g', 'e', 'r', '_', 'a', 'u', 't', 'h'];
    let ghost ps = seq!['m', 'e', 's', 's', 'e', 'n', 'g', 'e', 'r', '_', 'a', 'u', 't', 'h'];
    assert(p@ =~= ps);
    assert(ps.len() == 14);
    if c.len() < 14 {
        assert(auth_rest(cmd@) is None);
        assert(messenger_auth_spec(cmd@) is None);
        return None;
    }
    let mut i: usize = 0;
    while i < 14
        invariant
            c@ == cmd@,
            c@.len() >= 14,
            p@ == ps,
            ps == seq!['m', 'e', 's', 's', 'e', 'n', 'g', 'e', 'r', '_', 'a', 'u', 't', 'h'],
            ps.len() == 14,
            i <= 14,
            forall|k: int| 0 <= k < i ==> c@[k] == ps[k],
        decreases 14 - i,
    {
        if c[i] != p[i] {
            assert(c@.take(14)[i as int] != ps[i as int]);
            assert(c@.take(14) != ps);
            assert(auth_rest(cmd@) is None);
            return None;
        }
        i = i + 1;
    }
    assert(c@.take(14) =~= ps);
    let r = vstd::slice::slice_subrange(c.as_slice(), 14, c.len());
    assert(r@ =~= cmd@.skip(14));
    if r.len() > 0 && r[0] != ' ' && r[0] != '\t' {
        return None;
    }
    let rest = trim_chars(r);
    let (answer, inviter) = crate::command::split_command(rest.as_slice());
    proof {
        crate::command::lemma_trim_start_idempotent(rest@);
    }
    if answer.len() == 0 || inviter.len() == 0 {
        return Some(MessengerAuth::Incomplete);
    }
    let denied = answer[0] != 'y';
    Some(MessengerAuth::Answer { denied, inviter: string_from_chars(inviter.as_slice()) })
}

/// A player (no GM level) may not add a staff member; a GM may add anyone.
pub fn staff_check(my_level_is_player: bool, target_level_is_player: bool) -> (ok: bool)
    ensures
        ok == (!my_level_is_player || target_level_is_player),
{
    !my_level_is_player || target_level_is_player
}

/// A request is answered once: after `request(a, b)`, `take(a, b)` finds it
/// and a second `take` does not.
pub proof fn law_request_then_take(pending: Set<(Seq<char>, Seq<char>)>, a: Seq<char>, b: Seq<char>)
    ensures
        pending.insert((lower(a), lower(b))).contains((lower(a), lower(b))),
        !pending.insert((lower(a), lower(b))).remove((lower(a), lower(b))).contains((lower(a), lower(b))),
{
}

} // verus!
