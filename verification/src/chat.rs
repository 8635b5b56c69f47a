//! Chat of the channel: the registry of connected sessions (name, position,
//! empire, outbox), the `GC_CHAT` / `GC_WHISPER` packets, and the decisions
//! of a `CG_CHAT` (command, shout, talk) and of a `CG_WHISPER` (deliver,
//! unknown target, ignored).

use vstd::prelude::*;
use vstd::utf8::*;
use vstd::string::StringSliceAdditionalSpecFns;
use crate::auth::padded;
use crate::text::{
    bytes_eq_ignore_ascii_case, cstr_bytes, cstr_len, eq_ignore_ascii_case_bytes, first_nul,
    string_from_utf8_lossy, utf8_lossy,
};
use crate::wire::{le32, push_all, push_u16, push_u32};

verus! {

/// `tokio::sync::mpsc::UnboundedSender`: the outbox of another session.
#[verifier::external_type_specification]
#[verifier::external_body]
#[verifier::reject_recursive_types(T)]
pub struct ExUnboundedSender<T>(tokio::sync::mpsc::UnboundedSender<T>);

/// `UnboundedSender::send`: queues the bytes for the receiving session.
/// Whether the queue still has a receiver depends on the other task, so
/// nothing is stated of the returned flag.
#[verifier::external_body]
fn outbox_send(out: &tokio::sync::mpsc::UnboundedSender<Vec<u8>>, bytes: Vec<u8>) -> (queued: bool) {
    out.send(bytes).is_ok()
}

/// Header of `GC_CHAT`.
pub const GC_CHAT: u8 = 4;
/// Header of `GC_WHISPER`.
pub const GC_WHISPER: u8 = 34;
/// Chat type of a normal talk.
pub const CHAT_TYPE_TALKING: u8 = 0;
/// Chat type of a system information line.
pub const CHAT_TYPE_INFO: u8 = 1;
/// Chat type of a command echo (emotions).
pub const CHAT_TYPE_COMMAND: u8 = 5;
/// Chat type of a shout.
pub const CHAT_TYPE_SHOUT: u8 = 6;
/// Whisper type of a delivered message.
pub const WHISPER_CHAT: u8 = 0;
/// Whisper type of "no such player".
pub const WHISPER_NOT_EXIST: u8 = 1;
/// Bytes of a name field (24 characters and a NUL).
pub const NAME_BYTES: usize = 25;
/// Fixed part of `GC_WHISPER`: header, size, type, 25-byte name.
pub const WHISPER_FIXED: usize = 29;
/// Fixed part of `CG_WHISPER`: header, size, 25-byte target name.
pub const CG_WHISPER_FIXED: usize = 28;
/// Radius of the talking broadcast (view range 5000 + 500).
pub const TALKING_RANGE: i64 = 5500;
/// Longest chat text.
pub const CHAT_MSG_MAX: usize = 485;
/// Longest whisper text.
pub const WHISPER_MSG_MAX: usize = 512;
/// Longest `GC_CHAT` payload.
pub const CHATBUF_MAX: usize = 512;
/// Shout cooldown, in milliseconds.
pub const SHOUT_COOLDOWN_MS: u64 = 15000;

/// The text of a chat or whisper: cut at the first NUL, then at `cap`.
pub open spec fn chat_text_spec(pkt: Seq<u8>, cap: nat) -> Seq<u8> {
    let e = cstr_len(pkt);
    pkt.take(if e < cap { e as int } else { cap as int })
}

pub fn chat_text(pkt: &[u8], cap: usize) -> (t: &[u8])
    ensures
        t@ == chat_text_spec(pkt@, cap as nat),
        t@.len() <= cap,
{
    let end = first_nul(pkt);
    let n = if end < cap { end } else { cap };
    vstd::slice::slice_subrange(pkt, 0, n)
}

/// `"Name : msg"`, cut at 512 bytes.
pub open spec fn chat_payload_spec(name: Seq<u8>, msg: Seq<u8>) -> Seq<u8> {
    let full = name + seq![32u8, 58u8, 32u8] + msg;
    full.take(if full.len() < CHATBUF_MAX { full.len() as int } else { CHATBUF_MAX as int })
}

pub fn chat_payload(name: &str, msg: &[u8]) -> (p: Vec<u8>)
    ensures
        p@ == chat_payload_spec(name.spec_bytes(), msg@),
{
    let mut payload: Vec<u8> = Vec::new();
    push_all(&mut payload, name.as_bytes());
    push_all(&mut payload, &[32u8, 58u8, 32u8]);
    push_all(&mut payload, msg);
    let ghost full = payload@;
    if payload.len() > CHATBUF_MAX {
        payload.truncate(CHATBUF_MAX);
    }
    assert(payload@ =~= full.take(if full.len() < CHATBUF_MAX { full.len() as int } else { CHATBUF_MAX as int }));
    payload
}

/// `GC_CHAT`: header, total size, type, speaker vid, empire, payload.
pub open spec fn gc_chat_spec(chat_type: u8, vid: u32, empire: u8, payload: Seq<u8>) -> Seq<u8> {
    let size = (9 + payload.len()) as u16;
    seq![GC_CHAT, (size % 256) as u8, (size / 256) as u8, chat_type] + le32(vid) + seq![empire]
        + payload
}

pub fn gc_chat(chat_type: u8, vid: u32, empire: u8, payload: &[u8]) -> (b: Vec<u8>)
    requires
        9 + payload@.len() <= u16::MAX,
    ensures
        b@ == gc_chat_spec(chat_type, vid, empire, payload@),
        b@.len() == 9 + payload@.len(),
{
    let mut out: Vec<u8> = Vec::new();
    out.push(GC_CHAT);
    push_u16(&mut out, (9 + payload.len()) as u16);
    out.push(chat_type);
    push_u32(&mut out, vid);
    out.push(empire);
    push_all(&mut out, payload);
    assert(out@ =~= gc_chat_spec(chat_type, vid, empire, payload@));
    out
}

/// A `GC_WHISPER`: header, total size, type, a 25-byte name field, message.
pub open spec fn gc_whisper_spec(wtype: u8, name: Seq<u8>, msg: Seq<u8>) -> Seq<u8> {
    let size = (WHISPER_FIXED + msg.len()) as u16;
    seq![GC_WHISPER, (size % 256) as u8, (size / 256) as u8, wtype] + padded(name, 25) + msg
}

fn push_name_field(v: &mut Vec<u8>, name: &[u8])
    ensures
        final(v)@ == old(v)@ + padded(name@, 25),
{
    let n = if name.len() < NAME_BYTES - 1 { name.len() } else { NAME_BYTES - 1 };
    let mut i: usize = 0;
    while i < n
        invariant
            n <= name@.len(),
            n <= 24,
            i <= n,
            v@ == old(v)@ + name@.take(i as int),
        decreases n - i,
    {
        v.push(name[i]);
        i = i + 1;
        assert(v@ =~= old(v)@ + name@.take(i as int));
    }
    let ghost mid = v@;
    let mut k: usize = n;
    while k < NAME_BYTES
        invariant
            n <= k <= NAME_BYTES,
            v@ == mid + Seq::new((k - n) as nat, |j: int| 0u8),
        decreases NAME_BYTES - k,
    {
        v.push(0u8);
        k = k + 1;
        assert(v@ =~= mid + Seq::new((k - n) as nat, |j: int| 0u8));
    }
    assert(v@ =~= old(v)@ + padded(name@, 25));
}

pub fn gc_whisper(wtype: u8, name: &[u8], msg: &[u8]) -> (b: Vec<u8>)
    requires
        WHISPER_FIXED + msg@.len() <= u16::MAX,
    ensures
        b@ == gc_whisper_spec(wtype, name@, msg@),
        b@.len() == WHISPER_FIXED + msg@.len(),
{
    let mut out: Vec<u8> = Vec::new();
    out.push(GC_WHISPER);
    push_u16(&mut out, (WHISPER_FIXED + msg.len()) as u16);
    out.push(wtype);
    push_name_field(&mut out, name);
    push_all(&mut out, msg);
    assert(out@ =~= gc_whisper_spec(wtype, name@, msg@));
    out
}

/// What the registry knows of one connected session: name bytes, map,
/// position and empire.
pub type PeerInfo = (Seq<u8>, i32, i32, i32, u8);

/// One connected session.
pub struct ChatPeer {
    vid: u32,
    name: String,
    map_index: i32,
    x: i32,
    y: i32,
    empire: u8,
    out: tokio::sync::mpsc::UnboundedSender<Vec<u8>>,
}

pub closed spec fn peer_info(p: ChatPeer) -> PeerInfo {
    (encode_utf8(p.name@), p.map_index, p.x, p.y, p.empire)
}

impl ChatPeer {
    pub closed spec fn spec_vid(&self) -> u32 {
        self.vid
    }
}

/// Token of a registered session, handed back to `ChatPeers::release` when
/// the connection closes.
pub struct ChatPeerGuard(u32);

impl ChatPeerGuard {
    pub closed spec fn vid(&self) -> u32 {
        self.0
    }
}

/// Sessions of the channel that can be talked to, keyed by vid.
pub struct ChatPeers {
    peers: Vec<ChatPeer>,
}

/// Whether `(x, y)` is within the talking range of `(mx, my)`.
pub open spec fn in_talking_range(mx: i32, my: i32, x: i32, y: i32) -> bool {
    (x - mx) * (x - mx) + (y - my) * (y - my) <= TALKING_RANGE * TALKING_RANGE
}

/// Whether a peer at `(map, x, y)` receives a chat of type `t` spoken at
/// `(my_map, my_x, my_y)`: only talking chats, same map, within range.
pub open spec fn visible_to_spec(t: u8, my_map: i32, my_x: i32, my_y: i32, map: i32, x: i32, y: i32) -> bool {
    map == my_map && t == CHAT_TYPE_TALKING && in_talking_range(my_x, my_y, x, y)
}

pub fn visible_to(t: u8, my_map: i32, my_x: i32, my_y: i32, map: i32, x: i32, y: i32) -> (r: bool)
    ensures
        r == visible_to_spec(t, my_map, my_x, my_y, map, x, y),
{
    if map != my_map {
        return false;
    }
    if t != CHAT_TYPE_TALKING {
        return false;
    }
    let dx: i128 = x as i128 - my_x as i128;
    let dy: i128 = y as i128 - my_y as i128;
    assert(dx * dx <= 0x1_0000_0000_0000_0000) by (nonlinear_arith)
        requires
            -0x1_0000_0000 <= dx <= 0x1_0000_0000,
    ;
    assert(dy * dy <= 0x1_0000_0000_0000_0000) by (nonlinear_arith)
        requires
            -0x1_0000_0000 <= dy <= 0x1_0000_0000,
    ;
    assert(0 <= dx * dx) by (nonlinear_arith);
    assert(0 <= dy * dy) by (nonlinear_arith);
    dx * dx + dy * dy <= (TALKING_RANGE * TALKING_RANGE) as i128
}

impl ChatPeers {
    /// The registered sessions.
    pub closed spec fn view(&self) -> Map<u32, PeerInfo> {
        Map::new(
            |vid: u32| exists|i: int| 0 <= i < self.peers@.len() && self.peers@[i].vid == vid,
            |vid: u32| peer_info(self.peers@[self.index_spec(vid)]),
        )
    }

    /// The outbox a registered session was registered with.
    pub closed spec fn outbox_of(&self, vid: u32) -> tokio::sync::mpsc::UnboundedSender<Vec<u8>> {
        self.peers@[self.index_spec(vid)].out
    }

    closed spec fn index_spec(&self, vid: u32) -> int {
        choose|i: int| 0 <= i < self.peers@.len() && self.peers@[i].vid == vid
    }

    /// The registration order (a shout or broadcast walks it).
    pub closed spec fn order(&self) -> Seq<u32> {
        self.peers@.map_values(|p: ChatPeer| p.vid)
    }

    /// Each vid is registered once.
    pub closed spec fn wf(&self) -> bool {
        forall|i: int, j: int|
            0 <= i < j < self.peers@.len() ==> self.peers@[i].vid != self.peers@[j].vid
    }

    proof fn lemma_index(&self, i: int)
        requires
            self.wf(),
            0 <= i < self.peers@.len(),
        ensures
            self.view().contains_key(self.peers@[i].vid),
            self.index_spec(self.peers@[i].vid) == i,
            self.view()[self.peers@[i].vid] == peer_info(self.peers@[i]),
    {
        let vid = self.peers@[i].vid;
        assert(self.view().dom().contains(vid));
        let k = self.index_spec(vid);
        assert(0 <= k < self.peers@.len() && self.peers@[k].vid == vid);
        if k != i {
            if k < i {
                assert(self.peers@[k].vid != self.peers@[i].vid);
            } else {
                assert(self.peers@[i].vid != self.peers@[k].vid);
            }
        }
    }

    pub fn new() -> (r: ChatPeers)
        ensures
            r.wf(),
            r.view() == Map::<u32, PeerInfo>::empty(),
    {
        let r = ChatPeers { peers: Vec::new() };
        assert(r.view() =~= Map::<u32, PeerInfo>::empty());
        r
    }

    fn index_of(&self, vid: u32) -> (r: Option<usize>)
        requires
            self.wf(),
        ensures
            r is Some <==> self.view().contains_key(vid),
            r matches Some(i) ==> i < self.peers@.len() && self.peers@[i as int].vid == vid,
    {
        let mut i: usize = 0;
        while i < self.peers.len()
            invariant
                self.wf(),
                i <= self.peers@.len(),
                forall|k: int| 0 <= k < i ==> self.peers@[k].vid != vid,
            decreases self.peers@.len() - i,
        {
            if self.peers[i].vid == vid {
                proof {
                    self.lemma_index(i as int);
                }
                return Some(i);
            }
            i = i + 1;
        }
        None
    }

    /// Registers (or re-registers) a session at its world join; the guard
    /// unregisters it.
    pub fn register_peer(
        &mut self,
        vid: u32,
        name: String,
        map_index: i32,
        x: i32,
        y: i32,
        empire: u8,
        out: tokio::sync::mpsc::UnboundedSender<Vec<u8>>,
    ) -> (g: ChatPeerGuard)
        requires
            old(self).wf(),
        ensures
            final(self).wf(),
            g.vid() == vid,
            final(self).view() == old(self).view().insert(
                vid,
                (encode_utf8(name@), map_index, x, y, empire),
            ),
            final(self).outbox_of(vid) == out,
            forall|v: u32| #[trigger] old(self).view().contains_key(v) && v != vid ==> final(self).outbox_of(v) == old(self).outbox_of(v),
    {
        let p = ChatPeer { vid, name, map_index, x, y, empire, out };
        let ghost info = peer_info(p);
        let ghost before = *self;
        match self.index_of(vid) {
            Some(i) => {
                self.peers.set(i, p);
                proof {
                    assert forall|a: int, b: int|
                        0 <= a < b < self.peers@.len() implies self.peers@[a].vid != self.peers@[b].vid by {
                        assert(before.peers@[a].vid != before.peers@[b].vid);
                    }
                    assert forall|v: u32| #[trigger] self.view().contains_key(v) <==> before.view().insert(vid, info).contains_key(v) by {
                        if self.view().contains_key(v) {
                            let k = choose|k: int| 0 <= k < self.peers@.len() && self.peers@[k].vid == v;
                            assert(before.peers@[k].vid == v);
                        }
                        if before.view().contains_key(v) {
                            let k = choose|k: int| 0 <= k < before.peers@.len() && before.peers@[k].vid == v;
                            assert(self.peers@[k].vid == v);
                        }
                    }
                    assert forall|v: u32| #[trigger] self.view().contains_key(v) implies self.view()[v] == before.view().insert(vid, info)[v] by {
                        let k = choose|k: int| 0 <= k < self.peers@.len() && self.peers@[k].vid == v;
                        self.lemma_index(k);
                        if v != vid {
                            before.lemma_index(k);
                        }
                    }
                    assert(self.view() =~= before.view().insert(vid, info));
                    self.lemma_index(i as int);
                    assert forall|v: u32| #[trigger] before.view().contains_key(v) && v != vid implies self.outbox_of(v) == before.outbox_of(v) by {
                        let k = choose|k: int| 0 <= k < before.peers@.len() && before.peers@[k].vid == v;
                        before.lemma_index(k);
                        assert(self.peers@[k].vid == v);
                        self.lemma_index(k);
                    }
                }
            },
            None => {
                self.peers.push(p);
                proof {
                    let n = before.peers@.len() as int;
                    assert forall|a: int, b: int|
                        0 <= a < b < self.peers@.len() implies self.peers@[a].vid != self.peers@[b].vid by {
                        if b == n {
                            assert(before.peers@[a].vid == self.peers@[a].vid);
                            assert(!before.view().contains_key(vid));
                        } else {
                            assert(before.peers@[a].vid != before.peers@[b].vid);
                        }
                    }
                    assert forall|v: u32| #[trigger] self.view().contains_key(v) <==> before.view().insert(vid, info).contains_key(v) by {
                        if self.view().contains_key(v) {
                            let k = choose|k: int| 0 <= k < self.peers@.len() && self.peers@[k].vid == v;
                            if k < n {
                                assert(before.peers@[k].vid == v);
                            }
                        }
                        if before.view().contains_key(v) {
                            let k = choose|k: int| 0 <= k < before.peers@.len() && before.peers@[k].vid == v;
                            assert(self.peers@[k].vid == v);
                        }
                        if v == vid {
                            assert(self.peers@[n].vid == v);
                        }
                    }
                    assert forall|v: u32| #[trigger] self.view().contains_key(v) implies self.view()[v] == before.view().insert(vid, info)[v] by {
                        let k = choose|k: int| 0 <= k < self.peers@.len() && self.peers@[k].vid == v;
                        self.lemma_index(k);
                        if v != vid {
                            before.lemma_index(k);
                        }
                    }
                    assert(self.view() =~= before.view().insert(vid, info));
                    self.lemma_index(n);
                    assert forall|v: u32| #[trigger] before.view().contains_key(v) && v != vid implies self.outbox_of(v) == before.outbox_of(v) by {
                        let k = choose|k: int| 0 <= k < before.peers@.len() && before.peers@[k].vid == v;
                        before.lemma_index(k);
                        assert(self.peers@[k].vid == v);
                        self.lemma_index(k);
                    }
                }
            },
        }
        ChatPeerGuard(vid)
    }

    /// Unregisters the session of the guard: it no longer receives chats
    /// nor can be whispered to.
    pub fn release(&mut self, g: ChatPeerGuard)
        requires
            old(self).wf(),
        ensures
            final(self).wf(),
            final(self).view() == old(self).view().remove(g.vid()),
    {
        let vid = g.0;
        let ghost before = *self;
        match self.index_of(vid) {
            None => {
                assert(self.view() =~= self.view().remove(vid));
            },
            Some(i) => {
                self.peers.remove(i);
                proof {
                    let ii = i as int;
                    assert forall|a: int, b: int|
                        0 <= a < b < self.peers@.len() implies self.peers@[a].vid != self.peers@[b].vid by {
                        let a0 = if a < ii { a } else { a + 1 };
                        let b0 = if b < ii { b } else { b + 1 };
                        assert(before.peers@[a0].vid != before.peers@[b0].vid);
                    }
                    assert forall|v: u32| #[trigger] self.view().contains_key(v) <==> before.view().remove(vid).contains_key(v) by {
                        if self.view().contains_key(v) {
                            let k = choose|k: int| 0 <= k < self.peers@.len() && self.peers@[k].vid == v;
                            let k0 = if k < ii { k } else { k + 1 };
                            assert(before.peers@[k0].vid == v);
                            assert(k0 != ii);
                            assert(before.peers@[ii].vid == vid);
                        }
                        if before.view().contains_key(v) && v != vid {
                            let k = choose|k: int| 0 <= k < before.peers@.len() && before.peers@[k].vid == v;
                            assert(k != ii);
                            let k1 = if k < ii { k } else { k - 1 };
                            assert(self.peers@[k1].vid == v);
                        }
                    }
                    assert forall|v: u32| #[trigger] self.view().contains_key(v) implies self.view()[v] == before.view().remove(vid)[v] by {
                        let k = choose|k: int| 0 <= k < self.peers@.len() && self.peers@[k].vid == v;
                        let k0 = if k < ii { k } else { k + 1 };
                        self.lemma_index(k);
                        before.lemma_index(k0);
                    }
                    assert(self.view() =~= before.view().remove(vid));
                }
            },
        }
    }

    /// Moves a registered session to `(x, y)` after an accepted move; an
    /// unknown vid changes nothing.
    pub fn update_position(&mut self, vid: u32, x: i32, y: i32)
        requires
            old(self).wf(),
        ensures
            final(self).wf(),
            old(self).view().contains_key(vid) ==> final(self).view() == old(self).view().insert(
                vid,
                (old(self).view()[vid].0, old(self).view()[vid].1, x, y, old(self).view()[vid].4),
            ),
            !old(self).view().contains_key(vid) ==> final(self).view() == old(self).view(),
            forall|v: u32| #[trigger] old(self).view().contains_key(v) ==> final(self).outbox_of(v) == old(self).outbox_of(v),
    {
        let ghost before = *self;
        match self.index_of(vid) {
            None => {},
            Some(i) => {
                let mut p = self.peers.remove(i);
                p.x = x;
                p.y = y;
                self.peers.insert(i, p);
                proof {
                    before.lemma_index(i as int);
                    let info = (before.view()[vid].0, before.view()[vid].1, x, y, before.view()[vid].4);
                    assert(self.peers@ =~= before.peers@.update(i as int, p));
                    assert forall|a: int, b: int|
                        0 <= a < b < self.peers@.len() implies self.peers@[a].vid != self.peers@[b].vid by {
                        assert(before.peers@[a].vid != before.peers@[b].vid);
                    }
                    assert forall|v: u32| #[trigger] self.view().contains_key(v) <==> before.view().contains_key(v) by {
                        if self.view().contains_key(v) {
                            let k = choose|k: int| 0 <= k < self.peers@.len() && self.peers@[k].vid == v;
                            assert(before.peers@[k].vid == v);
                        }
                        if before.view().contains_key(v) {
                            let k = choose|k: int| 0 <= k < before.peers@.len() && before.peers@[k].vid == v;
                            assert(self.peers@[k].vid == v);
                        }
                    }
                    assert forall|v: u32| #[trigger] self.view().contains_key(v) implies self.view()[v] == before.view().insert(vid, info)[v] by {
                        let k = choose|k: int| 0 <= k < self.peers@.len() && self.peers@[k].vid == v;
                        self.lemma_index(k);
                        before.lemma_index(k);
                    }
                    assert(self.view() =~= before.view().insert(vid, info));
                    assert forall|v: u32| #[trigger] before.view().contains_key(v) implies self.outbox_of(v) == before.outbox_of(v) by {
                        let k = choose|k: int| 0 <= k < before.peers@.len() && before.peers@[k].vid == v;
                        before.lemma_index(k);
                        assert(self.peers@[k].vid == v);
                        self.lemma_index(k);
                    }
                }
            },
        }
    }

    /// A connected player whose name equals `name` ignoring ASCII case:
    /// `(vid, map, x, y)`, or `None` when nobody matches.
    pub fn find_player(&self, name: &str) -> (r: Option<(u32, i32, i32, i32)>)
        requires
            self.wf(),
        ensures
            r matches Some(t) ==> self.view().contains_key(t.0) && eq_ignore_ascii_case_bytes(
                self.view()[t.0].0,
                name.spec_bytes(),
            ) && t.1 == self.view()[t.0].1 && t.2 == self.view()[t.0].2 && t.3 == self.view()[t.0].3,
            r is None ==> forall|v: u32|
                #[trigger] self.view().contains_key(v) ==> !eq_ignore_ascii_case_bytes(
                    self.view()[v].0,
                    name.spec_bytes(),
                ),
    {
        let nb = name.as_bytes();
        let mut i: usize = 0;
        while i < self.peers.len()
            invariant
                self.wf(),
                nb@ == name.spec_bytes(),
                i <= self.peers@.len(),
                forall|k: int|
                    0 <= k < i ==> !eq_ignore_ascii_case_bytes(
                        encode_utf8(#[trigger] self.peers@[k].name@),
                        nb@,
                    ),
            decreases self.peers@.len() - i,
        {
            let p = &self.peers[i];
            if bytes_eq_ignore_ascii_case(p.name.as_str().as_bytes(), nb) {
                proof {
                    self.lemma_index(i as int);
                }
                return Some((p.vid, p.map_index, p.x, p.y));
            }
            i = i + 1;
        }
        proof {
            assert forall|v: u32| #[trigger] self.view().contains_key(v) implies !eq_ignore_ascii_case_bytes(
                self.view()[v].0,
                name.spec_bytes(),
            ) by {
                let k = choose|k: int| 0 <= k < self.peers@.len() && self.peers@[k].vid == v;
                self.lemma_index(k);
            }
        }
        None
    }

    /// The name of a connected session.
    pub fn peer_name(&self, vid: u32) -> (r: Option<String>)
        requires
            self.wf(),
        ensures
            r is Some <==> self.view().contains_key(vid),
            r matches Some(n) ==> encode_utf8(n@) == self.view()[vid].0,
    {
        match self.index_of(vid) {
            Some(i) => {
                proof {
                    self.lemma_index(i as int);
                }
                Some(self.peers[i].name.clone())
            },
            None => None,
        }
    }

    /// The empire of a connected session (0 when not connected).
    pub fn peer_empire(&self, vid: u32) -> (r: u8)
        requires
            self.wf(),
        ensures
            self.view().contains_key(vid) ==> r == self.view()[vid].4,
            !self.view().contains_key(vid) ==> r == 0,
    {
        match self.index_of(vid) {
            Some(i) => {
                proof {
                    self.lemma_index(i as int);
                }
                self.peers[i].empire
            },
            None => 0,
        }
    }

    /// Hands bytes to the outbox of `vid` (`outbox_of(vid)`, the one it was
    /// registered with); `false` when it is not connected (or its queue is
    /// gone). Which queue took the bytes is not stated: the hand-over is
    /// tokio's `send`, whose effect is outside what a contract here can
    /// speak of.
    pub fn send_to_vid(&self, vid: u32, bytes: &[u8]) -> (sent: bool)
        requires
            self.wf(),
        ensures
            sent ==> self.view().contains_key(vid),
    {
        match self.index_of(vid) {
            Some(i) => outbox_send(&self.peers[i].out, vstd::slice::slice_to_vec(bytes)),
            None => false,
        }
    }

    /// The sessions other than `my_vid` on `my_map` within the talking range
    /// of `(my_x, my_y)`, in registration order.
    pub fn in_range_of(&self, my_vid: u32, my_map: i32, my_x: i32, my_y: i32) -> (r: Vec<u32>)
        requires
            self.wf(),
        ensures
            r@ == self.order().filter(|v: u32| in_range_spec(self.view(), my_vid, my_map, my_x, my_y, v)),
    {
        let mut out: Vec<u32> = Vec::new();
        let mut i: usize = 0;
        while i < self.peers.len()
            invariant
                self.wf(),
                i <= self.peers@.len(),
                out@ == self.order().take(i as int).filter(
                    |v: u32| in_range_spec(self.view(), my_vid, my_map, my_x, my_y, v),
                ),
            decreases self.peers@.len() - i,
        {
            let p = &self.peers[i];
            proof {
                self.lemma_index(i as int);
                assert(self.order().take(i as int + 1) =~= self.order().take(i as int).push(p.vid));
                self.order().take(i as int).lemma_filter_push(
                    p.vid,
                    |v: u32| in_range_spec(self.view(), my_vid, my_map, my_x, my_y, v),
                );
            }
            if p.vid != my_vid && visible_to(CHAT_TYPE_TALKING, my_map, my_x, my_y, p.map_index, p.x, p.y) {
                out.push(p.vid);
            }
            i = i + 1;
        }
        assert(self.order().take(i as int) =~= self.order());
        out
    }

    /// Every registered session, in registration order.
    pub fn all_vids(&self) -> (r: Vec<u32>)
        ensures
            r@ == self.order(),
    {
        let mut out: Vec<u32> = Vec::new();
        let mut i: usize = 0;
        while i < self.peers.len()
            invariant
                i <= self.peers@.len(),
                out@ == self.order().take(i as int),
            decreases self.peers@.len() - i,
        {
            out.push(self.peers[i].vid);
            i = i + 1;
            assert(out@ =~= self.order().take(i as int));
        }
        assert(self.order().take(i as int) =~= self.order());
        out
    }

    /// Sends `bytes` to each vid of `targets` that is connected; returns how
    /// many queues took them.
    pub fn send_to_all(&self, targets: &[u32], bytes: &[u8]) -> (sent: usize)
        requires
            self.wf(),
        ensures
            sent <= registered_count(self.view(), targets@),
            sent <= targets@.len(),
    {
        let mut sent: usize = 0;
        let mut i: usize = 0;
        while i < targets.len()
            invariant
                self.wf(),
                i <= targets@.len(),
                sent <= i,
                sent <= registered_count(self.view(), targets@.take(i as int)),
            decreases targets@.len() - i,
        {
            proof {
                assert(targets@.take(i as int + 1).drop_last() =~= targets@.take(i as int));
            }
            if self.send_to_vid(targets[i], bytes) {
                sent = sent + 1;
            }
            i = i + 1;
        }
        assert(targets@.take(i as int) =~= targets@);
        sent
    }

    /// Broadcast to the sessions in view range, the speaker excluded;
    /// returns how many received it.
    pub fn broadcast_in_range(&self, my_vid: u32, my_map: i32, my_x: i32, my_y: i32, bytes: &[u8]) -> (sent: usize)
        requires
            self.wf(),
        ensures
            sent <= self.order().filter(|v: u32| in_range_spec(self.view(), my_vid, my_map, my_x, my_y, v)).len(),
    {
        let targets = self.in_range_of(my_vid, my_map, my_x, my_y);
        self.send_to_all(targets.as_slice(), bytes)
    }
}

/// How many entries of `targets` are registered sessions (a vid listed
/// twice counts twice).
pub open spec fn registered_count(peers: Map<u32, PeerInfo>, targets: Seq<u32>) -> nat
    decreases targets.len(),
{
    if targets.len() == 0 {
        0
    } else {
        registered_count(peers, targets.drop_last()) + if peers.contains_key(targets.last()) {
            1nat
        } else {
            0nat
        }
    }
}

impl ChatPeers {
    /// Who receives a chat besides the speaker's own echo, `chat_type`
    /// being the type byte of the `CG_CHAT`: a shout goes to every
    /// registered session (the speaker included) in registration order; a
    /// talk of type `TALKING` to the other sessions on the speaker's map
    /// within range; a talk of any other type, and the other plans, to
    /// nobody.
    pub fn chat_recipients(&self, p: &ChatPlan, chat_type: u8, my_vid: u32, my_map: i32, my_x: i32, my_y: i32) -> (r:
        Vec<u32>)
        requires
            self.wf(),
        ensures
            r@ == match *p {
                ChatPlan::Shout(_) => self.order(),
                ChatPlan::Talk(_) => if chat_type == CHAT_TYPE_TALKING {
                    self.order().filter(|v: u32| in_range_spec(self.view(), my_vid, my_map, my_x, my_y, v))
                } else {
                    Seq::empty()
                },
                _ => Seq::empty(),
            },
    {
        match p {
            ChatPlan::Shout(_) => self.all_vids(),
            ChatPlan::Talk(_) => if chat_type == CHAT_TYPE_TALKING {
                self.in_range_of(my_vid, my_map, my_x, my_y)
            } else {
                Vec::new()
            },
            _ => Vec::new(),
        }
    }
}

/// A registered session other than the speaker, on the speaker's map and
/// within talking range.
pub open spec fn in_range_spec(peers: Map<u32, PeerInfo>, my_vid: u32, my_map: i32, my_x: i32, my_y: i32, v: u32) -> bool {
    &&& v != my_vid
    &&& peers.contains_key(v)
    &&& visible_to_spec(CHAT_TYPE_TALKING, my_map, my_x, my_y, peers[v].1, peers[v].2, peers[v].3)
}

/// Whether a shout may go out: never shouted, or the last one at least
/// 15 s before `now_ms` (a clock that went back counts as no time elapsed).
pub open spec fn shout_ready_spec(last_shout_ms: Option<u64>, now_ms: u64) -> bool {
    match last_shout_ms {
        None => true,
        Some(t) => now_ms >= t && now_ms - t >= SHOUT_COOLDOWN_MS,
    }
}

pub fn shout_ready(last_shout_ms: Option<u64>, now_ms: u64) -> (r: bool)
    ensures
        r == shout_ready_spec(last_shout_ms, now_ms),
{
    match last_shout_ms {
        None => true,
        Some(t) => now_ms >= t && now_ms - t >= SHOUT_COOLDOWN_MS,
    }
}

/// What a `CG_CHAT` does.
pub enum ChatPlan {
    /// Shorter than its fixed part: ignored.
    Malformed,
    /// `/text`: the command text (without the slash), never echoed.
    Command(String),
    /// A shout inside the cooldown: dropped silently.
    ShoutCooldown,
    /// A shout: the packet goes to every session of the channel.
    Shout(Vec<u8>),
    /// Any other type: echoed to the speaker, and for a talk sent to the
    /// sessions in range.
    Talk(Vec<u8>),
}

/// The chat text of a `CG_CHAT` (after header, size and type).
pub open spec fn cg_chat_text(pkt: Seq<u8>) -> Seq<u8> {
    chat_text_spec(pkt.skip(4), CHAT_MSG_MAX as nat)
}

/// Whether the chat text is a command: longer than the slash alone.
pub open spec fn is_command_text(msg: Seq<u8>) -> bool {
    msg.len() > 1 && msg[0] == 47u8
}

/// Decides a `CG_CHAT` of the session `vid` named `name` in `empire`.
pub fn plan_chat(pkt: &[u8], name: &str, vid: u32, empire: u8, last_shout_ms: Option<u64>, now_ms: u64) -> (p: ChatPlan)
    ensures
        pkt@.len() < 4 <==> p is Malformed,
        pkt@.len() >= 4 ==> {
            let msg = cg_chat_text(pkt@);
            let payload = chat_payload_spec(name.spec_bytes(), msg);
            if is_command_text(msg) {
                p matches ChatPlan::Command(t) && t@ == utf8_lossy(msg.skip(1))
            } else if pkt@[3] == CHAT_TYPE_SHOUT {
                if shout_ready_spec(last_shout_ms, now_ms) {
                    p matches ChatPlan::Shout(b) && b@ == gc_chat_spec(pkt@[3], 0, empire, payload)
                } else {
                    p is ShoutCooldown
                }
            } else {
                p matches ChatPlan::Talk(b) && b@ == gc_chat_spec(pkt@[3], vid, empire, payload)
            }
        },
{
    if pkt.len() < 4 {
        return ChatPlan::Malformed;
    }
    let chat_type = pkt[3];
    let rest = vstd::slice::slice_subrange(pkt, 4, pkt.len());
    assert(rest@ == pkt@.skip(4));
    let msg = chat_text(rest, CHAT_MSG_MAX);
    if msg.len() > 1 && msg[0] == 47u8 {
        let tail = vstd::slice::slice_subrange(msg, 1, msg.len());
        assert(tail@ == msg@.skip(1));
        return ChatPlan::Command(string_from_utf8_lossy(tail));
    }
    let payload = chat_payload(name, msg);
    if chat_type == CHAT_TYPE_SHOUT {
        if !shout_ready(last_shout_ms, now_ms) {
            return ChatPlan::ShoutCooldown;
        }
        return ChatPlan::Shout(gc_chat(chat_type, 0, empire, payload.as_slice()));
    }
    ChatPlan::Talk(gc_chat(chat_type, vid, empire, payload.as_slice()))
}

/// The session's last shout after `p` was carried out at `now_ms`: a shout
/// that goes out starts a new cooldown; anything else leaves it as it was.
pub fn last_shout_after(p: &ChatPlan, last_shout_ms: Option<u64>, now_ms: u64) -> (r: Option<u64>)
    ensures
        r == (if p is Shout { Some(now_ms) } else { last_shout_ms }),
{
    match p {
        ChatPlan::Shout(_) => Some(now_ms),
        _ => last_shout_ms,
    }
}

/// What a `CG_WHISPER` does.
pub enum WhisperPlan {
    /// Malformed, no target, no text, or whispering to oneself: nothing.
    Ignore,
    /// No connected player has that name: this reply goes to the sender.
    NotExist(Vec<u8>),
    /// Delivered: `to_recipient` to the outbox of `to`, `to_sender` (the
    /// same message under the target's name) back to the sender.
    Deliver { to: u32, to_recipient: Vec<u8>, to_sender: Vec<u8> },
}

/// The name the whisper is addressed to (its bytes as a string).
pub open spec fn whisper_target(pkt: Seq<u8>) -> Seq<u8> {
    encode_utf8(utf8_lossy(cstr_bytes(pkt.subrange(3, CG_WHISPER_FIXED as int))))
}

/// The whispered text.
pub open spec fn whisper_text(pkt: Seq<u8>) -> Seq<u8> {
    chat_text_spec(pkt.skip(CG_WHISPER_FIXED as int), WHISPER_MSG_MAX as nat)
}

impl ChatPeers {
    /// Decides a `CG_WHISPER` sent by the session `my_vid` named `my_name`:
    /// the target is looked up by name ignoring ASCII case.
    pub fn plan_whisper(&self, pkt: &[u8], my_vid: u32, my_name: &str) -> (p: WhisperPlan)
        requires
            self.wf(),
        ensures
            pkt@.len() < CG_WHISPER_FIXED ==> p is Ignore,
            pkt@.len() >= CG_WHISPER_FIXED ==> {
                let target = whisper_target(pkt@);
                let msg = whisper_text(pkt@);
                if target.len() == 0 || msg.len() == 0 {
                    p is Ignore
                } else {
                    match p {
                        WhisperPlan::Ignore => exists|v: u32|
                            #[trigger] self.view().contains_key(v) && v == my_vid
                                && eq_ignore_ascii_case_bytes(self.view()[v].0, target),
                        WhisperPlan::NotExist(b) => b@ == gc_whisper_spec(WHISPER_NOT_EXIST, target, Seq::empty())
                            && forall|v: u32| #[trigger] self.view().contains_key(v)
                                ==> !eq_ignore_ascii_case_bytes(self.view()[v].0, target),
                        WhisperPlan::Deliver { to, to_recipient, to_sender } => {
                            &&& to != my_vid
                            &&& self.view().contains_key(to)
                            &&& eq_ignore_ascii_case_bytes(self.view()[to].0, target)
                            &&& to_recipient@ == gc_whisper_spec(WHISPER_CHAT, my_name.spec_bytes(), msg)
                            &&& to_sender@ == gc_whisper_spec(WHISPER_CHAT, target, msg)
                        },
                    }
                }
            },
    {
        if pkt.len() < CG_WHISPER_FIXED {
            return WhisperPlan::Ignore;
        }
        let field = vstd::slice::slice_subrange(pkt, 3, CG_WHISPER_FIXED);
        let end = first_nul(field);
        let raw = vstd::slice::slice_subrange(field, 0, end);
        assert(raw@ == cstr_bytes(pkt@.subrange(3, CG_WHISPER_FIXED as int)));
        let target = string_from_utf8_lossy(raw);
        let tb = target.as_str().as_bytes();
        let rest = vstd::slice::slice_subrange(pkt, CG_WHISPER_FIXED, pkt.len());
        assert(rest@ == pkt@.skip(CG_WHISPER_FIXED as int));
        let msg = chat_text(rest, WHISPER_MSG_MAX);
        if tb.len() == 0 || msg.len() == 0 {
            return WhisperPlan::Ignore;
        }
        match self.find_player(target.as_str()) {
            None => WhisperPlan::NotExist(gc_whisper(WHISPER_NOT_EXIST, tb, &[])),
            Some(found) => {
                if found.0 == my_vid {
                    return WhisperPlan::Ignore;
                }
                let to_recipient = gc_whisper(WHISPER_CHAT, my_name.as_bytes(), msg);
                let to_sender = gc_whisper(WHISPER_CHAT, tb, msg);
                WhisperPlan::Deliver { to: found.0, to_recipient, to_sender }
            },
        }
    }
}

/// A talking chat reaches a spot exactly when it lies on the speaker's map
/// at a Euclidean distance of at most `TALKING_RANGE` (the squares of both
/// offsets count): a spot whose `x` or `y` lies more than `TALKING_RANGE`
/// away never hears it, whatever its other coordinate; other chat types
/// reach nobody by range.
pub proof fn law_talk_reaches_within_range(my_map: i32, my_x: i32, my_y: i32, map: i32, x: i32, y: i32, t: u8)
    ensures
        visible_to_spec(CHAT_TYPE_TALKING, my_map, my_x, my_y, map, x, y) <==> (map == my_map && (x - my_x) * (
        x - my_x) + (y - my_y) * (y - my_y) <= TALKING_RANGE * TALKING_RANGE),
        (y - my_y > TALKING_RANGE || my_y - y > TALKING_RANGE) ==> !visible_to_spec(
            t,
            my_map,
            my_x,
            my_y,
            map,
            x,
            y,
        ),
        (x - my_x > TALKING_RANGE || my_x - x > TALKING_RANGE) ==> !visible_to_spec(
            t,
            my_map,
            my_x,
            my_y,
            map,
            x,
            y,
        ),
        t != CHAT_TYPE_TALKING ==> !visible_to_spec(t, my_map, my_x, my_y, map, x, y),
        map == my_map && x == my_x && y == my_y ==> visible_to_spec(CHAT_TYPE_TALKING, my_map, my_x, my_y, map, x, y),
{
    let dx: int = x - my_x;
    let dy: int = y - my_y;
    assert(0 <= dx * dx) by (nonlinear_arith);
    assert(0 <= dy * dy) by (nonlinear_arith);
    assert((dy > 5500 || dy < -5500) ==> dy * dy > 5500 * 5500) by (nonlinear_arith);
    assert((dx > 5500 || dx < -5500) ==> dx * dx > 5500 * 5500) by (nonlinear_arith);
    assert(dx == 0 && dy == 0 ==> dx * dx + dy * dy == 0) by (nonlinear_arith);
}

/// Who a talk reaches: a session in the range of `(my_x, my_y)` is another
/// session on the speaker's map whose squared distance is at most
/// `TALKING_RANGE` squared; one standing more than `TALKING_RANGE` away on
/// either axis is never in range.
pub proof fn law_in_range_is_distance(peers: Map<u32, PeerInfo>, my_vid: u32, my_map: i32, my_x: i32, my_y: i32, v: u32)
    ensures
        in_range_spec(peers, my_vid, my_map, my_x, my_y, v) <==> (v != my_vid && peers.contains_key(v)
            && peers[v].1 == my_map && (peers[v].2 - my_x) * (peers[v].2 - my_x) + (peers[v].3 - my_y) * (
        peers[v].3 - my_y) <= TALKING_RANGE * TALKING_RANGE),
        peers.contains_key(v) && (peers[v].3 - my_y > TALKING_RANGE || my_y - peers[v].3 > TALKING_RANGE)
            ==> !in_range_spec(peers, my_vid, my_map, my_x, my_y, v),
{
    law_talk_reaches_within_range(my_map, my_x, my_y, peers[v].1, peers[v].2, peers[v].3, CHAT_TYPE_TALKING);
}

/// A shout cooldown counts from the last shout: right after one, the next
/// waits; once 15 s passed, it goes out again.
pub proof fn law_shout_cooldown(t: u64, now: u64)
    ensures
        now >= t && now - t < SHOUT_COOLDOWN_MS ==> !shout_ready_spec(Some(t), now),
        now >= t && now - t >= SHOUT_COOLDOWN_MS ==> shout_ready_spec(Some(t), now),
        shout_ready_spec(None, now),
{
}

} // verus!
