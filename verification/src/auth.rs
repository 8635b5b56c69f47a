//! The auth role: the `GC_CHANNEL_LIST` encoder, the admission rules applied
//! to a `LOGIN3`, the per-process registry of active logins, the login-key
//! store and the reply sent once the credentials were checked.

use vstd::prelude::*;
use vstd::utf8::*;
use crate::login::{is_valid_login_string, valid_login_spec};
use vstd::string::StringSliceAdditionalSpecFns;

verus! {

/// Header of `GC_CHANNEL_LIST`.
pub const GC_CHANNEL_LIST: u8 = 164;
/// Channel slots of the wire (fixed).
pub const GC_CHANNEL_LIST_MAX_CHANNELS: usize = 4;
/// Whole packet: header + count + three rates + four 36-byte slots.
pub const GC_CHANNEL_LIST_SIZE: usize = 152;
/// Payload bytes of one `GC_LOCALE` wire packet.
pub const GC_LOCALE_MAX_CHUNK: usize = 64000;

/// One channel of the list that the auth announces.
pub struct ChannelCfg {
    pub name: String,
    pub ip: String,
    pub port: u16,
    pub players: u16,
}

/// Little-endian bytes of a `u16`.
pub open spec fn le16(x: u16) -> Seq<u8> {
    seq![(x % 256) as u8, (x / 256) as u8]
}

/// `width` zero bytes.
pub open spec fn zeros(width: nat) -> Seq<u8> {
    Seq::new(width, |i: int| 0u8)
}

/// A string field of `width` bytes: at most `width - 1` bytes of `s`, then
/// NUL padding.
pub open spec fn padded(s: Seq<u8>, width: nat) -> Seq<u8> {
    let n = if s.len() < width - 1 { s.len() } else { (width - 1) as nat };
    s.take(n as int) + zeros((width - n) as nat)
}

/// The 36 bytes of one channel slot.
pub open spec fn channel_slot(ch: ChannelCfg) -> Seq<u8> {
    padded(encode_utf8(ch.name@), 16) + padded(encode_utf8(ch.ip@), 16) + le16(ch.port) + le16(
        ch.players,
    )
}

/// The first `k` slots: the channels below `count`, zero slots after.
pub open spec fn channel_slots(chs: Seq<ChannelCfg>, count: nat, k: nat) -> Seq<u8>
    decreases k,
{
    if k == 0 {
        Seq::empty()
    } else {
        channel_slots(chs, count, (k - 1) as nat) + if k - 1 < count {
            channel_slot(chs[k - 1])
        } else {
            zeros(36)
        }
    }
}

/// Number of channels announced: at most four.
pub open spec fn channel_count(n: nat) -> nat {
    if n < 4 { n } else { 4 }
}

/// The whole `GC_CHANNEL_LIST` packet.
pub open spec fn channel_list_bytes(chs: Seq<ChannelCfg>, exp: u16, gold: u16, drop: u16) -> Seq<
    u8,
> {
    let count = channel_count(chs.len());
    seq![GC_CHANNEL_LIST, count as u8] + le16(exp) + le16(gold) + le16(drop) + channel_slots(
        chs,
        count,
        4,
    )
}

fn push_le16(v: &mut Vec<u8>, x: u16)
    ensures
        final(v)@ == old(v)@ + le16(x),
{
    v.push((x % 256) as u8);
    v.push((x / 256) as u8);
    assert(final(v)@ =~= old(v)@ + le16(x));
}

fn push_padded(v: &mut Vec<u8>, s: &[u8], width: usize)
    requires
        width >= 1,
    ensures
        final(v)@ == old(v)@ + padded(s@, width as nat),
{
    let n = if s.len() < width - 1 { s.len() } else { width - 1 };
    let ghost start = v@;
    let ghost f = |k: int| if k < n { s@[k] } else { 0u8 };
    let mut i: usize = 0;
    while i < width
        invariant
            n <= width,
            n <= s@.len(),
            n == (if s@.len() < width - 1 { s@.len() } else { (width - 1) as nat }),
            i <= width,
            f == (|k: int| if k < n { s@[k] } else { 0u8 }),
            v@ == start + Seq::new(i as nat, f),
        decreases width - i,
    {
        if i < n {
            v.push(s[i]);
        } else {
            v.push(0);
        }
        i = i + 1;
        assert(v@ =~= start + Seq::new(i as nat, f));
    }
    let ghost p = padded(s@, width as nat);
    assert(Seq::new(width as nat, f) =~= p) by {
        assert forall|k: int| 0 <= k < width implies #[trigger] Seq::new(width as nat, f)[k] == p[k] by {
            if k < n {
                assert(p[k] == s@.take(n as int)[k]);
            } else {
                assert(p[k] == zeros((width - n) as nat)[k - n]);
            }
        }
    }
}

/// `GC_CHANNEL_LIST` (152 bytes): header, count (at most 4), the three
/// rates little-endian, then four 36-byte slots — name and IP as 15 bytes
/// plus NUL, port and players little-endian; unused slots are zero.
pub fn encode_channel_list(channels: &[ChannelCfg], exp_rate: u16, gold_rate: u16, drop_rate: u16) -> (b: [u8; GC_CHANNEL_LIST_SIZE])
    ensures
        b@ == channel_list_bytes(channels@, exp_rate, gold_rate, drop_rate),
{
    let count: usize = if channels.len() < GC_CHANNEL_LIST_MAX_CHANNELS {
        channels.len()
    } else {
        GC_CHANNEL_LIST_MAX_CHANNELS
    };
    let mut v: Vec<u8> = Vec::new();
    v.push(GC_CHANNEL_LIST);
    v.push(count as u8);
    push_le16(&mut v, exp_rate);
    push_le16(&mut v, gold_rate);
    push_le16(&mut v, drop_rate);
    let ghost header = v@;
    assert(header =~= seq![GC_CHANNEL_LIST, count as u8] + le16(exp_rate) + le16(gold_rate) + le16(drop_rate));
    let mut k: usize = 0;
    while k < GC_CHANNEL_LIST_MAX_CHANNELS
        invariant
            k <= 4,
            count == channel_count(channels@.len()),
            count <= channels@.len(),
            v@ == header + channel_slots(channels@, count as nat, k as nat),
        decreases 4 - k,
    {
        let ghost before = v@;
        if k < count {
            let ch = &channels[k];
            push_padded(&mut v, ch.name.as_str().as_bytes(), 16);
            push_padded(&mut v, ch.ip.as_str().as_bytes(), 16);
            push_le16(&mut v, ch.port);
            push_le16(&mut v, ch.players);
            assert(v@ =~= before + channel_slot(channels@[k as int]));
        } else {
            let mut j: usize = 0;
            while j < 36
                invariant
                    j <= 36,
                    v@ == before + zeros(j as nat),
                decreases 36 - j,
            {
                v.push(0);
                j = j + 1;
                assert(v@ =~= before + zeros(j as nat));
            }
        }
        k = k + 1;
        assert(v@ =~= header + channel_slots(channels@, count as nat, k as nat));
    }
    proof {
        lemma_channel_slots_len(channels@, count as nat, 4);
    }
    let mut b = [0u8; GC_CHANNEL_LIST_SIZE];
    let mut i: usize = 0;
    while i < GC_CHANNEL_LIST_SIZE
        invariant
            v@.len() == GC_CHANNEL_LIST_SIZE,
            i <= GC_CHANNEL_LIST_SIZE,
            b@.len() == GC_CHANNEL_LIST_SIZE,
            forall|t: int| 0 <= t < i ==> b@[t] == v@[t],
        decreases GC_CHANNEL_LIST_SIZE - i,
    {
        b.set(i, v[i]);
        i = i + 1;
    }
    assert(b@ =~= v@);
    b
}

/// Every slot takes 36 bytes.
pub proof fn lemma_channel_slots_len(chs: Seq<ChannelCfg>, count: nat, k: nat)
    ensures
        channel_slots(chs, count, k).len() == 36 * k,
    decreases k,
{
    if k > 0 {
        lemma_channel_slots_len(chs, count, (k - 1) as nat);
    }
}

/// The UTF-8 bytes of a `String`.
pub open spec fn string_bytes(s: String) -> Seq<u8> {
    encode_utf8(s@)
}

/// Logins with an active session in this process (a login can hold one
/// session at a time). The guard returned by `acquire` is handed back to
/// `release` when the connection closes.
pub struct ActiveLogins {
    logins: Vec<String>,
}

/// Proof that a login holds a session; given back to `ActiveLogins::release`.
pub struct ActiveLoginGuard {
    login: String,
}

impl ActiveLoginGuard {
    /// The bytes of the login that the guard holds.
    pub closed spec fn login_bytes(&self) -> Seq<u8> {
        string_bytes(self.login)
    }
}

impl ActiveLogins {
    /// The logins (as bytes) that hold a session.
    pub closed spec fn view(&self) -> Set<Seq<u8>> {
        self.logins@.map_values(|s: String| string_bytes(s)).to_set()
    }

    /// No login is held twice.
    pub closed spec fn wf(&self) -> bool {
        forall|i: int, j: int|
            0 <= i < self.logins@.len() && 0 <= j < self.logins@.len() && i != j
                ==> string_bytes(#[trigger] self.logins@[i]) != string_bytes(#[trigger] self.logins@[j])
    }

    /// An empty registry.
    pub fn new() -> (r: ActiveLogins)
        ensures
            r.wf(),
            r.view() == Set::<Seq<u8>>::empty(),
    {
        let r = ActiveLogins { logins: Vec::new() };
        assert(r.view() =~= Set::<Seq<u8>>::empty());
        r
    }

    /// Index of the login whose bytes are `b`, if it holds a session.
    fn position(&self, b: &[u8]) -> (r: Option<usize>)
        ensures
            match r {
                Some(i) => i < self.logins@.len() && string_bytes(self.logins@[i as int]) == b@,
                None => forall|i: int|
                    0 <= i < self.logins@.len() ==> string_bytes(#[trigger] self.logins@[i]) != b@,
            },
    {
        let mut i: usize = 0;
        while i < self.logins.len()
            invariant
                i <= self.logins@.len(),
                forall|k: int| 0 <= k < i ==> string_bytes(#[trigger] self.logins@[k]) != b@,
            decreases self.logins@.len() - i,
        {
            let cur = self.logins[i].as_str().as_bytes();
            if crate::text::bytes_eq(cur, b) {
                return Some(i);
            }
            i = i + 1;
        }
        None
    }

    /// Whether `login` holds a session.
    pub fn contains(&self, login: &str) -> (r: bool)
        ensures
            r == self.view().contains(login.spec_bytes()),
    {
        let r = self.position(login.as_bytes());
        proof {
            self.lemma_view_contains(login.spec_bytes());
        }
        r.is_some()
    }

    proof fn lemma_view_contains(&self, b: Seq<u8>)
        ensures
            self.view().contains(b) <==> exists|i: int|
                0 <= i < self.logins@.len() && string_bytes(#[trigger] self.logins@[i]) == b,
    {
        let m = self.logins@.map_values(|s: String| string_bytes(s));
        if self.view().contains(b) {
            let i = choose|i: int| 0 <= i < m.len() && m[i] == b;
            assert(string_bytes(self.logins@[i]) == b);
        }
        if exists|i: int| 0 <= i < self.logins@.len() && string_bytes(#[trigger] self.logins@[i]) == b {
            let i = choose|i: int| 0 <= i < self.logins@.len() && string_bytes(#[trigger] self.logins@[i]) == b;
            assert(m[i] == b);
            assert(m.contains(b));
        }
    }

    /// Takes the session slot of `login`: `None` when the login already holds
    /// one (nothing changes), else the guard and the login is now held.
    pub fn acquire(&mut self, login: &str) -> (g: Option<ActiveLoginGuard>)
        requires
            old(self).wf(),
        ensures
            final(self).wf(),
            old(self).view().contains(login.spec_bytes()) ==> g is None && final(self).view() == old(self).view(),
            !old(self).view().contains(login.spec_bytes()) ==> {
                &&& g matches Some(gd)
                &&& gd.login_bytes() == login.spec_bytes()
                &&& final(self).view() == old(self).view().insert(login.spec_bytes())
            },
    {
        proof {
            self.lemma_view_contains(login.spec_bytes());
        }
        if self.position(login.as_bytes()).is_some() {
            return None;
        }
        let owned = login.to_owned();
        let kept = login.to_owned();
        let ghost before = self.logins@;
        self.logins.push(owned);
        proof {
            assert(string_bytes(kept) == login.spec_bytes());
            let m0 = before.map_values(|s: String| string_bytes(s));
            let m1 = self.logins@.map_values(|s: String| string_bytes(s));
            assert(m1 =~= m0.push(login.spec_bytes()));
            assert(m1.to_set() =~= m0.to_set().insert(login.spec_bytes())) by {
                assert forall|x: Seq<u8>| m1.to_set().contains(x) <==> m0.to_set().insert(login.spec_bytes()).contains(x) by {
                    if m1.contains(x) {
                        let i = choose|i: int| 0 <= i < m1.len() && m1[i] == x;
                        if i < m0.len() {
                            assert(m0[i] == x);
                        }
                    }
                    if m0.contains(x) {
                        let i = choose|i: int| 0 <= i < m0.len() && m0[i] == x;
                        assert(m1[i] == x);
                    }
                    if x == login.spec_bytes() {
                        assert(m1[m0.len() as int] == x);
                    }
                }
            }
        }
        Some(ActiveLoginGuard { login: kept })
    }

    /// Gives the session slot back: the guard's login no longer holds one.
    pub fn release(&mut self, g: ActiveLoginGuard)
        requires
            old(self).wf(),
        ensures
            final(self).wf(),
            final(self).view() == old(self).view().remove(g.login_bytes()),
    {
        let b = g.login.as_str().as_bytes();
        let pos = self.position(b);
        proof {
            self.lemma_view_contains(g.login_bytes());
        }
        match pos {
            None => {
                assert(self.view() =~= self.view().remove(g.login_bytes()));
            },
            Some(i) => {
                let ghost before = self.logins@;
                self.logins.remove(i);
                proof {
                    let m0 = before.map_values(|s: String| string_bytes(s));
                    let m1 = self.logins@.map_values(|s: String| string_bytes(s));
                    assert(m1 =~= m0.remove(i as int));
                    assert forall|x: Seq<u8>| m1.to_set().contains(x) <==> m0.to_set().remove(g.login_bytes()).contains(x) by {
                        if m1.contains(x) {
                            let k = choose|k: int| 0 <= k < m1.len() && m1[k] == x;
                            if k < i {
                                assert(m0[k] == x);
                                assert(k != i);
                            } else {
                                assert(m0[k + 1] == x);
                                assert(k + 1 != i);
                            }
                        }
                        if m0.contains(x) && x != g.login_bytes() {
                            let k = choose|k: int| 0 <= k < m0.len() && m0[k] == x;
                            if k < i {
                                assert(m1[k] == x);
                            } else {
                                assert(k != i);
                                assert(m1[k - 1] == x);
                            }
                        }
                    }
                    assert(m1.to_set() =~= m0.to_set().remove(g.login_bytes()));
                }
            },
        }
    }
}


/// Largest login key (`INT_MAX`).
pub const LOGIN_KEY_MAX: u32 = 0x7FFF_FFFF;
/// Random candidates tried before the first free key is taken.
pub const LOGIN_KEY_TRIES: u32 = 64;

/// A login-key candidate: the mixed clock value, truncated to 32 bits and
/// masked to 31.
pub open spec fn key_candidate_spec(mixed: u64) -> u32 {
    (mixed as u32) & 0x7FFF_FFFFu32
}

pub fn key_candidate(mixed: u64) -> (k: u32)
    ensures
        k == key_candidate_spec(mixed),
        k <= LOGIN_KEY_MAX,
{
    let k = (mixed as u32) & 0x7FFF_FFFFu32;
    assert(k <= 0x7FFF_FFFFu32) by (bit_vector)
        requires
            k == (mixed as u32) & 0x7FFF_FFFFu32,
    ;
    k
}

/// The login keys handed out by this auth process (each one unique).
pub struct LoginKeys {
    keys: Vec<u32>,
    counter: u64,
}

impl LoginKeys {
    pub closed spec fn view(&self) -> Set<u32> {
        self.keys@.to_set()
    }

    /// Keys handed out so far.
    pub closed spec fn count(&self) -> nat {
        self.keys@.len()
    }

    pub closed spec fn wf(&self) -> bool {
        &&& self.keys@.no_duplicates()
        &&& forall|i: int| 0 <= i < self.keys@.len() ==> 1 <= #[trigger] self.keys@[i] <= LOGIN_KEY_MAX
    }

    pub fn new() -> (r: LoginKeys)
        ensures
            r.wf(),
            r.view() == Set::<u32>::empty(),
            r.count() == 0,
    {
        let r = LoginKeys { keys: Vec::new(), counter: 0 };
        assert(r.view() =~= Set::<u32>::empty());
        r
    }

    /// How many keys were handed out.
    pub fn issued(&self) -> (n: usize)
        ensures
            n == self.count(),
    {
        self.keys.len()
    }

    pub fn contains(&self, k: u32) -> (r: bool)
        ensures
            r == self.view().contains(k),
    {
        let mut i: usize = 0;
        while i < self.keys.len()
            invariant
                i <= self.keys@.len(),
                forall|j: int| 0 <= j < i ==> self.keys@[j] != k,
            decreases self.keys@.len() - i,
        {
            if self.keys[i] == k {
                assert(self.keys@.contains(k));
                return true;
            }
            i = i + 1;
        }
        false
    }

    fn add(&mut self, k: u32)
        requires
            old(self).wf(),
            !old(self).view().contains(k),
            1 <= k <= LOGIN_KEY_MAX,
        ensures
            final(self).wf(),
            final(self).view() == old(self).view().insert(k),
            final(self).count() == old(self).count() + 1,
            final(self).counter == old(self).counter,
    {
        let ghost before = self.keys@;
        self.keys.push(k);
        proof {
            before.lemma_push_to_set_commute(k);
            assert forall|a: int, b: int| 0 <= a < b < self.keys@.len() implies self.keys@[a] != self.keys@[b] by {
                if b == before.len() {
                    assert(before.contains(self.keys@[a]));
                }
            }
        }
    }

    /// Some key in 1..=count+1 is free (the keys are distinct).
    proof fn lemma_free_key_below(&self, k: u32)
        requires
            self.wf(),
            1 <= k,
            forall|j: u32| 1 <= j < k ==> #[trigger] self.view().contains(j),
        ensures
            k - 1 <= self.count(),
    {
        let r = Seq::new((k - 1) as nat, |i: int| (i + 1) as u32);
        assert(r.no_duplicates());
        r.unique_seq_to_set();
        self.keys@.unique_seq_to_set();
        assert(r.to_set().subset_of(self.view())) by {
            assert forall|x: u32| r.to_set().contains(x) implies self.view().contains(x) by {
                let i = choose|i: int| 0 <= i < r.len() && r[i] == x;
                assert(1 <= x < k);
            }
        }
        vstd::set_lib::lemma_len_subset(r.to_set(), self.view());
    }

    /// A new unique login key in 1..=`INT_MAX`: up to 64 random candidates
    /// (clock mixed with the counter, masked to 31 bits), then the first
    /// free key counting from 1. The key is recorded.
    pub fn unique_login_key(&mut self) -> (k: u32)
        requires
            old(self).wf(),
            old(self).count() < LOGIN_KEY_MAX,
        ensures
            final(self).wf(),
            1 <= k <= LOGIN_KEY_MAX,
            !old(self).view().contains(k),
            final(self).view() == old(self).view().insert(k),
            final(self).count() == old(self).count() + 1,
    {
        let mut tries: u32 = 0;
        while tries < LOGIN_KEY_TRIES
            invariant
                self.wf(),
                self.view() == old(self).view(),
                self.count() == old(self).count(),
            decreases LOGIN_KEY_TRIES - tries,
        {
            let nanos = crate::random::now_nanos();
            let c = self.counter;
            self.counter = c.wrapping_add(1);
            let k = key_candidate(crate::random::mix64(nanos, c));
            if k != 0 && !self.contains(k) {
                self.add(k);
                return k;
            }
            tries = tries + 1;
        }
        let mut k: u32 = 1;
        while self.contains(k)
            invariant
                self.wf(),
                self.view() == old(self).view(),
                self.count() == old(self).count(),
                self.count() < LOGIN_KEY_MAX,
                1 <= k <= LOGIN_KEY_MAX,
                forall|j: u32| 1 <= j < k ==> #[trigger] self.view().contains(j),
            decreases LOGIN_KEY_MAX - k,
        {
            proof {
                assert(forall|j: u32| 1 <= j < k + 1 ==> #[trigger] self.view().contains(j));
                self.lemma_free_key_below((k + 1) as u32);
            }
            k = k + 1;
        }
        self.add(k);
        k
    }
}

/// What the auth answers to a `LOGIN3` before the credentials are checked.
#[derive(Debug, Clone, Copy, PartialEq, Eq, Structural)]
pub enum LoginRefusal {
    /// The client version differs: the connection closes without a reply.
    VersionMismatch,
    /// `GC_LOGIN_FAILURE "NOID"`: not a valid login string.
    NoId,
    /// `GC_LOGIN_FAILURE "SHUTDOWN"`: no more clients taken.
    Shutdown,
    /// `GC_LOGIN_FAILURE "ALREADY"`: the login holds a session.
    Already,
}

impl LoginRefusal {
    /// The status text of `GC_LOGIN_FAILURE` (none for a version mismatch).
    pub fn status(&self) -> (s: &'static str)
        ensures
            s@ == match *self {
                LoginRefusal::VersionMismatch => ""@,
                LoginRefusal::NoId => "NOID"@,
                LoginRefusal::Shutdown => "SHUTDOWN"@,
                LoginRefusal::Already => "ALREADY"@,
            },
    {
        match self {
            LoginRefusal::VersionMismatch => "",
            LoginRefusal::NoId => "NOID",
            LoginRefusal::Shutdown => "SHUTDOWN",
            LoginRefusal::Already => "ALREADY",
        }
    }
}

/// The checks of a `LOGIN3` in order: version, login string, shutdown, a
/// session already held.
pub open spec fn admission_spec(held: Set<Seq<u8>>, version: Option<u32>, expected: u32, login: Seq<u8>, no_more_clients: bool) -> Option<LoginRefusal> {
    if version matches Some(v) && v != expected {
        Some(LoginRefusal::VersionMismatch)
    } else if !valid_login_spec(login) {
        Some(LoginRefusal::NoId)
    } else if no_more_clients {
        Some(LoginRefusal::Shutdown)
    } else if held.contains(login) {
        Some(LoginRefusal::Already)
    } else {
        None
    }
}

impl ActiveLogins {
    /// Checks a `LOGIN3` (login already normalized): the refusal, or the
    /// guard of the session slot that the login now holds.
    pub fn admit_login(&mut self, version: Option<u32>, expected_version: u32, login: &str, no_more_clients: bool) -> (r: Result<ActiveLoginGuard, LoginRefusal>)
        requires
            old(self).wf(),
        ensures
            final(self).wf(),
            match admission_spec(old(self).view(), version, expected_version, login.spec_bytes(), no_more_clients) {
                Some(e) => r == Err::<ActiveLoginGuard, LoginRefusal>(e) && final(self).view() == old(self).view(),
                None => r matches Ok(g) && g.login_bytes() == login.spec_bytes()
                    && final(self).view() == old(self).view().insert(login.spec_bytes()),
            },
    {
        match version {
            Some(v) => {
                if v != expected_version {
                    return Err(LoginRefusal::VersionMismatch);
                }
            },
            None => {},
        }
        if !is_valid_login_string(login) {
            return Err(LoginRefusal::NoId);
        }
        if no_more_clients {
            return Err(LoginRefusal::Shutdown);
        }
        match self.acquire(login) {
            Some(g) => Ok(g),
            None => Err(LoginRefusal::Already),
        }
    }
}

/// The key of `GC_AUTH_SUCCESS` xor the four client keys (the panama key).
pub open spec fn panama_key_spec(key: u32, client: [u32; 4]) -> u32 {
    key ^ client[0] ^ client[1] ^ client[2] ^ client[3]
}

pub fn panama_key(key: u32, client: [u32; 4]) -> (p: u32)
    ensures
        p == panama_key_spec(key, client),
{
    key ^ client[0] ^ client[1] ^ client[2] ^ client[3]
}

/// The reply to checked credentials: `(login key, result)`; a failed check
/// answers key 0 and result 0, a good one a new unique key and result 1.
pub fn auth_reply(keys: &mut LoginKeys, ok: bool) -> (r: (u32, u8))
    requires
        old(keys).wf(),
        old(keys).count() < LOGIN_KEY_MAX,
    ensures
        final(keys).wf(),
        !ok ==> r == (0u32, 0u8) && final(keys).view() == old(keys).view(),
        ok ==> r.1 == 1 && 1 <= r.0 <= LOGIN_KEY_MAX && !old(keys).view().contains(r.0)
            && final(keys).view() == old(keys).view().insert(r.0),
{
    if ok {
        (keys.unique_login_key(), 1)
    } else {
        (0, 0)
    }
}

/// One session per login: once a login is admitted, every later LOGIN3 of
/// it is refused `ALREADY` while it holds its session; once its guard is
/// released, the same LOGIN3 is admitted again.
pub proof fn law_one_session_per_login(held: Set<Seq<u8>>, version: Option<u32>, expected: u32, login: Seq<u8>)
    requires
        admission_spec(held, version, expected, login, false) is None,
    ensures
        admission_spec(held.insert(login), version, expected, login, false) == Some(LoginRefusal::Already),
        admission_spec(held.insert(login).remove(login), version, expected, login, false) is None,
{
    assert(!held.insert(login).remove(login).contains(login));
}

/// A login key is never 0 and never handed out twice: a key handed out
/// after another (by `unique_login_key` on the store the first call left)
/// differs from it, and both stay held.
pub proof fn law_login_keys_unique(held: Set<u32>, k1: u32, k2: u32)
    requires
        1 <= k1 <= LOGIN_KEY_MAX,
        !held.contains(k1),
        1 <= k2 <= LOGIN_KEY_MAX,
        !held.insert(k1).contains(k2),
    ensures
        k1 != 0 && k2 != 0,
        k1 != k2,
        held.insert(k1).insert(k2).contains(k1),
        held.insert(k1).insert(k2).contains(k2),
{
}

/// The panama key mixes in the auth key and all four client keys: xoring
/// the four client keys into it again gives the auth key back, and
/// changing the auth key, or any single client key `i`, changes it.
pub proof fn law_panama_key_mixes_all(key: u32, key2: u32, c: [u32; 4], d: [u32; 4], i: int)
    requires
        0 <= i < 4,
    ensures
        panama_key_spec(key, c) ^ c[0] ^ c[1] ^ c[2] ^ c[3] == key,
        key2 != key ==> panama_key_spec(key2, c) != panama_key_spec(key, c),
        (c[i] != d[i] && forall|j: int| 0 <= j < 4 && j != i ==> c[j] == d[j]) ==> panama_key_spec(key, c)
            != panama_key_spec(key, d),
{
    let a0 = c[0];
    let a1 = c[1];
    let a2 = c[2];
    let a3 = c[3];
    let p = panama_key_spec(key, c);
    assert(p ^ a0 ^ a1 ^ a2 ^ a3 == key) by (bit_vector)
        requires
            p == key ^ a0 ^ a1 ^ a2 ^ a3,
    ;
    assert(key2 != key ==> key2 ^ a0 ^ a1 ^ a2 ^ a3 != key ^ a0 ^ a1 ^ a2 ^ a3) by (bit_vector);
    if c[i] != d[i] && forall|j: int| 0 <= j < 4 && j != i ==> c[j] == d[j] {
        let b0 = d[0];
        let b1 = d[1];
        let b2 = d[2];
        let b3 = d[3];
        if i == 0 {
            assert(a1 == b1 && a2 == b2 && a3 == b3);
            assert(key ^ a0 ^ a1 ^ a2 ^ a3 != key ^ b0 ^ a1 ^ a2 ^ a3) by (bit_vector)
                requires
                    a0 != b0,
            ;
        } else if i == 1 {
            assert(a0 == b0 && a2 == b2 && a3 == b3);
            assert(key ^ a0 ^ a1 ^ a2 ^ a3 != key ^ a0 ^ b1 ^ a2 ^ a3) by (bit_vector)
                requires
                    a1 != b1,
            ;
        } else if i == 2 {
            assert(a0 == b0 && a1 == b1 && a3 == b3);
            assert(key ^ a0 ^ a1 ^ a2 ^ a3 != key ^ a0 ^ a1 ^ b2 ^ a3) by (bit_vector)
                requires
                    a2 != b2,
            ;
        } else {
            assert(a0 == b0 && a1 == b1 && a2 == b2);
            assert(key ^ a0 ^ a1 ^ a2 ^ a3 != key ^ a0 ^ a1 ^ a2 ^ b3) by (bit_vector)
                requires
                    a3 != b3,
            ;
        }
    }
}

/// Byte `36 * i + t` of the first `k` slots is byte `t` of slot `i`: the
/// channel's own slot below `count`, zero after it.
proof fn lemma_channel_slots_index(chs: Seq<ChannelCfg>, count: nat, k: nat, i: int, t: int)
    requires
        0 <= i < k,
        0 <= t < 36,
    ensures
        channel_slots(chs, count, k)[36 * i + t] == (if i < count {
            channel_slot(chs[i])[t]
        } else {
            0u8
        }),
    decreases k,
{
    lemma_channel_slots_len(chs, count, (k - 1) as nat);
    if i < k - 1 {
        lemma_channel_slots_index(chs, count, (k - 1) as nat, i, t);
    }
}

/// The bytes of a channel slot: the name and the IP in 16 bytes each, then
/// the port and the player count little-endian.
proof fn lemma_channel_slot_bytes(ch: ChannelCfg)
    ensures
        channel_slot(ch).len() == 36,
        channel_slot(ch)[32] == (ch.port % 256) as u8,
        channel_slot(ch)[33] == (ch.port / 256) as u8,
        channel_slot(ch)[34] == (ch.players % 256) as u8,
        channel_slot(ch)[35] == (ch.players / 256) as u8,
{
    assert(padded(encode_utf8(ch.name@), 16).len() == 16);
    assert(padded(encode_utf8(ch.ip@), 16).len() == 16);
}

/// Byte `t` of a 16-byte string field: the string's own byte for the first
/// 15 bytes it has, NUL after.
proof fn lemma_padded_byte(s: Seq<u8>, t: int)
    requires
        0 <= t < 16,
    ensures
        padded(s, 16).len() == 16,
        padded(s, 16)[t] == (if t < 15 && t < s.len() {
            s[t]
        } else {
            0u8
        }),
{
    let n: int = if s.len() < 15 { s.len() as int } else { 15 };
    assert(padded(s, 16) == s.take(n) + zeros((16 - n) as nat));
    if t >= n {
        assert(padded(s, 16)[t] == zeros((16 - n) as nat)[t - n]);
    }
}

/// Each announced slot `i` (one per channel, at most four), which starts at
/// byte `8 + 36 * i`, carries its own channel: the name and the IP in 16
/// bytes each (at most 15 bytes of the string, NUL after), then its port
/// and player count little-endian; a slot past the channels is all zero.
/// The header is the packet id, the count and the three rates.
pub proof fn law_channel_list_slots(chs: Seq<ChannelCfg>, exp: u16, gold: u16, drop: u16, i: int)
    requires
        0 <= i < 4,
    ensures
        channel_list_bytes(chs, exp, gold, drop).len() == GC_CHANNEL_LIST_SIZE,
        channel_list_bytes(chs, exp, gold, drop)[0] == GC_CHANNEL_LIST,
        channel_list_bytes(chs, exp, gold, drop)[1] == (if chs.len() < 4 { chs.len() } else { 4 }),
        channel_list_bytes(chs, exp, gold, drop)[2] == (exp % 256) as u8,
        channel_list_bytes(chs, exp, gold, drop)[3] == (exp / 256) as u8,
        channel_list_bytes(chs, exp, gold, drop)[4] == (gold % 256) as u8,
        channel_list_bytes(chs, exp, gold, drop)[5] == (gold / 256) as u8,
        channel_list_bytes(chs, exp, gold, drop)[6] == (drop % 256) as u8,
        channel_list_bytes(chs, exp, gold, drop)[7] == (drop / 256) as u8,
        i < chs.len() ==> forall|t: int|
            0 <= t < 16 ==> #[trigger] channel_list_bytes(chs, exp, gold, drop)[8 + 36 * i + t] == (if t < 15
                && t < encode_utf8(chs[i].name@).len() {
                encode_utf8(chs[i].name@)[t]
            } else {
                0u8
            }),
        i < chs.len() ==> forall|t: int|
            0 <= t < 16 ==> #[trigger] channel_list_bytes(chs, exp, gold, drop)[8 + 36 * i + 16 + t] == (if t < 15
                && t < encode_utf8(chs[i].ip@).len() {
                encode_utf8(chs[i].ip@)[t]
            } else {
                0u8
            }),
        i < chs.len() ==> channel_list_bytes(chs, exp, gold, drop)[8 + 36 * i + 32] == (chs[i].port % 256) as u8
            && channel_list_bytes(chs, exp, gold, drop)[8 + 36 * i + 33] == (chs[i].port / 256) as u8
            && channel_list_bytes(chs, exp, gold, drop)[8 + 36 * i + 34] == (chs[i].players % 256) as u8
            && channel_list_bytes(chs, exp, gold, drop)[8 + 36 * i + 35] == (chs[i].players / 256) as u8,
        i >= chs.len() ==> forall|t: int|
            0 <= t < 36 ==> #[trigger] channel_list_bytes(chs, exp, gold, drop)[8 + 36 * i + t] == 0,
{
    let count = channel_count(chs.len());
    let b = channel_list_bytes(chs, exp, gold, drop);
    let head = seq![GC_CHANNEL_LIST, count as u8] + le16(exp) + le16(gold) + le16(drop);
    lemma_channel_slots_len(chs, count, 4);
    assert(head.len() == 8);
    assert(b == head + channel_slots(chs, count, 4));
    if i < chs.len() {
        lemma_channel_slot_bytes(chs[i]);
        lemma_channel_slots_index(chs, count, 4, i, 32);
        lemma_channel_slots_index(chs, count, 4, i, 33);
        lemma_channel_slots_index(chs, count, 4, i, 34);
        lemma_channel_slots_index(chs, count, 4, i, 35);
        let name = encode_utf8(chs[i].name@);
        let ip = encode_utf8(chs[i].ip@);
        assert forall|t: int| 0 <= t < 16 implies #[trigger] b[8 + 36 * i + t] == (if t < 15 && t < name.len() {
            name[t]
        } else {
            0u8
        }) by {
            lemma_channel_slots_index(chs, count, 4, i, t);
            lemma_padded_byte(name, t);
        }
        assert forall|t: int| 0 <= t < 16 implies #[trigger] b[8 + 36 * i + 16 + t] == (if t < 15 && t < ip.len() {
            ip[t]
        } else {
            0u8
        }) by {
            lemma_channel_slots_index(chs, count, 4, i, 16 + t);
            lemma_padded_byte(ip, t);
        }
    } else {
        assert forall|t: int| 0 <= t < 36 implies #[trigger] b[8 + 36 * i + t] == 0 by {
            lemma_channel_slots_index(chs, count, 4, i, t);
        }
    }
}

/// What the auth does with a packet while it waits for the `LOGIN3`.
#[derive(Debug, Clone, Copy, PartialEq, Eq, Structural)]
pub enum AuthPacket {
    Keepalive,
    Login,
    LocaleRequest,
    Unexpected,
}

pub fn auth_packet(h: u8) -> (k: AuthPacket)
    ensures
        (h == crate::entry::CG_TIME_SYNC || h == crate::entry::CG_PONG) ==> k == AuthPacket::Keepalive,
        h == crate::entry::CG_LOGIN3 ==> k == AuthPacket::Login,
        h == crate::locale::CG_LOCALE_REQUEST ==> k == AuthPacket::LocaleRequest,
        !(h == crate::entry::CG_TIME_SYNC || h == crate::entry::CG_PONG || h == crate::entry::CG_LOGIN3
            || h == crate::locale::CG_LOCALE_REQUEST) ==> k == AuthPacket::Unexpected,
{
    if h == crate::entry::CG_TIME_SYNC || h == crate::entry::CG_PONG {
        AuthPacket::Keepalive
    } else if h == crate::entry::CG_LOGIN3 {
        AuthPacket::Login
    } else if h == crate::locale::CG_LOCALE_REQUEST {
        AuthPacket::LocaleRequest
    } else {
        AuthPacket::Unexpected
    }
}

/// One packet of the reply to credentials.
#[derive(Debug, Clone, Copy, PartialEq, Eq, Structural)]
pub enum AuthReplyPart {
    /// The pack key of panama entry `i` (`151`).
    Panama(usize),
    /// The hybrid-crypt key stream (`152`).
    HybridKeys,
    /// The SDB of the default map (`153`).
    Sdb,
    /// `GC_CHANNEL_LIST` (`164`).
    ChannelList,
    /// `GC_AUTH_SUCCESS` (`150`): always last, the client leaves the auth on it.
    AuthSuccess,
}

/// The packets that answer credentials, in order: on success one pack key
/// per panama entry, the key stream when there is one, the SDB when there is
/// one, the channel list when channels are configured, then the auth
/// success; on failure the auth success (with result 0) alone.
pub open spec fn auth_reply_parts_spec(ok: bool, panama: nat, keys: bool, sdb: bool, channels: bool) -> Seq<
    AuthReplyPart,
> {
    if !ok {
        seq![AuthReplyPart::AuthSuccess]
    } else {
        Seq::new(panama, |i: int| AuthReplyPart::Panama(i as usize)) + (if keys {
            seq![AuthReplyPart::HybridKeys]
        } else {
            Seq::empty()
        }) + (if sdb {
            seq![AuthReplyPart::Sdb]
        } else {
            Seq::empty()
        }) + (if channels {
            seq![AuthReplyPart::ChannelList]
        } else {
            Seq::empty()
        }) + seq![AuthReplyPart::AuthSuccess]
    }
}

pub fn auth_reply_parts(ok: bool, panama: usize, keys: bool, sdb: bool, channels: bool) -> (r: Vec<AuthReplyPart>)
    ensures
        r@ == auth_reply_parts_spec(ok, panama as nat, keys, sdb, channels),
{
    let mut r: Vec<AuthReplyPart> = Vec::new();
    if !ok {
        r.push(AuthReplyPart::AuthSuccess);
        assert(r@ =~= auth_reply_parts_spec(ok, panama as nat, keys, sdb, channels));
        return r;
    }
    let mut i: usize = 0;
    while i < panama
        invariant
            i <= panama,
            r@ == Seq::new(i as nat, |k: int| AuthReplyPart::Panama(k as usize)),
        decreases panama - i,
    {
        r.push(AuthReplyPart::Panama(i));
        i = i + 1;
        assert(r@ =~= Seq::new(i as nat, |k: int| AuthReplyPart::Panama(k as usize)));
    }
    if keys {
        r.push(AuthReplyPart::HybridKeys);
    }
    if sdb {
        r.push(AuthReplyPart::Sdb);
    }
    if channels {
        r.push(AuthReplyPart::ChannelList);
    }
    r.push(AuthReplyPart::AuthSuccess);
    assert(r@ =~= auth_reply_parts_spec(ok, panama as nat, keys, sdb, channels));
    r
}

} // verus!
