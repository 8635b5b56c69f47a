//! Raw wire capture for benchmark runs: which connections are being
//! captured, the file each direction of a connection is appended to, and the
//! per-tick metrics line. The application opens, writes and flushes the
//! files; this module decides when and where.

use vstd::prelude::*;
use crate::text::{ascii_chars, string_from_ascii};
use crate::wire::{
    all_ascii, decimal, lemma_decimal_ascii, push_all, push_decimal, push_decimal_padded,
    zero_padded,
};

verus! {

/// Direction of the captured traffic.
#[derive(Debug, Clone, Copy, PartialEq, Eq, Structural)]
pub enum Direction {
    Inbound,
    Outbound,
}

/// The file-name tag of a direction.
pub open spec fn direction_tag(d: Direction) -> Seq<char> {
    match d {
        Direction::Inbound => seq!['i', 'n'],
        Direction::Outbound => seq!['o', 'u', 't'],
    }
}

/// The tag as bytes.
pub open spec fn direction_tag_bytes(d: Direction) -> Seq<u8> {
    match d {
        Direction::Inbound => seq![105u8, 110u8],
        Direction::Outbound => seq![111u8, 117u8, 116u8],
    }
}

impl Direction {
    /// `"in"` or `"out"`.
    pub fn tag(&self) -> (t: &'static str)
        ensures
            t@ == direction_tag(*self),
    {
        match self {
            Direction::Inbound => {
                let t = "in";
                proof {
                    reveal_strlit("in");
                }
                t
            },
            Direction::Outbound => {
                let t = "out";
                proof {
                    reveal_strlit("out");
                }
                t
            },
        }
    }
}

/// `conn_{id:06}_{tag}.bin`.
pub open spec fn conn_file_bytes(conn_id: u32, d: Direction) -> Seq<u8> {
    seq![99u8, 111u8, 110u8, 110u8, 95u8] + zero_padded(decimal(conn_id as nat), 6) + seq![95u8]
        + direction_tag_bytes(d) + seq![46u8, 98u8, 105u8, 110u8]
}

/// The name of the file that one direction of a connection is appended to.
pub fn conn_file_name(conn_id: u32, d: Direction) -> (s: String)
    ensures
        s@ == ascii_chars(conn_file_bytes(conn_id, d)),
{
    let mut v: Vec<u8> = Vec::new();
    push_all(&mut v, &[99u8, 111u8, 110u8, 110u8, 95u8]);
    push_decimal_padded(&mut v, conn_id as u64, 6);
    v.push(95u8);
    match d {
        Direction::Inbound => push_all(&mut v, &[105u8, 110u8]),
        Direction::Outbound => push_all(&mut v, &[111u8, 117u8, 116u8]),
    }
    push_all(&mut v, &[46u8, 98u8, 105u8, 110u8]);
    proof {
        lemma_decimal_ascii(conn_id as nat);
        assert(v@ =~= conn_file_bytes(conn_id, d));
        assert(all_ascii(zero_padded(decimal(conn_id as nat), 6)));
        assert(all_ascii(v@));
    }
    string_from_ascii(v)
}

/// The world counters of one tick, as the bench harness records them.
#[derive(Debug, Clone, Copy, PartialEq, Eq)]
pub struct TickMetrics {
    pub ticks: u64,
    pub intents_processed: u64,
    pub mobs_spawned: u64,
    pub mobs_despawned: u64,
    pub events_emitted: u64,
    pub last_tick_ms: u64,
}

/// `ticks,intents_processed,mobs_spawned,mobs_despawned,events_emitted,tick_ms`
pub open spec fn metrics_header_bytes() -> Seq<u8> {
    seq![
        116u8, 105, 99, 107, 115, 44,
        105, 110, 116, 101, 110, 116, 115, 95, 112, 114, 111, 99, 101, 115, 115, 101, 100, 44,
        109, 111, 98, 115, 95, 115, 112, 97, 119, 110, 101, 100, 44,
        109, 111, 98, 115, 95, 100, 101, 115, 112, 97, 119, 110, 101, 100, 44,
        101, 118, 101, 110, 116, 115, 95, 101, 109, 105, 116, 116, 101, 100, 44,
        116, 105, 99, 107, 95, 109, 115, 10,
    ]
}

/// One CSV line of counters, comma separated, newline terminated.
pub open spec fn metrics_line_bytes(m: TickMetrics) -> Seq<u8> {
    decimal(m.ticks as nat) + seq![44u8] + decimal(m.intents_processed as nat) + seq![44u8]
        + decimal(m.mobs_spawned as nat) + seq![44u8] + decimal(m.mobs_despawned as nat) + seq![
        44u8,
    ] + decimal(m.events_emitted as nat) + seq![44u8] + decimal(m.last_tick_ms as nat) + seq![
        10u8,
    ]
}

/// What one `record_metrics` appends: the header first when the file is new.
pub open spec fn metrics_record_bytes(m: TickMetrics, file_exists: bool) -> Seq<u8> {
    if file_exists {
        metrics_line_bytes(m)
    } else {
        metrics_header_bytes() + metrics_line_bytes(m)
    }
}

/// State of the capture harness: disabled, or enabled on a directory with
/// the set of connections whose files are open.
pub struct Capture {
    dir: Option<String>,
    conns: Vec<u32>,
}

impl Capture {
    pub closed spec fn enabled(&self) -> bool {
        self.dir is Some
    }

    /// The capture directory (meaningful when enabled).
    pub closed spec fn dir_view(&self) -> Seq<char> {
        match self.dir {
            Some(d) => d@,
            None => Seq::empty(),
        }
    }

    /// Connections registered since the last `init`.
    pub closed spec fn open_set(&self) -> Set<u32> {
        self.conns@.to_set()
    }

    pub closed spec fn wf(&self) -> bool {
        &&& self.conns@.no_duplicates()
        &&& (self.dir is None ==> self.conns@.len() == 0)
    }

    /// A disabled capture holds no connection.
    pub proof fn lemma_disabled_registers_nothing(&self)
        requires
            self.wf(),
        ensures
            !self.enabled() ==> self.open_set() == Set::<u32>::empty(),
    {
        if !self.enabled() {
            assert(self.conns@.to_set() =~= Set::<u32>::empty());
        }
    }

    /// Capture disabled: every call is a no-op.
    pub fn new() -> (c: Capture)
        ensures
            c.wf(),
            !c.enabled(),
            c.open_set() == Set::<u32>::empty(),
    {
        let c = Capture { dir: None, conns: Vec::new() };
        assert(c.conns@.to_set() =~= Set::<u32>::empty());
        c
    }

    /// Enables the capture on `dir`; a second `init` replaces the state and
    /// forgets every registered connection.
    pub fn init(&mut self, dir: String)
        ensures
            final(self).wf(),
            final(self).enabled(),
            final(self).dir_view() == dir@,
            final(self).open_set() == Set::<u32>::empty(),
    {
        self.dir = Some(dir);
        self.conns = Vec::new();
        assert(self.conns@.to_set() =~= Set::<u32>::empty());
    }

    pub fn is_enabled(&self) -> (r: bool)
        ensures
            r == self.enabled(),
    {
        self.dir.is_some()
    }

    /// The directory the files live in, when enabled.
    pub fn dir(&self) -> (r: Option<&String>)
        ensures
            r is Some <==> self.enabled(),
            r matches Some(d) ==> d@ == self.dir_view(),
    {
        match &self.dir {
            Some(d) => Some(d),
            None => None,
        }
    }

    /// The two files to open for a new connection (inbound, outbound), or
    /// `None` when the capture is disabled.
    pub fn open_conn(&self, conn_id: u32) -> (r: Option<(String, String)>)
        ensures
            r is Some <==> self.enabled(),
            r matches Some(p) ==> p.0@ == ascii_chars(conn_file_bytes(conn_id, Direction::Inbound))
                && p.1@ == ascii_chars(conn_file_bytes(conn_id, Direction::Outbound)),
    {
        if self.dir.is_none() {
            return None;
        }
        Some((conn_file_name(conn_id, Direction::Inbound), conn_file_name(conn_id, Direction::Outbound)))
    }

    fn index_of(&self, conn_id: u32) -> (r: Option<usize>)
        ensures
            r is Some <==> self.conns@.contains(conn_id),
            r matches Some(i) ==> i < self.conns@.len() && self.conns@[i as int] == conn_id,
    {
        let mut i: usize = 0;
        while i < self.conns.len()
            invariant
                i <= self.conns@.len(),
                forall|k: int| 0 <= k < i ==> self.conns@[k] != conn_id,
            decreases self.conns@.len() - i,
        {
            if self.conns[i] == conn_id {
                return Some(i);
            }
            i = i + 1;
        }
        None
    }

    /// Records that both files of `conn_id` were opened; a second
    /// registration of the same id keeps one entry. No-op when disabled.
    pub fn register(&mut self, conn_id: u32)
        requires
            old(self).wf(),
        ensures
            final(self).wf(),
            final(self).enabled() == old(self).enabled(),
            final(self).dir_view() == old(self).dir_view(),
            final(self).open_set() == if old(self).enabled() {
                old(self).open_set().insert(conn_id)
            } else {
                old(self).open_set()
            },
            !final(self).enabled() ==> final(self).open_set() == Set::<u32>::empty(),
    {
        if self.dir.is_none() {
            return;
        }
        match self.index_of(conn_id) {
            Some(_) => {
                assert(self.conns@.to_set().insert(conn_id) =~= self.conns@.to_set());
            },
            None => {
                let ghost before = self.conns@;
                self.conns.push(conn_id);
                proof {
                    assert(self.conns@ == before.push(conn_id));
                    before.lemma_push_to_set_commute(conn_id);
                    assert forall|a: int, b: int|
                        0 <= a < b < self.conns@.len() implies self.conns@[a] != self.conns@[b] by {
                        if b == self.conns@.len() - 1 {
                            assert(before.contains(self.conns@[a]));
                        }
                    }
                }
            },
        }
    }

    /// Whether `data` is appended to the file of `conn_id` in `direction`:
    /// only non-empty data of a registered connection while enabled.
    pub fn capture_conn(&self, conn_id: u32, direction: Direction, data: &[u8]) -> (w: bool)
        requires
            self.wf(),
        ensures
            w == captures(self.enabled(), self.open_set(), conn_id, data@.len()),
    {
        if data.len() == 0 {
            return false;
        }
        if self.dir.is_none() {
            return false;
        }
        let r = self.index_of(conn_id);
        proof {
            assert(self.conns@.contains(conn_id) <==> self.conns@.to_set().contains(conn_id));
        }
        r.is_some()
    }

    /// Closes the connection: its entry is forgotten, so a later capture on
    /// the same id writes nothing until it registers again. Returns whether
    /// there were files to flush.
    pub fn close_conn(&mut self, conn_id: u32) -> (flush: bool)
        requires
            old(self).wf(),
        ensures
            final(self).wf(),
            flush == (old(self).enabled() && old(self).open_set().contains(conn_id)),
            final(self).enabled() == old(self).enabled(),
            final(self).dir_view() == old(self).dir_view(),
            final(self).open_set() == old(self).open_set().remove(conn_id),
            !old(self).open_set().contains(conn_id) ==> final(self).open_set() == old(self).open_set(),
            !final(self).enabled() ==> final(self).open_set() == Set::<u32>::empty(),
    {
        proof {
            assert(self.conns@.contains(conn_id) <==> self.conns@.to_set().contains(conn_id));
        }
        match self.index_of(conn_id) {
            None => {
                assert(self.conns@.to_set().remove(conn_id) =~= self.conns@.to_set());
                false
            },
            Some(i) => {
                let ghost before = self.conns@;
                self.conns.remove(i);
                proof {
                    assert(self.conns@ == before.remove(i as int));
                    assert forall|a: int, b: int|
                        0 <= a < b < self.conns@.len() implies self.conns@[a] != self.conns@[b] by {
                        let a0 = if a < i { a } else { a + 1 };
                        let b0 = if b < i { b } else { b + 1 };
                        assert(self.conns@[a] == before[a0]);
                        assert(self.conns@[b] == before[b0]);
                    }
                    assert forall|x: u32| #[trigger] self.conns@.to_set().contains(x) <==> before.to_set().remove(conn_id).contains(x) by {
                        if self.conns@.contains(x) {
                            let k = choose|k: int| 0 <= k < self.conns@.len() && self.conns@[k] == x;
                            let k0 = if k < i { k } else { k + 1 };
                            assert(before[k0] == x);
                            assert(k0 != i);
                        }
                        if before.contains(x) && x != conn_id {
                            let k = choose|k: int| 0 <= k < before.len() && before[k] == x;
                            assert(k != i);
                            let k1 = if k < i { k } else { k - 1 };
                            assert(self.conns@[k1] == x);
                        }
                    }
                    assert(self.conns@.to_set() =~= before.to_set().remove(conn_id));
                }
                true
            },
        }
    }

    /// What to append to `tick_ms.csv` for one tick (`None` when disabled);
    /// `file_exists` says whether the header was already written.
    pub fn record_metrics(&self, m: TickMetrics, file_exists: bool) -> (r: Option<Vec<u8>>)
        ensures
            r is Some <==> self.enabled(),
            r matches Some(b) ==> b@ == metrics_record_bytes(m, file_exists),
    {
        if self.dir.is_none() {
            return None;
        }
        let mut v: Vec<u8> = Vec::new();
        if !file_exists {
            push_all(
                &mut v,
                &[
                    116u8, 105, 99, 107, 115, 44,
                    105, 110, 116, 101, 110, 116, 115, 95, 112, 114, 111, 99, 101, 115, 115, 101, 100, 44,
                    109, 111, 98, 115, 95, 115, 112, 97, 119, 110, 101, 100, 44,
                    109, 111, 98, 115, 95, 100, 101, 115, 112, 97, 119, 110, 101, 100, 44,
                    101, 118, 101, 110, 116, 115, 95, 101, 109, 105, 116, 116, 101, 100, 44,
                    116, 105, 99, 107, 95, 109, 115, 10,
                ],
            );
        }
        let ghost start = v@;
        push_decimal(&mut v, m.ticks);
        v.push(44u8);
        push_decimal(&mut v, m.intents_processed);
        v.push(44u8);
        push_decimal(&mut v, m.mobs_spawned);
        v.push(44u8);
        push_decimal(&mut v, m.mobs_despawned);
        v.push(44u8);
        push_decimal(&mut v, m.events_emitted);
        v.push(44u8);
        push_decimal(&mut v, m.last_tick_ms);
        v.push(10u8);
        assert(v@ =~= start + metrics_line_bytes(m));
        assert(v@ =~= metrics_record_bytes(m, file_exists));
        Some(v)
    }
}

/// The capture rule: non-empty data of a registered connection while the
/// harness is enabled.
pub open spec fn captures(enabled: bool, open: Set<u32>, conn_id: u32, len: nat) -> bool {
    len > 0 && enabled && open.contains(conn_id)
}

/// Once a connection is closed, nothing more is captured for it until it is
/// registered again.
pub proof fn law_closed_connection_captures_nothing(enabled: bool, open: Set<u32>, conn_id: u32, len: nat)
    ensures
        !captures(enabled, open.remove(conn_id), conn_id, len),
{
}

/// Empty data is never written, whatever the state.
pub proof fn law_empty_data_is_never_captured(enabled: bool, open: Set<u32>, conn_id: u32)
    ensures
        !captures(enabled, open, conn_id, 0),
{
}

} // verus!
