//! Network metrics of the node: byte counters, round-trip-time averages,
//! and tables of recently seen peers per transport (P2P, mailbox, WebRTC).
use vstd::prelude::*;
use crate::text::{str_chars, chars_eq};

verus! {

/// `x + y` modulo 2^64, as an atomic `fetch_add` leaves it.
pub open spec fn wrap_add(x: u64, y: u64) -> u64 {
    ((x + y) % 0x1_0000_0000_0000_0000int) as u64
}

pub open spec fn sat_mul(x: u64, y: u64) -> u64 {
    if x * y > u64::MAX {
        u64::MAX
    } else {
        (x * y) as u64
    }
}

pub open spec fn sat_add(x: u64, y: u64) -> u64 {
    if x + y > u64::MAX {
        u64::MAX
    } else {
        (x + y) as u64
    }
}

pub open spec fn sat_sub(x: u64, y: u64) -> u64 {
    if x < y {
        0
    } else {
        (x - y) as u64
    }
}

/// The new round-trip-time average after a sample of `ms` milliseconds:
/// unchanged for a zero sample, the sample itself when no average exists yet,
/// and otherwise `(7 * prev + ms) / 8` computed with saturation.
pub open spec fn ema_next(prev: u64, ms: u64) -> u64 {
    if ms == 0 {
        prev
    } else if prev == 0 {
        ms
    } else {
        (sat_add(sat_mul(prev, 7), ms) / 8) as u64
    }
}

pub fn wrapping_add_u64(x: u64, y: u64) -> (r: u64)
    ensures
        r == wrap_add(x, y),
{
    if y <= u64::MAX - x {
        x + y
    } else {
        y - (u64::MAX - x) - 1
    }
}

pub fn saturating_mul_u64(x: u64, y: u64) -> (r: u64)
    ensures
        r == sat_mul(x, y),
{
    assert((x as int) * (y as int) <= 0xffff_ffff_ffff_ffff * 0xffff_ffff_ffff_ffff) by (nonlinear_arith)
        requires
            x <= 0xffff_ffff_ffff_ffff,
            y <= 0xffff_ffff_ffff_ffff,
            x >= 0,
            y >= 0,
    ;
    let p: u128 = (x as u128) * (y as u128);
    if p > u64::MAX as u128 {
        u64::MAX
    } else {
        p as u64
    }
}

pub fn saturating_add_u64(x: u64, y: u64) -> (r: u64)
    ensures
        r == sat_add(x, y),
{
    if y > u64::MAX - x {
        u64::MAX
    } else {
        x + y
    }
}

pub fn saturating_sub_u64(x: u64, y: u64) -> (r: u64)
    ensures
        r == sat_sub(x, y),
{
    if x < y {
        0
    } else {
        x - y
    }
}

/// Milliseconds since the Unix epoch, from the system clock
/// (`SystemTime::now` measured against `UNIX_EPOCH`, 0 if the clock is before it).
/// Nothing is stated of the value: it is the time.
#[verifier::external_body]
pub(crate) fn now_ms() -> u64 {
    std::time::SystemTime::now().duration_since(std::time::UNIX_EPOCH).unwrap_or_default().as_millis() as u64
}

/// Computes the next exponential moving average of a round-trip time.
pub fn ema_update(prev: u64, ms: u64) -> (r: u64)
    ensures
        r == ema_next(prev, ms),
{
    if ms == 0 {
        prev
    } else if prev == 0 {
        ms
    } else {
        saturating_add_u64(saturating_mul_u64(prev, 7), ms) / 8
    }
}

/// Peer ids in `ps` are pairwise distinct.
pub open spec fn keys_distinct(ps: Seq<(Seq<char>, u64)>) -> bool {
    forall|i: int, j: int| 0 <= i < j < ps.len() ==> #[trigger] ps[i].0 != #[trigger] ps[j].0
}

/// The position of peer `k` in `ps`, or -1 when absent (the last one, if repeated).
pub open spec fn key_pos(ps: Seq<(Seq<char>, u64)>, k: Seq<char>) -> int
    decreases ps.len(),
{
    if ps.len() == 0 {
        -1
    } else if ps.last().0 == k {
        ps.len() - 1
    } else {
        key_pos(ps.drop_last(), k)
    }
}

/// `ps` after recording peer `k` as seen at time `t`: its entry is overwritten
/// in place, or appended when the peer is new.
pub open spec fn seen_insert(ps: Seq<(Seq<char>, u64)>, k: Seq<char>, t: u64) -> Seq<(Seq<char>, u64)> {
    let p = key_pos(ps, k);
    if p >= 0 {
        ps.update(p, (k, t))
    } else {
        ps.push((k, t))
    }
}

/// The entries of `ps` seen at or after `c`, in order.
pub open spec fn seen_since(ps: Seq<(Seq<char>, u64)>, c: u64) -> Seq<(Seq<char>, u64)>
    decreases ps.len(),
{
    if ps.len() == 0 {
        ps
    } else {
        let r = seen_since(ps.drop_last(), c);
        if ps.last().1 >= c {
            r.push(ps.last())
        } else {
            r
        }
    }
}

pub proof fn lemma_key_pos(ps: Seq<(Seq<char>, u64)>, k: Seq<char>)
    requires
        keys_distinct(ps),
    ensures
        -1 <= key_pos(ps, k) < ps.len(),
        key_pos(ps, k) >= 0 ==> ps[key_pos(ps, k)].0 == k,
        key_pos(ps, k) < 0 ==> forall|i: int| 0 <= i < ps.len() ==> (#[trigger] ps[i]).0 != k,
        forall|i: int| 0 <= i < ps.len() && (#[trigger] ps[i]).0 == k ==> key_pos(ps, k) == i,
    decreases ps.len(),
{
    if ps.len() > 0 {
        let d = ps.drop_last();
        assert forall|i: int, j: int| 0 <= i < j < d.len() implies #[trigger] d[i].0 != #[trigger] d[j].0 by {
            assert(ps[i] == d[i] && ps[j] == d[j]);
        }
        lemma_key_pos(d, k);
        assert forall|i: int| 0 <= i < ps.len() && (#[trigger] ps[i]).0 == k implies key_pos(ps, k) == i by {
            if i < ps.len() - 1 {
                assert(d[i] == ps[i]);
                if ps.last().0 == k {
                    assert(ps[i].0 != ps[ps.len() - 1].0);
                }
            }
        }
        if key_pos(ps, k) < 0 {
            assert forall|i: int| 0 <= i < ps.len() implies (#[trigger] ps[i]).0 != k by {
                if i < ps.len() - 1 {
                    assert(d[i] == ps[i]);
                }
            }
        }
    }
}

/// Every entry kept by `seen_since` is an entry of the table it was given.
pub proof fn lemma_seen_since_from(ps: Seq<(Seq<char>, u64)>, c: u64)
    ensures
        forall|a: int| 0 <= a < seen_since(ps, c).len() ==> exists|b: int| 0 <= b < ps.len() && ps[b] == #[trigger] seen_since(ps, c)[a],
    decreases ps.len(),
{
    if ps.len() > 0 {
        let d = ps.drop_last();
        lemma_seen_since_from(d, c);
        let r = seen_since(d, c);
        let k = seen_since(ps, c);
        assert forall|a: int| 0 <= a < k.len() implies exists|b: int| 0 <= b < ps.len() && ps[b] == #[trigger] k[a] by {
            if a < r.len() {
                let b = choose|b: int| 0 <= b < d.len() && d[b] == r[a];
                assert(ps[b] == k[a]);
            } else {
                assert(ps[ps.len() - 1] == k[a]);
            }
        }
    }
}

/// Every entry kept by `seen_since` was seen at or after the cutoff.
pub proof fn lemma_seen_since_recent(ps: Seq<(Seq<char>, u64)>, c: u64)
    ensures
        forall|a: int| 0 <= a < seen_since(ps, c).len() ==> (#[trigger] seen_since(ps, c)[a]).1 >= c,
    decreases ps.len(),
{
    if ps.len() > 0 {
        let d = ps.drop_last();
        lemma_seen_since_recent(d, c);
        let r = seen_since(d, c);
        let k = seen_since(ps, c);
        assert forall|a: int| 0 <= a < k.len() implies (#[trigger] k[a]).1 >= c by {
            if a < r.len() {
                assert(k[a] == r[a]);
            }
        }
    }
}

/// Every entry seen at or after the cutoff is kept by `seen_since`.
pub proof fn lemma_seen_since_complete(ps: Seq<(Seq<char>, u64)>, c: u64)
    ensures
        forall|b: int| 0 <= b < ps.len() && (#[trigger] ps[b]).1 >= c ==> exists|a: int| 0 <= a < seen_since(ps, c).len() && seen_since(ps, c)[a] == ps[b],
    decreases ps.len(),
{
    if ps.len() > 0 {
        let d = ps.drop_last();
        lemma_seen_since_complete(d, c);
        let r = seen_since(d, c);
        let k = seen_since(ps, c);
        assert forall|b: int| 0 <= b < ps.len() && (#[trigger] ps[b]).1 >= c implies exists|a: int| 0 <= a < k.len() && k[a] == ps[b] by {
            if b < d.len() {
                assert(d[b] == ps[b]);
                let a = choose|a: int| 0 <= a < r.len() && r[a] == d[b];
                assert(k[a] == ps[b]);
            } else {
                assert(k[r.len() as int] == ps[b]);
            }
        }
    }
}

/// Filtering a table with distinct peer ids keeps them distinct.
pub proof fn lemma_seen_since_distinct(ps: Seq<(Seq<char>, u64)>, c: u64)
    requires
        keys_distinct(ps),
    ensures
        keys_distinct(seen_since(ps, c)),
    decreases ps.len(),
{
    if ps.len() > 0 {
        let d = ps.drop_last();
        assert forall|i: int, j: int| 0 <= i < j < d.len() implies #[trigger] d[i].0 != #[trigger] d[j].0 by {
            assert(ps[i] == d[i] && ps[j] == d[j]);
        }
        lemma_seen_since_distinct(d, c);
        lemma_seen_since_from(d, c);
        let r = seen_since(d, c);
        let k = seen_since(ps, c);
        assert forall|i: int, j: int| 0 <= i < j < k.len() implies #[trigger] k[i].0 != #[trigger] k[j].0 by {
            if j < r.len() {
                assert(k[i] == r[i] && k[j] == r[j]);
            } else {
                assert(k[i] == r[i]);
                let b = choose|b: int| 0 <= b < d.len() && d[b] == r[i];
                assert(ps[b] == d[b]);
                assert(k[j] == ps[ps.len() - 1]);
            }
        }
    }
}

/// A table from peer id to the time (ms) it was last seen.
pub struct SeenTable {
    entries: Vec<(String, u64)>,
}

impl SeenTable {
    /// The (peer id, last seen) entries, in insertion order.
    pub closed spec fn pairs(&self) -> Seq<(Seq<char>, u64)> {
        self.entries@.map_values(|e: (String, u64)| (e.0@, e.1))
    }

    spec fn wf(&self) -> bool {
        keys_distinct(self.pairs())
    }

    fn new() -> (r: Self)
        ensures
            r.pairs() == Seq::<(Seq<char>, u64)>::empty(),
    {
        let r = SeenTable { entries: Vec::new() };
        assert(r.pairs() =~= Seq::<(Seq<char>, u64)>::empty());
        r
    }

    fn count(&self) -> (r: usize)
        ensures
            r == self.pairs().len(),
    {
        self.entries.len()
    }

    /// Records `peer` as seen at time `t` (insert or overwrite).
    fn insert(&mut self, peer: &str, t: u64)
        requires
            old(self).wf(),
        ensures
            final(self).wf(),
            final(self).pairs() == seen_insert(old(self).pairs(), peer@, t),
    {
        proof {
            lemma_key_pos(self.pairs(), peer@);
        }
        let k = str_chars(peer);
        let mut i: usize = 0;
        while i < self.entries.len()
            invariant
                i <= self.entries.len(),
                *self == *old(self),
                self.wf(),
                k@ == peer@,
                forall|j: int| 0 <= j < i ==> (#[trigger] self.pairs()[j]).0 != peer@,
            decreases self.entries.len() - i,
        {
            let ki = str_chars(self.entries[i].0.as_str());
            if chars_eq(&ki, &k) {
                assert(self.pairs()[i as int].0 == peer@);
                proof {
                    lemma_key_pos(self.pairs(), peer@);
                }
                let ghost before = self.pairs();
                let name = self.entries[i].0.clone();
                self.entries.set(i, (name, t));
                assert(self.pairs() =~= before.update(i as int, (peer@, t)));
                assert forall|a: int, b: int| 0 <= a < b < self.pairs().len() implies #[trigger] self.pairs()[a].0 != #[trigger] self.pairs()[b].0 by {
                    assert(before[a].0 != before[b].0);
                }
                return;
            }
            i += 1;
        }
        proof {
            lemma_key_pos(self.pairs(), peer@);
        }
        let ghost before = self.pairs();
        self.entries.push((peer.to_owned(), t));
        assert(self.pairs() =~= before.push((peer@, t)));
        assert forall|a: int, b: int| 0 <= a < b < self.pairs().len() implies #[trigger] self.pairs()[a].0 != #[trigger] self.pairs()[b].0 by {
            if b < before.len() {
                assert(before[a].0 != before[b].0);
            } else {
                assert(before[a].0 != peer@);
            }
        }
    }

    /// Keeps only the peers seen at or after `cutoff`.
    fn retain_since(&mut self, cutoff: u64)
        requires
            old(self).wf(),
        ensures
            final(self).wf(),
            final(self).pairs() == seen_since(old(self).pairs(), cutoff),
    {
        let ghost before = self.pairs();
        let mut out: Vec<(String, u64)> = Vec::new();
        let mut i: usize = 0;
        while i < self.entries.len()
            invariant
                i <= self.entries.len(),
                self.pairs() == before,
                out@.map_values(|e: (String, u64)| (e.0@, e.1)) == seen_since(before.take(i as int), cutoff),
            decreases self.entries.len() - i,
        {
            assert(before.take(i + 1).drop_last() =~= before.take(i as int));
            let ghost ol = out@;
            if self.entries[i].1 >= cutoff {
                let e = (self.entries[i].0.clone(), self.entries[i].1);
                out.push(e);
                assert(out@.map_values(|e: (String, u64)| (e.0@, e.1)) =~= ol.map_values(|e: (String, u64)| (e.0@, e.1)).push(before[i as int]));
            }
            i += 1;
        }
        assert(before.take(i as int) =~= before);
        self.entries = out;
        proof {
            lemma_seen_since_distinct(before, cutoff);
        }
    }
}


/// Counters and gauges of the node's transports. Byte counters wrap on
/// overflow; round-trip times are exponential moving averages; the active
/// peer gauges follow the tables of peers seen recently.
pub struct NetMetrics {
    pub relay_connected: bool,
    pub relay_rx_bytes: u64,
    pub relay_tx_bytes: u64,
    pub relay_last_change_ms: u64,
    pub relay_rtt_ema_ms: u64,
    pub relay_last_error: Option<String>,
    pub p2p_enabled: bool,
    pub p2p_connected_peers: u64,
    pub p2p_active_peers: u64,
    pub p2p_rx_bytes: u64,
    pub p2p_tx_bytes: u64,
    pub p2p_rtt_ema_ms: u64,
    pub mailbox_active_peers: u64,
    pub mailbox_rx_bytes: u64,
    pub mailbox_tx_bytes: u64,
    pub mailbox_rtt_ema_ms: u64,
    pub webrtc_sessions: u64,
    pub webrtc_active_peers: u64,
    pub webrtc_rx_bytes: u64,
    pub webrtc_tx_bytes: u64,
    pub auth_failures: u64,
    pub rate_limit_hits: u64,
    pub http_timeouts: u64,
    pub http_errors: u64,
    pub p2p_seen: SeenTable,
    pub mailbox_seen: SeenTable,
    pub webrtc_seen: SeenTable,
}

/// What a snapshot of the metrics reports.
pub struct NetSnapshot {
    pub ts_ms: u64,
    pub relay_connected: bool,
    pub relay_rx_bytes: u64,
    pub relay_tx_bytes: u64,
    pub relay_last_change_ms: u64,
    pub relay_rtt_ms: u64,
    pub relay_last_error: Option<String>,
    pub mailbox_active_peers: u64,
    pub mailbox_rx_bytes: u64,
    pub mailbox_tx_bytes: u64,
    pub mailbox_rtt_ms: u64,
    pub auth_failures: u64,
    pub rate_limit_hits: u64,
    pub http_timeouts: u64,
    pub http_errors: u64,
}

/// How long a peer counts as active after it was last seen, in a snapshot.
pub const SNAPSHOT_WINDOW_MS: u64 = 60_000;

impl NetMetrics {
    /// The P2P peers seen, with the time each was last seen.
    pub open spec fn p2p_peers(&self) -> Seq<(Seq<char>, u64)> {
        self.p2p_seen.pairs()
    }

    /// The mailbox peers seen, with the time each was last seen.
    pub open spec fn mailbox_peers(&self) -> Seq<(Seq<char>, u64)> {
        self.mailbox_seen.pairs()
    }

    /// The WebRTC peers seen, with the time each was last seen.
    pub open spec fn webrtc_peers(&self) -> Seq<(Seq<char>, u64)> {
        self.webrtc_seen.pairs()
    }

    /// Each table of peers holds every peer id at most once.
    pub open spec fn tables_wf(&self) -> bool {
        &&& keys_distinct(self.p2p_peers())
        &&& keys_distinct(self.mailbox_peers())
        &&& keys_distinct(self.webrtc_peers())
    }

    /// The tables are well formed and each active peer gauge is the size of its table.
    pub open spec fn wf(&self) -> bool {
        &&& self.tables_wf()
        &&& self.p2p_active_peers == self.p2p_peers().len()
        &&& self.mailbox_active_peers == self.mailbox_peers().len()
        &&& self.webrtc_active_peers == self.webrtc_peers().len()
    }

    /// All counters zero, all flags off, no peers and no error.
    pub fn new() -> (r: Self)
        ensures
            r.wf(),
            !r.relay_connected && !r.p2p_enabled,
            r.relay_rx_bytes == 0 && r.relay_tx_bytes == 0 && r.relay_last_change_ms == 0 && r.relay_rtt_ema_ms == 0,
            r.p2p_connected_peers == 0 && r.p2p_active_peers == 0 && r.p2p_rx_bytes == 0 && r.p2p_tx_bytes == 0 && r.p2p_rtt_ema_ms == 0,
            r.mailbox_active_peers == 0 && r.mailbox_rx_bytes == 0 && r.mailbox_tx_bytes == 0 && r.mailbox_rtt_ema_ms == 0,
            r.webrtc_sessions == 0 && r.webrtc_active_peers == 0 && r.webrtc_rx_bytes == 0 && r.webrtc_tx_bytes == 0,
            r.auth_failures == 0 && r.rate_limit_hits == 0 && r.http_timeouts == 0 && r.http_errors == 0,
            r.p2p_peers().len() == 0 && r.mailbox_peers().len() == 0 && r.webrtc_peers().len() == 0,
            r.relay_last_error is None,
    {
        NetMetrics {
            relay_connected: false,
            relay_rx_bytes: 0,
            relay_tx_bytes: 0,
            relay_last_change_ms: 0,
            relay_rtt_ema_ms: 0,
            relay_last_error: None,
            p2p_enabled: false,
            p2p_connected_peers: 0,
            p2p_active_peers: 0,
            p2p_rx_bytes: 0,
            p2p_tx_bytes: 0,
            p2p_rtt_ema_ms: 0,
            mailbox_active_peers: 0,
            mailbox_rx_bytes: 0,
            mailbox_tx_bytes: 0,
            mailbox_rtt_ema_ms: 0,
            webrtc_sessions: 0,
            webrtc_active_peers: 0,
            webrtc_rx_bytes: 0,
            webrtc_tx_bytes: 0,
            auth_failures: 0,
            rate_limit_hits: 0,
            http_timeouts: 0,
            http_errors: 0,
            p2p_seen: SeenTable::new(),
            mailbox_seen: SeenTable::new(),
            webrtc_seen: SeenTable::new(),
        }
    }

    /// Records the relay connection state as of time `now`; connecting clears the last error.
    pub fn set_relay_connected_at(&mut self, v: bool, now: u64)
        ensures
            *final(self) == (NetMetrics {
                relay_connected: v,
                relay_last_change_ms: now,
                relay_last_error: if v { None } else { old(self).relay_last_error },
                ..*old(self)
            }),
    {
        self.relay_connected = v;
        self.relay_last_change_ms = now;
        if v {
            self.relay_last_error = None;
        }
    }

    /// Records the relay connection state, stamped with the current time.
    pub fn set_relay_connected(&mut self, v: bool)
        ensures
            *final(self) == (NetMetrics {
                relay_connected: v,
                relay_last_change_ms: final(self).relay_last_change_ms,
                relay_last_error: if v { None } else { old(self).relay_last_error },
                ..*old(self)
            }),
    {
        let now = now_ms();
        self.set_relay_connected_at(v, now);
    }

    /// Marks the relay as disconnected at time `now` and keeps `err` as the last error.
    pub fn set_relay_error_at(&mut self, err: String, now: u64)
        ensures
            *final(self) == (NetMetrics {
                relay_connected: false,
                relay_last_change_ms: now,
                relay_last_error: Some(err),
                ..*old(self)
            }),
    {
        self.set_relay_connected_at(false, now);
        self.relay_last_error = Some(err);
    }

    /// Marks the relay as disconnected now and keeps `err` as the last error.
    pub fn set_relay_error(&mut self, err: String)
        ensures
            *final(self) == (NetMetrics {
                relay_connected: false,
                relay_last_change_ms: final(self).relay_last_change_ms,
                relay_last_error: Some(err),
                ..*old(self)
            }),
    {
        let now = now_ms();
        self.set_relay_error_at(err, now);
    }

    pub fn relay_rx_add(&mut self, n: u64)
        ensures
            *final(self) == (NetMetrics { relay_rx_bytes: wrap_add(old(self).relay_rx_bytes, n), ..*old(self) }),
    {
        self.relay_rx_bytes = wrapping_add_u64(self.relay_rx_bytes, n);
    }

    pub fn relay_tx_add(&mut self, n: u64)
        ensures
            *final(self) == (NetMetrics { relay_tx_bytes: wrap_add(old(self).relay_tx_bytes, n), ..*old(self) }),
    {
        self.relay_tx_bytes = wrapping_add_u64(self.relay_tx_bytes, n);
    }

    pub fn relay_rtt_update(&mut self, ms: u64)
        ensures
            *final(self) == (NetMetrics { relay_rtt_ema_ms: ema_next(old(self).relay_rtt_ema_ms, ms), ..*old(self) }),
    {
        self.relay_rtt_ema_ms = ema_update(self.relay_rtt_ema_ms, ms);
    }

    pub fn set_p2p_enabled(&mut self, v: bool)
        ensures
            *final(self) == (NetMetrics { p2p_enabled: v, ..*old(self) }),
    {
        self.p2p_enabled = v;
    }

    pub fn p2p_connected_peers_set(&mut self, n: u64)
        ensures
            *final(self) == (NetMetrics { p2p_connected_peers: n, ..*old(self) }),
    {
        self.p2p_connected_peers = n;
    }

    /// Records P2P peer `peer_id` as seen at time `now` and refreshes the active peer gauge.
    pub fn p2p_peer_seen_at(&mut self, peer_id: &str, now: u64)
        requires
            old(self).tables_wf(),
        ensures
            final(self).tables_wf(),
            final(self).p2p_peers() == seen_insert(old(self).p2p_peers(), peer_id@, now),
            final(self).p2p_active_peers == final(self).p2p_peers().len(),
            *final(self) == (NetMetrics {
                p2p_seen: final(self).p2p_seen,
                p2p_active_peers: final(self).p2p_active_peers,
                ..*old(self)
            }),
    {
        self.p2p_seen.insert(peer_id, now);
        self.p2p_active_peers = self.p2p_seen.count() as u64;
    }

    /// Records P2P peer `peer_id` as seen now and refreshes the active peer gauge.
    pub fn p2p_peer_seen(&mut self, peer_id: &str)
        requires
            old(self).tables_wf(),
        ensures
            final(self).tables_wf(),
            exists|t: u64| final(self).p2p_peers() == seen_insert(old(self).p2p_peers(), peer_id@, t),
            final(self).p2p_active_peers == final(self).p2p_peers().len(),
            *final(self) == (NetMetrics {
                p2p_seen: final(self).p2p_seen,
                p2p_active_peers: final(self).p2p_active_peers,
                ..*old(self)
            }),
    {
        let now = now_ms();
        self.p2p_peer_seen_at(peer_id, now);
    }

    pub fn p2p_rx_add(&mut self, n: u64)
        ensures
            *final(self) == (NetMetrics { p2p_rx_bytes: wrap_add(old(self).p2p_rx_bytes, n), ..*old(self) }),
    {
        self.p2p_rx_bytes = wrapping_add_u64(self.p2p_rx_bytes, n);
    }

    pub fn p2p_tx_add(&mut self, n: u64)
        ensures
            *final(self) == (NetMetrics { p2p_tx_bytes: wrap_add(old(self).p2p_tx_bytes, n), ..*old(self) }),
    {
        self.p2p_tx_bytes = wrapping_add_u64(self.p2p_tx_bytes, n);
    }

    pub fn p2p_rtt_update(&mut self, ms: u64)
        ensures
            *final(self) == (NetMetrics { p2p_rtt_ema_ms: ema_next(old(self).p2p_rtt_ema_ms, ms), ..*old(self) }),
    {
        self.p2p_rtt_ema_ms = ema_update(self.p2p_rtt_ema_ms, ms);
    }

    /// Records mailbox peer `peer_id` as seen at time `now` and refreshes the active peer gauge.
    pub fn mailbox_peer_seen_at(&mut self, peer_id: &str, now: u64)
        requires
            old(self).tables_wf(),
        ensures
            final(self).tables_wf(),
            final(self).mailbox_peers() == seen_insert(old(self).mailbox_peers(), peer_id@, now),
            final(self).mailbox_active_peers == final(self).mailbox_peers().len(),
            *final(self) == (NetMetrics {
                mailbox_seen: final(self).mailbox_seen,
                mailbox_active_peers: final(self).mailbox_active_peers,
                ..*old(self)
            }),
    {
        self.mailbox_seen.insert(peer_id, now);
        self.mailbox_active_peers = self.mailbox_seen.count() as u64;
    }

    /// Records mailbox peer `peer_id` as seen now and refreshes the active peer gauge.
    pub fn mailbox_peer_seen(&mut self, peer_id: &str)
        requires
            old(self).tables_wf(),
        ensures
            final(self).tables_wf(),
            exists|t: u64| final(self).mailbox_peers() == seen_insert(old(self).mailbox_peers(), peer_id@, t),
            final(self).mailbox_active_peers == final(self).mailbox_peers().len(),
            *final(self) == (NetMetrics {
                mailbox_seen: final(self).mailbox_seen,
                mailbox_active_peers: final(self).mailbox_active_peers,
                ..*old(self)
            }),
    {
        let now = now_ms();
        self.mailbox_peer_seen_at(peer_id, now);
    }

    pub fn mailbox_rx_add(&mut self, n: u64)
        ensures
            *final(self) == (NetMetrics { mailbox_rx_bytes: wrap_add(old(self).mailbox_rx_bytes, n), ..*old(self) }),
    {
        self.mailbox_rx_bytes = wrapping_add_u64(self.mailbox_rx_bytes, n);
    }

    pub fn mailbox_tx_add(&mut self, n: u64)
        ensures
            *final(self) == (NetMetrics { mailbox_tx_bytes: wrap_add(old(self).mailbox_tx_bytes, n), ..*old(self) }),
    {
        self.mailbox_tx_bytes = wrapping_add_u64(self.mailbox_tx_bytes, n);
    }

    pub fn mailbox_rtt_update(&mut self, ms: u64)
        ensures
            *final(self) == (NetMetrics { mailbox_rtt_ema_ms: ema_next(old(self).mailbox_rtt_ema_ms, ms), ..*old(self) }),
    {
        self.mailbox_rtt_ema_ms = ema_update(self.mailbox_rtt_ema_ms, ms);
    }

    pub fn webrtc_sessions_set(&mut self, n: u64)
        ensures
            *final(self) == (NetMetrics { webrtc_sessions: n, ..*old(self) }),
    {
        self.webrtc_sessions = n;
    }

    /// Records WebRTC peer `peer_id` as seen at time `now` and refreshes the active peer gauge.
    pub fn webrtc_peer_seen_at(&mut self, peer_id: &str, now: u64)
        requires
            old(self).tables_wf(),
        ensures
            final(self).tables_wf(),
            final(self).webrtc_peers() == seen_insert(old(self).webrtc_peers(), peer_id@, now),
            final(self).webrtc_active_peers == final(self).webrtc_peers().len(),
            *final(self) == (NetMetrics {
                webrtc_seen: final(self).webrtc_seen,
                webrtc_active_peers: final(self).webrtc_active_peers,
                ..*old(self)
            }),
    {
        self.webrtc_seen.insert(peer_id, now);
        self.webrtc_active_peers = self.webrtc_seen.count() as u64;
    }

    /// Records WebRTC peer `peer_id` as seen now and refreshes the active peer gauge.
    pub fn webrtc_peer_seen(&mut self, peer_id: &str)
        requires
            old(self).tables_wf(),
        ensures
            final(self).tables_wf(),
            exists|t: u64| final(self).webrtc_peers() == seen_insert(old(self).webrtc_peers(), peer_id@, t),
            final(self).webrtc_active_peers == final(self).webrtc_peers().len(),
            *final(self) == (NetMetrics {
                webrtc_seen: final(self).webrtc_seen,
                webrtc_active_peers: final(self).webrtc_active_peers,
                ..*old(self)
            }),
    {
        let now = now_ms();
        self.webrtc_peer_seen_at(peer_id, now);
    }

    pub fn webrtc_rx_add(&mut self, n: u64)
        ensures
            *final(self) == (NetMetrics { webrtc_rx_bytes: wrap_add(old(self).webrtc_rx_bytes, n), ..*old(self) }),
    {
        self.webrtc_rx_bytes = wrapping_add_u64(self.webrtc_rx_bytes, n);
    }

    pub fn webrtc_tx_add(&mut self, n: u64)
        ensures
            *final(self) == (NetMetrics { webrtc_tx_bytes: wrap_add(old(self).webrtc_tx_bytes, n), ..*old(self) }),
    {
        self.webrtc_tx_bytes = wrapping_add_u64(self.webrtc_tx_bytes, n);
    }

    pub fn auth_failure(&mut self)
        ensures
            *final(self) == (NetMetrics { auth_failures: wrap_add(old(self).auth_failures, 1), ..*old(self) }),
    {
        self.auth_failures = wrapping_add_u64(self.auth_failures, 1);
    }

    pub fn rate_limit_hit(&mut self)
        ensures
            *final(self) == (NetMetrics { rate_limit_hits: wrap_add(old(self).rate_limit_hits, 1), ..*old(self) }),
    {
        self.rate_limit_hits = wrapping_add_u64(self.rate_limit_hits, 1);
    }

    pub fn http_timeout(&mut self)
        ensures
            *final(self) == (NetMetrics { http_timeouts: wrap_add(old(self).http_timeouts, 1), ..*old(self) }),
    {
        self.http_timeouts = wrapping_add_u64(self.http_timeouts, 1);
    }

    pub fn http_error(&mut self)
        ensures
            *final(self) == (NetMetrics { http_errors: wrap_add(old(self).http_errors, 1), ..*old(self) }),
    {
        self.http_errors = wrapping_add_u64(self.http_errors, 1);
    }

    /// Forgets the peers not seen since `now - window_ms` (saturating at 0)
    /// and refreshes the three active peer gauges.
    pub fn prune_seen_at(&mut self, window_ms: u64, now: u64)
        requires
            old(self).tables_wf(),
        ensures
            final(self).wf(),
            final(self).p2p_peers() == seen_since(old(self).p2p_peers(), sat_sub(now, window_ms)),
            final(self).mailbox_peers() == seen_since(old(self).mailbox_peers(), sat_sub(now, window_ms)),
            final(self).webrtc_peers() == seen_since(old(self).webrtc_peers(), sat_sub(now, window_ms)),
            *final(self) == (NetMetrics {
                p2p_seen: final(self).p2p_seen,
                mailbox_seen: final(self).mailbox_seen,
                webrtc_seen: final(self).webrtc_seen,
                p2p_active_peers: final(self).p2p_active_peers,
                mailbox_active_peers: final(self).mailbox_active_peers,
                webrtc_active_peers: final(self).webrtc_active_peers,
                ..*old(self)
            }),
    {
        let cutoff = saturating_sub_u64(now, window_ms);
        self.p2p_seen.retain_since(cutoff);
        self.p2p_active_peers = self.p2p_seen.count() as u64;
        self.mailbox_seen.retain_since(cutoff);
        self.mailbox_active_peers = self.mailbox_seen.count() as u64;
        self.webrtc_seen.retain_since(cutoff);
        self.webrtc_active_peers = self.webrtc_seen.count() as u64;
    }

    /// Forgets the peers not seen within the last `window_ms` milliseconds.
    pub fn prune_seen(&mut self, window_ms: u64)
        requires
            old(self).tables_wf(),
        ensures
            final(self).wf(),
            exists|t: u64| {
                &&& final(self).p2p_peers() == seen_since(old(self).p2p_peers(), sat_sub(t, window_ms))
                &&& final(self).mailbox_peers() == seen_since(old(self).mailbox_peers(), sat_sub(t, window_ms))
                &&& final(self).webrtc_peers() == seen_since(old(self).webrtc_peers(), sat_sub(t, window_ms))
            },
            *final(self) == (NetMetrics {
                p2p_seen: final(self).p2p_seen,
                mailbox_seen: final(self).mailbox_seen,
                webrtc_seen: final(self).webrtc_seen,
                p2p_active_peers: final(self).p2p_active_peers,
                mailbox_active_peers: final(self).mailbox_active_peers,
                webrtc_active_peers: final(self).webrtc_active_peers,
                ..*old(self)
            }),
    {
        let now = now_ms();
        self.prune_seen_at(window_ms, now);
    }

    /// Prunes the peer tables to the last minute as of `now` and reports the
    /// relay, mailbox and error figures, stamped `now`.
    pub fn snapshot_at(&mut self, now: u64) -> (r: NetSnapshot)
        requires
            old(self).tables_wf(),
        ensures
            final(self).wf(),
            final(self).p2p_peers() == seen_since(old(self).p2p_peers(), sat_sub(now, SNAPSHOT_WINDOW_MS)),
            final(self).mailbox_peers() == seen_since(old(self).mailbox_peers(), sat_sub(now, SNAPSHOT_WINDOW_MS)),
            final(self).webrtc_peers() == seen_since(old(self).webrtc_peers(), sat_sub(now, SNAPSHOT_WINDOW_MS)),
            *final(self) == (NetMetrics {
                p2p_seen: final(self).p2p_seen,
                mailbox_seen: final(self).mailbox_seen,
                webrtc_seen: final(self).webrtc_seen,
                p2p_active_peers: final(self).p2p_active_peers,
                mailbox_active_peers: final(self).mailbox_active_peers,
                webrtc_active_peers: final(self).webrtc_active_peers,
                ..*old(self)
            }),
            r == (NetSnapshot {
                ts_ms: now,
                relay_connected: old(self).relay_connected,
                relay_rx_bytes: old(self).relay_rx_bytes,
                relay_tx_bytes: old(self).relay_tx_bytes,
                relay_last_change_ms: old(self).relay_last_change_ms,
                relay_rtt_ms: old(self).relay_rtt_ema_ms,
                relay_last_error: old(self).relay_last_error,
                mailbox_active_peers: final(self).mailbox_active_peers,
                mailbox_rx_bytes: old(self).mailbox_rx_bytes,
                mailbox_tx_bytes: old(self).mailbox_tx_bytes,
                mailbox_rtt_ms: old(self).mailbox_rtt_ema_ms,
                auth_failures: old(self).auth_failures,
                rate_limit_hits: old(self).rate_limit_hits,
                http_timeouts: old(self).http_timeouts,
                http_errors: old(self).http_errors,
            }),
    {
        let last_error = self.relay_last_error.clone();
        self.prune_seen_at(SNAPSHOT_WINDOW_MS, now);
        NetSnapshot {
            ts_ms: now,
            relay_connected: self.relay_connected,
            relay_rx_bytes: self.relay_rx_bytes,
            relay_tx_bytes: self.relay_tx_bytes,
            relay_last_change_ms: self.relay_last_change_ms,
            relay_rtt_ms: self.relay_rtt_ema_ms,
            relay_last_error: last_error,
            mailbox_active_peers: self.mailbox_active_peers,
            mailbox_rx_bytes: self.mailbox_rx_bytes,
            mailbox_tx_bytes: self.mailbox_tx_bytes,
            mailbox_rtt_ms: self.mailbox_rtt_ema_ms,
            auth_failures: self.auth_failures,
            rate_limit_hits: self.rate_limit_hits,
            http_timeouts: self.http_timeouts,
            http_errors: self.http_errors,
        }
    }

    /// A snapshot as of the current time (see `snapshot_at`).
    pub fn snapshot(&mut self) -> (r: NetSnapshot)
        requires
            old(self).tables_wf(),
        ensures
            final(self).wf(),
            exists|t: u64| {
                &&& final(self).p2p_peers() == seen_since(old(self).p2p_peers(), sat_sub(t, SNAPSHOT_WINDOW_MS))
                &&& final(self).mailbox_peers() == seen_since(old(self).mailbox_peers(), sat_sub(t, SNAPSHOT_WINDOW_MS))
                &&& final(self).webrtc_peers() == seen_since(old(self).webrtc_peers(), sat_sub(t, SNAPSHOT_WINDOW_MS))
                &&& r.ts_ms == t
            },
            *final(self) == (NetMetrics {
                p2p_seen: final(self).p2p_seen,
                mailbox_seen: final(self).mailbox_seen,
                webrtc_seen: final(self).webrtc_seen,
                p2p_active_peers: final(self).p2p_active_peers,
                mailbox_active_peers: final(self).mailbox_active_peers,
                webrtc_active_peers: final(self).webrtc_active_peers,
                ..*old(self)
            }),
            r == (NetSnapshot {
                ts_ms: r.ts_ms,
                relay_connected: old(self).relay_connected,
                relay_rx_bytes: old(self).relay_rx_bytes,
                relay_tx_bytes: old(self).relay_tx_bytes,
                relay_last_change_ms: old(self).relay_last_change_ms,
                relay_rtt_ms: old(self).relay_rtt_ema_ms,
                relay_last_error: old(self).relay_last_error,
                mailbox_active_peers: final(self).mailbox_active_peers,
                mailbox_rx_bytes: old(self).mailbox_rx_bytes,
                mailbox_tx_bytes: old(self).mailbox_tx_bytes,
                mailbox_rtt_ms: old(self).mailbox_rtt_ema_ms,
                auth_failures: old(self).auth_failures,
                rate_limit_hits: old(self).rate_limit_hits,
                http_timeouts: old(self).http_timeouts,
                http_errors: old(self).http_errors,
            }),
    {
        let now = now_ms();
        self.snapshot_at(now)
    }
}

/// A round-trip average moves toward each non-zero sample and never past it:
/// while `7 * prev + ms` fits in 64 bits, the new average lies between the
/// old average and the sample.
pub proof fn lemma_ema_between(prev: u64, ms: u64)
    requires
        prev > 0,
        ms > 0,
        prev * 7 + ms <= u64::MAX,
    ensures
        prev <= ms ==> prev <= ema_next(prev, ms) <= ms,
        ms <= prev ==> ms <= ema_next(prev, ms) <= prev,
{
}

/// Seeing a peer adds it to its table when new and leaves the table's size
/// unchanged when it was already there; the peer is then present with the
/// new time, and every other entry is kept.
pub proof fn lemma_seen_insert(ps: Seq<(Seq<char>, u64)>, k: Seq<char>, t: u64)
    requires
        keys_distinct(ps),
    ensures
        keys_distinct(seen_insert(ps, k, t)),
        (exists|i: int| 0 <= i < ps.len() && ps[i].0 == k) ==> seen_insert(ps, k, t).len() == ps.len(),
        !(exists|i: int| 0 <= i < ps.len() && ps[i].0 == k) ==> seen_insert(ps, k, t).len() == ps.len() + 1,
        exists|i: int| 0 <= i < seen_insert(ps, k, t).len() && seen_insert(ps, k, t)[i] == (k, t),
        forall|i: int| 0 <= i < ps.len() && ps[i].0 != k ==> #[trigger] seen_insert(ps, k, t)[i] == ps[i],
{
    lemma_key_pos(ps, k);
    let r = seen_insert(ps, k, t);
    let p = key_pos(ps, k);
    if p >= 0 {
        assert(r[p] == (k, t));
        assert forall|a: int, b: int| 0 <= a < b < r.len() implies #[trigger] r[a].0 != #[trigger] r[b].0 by {
            assert(ps[a].0 != ps[b].0);
        }
    } else {
        assert(r[ps.len() as int] == (k, t));
        assert forall|a: int, b: int| 0 <= a < b < r.len() implies #[trigger] r[a].0 != #[trigger] r[b].0 by {
            if b < ps.len() {
                assert(ps[a].0 != ps[b].0);
            } else {
                assert(ps[a].0 != k);
            }
        }
    }
}

/// Seeing the same peer twice counts it once: the second sighting only
/// updates its time.
pub proof fn lemma_seen_twice(ps: Seq<(Seq<char>, u64)>, k: Seq<char>, t1: u64, t2: u64)
    requires
        keys_distinct(ps),
    ensures
        seen_insert(seen_insert(ps, k, t1), k, t2).len() == seen_insert(ps, k, t1).len(),
        seen_insert(seen_insert(ps, k, t1), k, t2) == seen_insert(ps, k, t2),
{
    lemma_seen_insert(ps, k, t1);
    let q = seen_insert(ps, k, t1);
    lemma_key_pos(q, k);
    lemma_key_pos(ps, k);
    let i = choose|i: int| 0 <= i < q.len() && q[i] == (k, t1);
    assert(q[i].0 == k);
    if key_pos(ps, k) >= 0 {
        assert(seen_insert(q, k, t2) =~= seen_insert(ps, k, t2));
    } else {
        assert(key_pos(q, k) == ps.len());
        assert(seen_insert(q, k, t2) =~= seen_insert(ps, k, t2));
    }
}

/// Pruning twice with the same cutoff is pruning once.
pub proof fn lemma_seen_since_idempotent(ps: Seq<(Seq<char>, u64)>, c: u64)
    ensures
        seen_since(seen_since(ps, c), c) == seen_since(ps, c),
    decreases ps.len(),
{
    if ps.len() > 0 {
        let d = ps.drop_last();
        lemma_seen_since_idempotent(d, c);
        let r = seen_since(d, c);
        if ps.last().1 >= c {
            assert(r.push(ps.last()).drop_last() =~= r);
        }
    }
}

} // verus!
