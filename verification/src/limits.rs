//! Per-sender rate limiting of the inbox: a one-minute window of requests
//! and bytes for each key (an IP address or a signing key), refused once the
//! window's allowance would be exceeded.
use vstd::prelude::*;
use crate::text::{str_eq};

verus! {

/// Limits applied to the inbox.
#[derive(Clone, Copy, Debug)]
pub struct InboxRateLimits {
    pub max_reqs_per_min: u32,
    pub max_bytes_per_min: u64,
    /// Persistent quota window (best-effort), applied after signature validation.
    pub max_reqs_per_day: u32,
    pub max_bytes_per_day: u64,
}

/// Limits on what the global feed takes from one actor.
#[derive(Clone, Copy, Debug)]
pub struct GlobalIngestPolicy {
    pub max_items_per_actor_per_min: u32,
    pub max_bytes_per_actor_per_min: u64,
}

/// The current window of one sender.
#[derive(Debug)]
pub struct RateState {
    window_start_ms: i64,
    reqs: u32,
    bytes: u64,
}

/// The length of a rate window.
pub const RATE_WINDOW_MS: i64 = 60_000;

/// Above this many senders, idle ones are forgotten.
pub const RATE_TABLE_SOFT_CAP: usize = 50_000;

/// Senders idle this long are forgotten when the table is pruned.
pub const RATE_IDLE_MS: i64 = 600_000;

impl RateState {
    pub closed spec fn start(&self) -> i64 {
        self.window_start_ms
    }

    pub closed spec fn req_count(&self) -> u32 {
        self.reqs
    }

    pub closed spec fn byte_count(&self) -> u64 {
        self.bytes
    }

    /// A window that starts at time 0 and holds nothing.
    pub fn new() -> (r: Self)
        ensures
            r.start() == 0 && r.req_count() == 0 && r.byte_count() == 0,
    {
        RateState { window_start_ms: 0, reqs: 0, bytes: 0 }
    }

    pub fn copy(&self) -> (r: Self)
        ensures
            r == *self,
    {
        RateState { window_start_ms: self.window_start_ms, reqs: self.reqs, bytes: self.bytes }
    }
}

impl Default for RateState {
    fn default() -> (r: Self)
        ensures
            r.start() == 0 && r.req_count() == 0 && r.byte_count() == 0,
    {
        RateState::new()
    }
}

/// `x - y` for `i64`, saturating at the bounds.
pub open spec fn sat_sub_i64(x: i64, y: i64) -> i64 {
    if x - y > i64::MAX {
        i64::MAX
    } else if x - y < i64::MIN {
        i64::MIN
    } else {
        (x - y) as i64
    }
}

fn saturating_sub_i64(x: i64, y: i64) -> (r: i64)
    ensures
        r == sat_sub_i64(x, y),
{
    let d: i128 = (x as i128) - (y as i128);
    if d > i64::MAX as i128 {
        i64::MAX
    } else if d < i64::MIN as i128 {
        i64::MIN
    } else {
        d as i64
    }
}

/// The request allowance per window: the configured one, at least 1.
pub open spec fn req_allowance(l: InboxRateLimits) -> u32 {
    if l.max_reqs_per_min < 1 { 1 } else { l.max_reqs_per_min }
}

/// The byte allowance per window: the configured one, at least 1024.
pub open spec fn byte_allowance(l: InboxRateLimits) -> u64 {
    if l.max_bytes_per_min < 1024 { 1024 } else { l.max_bytes_per_min }
}

/// A sender's state after a request of `bytes` bytes at `now`, and whether
/// it is accepted. A window at least a minute old starts afresh; the request
/// is refused when it would take the window past either allowance, and
/// counted only when accepted.
pub closed spec fn rate_step(st: RateState, now: i64, bytes: u64, l: InboxRateLimits) -> (RateState, bool) {
    let fresh = sat_sub_i64(now, st.start()) >= RATE_WINDOW_MS;
    let s = if fresh { RateState { window_start_ms: now, reqs: 0, bytes: 0 } } else { st };
    if s.req_count() + 1 > req_allowance(l) {
        (s, false)
    } else if s.byte_count() + bytes > byte_allowance(l) {
        (s, false)
    } else {
        (RateState { window_start_ms: s.start(), reqs: (s.req_count() + 1) as u32, bytes: (s.byte_count() + bytes) as u64 }, true)
    }
}

/// The position of `k` in `rows`, or -1 (the last one, if repeated).
pub open spec fn row_pos<V>(rows: Seq<(Seq<char>, V)>, k: Seq<char>) -> int
    decreases rows.len(),
{
    if rows.len() == 0 {
        -1
    } else if rows.last().0 == k {
        rows.len() - 1
    } else {
        row_pos(rows.drop_last(), k)
    }
}

pub open spec fn rows_distinct<V>(rows: Seq<(Seq<char>, V)>) -> bool {
    forall|i: int, j: int| 0 <= i < j < rows.len() ==> #[trigger] rows[i].0 != #[trigger] rows[j].0
}

pub proof fn lemma_row_pos<V>(rows: Seq<(Seq<char>, V)>, k: Seq<char>)
    requires
        rows_distinct(rows),
    ensures
        -1 <= row_pos(rows, k) < rows.len(),
        row_pos(rows, k) >= 0 ==> rows[row_pos(rows, k)].0 == k,
        row_pos(rows, k) < 0 ==> forall|i: int| 0 <= i < rows.len() ==> (#[trigger] rows[i]).0 != k,
        forall|i: int| 0 <= i < rows.len() && (#[trigger] rows[i]).0 == k ==> row_pos(rows, k) == i,
    decreases rows.len(),
{
    if rows.len() > 0 {
        let d = rows.drop_last();
        assert forall|i: int, j: int| 0 <= i < j < d.len() implies #[trigger] d[i].0 != #[trigger] d[j].0 by {
            assert(rows[i] == d[i] && rows[j] == d[j]);
        }
        lemma_row_pos(d, k);
        assert forall|i: int| 0 <= i < rows.len() && (#[trigger] rows[i]).0 == k implies row_pos(rows, k) == i by {
            if i < rows.len() - 1 {
                assert(d[i] == rows[i]);
                if rows.last().0 == k {
                    assert(rows[i].0 != rows[rows.len() - 1].0);
                }
            }
        }
        if row_pos(rows, k) < 0 {
            assert forall|i: int| 0 <= i < rows.len() implies (#[trigger] rows[i]).0 != k by {
                if i < rows.len() - 1 {
                    assert(d[i] == rows[i]);
                }
            }
        }
    }
}

/// The rows whose window started less than ten minutes before `now`, in order.
pub closed spec fn recent_rows(rows: Seq<(Seq<char>, RateState)>, now: i64) -> Seq<(Seq<char>, RateState)>
    decreases rows.len(),
{
    if rows.len() == 0 {
        rows
    } else {
        let r = recent_rows(rows.drop_last(), now);
        if sat_sub_i64(now, rows.last().1.start()) < RATE_IDLE_MS {
            r.push(rows.last())
        } else {
            r
        }
    }
}

/// The table after a request from `key`, and whether it is accepted. The
/// sender's row is created (or updated) even when the request is refused; an
/// accepted request that leaves more than 50 000 rows prunes the idle ones.
pub closed spec fn limiter_step(rows: Seq<(Seq<char>, RateState)>, key: Seq<char>, now: i64, bytes: u64, l: InboxRateLimits) -> (Seq<(Seq<char>, RateState)>, bool) {
    let p = row_pos(rows, key);
    let st = if p >= 0 { rows[p].1 } else { RateState { window_start_ms: 0, reqs: 0, bytes: 0 } };
    let (st2, ok) = rate_step(st, now, bytes, l);
    let rows1 = if p >= 0 { rows.update(p, (key, st2)) } else { rows.push((key, st2)) };
    if ok && rows1.len() > RATE_TABLE_SOFT_CAP {
        (recent_rows(rows1, now), true)
    } else {
        (rows1, ok)
    }
}

/// The inbox's rate windows, one per sender key.
pub struct InboxLimiter {
    entries: Vec<(String, RateState)>,
}

impl InboxLimiter {
    /// The (sender key, window) rows, in order of first request.
    pub closed spec fn rows(&self) -> Seq<(Seq<char>, RateState)> {
        self.entries@.map_values(|e: (String, RateState)| (e.0@, e.1))
    }

    /// Each sender has one row.
    pub open spec fn wf(&self) -> bool {
        rows_distinct(self.rows())
    }

    pub fn new() -> (r: Self)
        ensures
            r.wf(),
            r.rows().len() == 0,
    {
        let r = InboxLimiter { entries: Vec::new() };
        assert(r.rows() =~= Seq::<(Seq<char>, RateState)>::empty());
        r
    }

    /// The number of senders tracked.
    pub fn len(&self) -> (r: usize)
        ensures
            r == self.rows().len(),
    {
        self.entries.len()
    }

    /// Admits or refuses a request of `bytes` bytes from `key` at time `now`
    /// (`inbox_rate_limit`): true when it is within the sender's allowance.
    pub fn check(&mut self, key: &str, now: i64, bytes: u64, limits: &InboxRateLimits) -> (r: bool)
        requires
            old(self).wf(),
        ensures
            final(self).wf(),
            (final(self).rows(), r) == limiter_step(old(self).rows(), key@, now, bytes, *limits),
    {
        let ghost rows0 = self.rows();
        proof {
            lemma_row_pos(rows0, key@);
        }
        let mut i: usize = 0;
        let mut found = false;
        while i < self.entries.len()
            invariant_except_break
                !found,
            invariant
                i <= self.entries.len(),
                self.rows() == rows0,
                rows_distinct(rows0),
                forall|j: int| 0 <= j < i ==> (#[trigger] rows0[j]).0 != key@,
            ensures
                i <= self.entries.len(),
                self.rows() == rows0,
                forall|j: int| 0 <= j < i ==> (#[trigger] rows0[j]).0 != key@,
                found ==> i < self.entries.len() && rows0[i as int].0 == key@,
                !found ==> i == self.entries.len(),
            decreases self.entries.len() - i,
        {
            if str_eq(self.entries[i].0.as_str(), key) {
                found = true;
                break;
            }
            i += 1;
        }
        proof {
            lemma_row_pos(rows0, key@);
            if found {
                assert(rows0[i as int].0 == key@);
            } else {
                if row_pos(rows0, key@) >= 0 {
                    assert(rows0[row_pos(rows0, key@)].0 == key@);
                }
            }
        }
        let st = if found { self.entries[i].1.copy() } else { RateState::new() };
        let ghost p = row_pos(rows0, key@);
        assert(found ==> p == i);
        assert(!found ==> p < 0);
        let limits_reqs: u32 = if limits.max_reqs_per_min < 1 { 1 } else { limits.max_reqs_per_min };
        let limits_bytes: u64 = if limits.max_bytes_per_min < 1024 { 1024 } else { limits.max_bytes_per_min };
        let fresh = saturating_sub_i64(now, st.window_start_ms) >= RATE_WINDOW_MS;
        let s = if fresh { RateState { window_start_ms: now, reqs: 0, bytes: 0 } } else { st };
        let ok: bool;
        let s2: RateState;
        if (s.reqs as u64) + 1 > limits_reqs as u64 {
            ok = false;
            s2 = s;
        } else if (s.bytes as u128) + (bytes as u128) > limits_bytes as u128 {
            ok = false;
            s2 = s;
        } else {
            ok = true;
            s2 = RateState { window_start_ms: s.window_start_ms, reqs: s.reqs + 1, bytes: s.bytes + bytes };
        }
        let ghost st2 = s2;
        assert((st2, ok) == rate_step(if p >= 0 { rows0[p].1 } else { RateState { window_start_ms: 0, reqs: 0, bytes: 0 } }, now, bytes, *limits));
        if found {
            let name = self.entries[i].0.clone();
            self.entries.set(i, (name, s2));
            assert(self.rows() =~= rows0.update(i as int, (key@, st2)));
            assert forall|a: int, b: int| 0 <= a < b < self.rows().len() implies #[trigger] self.rows()[a].0 != #[trigger] self.rows()[b].0 by {
                assert(rows0[a].0 != rows0[b].0);
            }
        } else {
            self.entries.push((key.to_owned(), s2));
            assert(self.rows() =~= rows0.push((key@, st2)));
            assert forall|a: int, b: int| 0 <= a < b < self.rows().len() implies #[trigger] self.rows()[a].0 != #[trigger] self.rows()[b].0 by {
                if b < rows0.len() {
                    assert(rows0[a].0 != rows0[b].0);
                } else {
                    assert(rows0[a].0 != key@);
                }
            }
        }
        if ok && self.entries.len() > RATE_TABLE_SOFT_CAP {
            self.prune(now);
        }
        ok
    }

    /// Forgets the senders whose window started ten minutes or more before `now`.
    fn prune(&mut self, now: i64)
        requires
            old(self).wf(),
        ensures
            final(self).wf(),
            final(self).rows() == recent_rows(old(self).rows(), now),
    {
        let ghost before = self.rows();
        let mut out: Vec<(String, RateState)> = Vec::new();
        let mut i: usize = 0;
        while i < self.entries.len()
            invariant
                i <= self.entries.len(),
                self.rows() == before,
                out@.map_values(|e: (String, RateState)| (e.0@, e.1)) == recent_rows(before.take(i as int), now),
            decreases self.entries.len() - i,
        {
            assert(before.take(i + 1).drop_last() =~= before.take(i as int));
            let ghost ol = out@;
            if saturating_sub_i64(now, self.entries[i].1.window_start_ms) < RATE_IDLE_MS {
                let e = (self.entries[i].0.clone(), self.entries[i].1.copy());
                out.push(e);
                assert(out@.map_values(|e: (String, RateState)| (e.0@, e.1)) =~= ol.map_values(|e: (String, RateState)| (e.0@, e.1)).push(before[i as int]));
            }
            i += 1;
        }
        assert(before.take(i as int) =~= before);
        self.entries = out;
        proof {
            lemma_recent_rows_distinct(before, now);
        }
    }
}

proof fn lemma_recent_rows_from(rows: Seq<(Seq<char>, RateState)>, now: i64)
    ensures
        forall|a: int| 0 <= a < recent_rows(rows, now).len() ==> exists|b: int| 0 <= b < rows.len() && rows[b] == #[trigger] recent_rows(rows, now)[a],
    decreases rows.len(),
{
    if rows.len() > 0 {
        let d = rows.drop_last();
        lemma_recent_rows_from(d, now);
        let r = recent_rows(d, now);
        let k = recent_rows(rows, now);
        assert forall|a: int| 0 <= a < k.len() implies exists|b: int| 0 <= b < rows.len() && rows[b] == #[trigger] k[a] by {
            if a < r.len() {
                let b = choose|b: int| 0 <= b < d.len() && d[b] == r[a];
                assert(rows[b] == k[a]);
            } else {
                assert(rows[rows.len() - 1] == k[a]);
            }
        }
    }
}

proof fn lemma_recent_rows_distinct(rows: Seq<(Seq<char>, RateState)>, now: i64)
    requires
        rows_distinct(rows),
    ensures
        rows_distinct(recent_rows(rows, now)),
    decreases rows.len(),
{
    if rows.len() > 0 {
        let d = rows.drop_last();
        assert forall|i: int, j: int| 0 <= i < j < d.len() implies #[trigger] d[i].0 != #[trigger] d[j].0 by {
            assert(rows[i] == d[i] && rows[j] == d[j]);
        }
        lemma_recent_rows_distinct(d, now);
        lemma_recent_rows_from(d, now);
        let r = recent_rows(d, now);
        let k = recent_rows(rows, now);
        assert forall|i: int, j: int| 0 <= i < j < k.len() implies #[trigger] k[i].0 != #[trigger] k[j].0 by {
            if j < r.len() {
                assert(k[i] == r[i] && k[j] == r[j]);
            } else {
                assert(k[i] == r[i]);
                let b = choose|b: int| 0 <= b < d.len() && d[b] == r[i];
                assert(rows[b] == d[b]);
                assert(k[j] == rows[rows.len() - 1]);
            }
        }
    }
}

/// A sender's window never holds more than its allowances: if it was within
/// them before a request, it is within them after, whether the request was
/// accepted or refused, and an accepted request is always counted.
pub proof fn lemma_rate_within_allowance(st: RateState, now: i64, bytes: u64, l: InboxRateLimits)
    requires
        st.req_count() <= req_allowance(l),
        st.byte_count() <= byte_allowance(l),
    ensures
        rate_step(st, now, bytes, l).0.req_count() <= req_allowance(l),
        rate_step(st, now, bytes, l).0.byte_count() <= byte_allowance(l),
        rate_step(st, now, bytes, l).1 ==> rate_step(st, now, bytes, l).0.req_count() >= 1,
{
}

/// Within one window the allowance is a hard limit: a request is refused
/// exactly when counting it would exceed the request or byte allowance.
pub proof fn lemma_rate_refusal(st: RateState, now: i64, bytes: u64, l: InboxRateLimits)
    requires
        sat_sub_i64(now, st.start()) < RATE_WINDOW_MS,
    ensures
        !rate_step(st, now, bytes, l).1 <==> (st.req_count() + 1 > req_allowance(l) || st.byte_count() + bytes > byte_allowance(l)),
        rate_step(st, now, bytes, l).1 ==> rate_step(st, now, bytes, l).0.req_count() == st.req_count() + 1
            && rate_step(st, now, bytes, l).0.byte_count() == st.byte_count() + bytes
            && rate_step(st, now, bytes, l).0.start() == st.start(),
{
}

} // verus!
