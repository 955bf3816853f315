//! Peer discovery records: what the DHT keeps about the devices behind a
//! DID, and how a device merges itself into that record.
use vstd::prelude::*;
use crate::text::{trim, str_chars, trim_chars, str_eq};
use crate::order::{lex_lt, compare_chars, lemma_lex_trans, lemma_lex_total};
use crate::limits::sat_sub_i64;
use crate::metrics::now_ms;

verus! {

/// A device announced under a peer id.
#[derive(Clone, Debug)]
pub struct PeerDiscoveryRecord {
    pub peer_id: String,
    pub actor: String,
    pub addrs: Vec<String>,
    pub updated_at_ms: i64,
    pub v: u32,
}

/// The devices known for a DID.
#[derive(Clone, Debug)]
pub struct DidDiscoveryRecord {
    pub did: String,
    pub actor: String,
    pub peers: Vec<DidPeer>,
    pub updated_at_ms: i64,
    pub v: u32,
}

/// One device of a DID, with when it was last seen.
#[derive(Clone, Debug)]
pub struct DidPeer {
    pub peer_id: String,
    pub addrs: Vec<String>,
    pub last_seen_ms: i64,
}

/// How long a device stays in a DID record without being seen again, and
/// how long a record's actor stays authoritative.
pub const DID_PEER_TTL_MS: i64 = 7 * 24 * 3600 * 1000;

/// The most devices a DID record lists.
pub const DID_MAX_PEERS: usize = 16;

/// The peers with a non-blank id seen at or after `cutoff`, in order.
pub open spec fn fresh_peers(ps: Seq<DidPeer>, cutoff: i64) -> Seq<DidPeer>
    decreases ps.len(),
{
    if ps.len() == 0 {
        ps
    } else {
        let r = fresh_peers(ps.drop_last(), cutoff);
        if trim(ps.last().peer_id@).len() > 0 && ps.last().last_seen_ms >= cutoff {
            r.push(ps.last())
        } else {
            r
        }
    }
}

/// The position of the first peer with id `id`, or -1.
pub open spec fn peer_pos(ps: Seq<DidPeer>, id: Seq<char>) -> int
    decreases ps.len(),
{
    if ps.len() == 0 {
        -1
    } else if ps[0].peer_id@ == id {
        0
    } else if peer_pos(ps.drop_first(), id) < 0 {
        -1
    } else {
        peer_pos(ps.drop_first(), id) + 1
    }
}

pub proof fn lemma_peer_pos(ps: Seq<DidPeer>, id: Seq<char>)
    ensures
        -1 <= peer_pos(ps, id) < ps.len(),
        peer_pos(ps, id) >= 0 ==> ps[peer_pos(ps, id)].peer_id@ == id,
        peer_pos(ps, id) >= 0 ==> forall|j: int| 0 <= j < peer_pos(ps, id) ==> (#[trigger] ps[j]).peer_id@ != id,
        peer_pos(ps, id) < 0 ==> forall|j: int| 0 <= j < ps.len() ==> (#[trigger] ps[j]).peer_id@ != id,
    decreases ps.len(),
{
    if ps.len() > 0 && ps[0].peer_id@ != id {
        let d = ps.drop_first();
        lemma_peer_pos(d, id);
        assert forall|j: int| 0 < j < ps.len() implies ps[j] == #[trigger] d[j - 1] by {}
        if peer_pos(ps, id) >= 0 {
            assert(ps[peer_pos(ps, id)] == d[peer_pos(d, id)]);
            assert forall|j: int| 0 <= j < peer_pos(ps, id) implies (#[trigger] ps[j]).peer_id@ != id by {
                if j > 0 {
                    assert(ps[j] == d[j - 1]);
                }
            }
        } else {
            assert forall|j: int| 0 <= j < ps.len() implies (#[trigger] ps[j]).peer_id@ != id by {
                if j > 0 {
                    assert(ps[j] == d[j - 1]);
                }
            }
        }
    }
}

/// The peers with the local device recorded as seen at `now` with its
/// current addresses: its first entry updated, or a new entry at the end.
pub open spec fn upsert_self(ps: Seq<DidPeer>, me: DidPeer) -> Seq<DidPeer> {
    let i = peer_pos(ps, me.peer_id@);
    if i >= 0 {
        ps.update(i, me)
    } else {
        ps.push(me)
    }
}

pub open spec fn ids_of(ps: Seq<DidPeer>) -> Seq<Seq<char>> {
    ps.map_values(|p: DidPeer| p.peer_id@)
}

/// The first entry for each peer id, in order.
pub open spec fn first_per_id(ps: Seq<DidPeer>) -> Seq<DidPeer>
    decreases ps.len(),
{
    if ps.len() == 0 {
        ps
    } else {
        let r = first_per_id(ps.drop_last());
        if ids_of(r).contains(ps.last().peer_id@) {
            r
        } else {
            r.push(ps.last())
        }
    }
}

/// Peer ids strictly increasing.
pub open spec fn ids_sorted(ps: Seq<DidPeer>) -> bool {
    forall|a: int, b: int| 0 <= a < b < ps.len() ==> lex_lt(#[trigger] ps[a].peer_id@, #[trigger] ps[b].peer_id@)
}

/// The peers of the merged record: among `d` (one entry per peer id), the
/// ones with the smallest ids, at most sixteen, sorted by id.
pub open spec fn is_kept_peers(r: Seq<DidPeer>, d: Seq<DidPeer>) -> bool {
    &&& ids_sorted(r)
    &&& r.len() == if d.len() < 16 { d.len() } else { 16 }
    &&& forall|k: int| 0 <= k < r.len() ==> d.contains(#[trigger] r[k])
    &&& forall|j: int| 0 <= j < d.len() ==> r.contains(#[trigger] d[j]) || (r.len() == 16
        && forall|k: int| 0 <= k < r.len() ==> lex_lt(#[trigger] r[k].peer_id@, d[j].peer_id@))
}

/// The peers of the record read from the DHT, none when there was none.
pub open spec fn prior_peers(existing: Option<DidDiscoveryRecord>) -> Seq<DidPeer> {
    match existing {
        Some(e) => e.peers@,
        None => Seq::empty(),
    }
}

/// The candidates for the merged record: the fresh prior peers with the local
/// device upserted, one entry per peer id (the first).
pub open spec fn merged_peers(existing: Option<DidDiscoveryRecord>, cutoff: i64, me: DidPeer) -> Seq<DidPeer> {
    first_per_id(upsert_self(fresh_peers(prior_peers(existing), cutoff), me))
}

/// The actor a merged record names: the existing one while it is not blank,
/// unless the record is stale and has no peers left; otherwise the local actor.
pub open spec fn merged_actor(existing: Option<DidDiscoveryRecord>, cutoff: i64, peers_empty: bool, self_actor: Seq<char>) -> Seq<char> {
    match existing {
        Some(e) => if trim(e.actor@).len() > 0 {
            if e.updated_at_ms < cutoff && peers_empty { self_actor } else { e.actor@ }
        } else {
            self_actor
        },
        None => self_actor,
    }
}

fn fresh_exec(ps: Vec<DidPeer>, cutoff: i64) -> (r: Vec<DidPeer>)
    ensures
        r@ == fresh_peers(ps@, cutoff),
{
    let ghost all = ps@;
    let total: usize = ps.len();
    let mut out: Vec<DidPeer> = Vec::new();
    let mut rest = ps;
    let mut i: usize = 0;
    assert(all.skip(0) =~= all);
    while rest.len() > 0
        invariant
            i + rest.len() == all.len(),
            all.len() == total,
            rest@ == all.skip(i as int),
            out@ == fresh_peers(all.take(i as int), cutoff),
        decreases rest.len(),
    {
        let p = rest.remove(0);
        proof {
            assert(all.skip(i as int)[0] == all[i as int]);
            assert(all.skip(i as int).remove(0) =~= all.skip(i + 1));
            assert(all.take(i + 1).drop_last() =~= all.take(i as int));
            assert(all.take(i + 1).last() == all[i as int]);
        }
        if trim_chars(&str_chars(p.peer_id.as_str())).len() > 0 && p.last_seen_ms >= cutoff {
            out.push(p);
        }
        i += 1;
    }
    assert(all.take(i as int) =~= all);
    out
}

fn position_of(ps: &Vec<DidPeer>, id: &str) -> (r: Option<usize>)
    ensures
        match r {
            Some(i) => i < ps.len() && peer_pos(ps@, id@) == i,
            None => peer_pos(ps@, id@) < 0,
        },
{
    proof {
        lemma_peer_pos(ps@, id@);
    }
    let mut i: usize = 0;
    while i < ps.len()
        invariant
            i <= ps.len(),
            forall|j: int| 0 <= j < i ==> (#[trigger] ps@[j]).peer_id@ != id@,
        decreases ps.len() - i,
    {
        if str_eq(ps[i].peer_id.as_str(), id) {
            proof {
                lemma_peer_pos(ps@, id@);
                let f = peer_pos(ps@, id@);
                if 0 <= f < i {
                    assert(ps@[f].peer_id@ == id@);
                }
            }
            return Some(i);
        }
        i += 1;
    }
    proof {
        lemma_peer_pos(ps@, id@);
        let f = peer_pos(ps@, id@);
        if f >= 0 {
            assert(ps@[f].peer_id@ == id@);
        }
    }
    None
}

fn has_id(ps: &Vec<DidPeer>, id: &str) -> (r: bool)
    ensures
        r == ids_of(ps@).contains(id@),
{
    match position_of(ps, id) {
        Some(i) => {
            proof {
                lemma_peer_pos(ps@, id@);
                assert(ids_of(ps@)[i as int] == ps@[i as int].peer_id@);
            }
            true
        },
        None => {
            proof {
                lemma_peer_pos(ps@, id@);
                assert forall|j: int| 0 <= j < ids_of(ps@).len() implies ids_of(ps@)[j] != id@ by {
                    assert(ids_of(ps@)[j] == ps@[j].peer_id@);
                }
            }
            false
        },
    }
}

pub(crate) proof fn lemma_first_per_id_distinct(ps: Seq<DidPeer>)
    ensures
        forall|a: int, b: int| 0 <= a < b < first_per_id(ps).len() ==> (#[trigger] first_per_id(ps)[a]).peer_id@ != (#[trigger] first_per_id(ps)[b]).peer_id@,
    decreases ps.len(),
{
    if ps.len() > 0 {
        lemma_first_per_id_distinct(ps.drop_last());
        let r = first_per_id(ps.drop_last());
        if !ids_of(r).contains(ps.last().peer_id@) {
            let n = r.push(ps.last());
            assert forall|a: int, b: int| 0 <= a < b < n.len() implies (#[trigger] n[a]).peer_id@ != (#[trigger] n[b]).peer_id@ by {
                if b == r.len() {
                    assert(ids_of(r)[a] == r[a].peer_id@);
                }
            }
        }
    }
}

/// Sorts peers with distinct ids by id.
pub(crate) fn sort_by_id(d: Vec<DidPeer>) -> (r: Vec<DidPeer>)
    requires
        forall|a: int, b: int| 0 <= a < b < d@.len() ==> (#[trigger] d@[a]).peer_id@ != (#[trigger] d@[b]).peer_id@,
    ensures
        ids_sorted(r@),
        r@.len() == d@.len(),
        forall|k: int| 0 <= k < r@.len() ==> d@.contains(#[trigger] r@[k]),
        forall|j: int| 0 <= j < d@.len() ==> r@.contains(#[trigger] d@[j]),
{
    let ghost all = d@;
    let total: usize = d.len();
    let mut out: Vec<DidPeer> = Vec::new();
    let mut rest = d;
    let mut i: usize = 0;
    assert(all.skip(0) =~= all);
    while rest.len() > 0
        invariant
            i + rest.len() == all.len(),
            all.len() == total,
            rest@ == all.skip(i as int),
            forall|a: int, b: int| 0 <= a < b < all.len() ==> (#[trigger] all[a]).peer_id@ != (#[trigger] all[b]).peer_id@,
            ids_sorted(out@),
            out@.len() == i,
            forall|k: int| 0 <= k < out@.len() ==> all.take(i as int).contains(#[trigger] out@[k]),
            forall|j: int| 0 <= j < i ==> out@.contains(#[trigger] all[j]),
        decreases rest.len(),
    {
        let x = rest.remove(0);
        proof {
            assert(all.skip(i as int)[0] == all[i as int]);
            assert(all.skip(i as int).remove(0) =~= all.skip(i + 1));
        }
        let k = str_chars(x.peer_id.as_str());
        let mut p: usize = 0;
        while p < out.len() && compare_chars(&str_chars(out[p].peer_id.as_str()), &k) < 0
            invariant
                p <= out.len(),
                k@ == x.peer_id@,
                forall|j: int| 0 <= j < p ==> lex_lt(#[trigger] out@[j].peer_id@, k@),
            decreases out.len() - p,
        {
            p += 1;
        }
        let ghost old_out = out@;
        proof {
            // x's id differs from every id already placed
            assert forall|q: int| 0 <= q < old_out.len() implies (#[trigger] old_out[q]).peer_id@ != x.peer_id@ by {
                assert(all.take(i as int).contains(old_out[q]));
                let j = choose|j: int| 0 <= j < all.take(i as int).len() && all.take(i as int)[j] == old_out[q];
                assert(all[j] == old_out[q]);
                assert(x == all[i as int]);
            }
            if p < old_out.len() {
                lemma_lex_total(old_out[p as int].peer_id@, k@);
                assert(lex_lt(k@, old_out[p as int].peer_id@));
                assert forall|j: int| p <= j < old_out.len() implies lex_lt(k@, #[trigger] old_out[j].peer_id@) by {
                    if j > p {
                        lemma_lex_trans(k@, old_out[p as int].peer_id@, old_out[j].peer_id@);
                    }
                }
            }
        }
        out.insert(p, x);
        proof {
            let nw = out@;
            assert(nw =~= old_out.insert(p as int, x));
            assert forall|a: int, b: int| 0 <= a < b < nw.len() implies lex_lt(#[trigger] nw[a].peer_id@, #[trigger] nw[b].peer_id@) by {
                if b < p {
                    assert(nw[a] == old_out[a] && nw[b] == old_out[b]);
                } else if b == p {
                    assert(nw[a] == old_out[a]);
                } else if a < p {
                    assert(nw[a] == old_out[a] && nw[b] == old_out[b - 1]);
                    lemma_lex_trans(old_out[a].peer_id@, k@, old_out[b - 1].peer_id@);
                } else if a == p {
                    assert(nw[b] == old_out[b - 1]);
                } else {
                    assert(nw[a] == old_out[a - 1] && nw[b] == old_out[b - 1]);
                }
            }
            assert forall|q: int| 0 <= q < nw.len() implies all.take(i + 1).contains(#[trigger] nw[q]) by {
                if q < p {
                    assert(nw[q] == old_out[q]);
                    let j = choose|j: int| 0 <= j < all.take(i as int).len() && all.take(i as int)[j] == old_out[q];
                    assert(all.take(i + 1)[j] == nw[q]);
                } else if q == p {
                    assert(all.take(i + 1)[i as int] == x);
                } else {
                    assert(nw[q] == old_out[q - 1]);
                    let j = choose|j: int| 0 <= j < all.take(i as int).len() && all.take(i as int)[j] == old_out[q - 1];
                    assert(all.take(i + 1)[j] == nw[q]);
                }
            }
            assert forall|j: int| 0 <= j < i + 1 implies nw.contains(#[trigger] all[j]) by {
                if j == i {
                    assert(nw[p as int] == x);
                } else {
                    assert(old_out.contains(all[j]));
                    let q = choose|q: int| 0 <= q < old_out.len() && old_out[q] == all[j];
                    if q < p {
                        assert(nw[q] == all[j]);
                    } else {
                        assert(nw[q + 1] == all[j]);
                    }
                }
            }
        }
        i += 1;
    }
    assert(all.take(i as int) =~= all);
    out
}

pub fn clone_strings(v: &Vec<String>) -> (r: Vec<String>)
    ensures
        views_of(r) == views_of(*v),
{
    let mut out: Vec<String> = Vec::new();
    let mut i: usize = 0;
    while i < v.len()
        invariant
            i <= v.len(),
            out@.len() == i,
            forall|k: int| 0 <= k < i ==> (#[trigger] out@[k])@ == v@[k]@,
        decreases v.len() - i,
    {
        out.push(v[i].clone());
        i += 1;
    }
    assert forall|k: int| 0 <= k < v@.len() implies #[trigger] views_of(out)[k] == views_of(*v)[k] by {
        assert(out@[k]@ == v@[k]@);
    }
    assert(views_of(out) =~= views_of(*v));
    out
}

pub(crate) fn first_per_id_exec(u: Vec<DidPeer>) -> (r: Vec<DidPeer>)
    ensures
        r@ == first_per_id(u@),
{
    let ghost all = u@;
    let total: usize = u.len();
    let mut out: Vec<DidPeer> = Vec::new();
    let mut rest = u;
    let mut i: usize = 0;
    assert(all.skip(0) =~= all);
    while rest.len() > 0
        invariant
            i + rest.len() == all.len(),
            all.len() == total,
            rest@ == all.skip(i as int),
            out@ == first_per_id(all.take(i as int)),
        decreases rest.len(),
    {
        let x = rest.remove(0);
        proof {
            assert(all.skip(i as int)[0] == all[i as int]);
            assert(all.skip(i as int).remove(0) =~= all.skip(i + 1));
            assert(all.take(i + 1).drop_last() =~= all.take(i as int));
            assert(all.take(i + 1).last() == all[i as int]);
        }
        if !has_id(&out, x.peer_id.as_str()) {
            out.push(x);
        }
        i += 1;
    }
    assert(all.take(i as int) =~= all);
    out
}

/// Merges the local device into the DID record read from the DHT (when it
/// parsed), as of time `now`: peers unseen for a week or with a blank id
/// are dropped, the local device is recorded with its current addresses,
/// one entry is kept per peer id (the first), the sixteen smallest ids are
/// kept sorted, and the record's actor is kept stable.
pub fn merge_did_record_at(existing: Option<DidDiscoveryRecord>, did: &str, self_record: &PeerDiscoveryRecord, now: i64) -> (r: DidDiscoveryRecord)
    ensures
        r.did@ == did@,
        r.updated_at_ms == now,
        r.v == 1,
        exists|me: DidPeer| me.peer_id@ == self_record.peer_id@ && views_of(me.addrs) == views_of(self_record.addrs)
            && me.last_seen_ms == now
            && #[trigger] is_kept_peers(r.peers@, merged_peers(existing, sat_sub_i64(now, DID_PEER_TTL_MS), me)),
        r.actor@ == merged_actor(existing, sat_sub_i64(now, DID_PEER_TTL_MS), r.peers@.len() == 0, self_record.actor@),
{
    let d128: i128 = (now as i128) - (DID_PEER_TTL_MS as i128);
    let cutoff: i64 = if d128 < i64::MIN as i128 { i64::MIN } else { d128 as i64 };
    let ghost ex = existing;
    let (base, old_actor, old_updated) = match existing {
        Some(e) => (e.peers, Some(e.actor), e.updated_at_ms),
        None => (Vec::new(), None, 0),
    };
    let ghost gbase = base@;
    let mut peers = fresh_exec(base, cutoff);
    let me = DidPeer {
        peer_id: self_record.peer_id.clone(),
        addrs: clone_strings(&self_record.addrs),
        last_seen_ms: now,
    };
    let ghost gme = me;
    let ghost fresh = peers@;
    match position_of(&peers, self_record.peer_id.as_str()) {
        Some(i) => {
            peers.set(i, me);
        },
        None => {
            peers.push(me);
        },
    }
    assert(peers@ == upsert_self(fresh, gme));
    let ghost u = peers@;
    let d = first_per_id_exec(peers);
    proof {
        lemma_first_per_id_distinct(u);
    }
    let ghost dv = d@;
    let mut sorted = sort_by_id(d);
    let ghost sv = sorted@;
    if sorted.len() > DID_MAX_PEERS {
        sorted.truncate(DID_MAX_PEERS);
    }
    proof {
        let r = sorted@;
        assert(r =~= sv.take(if sv.len() < 16 { sv.len() as int } else { 16 }));
        assert forall|k: int| 0 <= k < r.len() implies dv.contains(#[trigger] r[k]) by {
            assert(r[k] == sv[k]);
        }
        assert forall|j: int| 0 <= j < dv.len() implies r.contains(#[trigger] dv[j]) || (r.len() == 16
            && forall|k: int| 0 <= k < r.len() ==> lex_lt(#[trigger] r[k].peer_id@, dv[j].peer_id@)) by {
            assert(sv.contains(dv[j]));
            let q = choose|q: int| 0 <= q < sv.len() && sv[q] == dv[j];
            if q < r.len() {
                assert(r[q] == dv[j]);
            } else {
                assert forall|k: int| 0 <= k < r.len() implies lex_lt(#[trigger] r[k].peer_id@, dv[j].peer_id@) by {
                    assert(r[k] == sv[k]);
                }
            }
        }
        assert(is_kept_peers(r, dv));
        assert(gbase == prior_peers(ex));
        assert(cutoff == sat_sub_i64(now, DID_PEER_TTL_MS));
        assert(dv == merged_peers(ex, cutoff, gme));
        assert(is_kept_peers(sorted@, merged_peers(existing, sat_sub_i64(now, DID_PEER_TTL_MS), gme)));
    }
    let actor = match old_actor {
        Some(a) => {
            if trim_chars(&str_chars(a.as_str())).len() > 0 {
                if old_updated < cutoff && sorted.len() == 0 {
                    self_record.actor.clone()
                } else {
                    a
                }
            } else {
                self_record.actor.clone()
            }
        },
        None => self_record.actor.clone(),
    };
    let merged = DidDiscoveryRecord { did: did.to_owned(), actor, peers: sorted, updated_at_ms: now, v: 1 };
    proof {
        assert(gme.peer_id@ == self_record.peer_id@);
        assert(views_of(gme.addrs) == views_of(self_record.addrs));
        assert(is_kept_peers(merged.peers@, merged_peers(existing, sat_sub_i64(now, DID_PEER_TTL_MS), gme)));
    }
    merged
}

/// Merges the local device into a DID record as of the current time (see `merge_did_record_at`).
pub fn merge_did_record(existing: Option<DidDiscoveryRecord>, did: &str, self_record: &PeerDiscoveryRecord) -> (r: DidDiscoveryRecord)
    ensures
        r.did@ == did@,
        r.v == 1,
        exists|me: DidPeer| me.peer_id@ == self_record.peer_id@ && views_of(me.addrs) == views_of(self_record.addrs)
            && me.last_seen_ms == r.updated_at_ms
            && #[trigger] is_kept_peers(r.peers@, merged_peers(existing, sat_sub_i64(r.updated_at_ms, DID_PEER_TTL_MS), me)),
        r.actor@ == merged_actor(existing, sat_sub_i64(r.updated_at_ms, DID_PEER_TTL_MS), r.peers@.len() == 0, self_record.actor@),
{
    let t = now_ms();
    let now: i64 = if t > i64::MAX as u64 { i64::MAX } else { t as i64 };
    merge_did_record_at(existing, did, self_record, now)
}

pub open spec fn views_of(v: Vec<String>) -> Seq<Seq<char>> {
    v@.map_values(|s: String| s@)
}

/// The addresses a node publishes in its own discovery record: its base
/// addresses as they are when it prefers relay addresses or has observed
/// none; otherwise the distinct addresses among the base ones and the first
/// eight observed, in sorted order, at most thirty-two of them (the first).
pub open spec fn self_addrs_ok(base: Seq<Seq<char>>, observed: Seq<Seq<char>>, prefer_relay: bool, r: Seq<Seq<char>>) -> bool {
    if prefer_relay || observed.len() == 0 {
        r == base
    } else {
        exists|all: Seq<Seq<char>>| #[trigger] crate::order::sorted_strict(all)
            && all.to_set() == (base + observed.take(if observed.len() < 8 { observed.len() as int } else { 8 })).to_set()
            && r == all.take(if all.len() < 32 { all.len() as int } else { 32 })
    }
}

/// The addresses to publish in the node's own discovery record (see
/// `self_addrs_ok`); `observed` in the order the node holds them.
pub fn self_record_addrs(base: &Vec<String>, observed: &Vec<String>, prefer_relay: bool) -> (r: Vec<String>)
    ensures
        self_addrs_ok(crate::order::views(base@), crate::order::views(observed@), prefer_relay, crate::order::views(r@)),
{
    let mut out: Vec<String> = Vec::new();
    let mut i: usize = 0;
    while i < base.len()
        invariant
            i <= base.len(),
            crate::order::views(out@) == crate::order::views(base@).take(i as int),
        decreases base.len() - i,
    {
        let ghost before = out@;
        out.push(base[i].clone());
        assert(out@ == before.push(base@[i as int]));
        assert(crate::order::views(out@) =~= crate::order::views(before).push(base@[i as int]@));
        assert(crate::order::views(base@).take(i + 1) =~= crate::order::views(base@).take(i as int).push(base@[i as int]@));
        i += 1;
    }
    assert(crate::order::views(base@).take(i as int) =~= crate::order::views(base@));
    if prefer_relay || observed.len() == 0 {
        return out;
    }
    let n: usize = if observed.len() < 8 { observed.len() } else { 8 };
    let mut k: usize = 0;
    while k < n
        invariant
            k <= n,
            n <= observed.len(),
            crate::order::views(out@) == crate::order::views(base@) + crate::order::views(observed@).take(k as int),
        decreases n - k,
    {
        let ghost before = out@;
        out.push(observed[k].clone());
        assert(out@ == before.push(observed@[k as int]));
        assert(crate::order::views(out@) =~= crate::order::views(before).push(observed@[k as int]@));
        assert(crate::order::views(observed@).take(k + 1) =~= crate::order::views(observed@).take(k as int).push(observed@[k as int]@));
        assert(crate::order::views(out@) =~= crate::order::views(base@) + crate::order::views(observed@).take(k + 1));
        k += 1;
    }
    let all = crate::order::sort_dedup(out);
    let m: usize = if all.len() < 32 { all.len() } else { 32 };
    let mut r: Vec<String> = Vec::new();
    let mut j: usize = 0;
    while j < m
        invariant
            j <= m,
            m <= all.len(),
            crate::order::views(r@) == crate::order::views(all@).take(j as int),
        decreases m - j,
    {
        let ghost before = r@;
        r.push(all[j].clone());
        assert(r@ == before.push(all@[j as int]));
        assert(crate::order::views(r@) =~= crate::order::views(before).push(all@[j as int]@));
        assert(crate::order::views(all@).take(j + 1) =~= crate::order::views(all@).take(j as int).push(all@[j as int]@));
        j += 1;
    }
    assert(crate::order::sorted_strict(crate::order::views(all@)));
    r
}

/// The seconds between two polls of the mailbox peers: 15 by default,
/// within 5..=300.
pub fn mailbox_poll_secs(poll_secs: Option<u64>) -> (r: u64)
    ensures
        r == crate::p2psync::clamp_u64(match poll_secs { Some(p) => p, None => 15 }, 5, 300),
{
    let p = match poll_secs {
        Some(p) => p,
        None => 15,
    };
    if p < 5 { 5 } else if p > 300 { 300 } else { p }
}

/// The circuit address through each relay the node reserves a slot on: the
/// trimmed relay address, `/p2p-circuit/p2p/` and the node's peer id
/// (blank relay entries skipped).
pub open spec fn relay_circuits(relays: Seq<Seq<char>>, peer_id: Seq<char>) -> Seq<Seq<char>>
    decreases relays.len(),
{
    if relays.len() == 0 {
        Seq::empty()
    } else {
        let c = relay_circuits(relays.drop_last(), peer_id);
        let t = trim(relays.last());
        if t.len() == 0 { c } else { c.push(t + "/p2p-circuit/p2p/"@ + peer_id) }
    }
}

/// The addresses the node first publishes in its own discovery record: its
/// announced addresses (none when it only uses relays) and its relay circuit
/// addresses, distinct and sorted. Entries that an IPv4-only node cannot use
/// are left out by the caller, which parses the addresses.
pub fn initial_self_addrs(announce: &Vec<String>, relay_reserve: &Vec<String>, peer_id: &str, force_relay_only: bool) -> (r: Vec<String>)
    ensures
        crate::order::sorted_strict(crate::order::views(r@)),
        crate::order::views(r@).to_set() == ((if force_relay_only { Seq::empty() } else { crate::order::views(announce@) })
            + relay_circuits(crate::order::views(relay_reserve@), peer_id@)).to_set(),
{
    let mut out: Vec<String> = Vec::new();
    if !force_relay_only {
        let mut i: usize = 0;
        while i < announce.len()
            invariant
                i <= announce.len(),
                crate::order::views(out@) == crate::order::views(announce@).take(i as int),
            decreases announce.len() - i,
        {
            let ghost before = out@;
            out.push(announce[i].clone());
            assert(out@ == before.push(announce@[i as int]));
            assert(crate::order::views(out@) =~= crate::order::views(before).push(announce@[i as int]@));
            assert(crate::order::views(announce@).take(i + 1) =~= crate::order::views(announce@).take(i as int).push(announce@[i as int]@));
            i += 1;
        }
        assert(crate::order::views(announce@).take(i as int) =~= crate::order::views(announce@));
    }
    let ghost base = crate::order::views(out@);
    assert(base == (if force_relay_only { Seq::<Seq<char>>::empty() } else { crate::order::views(announce@) }));
    let mut k: usize = 0;
    while k < relay_reserve.len()
        invariant
            k <= relay_reserve.len(),
            crate::order::views(out@) == base + relay_circuits(crate::order::views(relay_reserve@).take(k as int), peer_id@),
        decreases relay_reserve.len() - k,
    {
        let ghost rv = crate::order::views(relay_reserve@);
        proof {
            assert(rv.take(k + 1).drop_last() =~= rv.take(k as int));
            assert(rv.take(k + 1).last() == relay_reserve@[k as int]@);
        }
        let t = crate::text::trim_chars(&str_chars(relay_reserve[k].as_str()));
        if t.len() > 0 {
            let mut v = t;
            crate::text::append_str(&mut v, "/p2p-circuit/p2p/");
            crate::text::append_str(&mut v, peer_id);
            let ghost before = out@;
            out.push(crate::text::string_from_chars(&v));
            assert(out@ == before.push(out@.last()));
            assert(crate::order::views(out@) =~= crate::order::views(before).push(out@.last()@));
        }
        k += 1;
    }
    assert(crate::order::views(relay_reserve@).take(k as int) =~= crate::order::views(relay_reserve@));
    crate::order::sort_dedup(out)
}

} // verus!
