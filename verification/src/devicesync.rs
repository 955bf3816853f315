//! Syncing the outbox and inbox between the devices of one DID: which
//! devices to ask, what to ask them, and what of their answer to keep.
use vstd::prelude::*;
use crate::text::{trim, str_chars, trim_chars, string_from_chars, str_eq, dec, dec_signed, push_dec, push_dec_signed};
use crate::discovery::{DidPeer, first_per_id, ids_sorted, sort_by_id, first_per_id_exec, lemma_first_per_id_distinct};

verus! {

/// Whether a device of the DID is asked: not this device, and not a blank id.
pub open spec fn is_sync_peer(p: DidPeer, self_peer: Seq<char>) -> bool {
    p.peer_id@ != self_peer && trim(p.peer_id@).len() > 0
}

/// The devices to sync with, from the peers of a DID record: one entry per
/// peer id (the first), without this device or blank ids, sorted by id.
pub fn sync_peers(peers: Vec<DidPeer>, self_peer: &str) -> (r: Vec<DidPeer>)
    ensures
        ids_sorted(r@),
        forall|k: int| 0 <= k < r@.len() ==> first_per_id(peers@).contains(#[trigger] r@[k]) && is_sync_peer(r@[k], self_peer@),
        forall|j: int| 0 <= j < first_per_id(peers@).len() && is_sync_peer(first_per_id(peers@)[j], self_peer@)
            ==> r@.contains(#[trigger] first_per_id(peers@)[j]),
{
    let ghost pv = peers@;
    let d = first_per_id_exec(peers);
    proof {
        lemma_first_per_id_distinct(pv);
    }
    let ghost dv = d@;
    let sorted = sort_by_id(d);
    let ghost sv = sorted@;
    let total: usize = sorted.len();
    let mut rest = sorted;
    let mut out: Vec<DidPeer> = Vec::new();
    let mut i: usize = 0;
    let ghost mut idx: Seq<int> = Seq::empty();
    assert(sv.skip(0) =~= sv);
    while rest.len() > 0
        invariant
            i + rest.len() == total,
            sv.len() == total,
            rest@ == sv.skip(i as int),
            idx.len() == out@.len(),
            forall|k: int| 0 <= k < out@.len() ==> 0 <= #[trigger] idx[k] < i && out@[k] == sv[idx[k]],
            forall|a: int, b: int| 0 <= a < b < out@.len() ==> #[trigger] idx[a] < #[trigger] idx[b],
            forall|k: int| 0 <= k < out@.len() ==> is_sync_peer(#[trigger] out@[k], self_peer@),
            forall|q: int| 0 <= q < i && is_sync_peer(#[trigger] sv[q], self_peer@) ==> out@.contains(sv[q]),
        decreases rest.len(),
    {
        let p = rest.remove(0);
        proof {
            assert(sv.skip(i as int)[0] == sv[i as int]);
            assert(sv.skip(i as int).remove(0) =~= sv.skip(i + 1));
        }
        let blank = trim_chars(&str_chars(p.peer_id.as_str())).len() == 0;
        if !str_eq(p.peer_id.as_str(), self_peer) && !blank {
            let ghost before = out@;
            out.push(p);
            proof {
                let ghost old_idx = idx;
                idx = idx.push(i as int);
                assert(out@[before.len() as int] == sv[i as int]);
                assert forall|k: int| 0 <= k < out@.len() implies 0 <= #[trigger] idx[k] < i + 1 && out@[k] == sv[idx[k]] by {
                    if k < before.len() {
                        assert(out@[k] == before[k]);
                        assert(idx[k] == old_idx[k]);
                    }
                }
                assert forall|a: int, b: int| 0 <= a < b < out@.len() implies #[trigger] idx[a] < #[trigger] idx[b] by {
                    assert(idx[a] == old_idx[a]);
                    if b < before.len() {
                        assert(idx[b] == old_idx[b]);
                    }
                }
                assert forall|k: int| 0 <= k < out@.len() implies is_sync_peer(#[trigger] out@[k], self_peer@) by {
                    if k < before.len() {
                        assert(out@[k] == before[k]);
                    }
                }
                assert forall|q: int| 0 <= q < i + 1 && is_sync_peer(#[trigger] sv[q], self_peer@) implies out@.contains(sv[q]) by {
                    if q < i {
                        let k = choose|k: int| 0 <= k < before.len() && before[k] == sv[q];
                        assert(out@[k] == sv[q]);
                    } else {
                        assert(out@[before.len() as int] == sv[q]);
                    }
                }
            }
        } else {
            proof {
                assert(!is_sync_peer(sv[i as int], self_peer@));
            }
        }
        i += 1;
    }
    proof {
        assert forall|a: int, b: int| 0 <= a < b < out@.len() implies crate::order::lex_lt(#[trigger] out@[a].peer_id@, #[trigger] out@[b].peer_id@) by {
            assert(idx[a] < idx[b]);
            assert(out@[a] == sv[idx[a]] && out@[b] == sv[idx[b]]);
        }
        assert forall|k: int| 0 <= k < out@.len() implies dv.contains(#[trigger] out@[k]) && is_sync_peer(out@[k], self_peer@) by {
            assert(out@[k] == sv[idx[k]]);
            assert(dv.contains(sv[idx[k]]));
        }
        assert forall|j: int| 0 <= j < dv.len() && is_sync_peer(dv[j], self_peer@) implies out@.contains(#[trigger] dv[j]) by {
            assert(sv.contains(dv[j]));
            let q = choose|q: int| 0 <= q < sv.len() && sv[q] == dv[j];
            assert(is_sync_peer(sv[q], self_peer@));
        }
    }
    out
}

/// The query of a device outbox or inbox page.
pub open spec fn spec_sync_query(since: i64, limit: u32) -> Seq<char> {
    "?since="@ + dec_signed(since as int) + "&limit="@ + dec(limit as nat)
}

/// Builds the query `?since=<since>&limit=<limit>`.
pub fn device_sync_query(since: i64, limit: u32) -> (r: String)
    ensures
        r@ == spec_sync_query(since, limit),
{
    let mut v: Vec<char> = str_chars("?since=");
    push_dec_signed(&mut v, since);
    let tail = str_chars("&limit=");
    let mut k: usize = 0;
    let ghost mid = v@;
    while k < tail.len()
        invariant
            k <= tail.len(),
            v@ == mid + tail@.take(k as int),
        decreases tail.len() - k,
    {
        v.push(tail[k]);
        proof {
            assert(tail@.take(k + 1) =~= tail@.take(k as int).push(tail@[k as int]));
        }
        k += 1;
    }
    proof {
        assert(tail@.take(k as int) =~= tail@);
    }
    push_dec(&mut v, limit as u64);
    string_from_chars(&v)
}

pub open spec fn is_digit(c: char) -> bool {
    '0' <= c <= '9'
}

/// The value of a string of decimal digits.
pub open spec fn digits_value(s: Seq<char>) -> int
    decreases s.len(),
{
    if s.len() == 0 {
        0
    } else {
        digits_value(s.drop_last()) * 10 + (s.last() as int - '0' as int)
    }
}

/// What `i64::from_str` accepts: an optional sign, then one or more ASCII
/// digits, of a value that fits.
pub open spec fn spec_parse_i64(s: Seq<char>) -> Option<i64> {
    let body = number_body(s);
    if body.len() == 0 || !all_digits(body) {
        None
    } else {
        let v = if s.len() > 0 && s[0] == '-' { -digits_value(body) } else { digits_value(body) };
        if i64::MIN <= v <= i64::MAX { Some(v as i64) } else { None }
    }
}

/// The text after an optional leading sign.
pub open spec fn number_body(s: Seq<char>) -> Seq<char> {
    if s.len() > 0 && (s[0] == '-' || s[0] == '+') { s.drop_first() } else { s }
}

pub open spec fn all_digits(s: Seq<char>) -> bool {
    forall|i: int| 0 <= i < s.len() ==> is_digit(#[trigger] s[i])
}

proof fn lemma_digits_prefix(s: Seq<char>, k: int)
    requires
        0 <= k <= s.len(),
        forall|i: int| 0 <= i < s.len() ==> is_digit(#[trigger] s[i]),
    ensures
        digits_value(s.take(k)) <= digits_value(s),
        0 <= digits_value(s.take(k)),
    decreases s.len() - k,
{
    if k < s.len() {
        lemma_digits_prefix(s, k + 1);
        assert(s.take(k + 1).drop_last() =~= s.take(k));
        assert(s.take(k + 1).last() == s[k]);
        assert(is_digit(s[k]));
    } else {
        assert(s.take(k) =~= s);
        lemma_digits_nonneg(s);
    }
}

proof fn lemma_digits_nonneg(s: Seq<char>)
    requires
        forall|i: int| 0 <= i < s.len() ==> is_digit(#[trigger] s[i]),
    ensures
        0 <= digits_value(s),
    decreases s.len(),
{
    if s.len() > 0 {
        assert(is_digit(s[s.len() - 1]));
        lemma_digits_nonneg(s.drop_last());
    }
}

/// Parses a decimal `i64` as `str::parse::<i64>` does.
pub fn parse_i64(s: &str) -> (r: Option<i64>)
    ensures
        r == spec_parse_i64(s@),
{
    let cs = str_chars(s);
    let n = cs.len();
    let neg = n > 0 && cs[0] == '-';
    let start: usize = if n > 0 && (cs[0] == '-' || cs[0] == '+') { 1 } else { 0 };
    let ghost body = number_body(s@);
    proof {
        assert(body =~= cs@.skip(start as int));
    }
    if start >= n {
        proof {
            assert(cs@ == s@);
            assert(body.len() == 0);
        }
        return None;
    }
    let limit: u64 = 9223372036854775808;
    let mut acc: u64 = 0;
    let mut i: usize = start;
    while i < n
        invariant
            start <= i <= n,
            n == cs@.len(),
            cs@ == s@,
            body =~= cs@.skip(start as int),
            body == number_body(s@),
            start == 1 <==> (s@.len() > 0 && (s@[0] == '-' || s@[0] == '+')),
            neg == (s@.len() > 0 && s@[0] == '-'),
            acc as int == digits_value(body.take(i - start)),
            acc <= limit,
            limit == 9223372036854775808u64,
            forall|j: int| 0 <= j < i - start ==> is_digit(#[trigger] body[j]),
        decreases n - i,
    {
        let c = cs[i];
        proof {
            assert(body[i - start] == c);
        }
        if !('0' <= c && c <= '9') {
            proof {
                assert(!is_digit(body[i - start]));
                assert(!all_digits(body));
            }
            return None;
        }
        let d: u64 = (c as u32 - '0' as u32) as u64;
        proof {
            assert(body.take(i - start + 1).drop_last() =~= body.take(i - start));
            assert(body.take(i - start + 1).last() == c);
        }
        proof {
            assert(digits_value(body.take(i - start + 1)) == acc * 10 + d);
        }
        if acc > (limit - d) / 10 {
            proof {
                assert(acc * 10 + d > limit) by (nonlinear_arith)
                    requires acc > (limit - d) / 10, d <= 9, limit == 9223372036854775808u64;
                assert forall|j: int| 0 <= j < i - start + 1 implies is_digit(#[trigger] body[j]) by {
                    if j == i - start {
                        assert(body[j] == c);
                    }
                }
                // every digit left is a digit or the parse fails anyway
                if all_digits(body) {
                    lemma_digits_prefix(body, i - start + 1);
                    assert(digits_value(body) > limit);
                }
                assert(cs@ == s@);
            }
            return None;
        }
        proof {
            assert(acc * 10 + d <= limit) by (nonlinear_arith)
                requires acc <= (limit - d) / 10, d <= 9, limit == 9223372036854775808u64;
        }
        acc = acc * 10 + d;
        proof {
            assert forall|j: int| 0 <= j < i - start + 1 implies is_digit(#[trigger] body[j]) by {
                if j == i - start {
                    assert(body[j] == c);
                }
            }
        }
        i += 1;
    }
    proof {
        assert(body.take(i - start) =~= body);
    }
    if neg {
        if acc == limit {
            Some(i64::MIN)
        } else {
            Some(-(acc as i64))
        }
    } else if acc == limit {
        None
    } else {
        Some(acc as i64)
    }
}

/// The sync cursor stored for a device: its number, or 0 when it is
/// missing or not a number.
pub fn parse_since(stored: Option<&str>) -> (r: i64)
    ensures
        r == match stored {
            Some(v) => match spec_parse_i64(v@) {
                Some(n) => n,
                None => 0,
            },
            None => 0,
        },
{
    match stored {
        Some(v) => match parse_i64(v) {
            Some(n) => n,
            None => 0,
        },
        None => 0,
    }
}

/// Whether a device's answer is used: a success status, for the same DID.
pub fn device_response_accepted(status: u16, answered_did: Option<&str>, did: &str) -> (r: bool)
    ensures
        r == (200 <= status < 300 && match answered_did {
            Some(d) => d@ == did@,
            None => false,
        }),
{
    if !(200 <= status && status < 300) {
        return false;
    }
    match answered_did {
        Some(d) => str_eq(d, did),
        None => false,
    }
}

/// One activity a device sent back, with its serialized bytes.
#[derive(Clone, Debug)]
pub struct DeviceSyncItem {
    pub id: String,
    pub created_at_ms: i64,
    pub activity_bytes: Vec<u8>,
}

/// The items kept from a device's page, with trimmed ids: those with a
/// non-blank id and a non-empty activity, in order.
pub open spec fn kept_items(items: Seq<DeviceSyncItem>) -> Seq<(Seq<char>, i64, Seq<u8>)>
    decreases items.len(),
{
    if items.len() == 0 {
        Seq::empty()
    } else {
        let r = kept_items(items.drop_last());
        let it = items.last();
        if trim(it.id@).len() > 0 && it.activity_bytes@.len() > 0 {
            r.push((trim(it.id@), it.created_at_ms, it.activity_bytes@))
        } else {
            r
        }
    }
}

pub open spec fn items_view(v: Seq<DeviceSyncItem>) -> Seq<(Seq<char>, i64, Seq<u8>)> {
    v.map_values(|it: DeviceSyncItem| (it.id@, it.created_at_ms, it.activity_bytes@))
}

/// The items of a device's page to store, with their ids trimmed.
pub fn items_to_store(items: Vec<DeviceSyncItem>) -> (r: Vec<DeviceSyncItem>)
    ensures
        items_view(r@) == kept_items(items@),
{
    let ghost all = items@;
    let total: usize = items.len();
    let mut out: Vec<DeviceSyncItem> = Vec::new();
    let mut rest = items;
    let mut i: usize = 0;
    assert(all.skip(0) =~= all);
    while rest.len() > 0
        invariant
            i + rest.len() == total,
            all.len() == total,
            rest@ == all.skip(i as int),
            items_view(out@) == kept_items(all.take(i as int)),
        decreases rest.len(),
    {
        let it = rest.remove(0);
        proof {
            assert(all.skip(i as int)[0] == all[i as int]);
            assert(all.skip(i as int).remove(0) =~= all.skip(i + 1));
            assert(all.take(i + 1).drop_last() =~= all.take(i as int));
            assert(all.take(i + 1).last() == all[i as int]);
        }
        let id = trim_chars(&str_chars(it.id.as_str()));
        if id.len() > 0 && it.activity_bytes.len() > 0 {
            let ghost before = out@;
            out.push(DeviceSyncItem { id: string_from_chars(&id), created_at_ms: it.created_at_ms, activity_bytes: it.activity_bytes });
            proof {
                assert(items_view(out@) =~= items_view(before).push((trim(all[i as int].id@), all[i as int].created_at_ms, all[i as int].activity_bytes@)));
            }
        }
        i += 1;
    }
    assert(all.take(i as int) =~= all);
    out
}

/// The cursor to store after a page: the page's latest time when it is past
/// the cursor used, else none (the cursor stays).
pub fn next_since(latest_ms: i64, since: i64) -> (r: Option<i64>)
    ensures
        r == if latest_ms > since { Some(latest_ms) } else { None::<i64> },
{
    if latest_ms > since { Some(latest_ms) } else { None }
}

} // verus!
