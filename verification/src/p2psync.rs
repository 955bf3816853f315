//! Pulling activities from peers over P2P: the worker's settings, and what
//! becomes of each activity a peer sends.
use vstd::prelude::*;
use crate::json::{Json, JsonV, jget_str};
use crate::text::{trim, trim_chars, str_chars, string_from_chars, append_str};
use crate::activity::{is_public_activity, spec_has_recipient, AS_PUBLIC};
use crate::digest::{spec_short_hash, short_hash};
use vstd::string::StringSliceAdditionalSpecFns;

verus! {

/// `v` kept within `lo..=hi`.
pub open spec fn clamp_u64(v: u64, lo: u64, hi: u64) -> u64 {
    if v < lo { lo } else if v > hi { hi } else { v }
}

/// The seconds between two sync rounds (30 by default, within 5..=3600) and
/// the activities asked of a peer per round (50 by default, within 1..=200).
pub fn p2p_sync_settings(poll_secs: Option<u64>, batch_limit: Option<u32>) -> (r: (u64, u32))
    ensures
        r.0 == clamp_u64(match poll_secs { Some(p) => p, None => 30 }, 5, 3600),
        r.1 as u64 == clamp_u64(match batch_limit { Some(b) => b as u64, None => 50 }, 1, 200),
{
    let p = match poll_secs {
        Some(p) => p,
        None => 30,
    };
    let b = match batch_limit {
        Some(b) => b,
        None => 50,
    };
    let p = if p < 5 { 5 } else if p > 3600 { 3600 } else { p };
    let b = if b < 1 { 1 } else if b > 200 { 200 } else { b };
    (p, b)
}

/// What the node does with one activity a peer sent.
pub struct SyncItemPlan {
    /// The actor it is stored under.
    pub actor: String,
    /// Its type, when it is a string.
    pub activity_type: Option<String>,
    /// Whether it goes to the inbox (it had not been seen before).
    pub store: bool,
    /// Whether it also goes to the federated feed (stored and public).
    pub to_feed: bool,
}

/// The actor of a synced activity: the item's actor id when it is not
/// blank, else the activity's `actor` when it is a string.
pub open spec fn spec_sync_actor(actor_id: Seq<char>, activity: JsonV) -> Option<Seq<char>> {
    if trim(actor_id).len() > 0 {
        Some(actor_id)
    } else {
        jget_str(activity, "actor"@)
    }
}

/// The plan for one synced activity, once the node knows whether its id was
/// new: none when it names no actor; otherwise stored under the actor, put
/// in the inbox when new, and in the federated feed too when also public.
pub fn p2p_sync_item_plan(actor_id: &str, activity: &Json, newly_seen: bool) -> (r: Option<SyncItemPlan>)
    ensures
        match r {
            None => spec_sync_actor(actor_id@, activity@) is None,
            Some(p) => spec_sync_actor(actor_id@, activity@) == Some(p.actor@)
                && (match p.activity_type {
                    Some(t) => jget_str(activity@, "type"@) == Some(t@),
                    None => jget_str(activity@, "type"@) is None,
                })
                && p.store == newly_seen
                && p.to_feed == (newly_seen && spec_has_recipient(activity@, AS_PUBLIC@)),
        },
{
    let actor = if trim_chars(&str_chars(actor_id)).len() > 0 {
        actor_id.to_string()
    } else {
        match activity.get_str("actor") {
            Some(a) => a.to_string(),
            None => return None,
        }
    };
    let activity_type = match activity.get_str("type") {
        Some(t) => Some(t.to_string()),
        None => None,
    };
    let to_feed = newly_seen && is_public_activity(activity);
    Some(SyncItemPlan { actor, activity_type, store: newly_seen, to_feed })
}

/// The id a synced activity is kept under: its trimmed id, or a URN of the
/// short hash of its canonical serialization.
pub open spec fn spec_sync_dedup_id(a: JsonV, canonical: Seq<u8>) -> Seq<char> {
    let id = match jget_str(a, "id"@) {
        Some(i) => trim(i),
        None => Seq::empty(),
    };
    if id.len() > 0 {
        id
    } else {
        "urn:fedi3:sync:"@ + spec_short_hash(canonical)
    }
}

/// The id a synced activity is kept under; `canonical` is the JSON text of
/// its canonical form (`canonjson::canonicalize_json`).
pub fn sync_dedup_id(activity: &Json, canonical: &str) -> (r: String)
    ensures
        r@ == spec_sync_dedup_id(activity@, canonical.spec_bytes()),
{
    if let Some(id) = activity.get_str("id") {
        let t = trim_chars(&str_chars(id));
        if t.len() > 0 {
            return string_from_chars(&t);
        }
    }
    let mut v = str_chars("urn:fedi3:sync:");
    append_str(&mut v, short_hash(canonical).as_str());
    string_from_chars(&v)
}

} // verus!
