//! The persistent delivery queue's rules: its settings, what becomes of a
//! job after a failed attempt, and how a batch of due jobs is split into
//! shared-inbox groups, peer-to-peer jobs, dead jobs and jobs left for later.
use vstd::prelude::*;
use crate::text::{trim, trim_start, trim_end, is_ws, lower, contains, str_contains, str_chars, trim_chars, lower_chars, chars_eq, string_from_chars, append_str};
use crate::retry::{Backoff, spec_backoff_secs, backoff_with_jitter, next_backoff};

use crate::digest::{spec_short_hash, sha256, sha256_of, hex_lower, push_hex};
use crate::json::{Json, JsonV, jget_str};
use vstd::string::StringSliceAdditionalSpecFns;

verus! {

/// How posts are delivered to peers that have a P2P address.
#[derive(PartialEq, Eq, Structural, Clone, Copy, Debug)]
pub enum PostDeliveryMode {
    P2pOnly,
    P2pRelay,
}

/// The mode named by a configuration string, ignoring surrounding
/// whitespace and ASCII case.
pub open spec fn spec_post_delivery_mode(input: Seq<char>) -> Option<PostDeliveryMode> {
    let k = lower(trim(input));
    if k == "p2p_only"@ || k == "p2ponly"@ || k == "p2p-only"@ {
        Some(PostDeliveryMode::P2pOnly)
    } else if k == "p2p_relay"@ || k == "p2prelay"@ || k == "p2p-relay"@ || k == "p2p_first"@
        || k == "p2p-first"@ {
        Some(PostDeliveryMode::P2pRelay)
    } else {
        None
    }
}

proof fn lemma_trim_start_head(x: Seq<char>)
    ensures
        trim_start(x).len() > 0 ==> !is_ws(trim_start(x)[0]),
    decreases x.len(),
{
    if x.len() > 0 && is_ws(x[0]) {
        lemma_trim_start_head(x.drop_first());
    }
}

proof fn lemma_trim_end_prefix(x: Seq<char>)
    ensures
        trim_end(x).len() <= x.len(),
        trim_end(x) == x.take(trim_end(x).len() as int),
        trim_end(x).len() > 0 ==> !is_ws(trim_end(x).last()),
    decreases x.len(),
{
    if x.len() > 0 && is_ws(x.last()) {
        lemma_trim_end_prefix(x.drop_last());
        assert(x.drop_last().take(trim_end(x).len() as int) =~= x.take(trim_end(x).len() as int));
    } else {
        assert(x.take(x.len() as int) =~= x);
    }
}

/// Text without whitespace at either end, lower-cased, is left unchanged
/// by trimming and lower-casing again.
proof fn lemma_normalized_fixed(s: Seq<char>)
    ensures
        lower(trim(lower(trim(s)))) == lower(trim(s)),
{
    let y = trim_start(s);
    let t = trim_end(y);
    lemma_trim_start_head(s);
    lemma_trim_end_prefix(y);
    let l = lower(t);
    if t.len() > 0 {
        assert(t[0] == y[0]);
        assert(!is_ws(l[0]));
        assert(!is_ws(l.last()));
        assert(trim_start(l) == l);
        assert(trim_end(l) == l);
    } else {
        assert(l.len() == 0);
        assert(trim_start(l) == l);
        assert(trim_end(l) == l);
    }
    assert(lower(l) =~= l);
}

/// The delivery mode of a text is the mode of that text trimmed and
/// lower-cased: normalizing twice gives the same mode as once.
pub proof fn law_mode_of_normalized(s: Seq<char>)
    ensures
        spec_post_delivery_mode(lower(trim(s))) == spec_post_delivery_mode(s),
{
    lemma_normalized_fixed(s);
}

fn eq_lit(k: &Vec<char>, lit: &str) -> (r: bool)
    ensures
        r == (k@ == lit@),
{
    let l = str_chars(lit);
    chars_eq(k, &l)
}

impl PostDeliveryMode {
    /// Parses `p2p_only` (also `p2ponly`, `p2p-only`) or `p2p_relay`
    /// (also `p2prelay`, `p2p-relay`, `p2p_first`, `p2p-first`).
    pub fn from_str(input: &str) -> (r: Option<Self>)
        ensures
            r == spec_post_delivery_mode(input@),
    {
        let c = str_chars(input);
        let t = trim_chars(&c);
        let k = lower_chars(&t);
        if eq_lit(&k, "p2p_only") || eq_lit(&k, "p2ponly") || eq_lit(&k, "p2p-only") {
            Some(PostDeliveryMode::P2pOnly)
        } else if eq_lit(&k, "p2p_relay") || eq_lit(&k, "p2prelay") || eq_lit(&k, "p2p-relay")
            || eq_lit(&k, "p2p_first") || eq_lit(&k, "p2p-first") {
            Some(PostDeliveryMode::P2pRelay)
        } else {
            None
        }
    }
}

/// Limits and timings of the delivery queue.
#[derive(Clone, Copy)]
pub struct QueueSettings {
    pub max_attempts: u32,
    pub base_backoff_secs: u64,
    pub max_backoff_secs: u64,
    pub post_delivery_mode: PostDeliveryMode,
    pub p2p_relay_fallback_secs: u64,
    pub p2p_cache_ttl_secs: u64,
}

impl Default for QueueSettings {
    /// Ten attempts, 5 s doubling up to an hour, P2P with relay fallback
    /// after 5 s, and a week of P2P cache.
    fn default() -> (r: Self)
        ensures
            r.max_attempts == 10,
            r.base_backoff_secs == 5,
            r.max_backoff_secs == 3600,
            r.post_delivery_mode == PostDeliveryMode::P2pRelay,
            r.p2p_relay_fallback_secs == 5,
            r.p2p_cache_ttl_secs == 7 * 24 * 3600,
    {
        QueueSettings {
            max_attempts: 10,
            base_backoff_secs: 5,
            max_backoff_secs: 3600,
            post_delivery_mode: PostDeliveryMode::P2pRelay,
            p2p_relay_fallback_secs: 5,
            p2p_cache_ttl_secs: 7 * 24 * 3600,
        }
    }
}

/// Counts of the queue's jobs by state.
#[derive(Clone, Copy, Debug)]
pub struct QueueStats {
    pub pending: u64,
    pub delivered: u64,
    pub dead: u64,
}

/// A delivery job as read from the queue.
pub struct Job {
    pub id: String,
    pub attempt: u32,
    pub target: String,
    pub activity_json: Vec<u8>,
    pub key_id: Option<String>,
    pub activity_id: Option<String>,
}

/// What becomes of a job whose delivery attempt failed.
pub enum FailureAction {
    /// Give up on the job.
    Dead,
    /// Try again after `backoff`, recording `attempt` attempts.
    Reschedule { attempt: u32, backoff: Backoff },
}

/// The attempt number recorded after a failure: one more, saturating.
pub open spec fn next_attempt(attempt: u32) -> u32 {
    if attempt == u32::MAX {
        u32::MAX
    } else {
        (attempt + 1) as u32
    }
}

/// A failed job is dead once its attempts reach the limit.
pub open spec fn gives_up(attempt: u32, max_attempts: u32) -> bool {
    next_attempt(attempt) >= max_attempts
}

/// The action after a failed attempt of a job that had made `attempt`
/// attempts, with the random part of the backoff given.
pub fn failure_action_with_jitter(attempt: u32, settings: &QueueSettings, raw: u16) -> (r: FailureAction)
    ensures
        gives_up(attempt, settings.max_attempts) ==> r is Dead,
        !gives_up(attempt, settings.max_attempts) ==> (r matches FailureAction::Reschedule { attempt: a, backoff: b } && a == next_attempt(attempt)
            && b.secs == spec_backoff_secs(next_attempt(attempt), settings.base_backoff_secs, settings.max_backoff_secs)
            && b.jitter_ms == raw as u64 % 1000),
{
    let attempt_no: u32 = if attempt == u32::MAX { u32::MAX } else { attempt + 1 };
    if attempt_no >= settings.max_attempts {
        FailureAction::Dead
    } else {
        let b = backoff_with_jitter(attempt_no, settings.base_backoff_secs, settings.max_backoff_secs, raw);
        FailureAction::Reschedule { attempt: attempt_no, backoff: b }
    }
}

/// The action after a failed attempt, with a random jitter below one second.
pub fn failure_action(attempt: u32, settings: &QueueSettings) -> (r: FailureAction)
    ensures
        gives_up(attempt, settings.max_attempts) ==> r is Dead,
        !gives_up(attempt, settings.max_attempts) ==> (r matches FailureAction::Reschedule { attempt: a, backoff: b } && a == next_attempt(attempt)
            && b.secs == spec_backoff_secs(next_attempt(attempt), settings.base_backoff_secs, settings.max_backoff_secs)
            && b.jitter_ms < 1000),
{
    let attempt_no: u32 = if attempt == u32::MAX { u32::MAX } else { attempt + 1 };
    if attempt_no >= settings.max_attempts {
        FailureAction::Dead
    } else {
        let b = next_backoff(attempt_no, settings.base_backoff_secs, settings.max_backoff_secs);
        FailureAction::Reschedule { attempt: attempt_no, backoff: b }
    }
}

/// The action after a failed attempt, with the random part of the backoff
/// given (see `failure_action_with_jitter`).
pub open spec fn spec_failure_action(attempt: u32, settings: QueueSettings, raw: u16) -> FailureAction {
    if gives_up(attempt, settings.max_attempts) {
        FailureAction::Dead
    } else {
        FailureAction::Reschedule {
            attempt: next_attempt(attempt),
            backoff: Backoff {
                secs: spec_backoff_secs(next_attempt(attempt), settings.base_backoff_secs, settings.max_backoff_secs),
                jitter_ms: (raw as u64 % 1000) as u64,
            },
        }
    }
}

/// A failed outcome for a job that had made `attempt` attempts, whatever
/// the random part of its backoff.
pub open spec fn failed_with_some_jitter(attempt: u32, settings: QueueSettings, o: GroupOutcome) -> bool {
    exists|raw: u16| o == GroupOutcome::Failed(#[trigger] spec_failure_action(attempt, settings, raw))
}

/// What becomes of one job of an HTTP group once the group's body was
/// delivered to the inbox, or failed to be, in a single request.
pub enum GroupOutcome {
    /// The job is done.
    Delivered,
    /// The delivery failed: the job dies or is rescheduled.
    Failed(FailureAction),
}

/// The outcome of each job of an HTTP group (in order) after its single
/// delivery, with the random parts of the backoffs given: all delivered, or
/// each one failed with its own attempt count.
pub fn group_outcomes_with_jitter(jobs: &Vec<Job>, delivered: bool, settings: &QueueSettings, raws: &Vec<u16>) -> (r: Vec<GroupOutcome>)
    requires
        raws.len() == jobs.len(),
    ensures
        r.len() == jobs.len(),
        forall|i: int| 0 <= i < jobs.len() ==> #[trigger] r@[i] == if delivered {
            GroupOutcome::Delivered
        } else {
            GroupOutcome::Failed(spec_failure_action(jobs@[i].attempt, *settings, raws@[i]))
        },
{
    let mut out: Vec<GroupOutcome> = Vec::new();
    let mut i: usize = 0;
    while i < jobs.len()
        invariant
            i <= jobs.len(),
            raws.len() == jobs.len(),
            out.len() == i,
            forall|j: int| 0 <= j < i ==> #[trigger] out@[j] == if delivered {
                GroupOutcome::Delivered
            } else {
                GroupOutcome::Failed(spec_failure_action(jobs@[j].attempt, *settings, raws@[j]))
            },
        decreases jobs.len() - i,
    {
        if delivered {
            out.push(GroupOutcome::Delivered);
        } else {
            let a = failure_action_with_jitter(jobs[i].attempt, settings, raws[i]);
            proof {
                if !gives_up(jobs@[i as int].attempt, settings.max_attempts) {
                    let b = a->backoff;
                    assert(b == Backoff {
                        secs: spec_backoff_secs(next_attempt(jobs@[i as int].attempt), settings.base_backoff_secs, settings.max_backoff_secs),
                        jitter_ms: (raws@[i as int] as u64 % 1000) as u64,
                    });
                }
            }
            out.push(GroupOutcome::Failed(a));
        }
        i += 1;
    }
    out
}

/// The outcome of each job of an HTTP group after its single delivery, with
/// random backoff jitters (each below one second).
pub fn group_outcomes(jobs: &Vec<Job>, delivered: bool, settings: &QueueSettings) -> (r: Vec<GroupOutcome>)
    ensures
        r.len() == jobs.len(),
        forall|i: int| 0 <= i < jobs.len() ==> (#[trigger] r@[i] matches GroupOutcome::Delivered) == delivered,
        forall|i: int| 0 <= i < jobs.len() && !delivered ==> failed_with_some_jitter(jobs@[i].attempt, *settings, #[trigger] r@[i]),
{
    let mut out: Vec<GroupOutcome> = Vec::new();
    let mut i: usize = 0;
    while i < jobs.len()
        invariant
            i <= jobs.len(),
            out.len() == i,
            forall|j: int| 0 <= j < i ==> (#[trigger] out@[j] matches GroupOutcome::Delivered) == delivered,
            forall|j: int| 0 <= j < i && !delivered ==> failed_with_some_jitter(jobs@[j].attempt, *settings, #[trigger] out@[j]),
        decreases jobs.len() - i,
    {
        if delivered {
            out.push(GroupOutcome::Delivered);
        } else {
            let raw = crate::retry::random_u16();
            let a = failure_action_with_jitter(jobs[i].attempt, settings, raw);
            proof {
                if !gives_up(jobs@[i as int].attempt, settings.max_attempts) {
                    let b = a->backoff;
                    assert(b == Backoff {
                        secs: spec_backoff_secs(next_attempt(jobs@[i as int].attempt), settings.base_backoff_secs, settings.max_backoff_secs),
                        jitter_ms: (raw as u64 % 1000) as u64,
                    });
                }
            }
            out.push(GroupOutcome::Failed(a));
            assert(out@[i as int] == GroupOutcome::Failed(spec_failure_action(jobs@[i as int].attempt, *settings, raw)));
            assert(failed_with_some_jitter(jobs@[i as int].attempt, *settings, out@[i as int]));
        }
        i += 1;
    }
    out
}

/// `x + y` for `i64`, saturating at the bounds.
pub open spec fn sat_add_i64(x: i64, y: i64) -> i64 {
    if x + y > i64::MAX {
        i64::MAX
    } else if x + y < i64::MIN {
        i64::MIN
    } else {
        (x + y) as i64
    }
}

/// The backoff in milliseconds as `Duration::as_millis` gives it.
pub open spec fn backoff_millis(b: Backoff) -> int {
    b.secs * 1000 + b.jitter_ms
}

/// When a rescheduled job is due: `now` plus the backoff, the millisecond
/// count read as `i64` (as `as i64` does) and added with saturation.
pub fn reschedule_due_ms(now: i64, b: &Backoff) -> (r: i64)
    requires
        b.jitter_ms < 1000,
    ensures
        r == sat_add_i64(now, backoff_millis(*b) as i64),
{
    let ms: u128 = (b.secs as u128) * 1000 + (b.jitter_ms as u128);
    let d: i64 = ms as i64;
    let s: i128 = (now as i128) + (d as i128);
    if s > i64::MAX as i128 {
        i64::MAX
    } else if s < i64::MIN as i128 {
        i64::MIN
    } else {
        s as i64
    }
}

/// A resolution error that means the peer is gone: the text names status
/// 404, 410 or 429, or says the peer was deleted.
pub open spec fn spec_is_permanent_error(err: Seq<char>) -> bool {
    contains(err, "404"@) || contains(err, "410"@) || contains(err, "429"@) || contains(err, "peer deleted"@)
}

/// Whether a failure to resolve a delivery target kills the job.
pub fn is_permanent_error(err: &str) -> (r: bool)
    ensures
        r == spec_is_permanent_error(err@),
{
    str_contains(err, "404") || str_contains(err, "410") || str_contains(err, "429") || str_contains(err, "peer deleted")
}

/// The outcome of looking up a job's target actor.
pub enum TargetResolution {
    /// No lookup was made (the target is an inbox URL).
    NotLooked,
    /// The actor was found, with its inbox and whether it has a P2P peer.
    Resolved { inbox: String, has_p2p_peer: bool },
    /// The lookup failed with this error text.
    Failed(String),
}

/// Whether a job's target must be looked up: it is an actor, not an inbox URL.
pub open spec fn needs_lookup(target: Seq<char>) -> bool {
    !contains(target, "/inbox"@)
}

/// Whether the target of a delivery job has to be looked up before sending.
pub fn target_needs_lookup(target: &str) -> (r: bool)
    ensures
        r == needs_lookup(target@),
{
    !str_contains(target, "/inbox")
}

/// Where a job goes in a batch.
pub enum JobClass {
    /// Sent over HTTP, signed with this key id, to this inbox.
    Http(Seq<char>, Seq<char>),
    /// Sent through the peer-to-peer pipeline.
    Passthrough,
    /// Given up: the peer is gone.
    Dead,
    /// Left for a later batch.
    Skip,
}

/// The key id a job is signed with: its own, or the node's.
pub open spec fn effective_key(j: Job, default_key: Seq<char>) -> Seq<char> {
    match j.key_id {
        Some(k) => k@,
        None => default_key,
    }
}

/// The class of a job in a batch, given the lookup of its target.
pub open spec fn job_class(j: Job, r: TargetResolution, default_key: Seq<char>) -> JobClass {
    if !needs_lookup(j.target@) {
        JobClass::Http(effective_key(j, default_key), j.target@)
    } else {
        match r {
            TargetResolution::Resolved { inbox, has_p2p_peer } => if has_p2p_peer {
                JobClass::Passthrough
            } else {
                JobClass::Http(effective_key(j, default_key), inbox@)
            },
            TargetResolution::Failed(e) => if spec_is_permanent_error(e@) {
                JobClass::Dead
            } else {
                JobClass::Skip
            },
            TargetResolution::NotLooked => JobClass::Skip,
        }
    }
}

/// The key of a shared-inbox group: signing key id, inbox, body fingerprint.
pub type GroupKey = (Seq<char>, Seq<char>, Seq<char>);

/// The position of the group with key `k`, or -1.
pub open spec fn group_pos(gs: Seq<(GroupKey, Seq<Job>)>, k: GroupKey) -> int
    decreases gs.len(),
{
    if gs.len() == 0 {
        -1
    } else if gs.last().0 == k {
        gs.len() - 1
    } else {
        group_pos(gs.drop_last(), k)
    }
}

pub proof fn lemma_group_pos(gs: Seq<(GroupKey, Seq<Job>)>, k: GroupKey)
    ensures
        -1 <= group_pos(gs, k) < gs.len(),
        group_pos(gs, k) >= 0 ==> gs[group_pos(gs, k)].0 == k,
        group_pos(gs, k) < 0 ==> forall|i: int| 0 <= i < gs.len() ==> (#[trigger] gs[i]).0 != k,
    decreases gs.len(),
{
    if gs.len() > 0 && gs.last().0 != k {
        lemma_group_pos(gs.drop_last(), k);
        if group_pos(gs, k) < 0 {
            assert forall|i: int| 0 <= i < gs.len() implies (#[trigger] gs[i]).0 != k by {
                if i < gs.len() - 1 {
                    assert(gs.drop_last()[i] == gs[i]);
                }
            }
        }
    }
}

/// `gs` with job `j` added to the group with key `k`, opening the group
/// at the end when there is none.
pub open spec fn group_add(gs: Seq<(GroupKey, Seq<Job>)>, k: GroupKey, j: Job) -> Seq<(GroupKey, Seq<Job>)> {
    let p = group_pos(gs, k);
    if p >= 0 {
        gs.update(p, (k, gs[p].1.push(j)))
    } else {
        gs.push((k, seq![j]))
    }
}

/// The split of a batch's first `n` jobs.
pub struct PlanV {
    pub groups: Seq<(GroupKey, Seq<Job>)>,
    pub passthrough: Seq<Job>,
    pub dead: Seq<Seq<char>>,
    pub skipped: Seq<Seq<char>>,
}

/// The split of a batch, job by job, in order.
pub open spec fn plan_spec(jobs: Seq<Job>, rs: Seq<TargetResolution>, default_key: Seq<char>) -> PlanV
    decreases jobs.len(),
{
    if jobs.len() == 0 || rs.len() < jobs.len() {
        PlanV { groups: Seq::empty(), passthrough: Seq::empty(), dead: Seq::empty(), skipped: Seq::empty() }
    } else {
        let n = (jobs.len() - 1) as int;
        let p = plan_spec(jobs.take(n), rs.take(n), default_key);
        let j = jobs[n];
        match job_class(j, rs[n], default_key) {
            JobClass::Http(k, inbox) => PlanV {
                groups: group_add(p.groups, (k, inbox, spec_short_hash(j.activity_json@)), j),
                ..p
            },
            JobClass::Passthrough => PlanV { passthrough: p.passthrough.push(j), ..p },
            JobClass::Dead => PlanV { dead: p.dead.push(j.id@), ..p },
            JobClass::Skip => PlanV { skipped: p.skipped.push(j.id@), ..p },
        }
    }
}

/// Jobs that share a signing key, an inbox and a body, sent once.
pub struct JobGroup {
    pub key_id: String,
    pub inbox: String,
    pub body_hash: String,
    pub jobs: Vec<Job>,
}

/// A batch of due jobs, split for delivery.
pub struct BatchPlan {
    pub groups: Vec<JobGroup>,
    pub passthrough: Vec<Job>,
    pub dead: Vec<String>,
    pub skipped: Vec<String>,
}

/// The key and jobs of each group.
pub open spec fn groups_view(gs: Seq<JobGroup>) -> Seq<(GroupKey, Seq<Job>)> {
    gs.map_values(|g: JobGroup| ((g.key_id@, g.inbox@, g.body_hash@), g.jobs@))
}

pub open spec fn ids_view(v: Seq<String>) -> Seq<Seq<char>> {
    v.map_values(|s: String| s@)
}

pub open spec fn plan_view(p: BatchPlan) -> PlanV {
    PlanV {
        groups: groups_view(p.groups@),
        passthrough: p.passthrough@,
        dead: ids_view(p.dead@),
        skipped: ids_view(p.skipped@),
    }
}

fn group_index(gs: &Vec<JobGroup>, k: &str, inbox: &str, h: &str) -> (r: Option<usize>)
    ensures
        match r {
            Some(i) => i < gs.len() && group_pos(groups_view(gs@), (k@, inbox@, h@)) == i,
            None => group_pos(groups_view(gs@), (k@, inbox@, h@)) < 0,
        },
{
    let ghost key = (k@, inbox@, h@);
    let mut i: usize = gs.len();
    assert(gs@.take(i as int) =~= gs@);
    while i > 0
        invariant
            i <= gs.len(),
            key == (k@, inbox@, h@),
            group_pos(groups_view(gs@), key) == group_pos(groups_view(gs@.take(i as int)), key),
        decreases i,
    {
        let g = &gs[i - 1];
        proof {
            assert(groups_view(gs@.take(i as int)).drop_last() =~= groups_view(gs@.take(i - 1)));
            assert(groups_view(gs@.take(i as int)).last() == ((g.key_id@, g.inbox@, g.body_hash@), g.jobs@));
            assert(groups_view(gs@.take(i as int)).len() == i);
        }
        if crate::text::str_eq(g.key_id.as_str(), k) && crate::text::str_eq(g.inbox.as_str(), inbox)
            && crate::text::str_eq(g.body_hash.as_str(), h) {
            return Some(i - 1);
        }
        i -= 1;
    }
    None
}

/// Splits a batch of due jobs. `resolutions[i]` is the lookup of the
/// target of `jobs[i]` (ignored when the target is an inbox URL). A job goes
/// to the P2P pipeline when its actor has a peer, to the HTTP group of its
/// key id, inbox and body otherwise; a job whose lookup failed is dead when
/// the error says the peer is gone, and left for later otherwise.
pub fn plan_batch(jobs: Vec<Job>, resolutions: Vec<TargetResolution>, default_key_id: &str) -> (r: BatchPlan)
    requires
        resolutions.len() == jobs.len(),
    ensures
        plan_view(r) == plan_spec(jobs@, resolutions@, default_key_id@),
{
    let ghost js = jobs@;
    let ghost rs = resolutions@;
    let mut plan = BatchPlan { groups: Vec::new(), passthrough: Vec::new(), dead: Vec::new(), skipped: Vec::new() };
    proof {
        assert(groups_view(plan.groups@) =~= Seq::<(GroupKey, Seq<Job>)>::empty());
        assert(plan.passthrough@ =~= Seq::<Job>::empty());
        assert(ids_view(plan.dead@) =~= Seq::<Seq<char>>::empty());
        assert(ids_view(plan.skipped@) =~= Seq::<Seq<char>>::empty());
    }
    let mut jobs = jobs;
    let mut resolutions = resolutions;
    let mut n: usize = 0;
    assert(js.skip(0) =~= js);
    assert(rs.skip(0) =~= rs);
    while jobs.len() > 0
        invariant
            n + jobs.len() == js.len(),
            js.len() <= usize::MAX,
            resolutions.len() == jobs.len(),
            js.len() == rs.len(),
            jobs@ == js.skip(n as int),
            resolutions@ == rs.skip(n as int),
            plan_view(plan) == plan_spec(js.take(n as int), rs.take(n as int), default_key_id@),
        decreases jobs.len(),
    {
        let j = jobs.remove(0);
        let res = resolutions.remove(0);
        proof {
            assert(js.skip(n as int)[0] == js[n as int]);
            assert(rs.skip(n as int)[0] == rs[n as int]);
            assert(js.skip(n as int).remove(0) =~= js.skip(n + 1));
            assert(rs.skip(n as int).remove(0) =~= rs.skip(n + 1));
            assert(j == js[n as int]);
            assert(res == rs[n as int]);
            assert(js.take(n + 1).take(n as int) =~= js.take(n as int));
            assert(rs.take(n + 1).take(n as int) =~= rs.take(n as int));
            assert(js.take(n + 1)[n as int] == j);
            assert(rs.take(n + 1)[n as int] == res);
        }
        let ghost before = plan_view(plan);
        if !target_needs_lookup(j.target.as_str()) {
            let key = match &j.key_id {
                Some(k) => k.clone(),
                None => default_key_id.to_owned(),
            };
            let inbox = j.target.clone();
            add_to_group(&mut plan, key, inbox, j);
        } else {
            match res {
                TargetResolution::Resolved { inbox, has_p2p_peer } => {
                    if has_p2p_peer {
                        plan.passthrough.push(j);
                    } else {
                        let key = match &j.key_id {
                            Some(k) => k.clone(),
                            None => default_key_id.to_owned(),
                        };
                        add_to_group(&mut plan, key, inbox, j);
                    }
                },
                TargetResolution::Failed(e) => {
                    if is_permanent_error(e.as_str()) {
                        let ghost d = plan.dead@;
                        plan.dead.push(j.id);
                        assert(ids_view(plan.dead@) =~= ids_view(d).push(j.id@));
                    } else {
                        let ghost d = plan.skipped@;
                        plan.skipped.push(j.id);
                        assert(ids_view(plan.skipped@) =~= ids_view(d).push(j.id@));
                    }
                },
                TargetResolution::NotLooked => {
                    let ghost d = plan.skipped@;
                    plan.skipped.push(j.id);
                    assert(ids_view(plan.skipped@) =~= ids_view(d).push(j.id@));
                },
            }
        }
        n += 1;
    }
    proof {
        assert(js.take(n as int) =~= js);
        assert(rs.take(n as int) =~= rs);
    }
    plan
}

fn add_to_group(plan: &mut BatchPlan, key: String, inbox: String, j: Job)
    ensures
        plan_view(*final(plan)) == (PlanV {
            groups: group_add(plan_view(*old(plan)).groups, (key@, inbox@, spec_short_hash(j.activity_json@)), j),
            ..plan_view(*old(plan))
        }),
{
    let h = short_hash_bytes(&j.activity_json);
    let ghost gk = (key@, inbox@, h@);
    let ghost before = groups_view(plan.groups@);
    match group_index(&plan.groups, key.as_str(), inbox.as_str(), h.as_str()) {
        Some(i) => {
            let ghost og = plan.groups@;
            let mut g = plan.groups.remove(i);
            let ghost gj = g.jobs@;
            g.jobs.push(j);
            let ghost ng = g;
            plan.groups.insert(i, g);
            assert(plan.groups@ =~= og.update(i as int, ng));
            proof {
                lemma_group_pos(before, gk);
                assert(before[i as int] == ((og[i as int].key_id@, og[i as int].inbox@, og[i as int].body_hash@), og[i as int].jobs@));
            }
            assert(groups_view(plan.groups@) =~= before.update(i as int, (gk, gj.push(j))));
        },
        None => {
            let ghost og = plan.groups@;
            let ng = JobGroup { key_id: key, inbox, body_hash: h, jobs: vec![j] };
            assert(ng.jobs@ =~= seq![j]);
            plan.groups.push(ng);
            assert(groups_view(plan.groups@) =~= before.push((gk, seq![j])));
        },
    }
}

/// The hex notation of the first 8 bytes of the SHA-256 of `b`.
pub fn short_hash_bytes(b: &Vec<u8>) -> (r: String)
    ensures
        r@ == spec_short_hash(b@),
{
    let d = sha256(b.as_slice());
    let head = vstd::slice::slice_subrange(d.as_slice(), 0, 8);
    let mut v: Vec<char> = Vec::new();
    push_hex(&mut v, head);
    assert(Seq::<char>::empty() + hex_lower(head@) =~= hex_lower(head@));
    assert(head@ =~= d@.take(8));
    string_from_chars(&v)
}

/// The number of jobs held by the groups.
pub open spec fn group_total(gs: Seq<(GroupKey, Seq<Job>)>) -> nat
    decreases gs.len(),
{
    if gs.len() == 0 {
        0
    } else {
        group_total(gs.drop_last()) + gs.last().1.len()
    }
}

proof fn lemma_group_total_update(gs: Seq<(GroupKey, Seq<Job>)>, p: int, g: (GroupKey, Seq<Job>))
    requires
        0 <= p < gs.len(),
    ensures
        group_total(gs.update(p, g)) == group_total(gs) - gs[p].1.len() + g.1.len(),
    decreases gs.len(),
{
    if p < gs.len() - 1 {
        lemma_group_total_update(gs.drop_last(), p, g);
        assert(gs.update(p, g).drop_last() =~= gs.drop_last().update(p, g));
    } else {
        assert(gs.update(p, g).drop_last() =~= gs.drop_last());
    }
}

/// Keys of distinct groups differ.
pub open spec fn group_keys_distinct(gs: Seq<(GroupKey, Seq<Job>)>) -> bool {
    forall|a: int, b: int| 0 <= a < b < gs.len() ==> #[trigger] gs[a].0 != #[trigger] gs[b].0
}

/// Splitting a batch loses no job and duplicates none: every job lands in
/// exactly one group, the P2P list, the dead list or the skipped list, and
/// no two groups share a key.
pub proof fn lemma_plan_conserves(jobs: Seq<Job>, rs: Seq<TargetResolution>, default_key: Seq<char>)
    requires
        rs.len() == jobs.len(),
    ensures
        group_total(plan_spec(jobs, rs, default_key).groups) + plan_spec(jobs, rs, default_key).passthrough.len()
            + plan_spec(jobs, rs, default_key).dead.len() + plan_spec(jobs, rs, default_key).skipped.len() == jobs.len(),
        group_keys_distinct(plan_spec(jobs, rs, default_key).groups),
    decreases jobs.len(),
{
    if jobs.len() > 0 {
        let n = (jobs.len() - 1) as int;
        lemma_plan_conserves(jobs.take(n), rs.take(n), default_key);
        let p = plan_spec(jobs.take(n), rs.take(n), default_key);
        let j = jobs[n];
        match job_class(j, rs[n], default_key) {
            JobClass::Http(k, inbox) => {
                let gk = (k, inbox, spec_short_hash(j.activity_json@));
                lemma_group_pos(p.groups, gk);
                let q = group_pos(p.groups, gk);
                let ng = group_add(p.groups, gk, j);
                if q >= 0 {
                    lemma_group_total_update(p.groups, q, (gk, p.groups[q].1.push(j)));
                    assert forall|a: int, b: int| 0 <= a < b < ng.len() implies #[trigger] ng[a].0 != #[trigger] ng[b].0 by {
                        assert(p.groups[a].0 != p.groups[b].0);
                    }
                } else {
                    assert(ng.drop_last() =~= p.groups);
                    assert forall|a: int, b: int| 0 <= a < b < ng.len() implies #[trigger] ng[a].0 != #[trigger] ng[b].0 by {
                        if b < p.groups.len() {
                            assert(p.groups[a].0 != p.groups[b].0);
                        } else {
                            assert(p.groups[a].0 != gk);
                        }
                    }
                }
            },
            _ => {},
        }
    }
}

/// A rescheduled job always has attempts left: it is given up before its
/// recorded attempts reach the limit.
pub proof fn lemma_reschedule_below_limit(attempt: u32, max_attempts: u32)
    requires
        !gives_up(attempt, max_attempts),
    ensures
        next_attempt(attempt) < max_attempts,
        next_attempt(attempt) == attempt + 1,
{
}

/// The id under which a queued activity is tracked: its trimmed `id` when the
/// body parsed as JSON and has a non-empty one, otherwise a SHA-256 URN of
/// the bytes, and nothing for an empty body.
pub open spec fn spec_activity_id_from_bytes(parsed: Option<JsonV>, bytes: Seq<u8>) -> Option<Seq<char>> {
    let id = match parsed {
        Some(v) => match jget_str(v, "id"@) {
            Some(s) => trim(s),
            None => Seq::empty(),
        },
        None => Seq::empty(),
    };
    if id.len() > 0 {
        Some(id)
    } else if bytes.len() == 0 {
        None
    } else {
        Some("urn:fedi3:activity:sha256:"@ + hex_lower(sha256_of(bytes)))
    }
}

/// The tracking id of a queued activity; `parsed` is the body read as JSON,
/// when it is valid JSON.
pub fn activity_id_from_bytes(parsed: Option<&Json>, bytes: &[u8]) -> (r: Option<String>)
    ensures
        match r {
            Some(s) => spec_activity_id_from_bytes(match parsed { Some(p) => Some(p@), None => None }, bytes@) == Some(s@),
            None => spec_activity_id_from_bytes(match parsed { Some(p) => Some(p@), None => None }, bytes@) is None,
        },
{
    if let Some(v) = parsed {
        if let Some(id) = v.get_str("id") {
            let c = str_chars(id);
            let t = trim_chars(&c);
            if t.len() > 0 {
                return Some(string_from_chars(&t));
            }
        }
    }
    if bytes.len() == 0 {
        return None;
    }
    let d = sha256(bytes);
    let mut v = str_chars("urn:fedi3:activity:sha256:");
    push_hex(&mut v, d.as_slice());
    Some(string_from_chars(&v))
}

/// The targets a delivery receipt from `from_actor` confirms for `activity_id`:
/// the trimmed activity id, the actor and the actor's inbox; none when either
/// input is blank.
pub open spec fn spec_receipt_targets(activity_id: Seq<char>, from_actor: Seq<char>) -> Option<(Seq<char>, Seq<char>, Seq<char>)> {
    let a = trim(activity_id);
    let f = trim(from_actor);
    if a.len() == 0 || f.len() == 0 {
        None
    } else {
        Some((a, f, f + "/inbox"@))
    }
}

/// What a receipt marks as delivered (the jobs of `activity_id` sent to the
/// actor or to its inbox).
pub fn receipt_targets(activity_id: &str, from_actor: &str) -> (r: Option<(String, String, String)>)
    ensures
        match r {
            Some((a, f, i)) => spec_receipt_targets(activity_id@, from_actor@) == Some((a@, f@, i@)),
            None => spec_receipt_targets(activity_id@, from_actor@) is None,
        },
{
    let a = trim_chars(&str_chars(activity_id));
    let f = trim_chars(&str_chars(from_actor));
    if a.len() == 0 || f.len() == 0 {
        return None;
    }
    let mut inbox = f.clone();
    append_str(&mut inbox, "/inbox");
    Some((string_from_chars(&a), string_from_chars(&f), string_from_chars(&inbox)))
}

} // verus!
