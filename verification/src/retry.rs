//! Retry policies: which HTTP statuses are retried, the backoff schedules of
//! the relay page fetcher, of plain HTTP sends and of the persistent queues,
//! and the decision taken after each attempt of a send.
use vstd::prelude::*;
use rand::Rng;
use vstd::string::StringSliceAdditionalSpecFns;
use crate::digest::random_bytes;
use crate::metrics::{NetMetrics, wrap_add, sat_add, sat_mul, sat_sub, saturating_add_u64,
    saturating_mul_u64, saturating_sub_u64};

verus! {

/// Whether an HTTP status is worth retrying: 429 or any 5xx.
pub open spec fn spec_retryable_status(status: u16) -> bool {
    status == 429 || (500 <= status && status <= 599)
}

/// Returns true for 429 (Too Many Requests) and every server error (5xx).
pub fn retryable_status(status: u16) -> (r: bool)
    ensures
        r == spec_retryable_status(status),
{
    status == 429 || (500 <= status && status <= 599)
}

/// The same policy, as the plain HTTP sender names it.
pub fn should_retry_status(status: u16) -> (r: bool)
    ensures
        r == spec_retryable_status(status),
{
    retryable_status(status)
}

/// 2 to the power `n`.
pub open spec fn two_pow(n: nat) -> nat
    decreases n,
{
    if n == 0 {
        1
    } else {
        2 * two_pow((n - 1) as nat)
    }
}

pub proof fn lemma_two_pow_mono(a: nat, b: nat)
    requires
        a <= b,
    ensures
        two_pow(a) <= two_pow(b),
    decreases b,
{
    if a < b {
        lemma_two_pow_mono(a, (b - 1) as nat);
    }
}

pub proof fn lemma_two_pow_20()
    ensures
        two_pow(3) == 8,
        two_pow(5) == 32,
        two_pow(6) == 64,
        two_pow(20) == 1_048_576,
{
    reveal_with_fuel(two_pow, 21);
}

/// `2^k` as a `u64`, for `k <= 20`.
pub fn pow2_u64(k: u32) -> (r: u64)
    requires
        k <= 20,
    ensures
        r == two_pow(k as nat),
{
    let mut r: u64 = 1;
    let mut i: u32 = 0;
    while i < k
        invariant
            i <= k <= 20,
            r == two_pow(i as nat),
        decreases k - i,
    {
        proof {
            lemma_two_pow_mono((i + 1) as nat, 20);
            lemma_two_pow_20();
        }
        r = r * 2;
        i = i + 1;
    }
    r
}

/// First delay of the relay page fetcher, in milliseconds.
pub const LEGACY_RETRY_BASE_MS: u64 = 250;

/// Cap of the exponential part of the relay page fetcher's delay.
pub const LEGACY_RETRY_MAX_MS: u64 = 4_000;

/// Attempts made by the relay page fetcher.
pub const LEGACY_RETRY_ATTEMPTS: u32 = 4;

/// The sum of the bytes of `b`.
pub open spec fn byte_sum(b: Seq<u8>) -> nat
    decreases b.len(),
{
    if b.len() == 0 {
        0
    } else {
        byte_sum(b.drop_last()) + b.last() as nat
    }
}

/// The exponential part of the relay fetcher's delay after attempt `attempt`:
/// 250 ms doubled per attempt (at most six times), capped at 4 s.
pub open spec fn legacy_backoff(attempt: u32) -> u64 {
    let k: nat = if attempt < 6 { attempt as nat } else { 6 };
    let e = 250 * two_pow(k);
    if e > 4000 {
        4000
    } else {
        e as u64
    }
}

/// The relay fetcher's delay: the exponential part plus a bias of
/// 0 to 119 ms taken from the stream's name, so that streams do not retry
/// in lockstep.
pub open spec fn spec_retry_delay_ms(stream: Seq<u8>, attempt: u32) -> u64 {
    sat_add(legacy_backoff(attempt), (byte_sum(stream) % 120) as u64)
}

/// Delay before retrying a relay page of `stream` after attempt `attempt`.
pub fn retry_delay_ms(stream: &str, attempt: u32) -> (r: u64)
    ensures
        r == spec_retry_delay_ms(stream.spec_bytes(), attempt),
{
    let k: u32 = if attempt < 6 { attempt } else { 6 };
    let m = pow2_u64(k);
    proof {
        lemma_two_pow_mono(k as nat, 6);
        lemma_two_pow_20();
    }
    let mut exp = saturating_mul_u64(LEGACY_RETRY_BASE_MS, m);
    if exp > LEGACY_RETRY_MAX_MS {
        exp = LEGACY_RETRY_MAX_MS;
    }
    let bytes = stream.as_bytes();
    let mut acc: u128 = 0;
    let mut i: usize = 0;
    while i < bytes.len()
        invariant
            i <= bytes.len(),
            acc == byte_sum(bytes@.take(i as int)),
            acc <= 255 * i,
        decreases bytes.len() - i,
    {
        assert(bytes@.take(i + 1).drop_last() =~= bytes@.take(i as int));
        acc = acc + bytes[i] as u128;
        i = i + 1;
    }
    assert(bytes@.take(i as int) =~= bytes@);
    let bias = (acc % 120) as u64;
    saturating_add_u64(exp, bias)
}

/// The relay fetcher's delay grows with the attempt and never exceeds
/// 4 s plus the stream bias.
pub proof fn lemma_retry_delay_monotone_capped(stream: Seq<u8>, a: u32, b: u32)
    requires
        a <= b,
    ensures
        spec_retry_delay_ms(stream, a) <= spec_retry_delay_ms(stream, b),
        spec_retry_delay_ms(stream, b) <= LEGACY_RETRY_MAX_MS + 119,
        a < 4 ==> legacy_backoff(a) < legacy_backoff((a + 1) as u32),
{
    let ka: nat = if a < 6 { a as nat } else { 6 };
    let kb: nat = if b < 6 { b as nat } else { 6 };
    lemma_two_pow_mono(ka, kb);
    if a < 4 {
        assert(two_pow((a + 1) as nat) == 2 * two_pow(a as nat));
        lemma_two_pow_mono(a as nat, 3);
        lemma_two_pow_20();
    }
}

/// Attempts of a plain HTTP send: the requested number, kept within 1..=5.
pub open spec fn spec_clamp_attempts(attempts: u32) -> u32 {
    if attempts < 1 {
        1
    } else if attempts > 5 {
        5
    } else {
        attempts
    }
}

/// The delay of a plain HTTP send before its second attempt.
pub const SEND_BACKOFF_START_MS: u64 = 200;

/// The cap of the delay of a plain HTTP send.
pub const SEND_BACKOFF_MAX_MS: u64 = 5_000;

/// The next delay of a plain HTTP send: doubled, capped at 5 s.
pub open spec fn spec_next_send_backoff(ms: u64) -> u64 {
    if sat_mul(ms, 2) > SEND_BACKOFF_MAX_MS {
        SEND_BACKOFF_MAX_MS
    } else {
        sat_mul(ms, 2)
    }
}

/// What a plain HTTP send does after an attempt.
pub enum SendStep {
    /// Hand the response (or the error) to the caller.
    Finish,
    /// Sleep this many milliseconds plus a random jitter, then try again.
    RetryAfter(u64),
}

/// The state of a plain HTTP send between attempts.
pub struct SendRetry {
    pub attempt: u32,
    pub max_attempts: u32,
    pub backoff_ms: u64,
}

/// The state a send starts in.
pub open spec fn spec_send_start(attempts: u32) -> SendRetry {
    SendRetry { attempt: 0, max_attempts: spec_clamp_attempts(attempts), backoff_ms: SEND_BACKOFF_START_MS }
}

/// The state after an attempt whose outcome asks for a retry (a retryable
/// status or a transport error) or not: one more attempt with a doubled
/// delay when another attempt follows, unchanged otherwise (the send ends).
pub open spec fn spec_send_next(s: SendRetry, wants_retry: bool) -> SendRetry {
    if wants_retry && s.has_next() {
        SendRetry { attempt: (s.attempt + 1) as u32, backoff_ms: spec_next_send_backoff(s.backoff_ms), ..s }
    } else {
        s
    }
}

/// The state after a sequence of attempt outcomes.
pub open spec fn spec_send_run(s: SendRetry, outcomes: Seq<bool>) -> SendRetry
    decreases outcomes.len(),
{
    if outcomes.len() == 0 {
        s
    } else {
        spec_send_run(spec_send_next(s, outcomes[0]), outcomes.drop_first())
    }
}

proof fn lemma_send_run_bounded(s: SendRetry, outcomes: Seq<bool>)
    requires
        s.attempt < s.max_attempts,
        s.backoff_ms <= SEND_BACKOFF_MAX_MS,
    ensures
        spec_send_run(s, outcomes).attempt < s.max_attempts,
        spec_send_run(s, outcomes).attempt >= s.attempt,
        spec_send_run(s, outcomes).max_attempts == s.max_attempts,
        spec_send_run(s, outcomes).backoff_ms <= SEND_BACKOFF_MAX_MS,
    decreases outcomes.len(),
{
    if outcomes.len() > 0 {
        lemma_send_run_bounded(spec_send_next(s, outcomes[0]), outcomes.drop_first());
    }
}

/// However the attempts of a plain HTTP send turn out, it makes at most the
/// requested number of attempts, clamped to 1..=5 (its attempt index stays
/// below that), and never waits more than 5 s between two of them.
pub proof fn law_send_attempts_bounded(attempts: u32, outcomes: Seq<bool>)
    ensures
        spec_send_run(spec_send_start(attempts), outcomes).attempt < spec_clamp_attempts(attempts),
        spec_clamp_attempts(attempts) <= 5,
        spec_send_run(spec_send_start(attempts), outcomes).backoff_ms <= SEND_BACKOFF_MAX_MS,
{
    lemma_send_run_bounded(spec_send_start(attempts), outcomes);
}

impl SendRetry {
    /// A send that will make at most `attempts` tries, clamped to 1..=5.
    pub fn start(attempts: u32) -> (r: Self)
        ensures
            r == spec_send_start(attempts),
            r.attempt == 0,
            r.max_attempts == spec_clamp_attempts(attempts),
            r.backoff_ms == SEND_BACKOFF_START_MS,
    {
        let max_attempts = if attempts < 1 {
            1
        } else if attempts > 5 {
            5
        } else {
            attempts
        };
        SendRetry { attempt: 0, max_attempts, backoff_ms: SEND_BACKOFF_START_MS }
    }

    /// Whether another attempt follows the current one.
    pub open spec fn has_next(&self) -> bool {
        (self.attempt as u64) + 1 < (self.max_attempts as u64)
    }

    fn advance(&mut self) -> (r: SendStep)
        requires
            old(self).has_next(),
        ensures
            r == SendStep::RetryAfter(old(self).backoff_ms),
            final(self).attempt == old(self).attempt + 1,
            final(self).max_attempts == old(self).max_attempts,
            final(self).backoff_ms == spec_next_send_backoff(old(self).backoff_ms),
    {
        let wait = self.backoff_ms;
        let doubled = saturating_mul_u64(self.backoff_ms, 2);
        self.backoff_ms = if doubled > SEND_BACKOFF_MAX_MS { SEND_BACKOFF_MAX_MS } else { doubled };
        self.attempt = self.attempt + 1;
        SendStep::RetryAfter(wait)
    }

    /// After a response with `status`: retry a retryable status while attempts
    /// remain, otherwise hand the response back.
    pub fn on_response(&mut self, status: u16) -> (r: SendStep)
        ensures
            *final(self) == spec_send_next(*old(self), spec_retryable_status(status)),
            spec_retryable_status(status) && old(self).has_next() ==> {
                &&& r == SendStep::RetryAfter(old(self).backoff_ms)
                &&& final(self).attempt == old(self).attempt + 1
                &&& final(self).max_attempts == old(self).max_attempts
                &&& final(self).backoff_ms == spec_next_send_backoff(old(self).backoff_ms)
            },
            !(spec_retryable_status(status) && old(self).has_next()) ==> r == SendStep::Finish && *final(self) == *old(self),
    {
        if should_retry_status(status) && (self.attempt as u64) + 1 < (self.max_attempts as u64) {
            self.advance()
        } else {
            SendStep::Finish
        }
    }

    /// After a transport error: retry while attempts remain, otherwise fail.
    pub fn on_error(&mut self) -> (r: SendStep)
        ensures
            *final(self) == spec_send_next(*old(self), true),
            old(self).has_next() ==> {
                &&& r == SendStep::RetryAfter(old(self).backoff_ms)
                &&& final(self).attempt == old(self).attempt + 1
                &&& final(self).max_attempts == old(self).max_attempts
                &&& final(self).backoff_ms == spec_next_send_backoff(old(self).backoff_ms)
            },
            !old(self).has_next() ==> r == SendStep::Finish && *final(self) == *old(self),
    {
        if (self.attempt as u64) + 1 < (self.max_attempts as u64) {
            self.advance()
        } else {
            SendStep::Finish
        }
    }

    /// `on_response`, counting a retryable status as an HTTP error in `metrics`.
    pub fn on_response_counted(&mut self, status: u16, metrics: &mut NetMetrics) -> (r: SendStep)
        ensures
            spec_retryable_status(status) && old(self).has_next() ==> {
                &&& r == SendStep::RetryAfter(old(self).backoff_ms)
                &&& final(self).attempt == old(self).attempt + 1
                &&& final(self).max_attempts == old(self).max_attempts
                &&& final(self).backoff_ms == spec_next_send_backoff(old(self).backoff_ms)
            },
            !(spec_retryable_status(status) && old(self).has_next()) ==> r == SendStep::Finish && *final(self) == *old(self),
            spec_retryable_status(status) ==> *final(metrics) == (NetMetrics { http_errors: wrap_add(old(metrics).http_errors, 1), ..*old(metrics) }),
            !spec_retryable_status(status) ==> *final(metrics) == *old(metrics),
    {
        if should_retry_status(status) {
            metrics.http_error();
        }
        self.on_response(status)
    }

    /// `on_error`, counting the error in `metrics` as a timeout or as an HTTP error.
    pub fn on_error_counted(&mut self, is_timeout: bool, metrics: &mut NetMetrics) -> (r: SendStep)
        ensures
            old(self).has_next() ==> {
                &&& r == SendStep::RetryAfter(old(self).backoff_ms)
                &&& final(self).attempt == old(self).attempt + 1
                &&& final(self).max_attempts == old(self).max_attempts
                &&& final(self).backoff_ms == spec_next_send_backoff(old(self).backoff_ms)
            },
            !old(self).has_next() ==> r == SendStep::Finish && *final(self) == *old(self),
            is_timeout ==> *final(metrics) == (NetMetrics { http_timeouts: wrap_add(old(metrics).http_timeouts, 1), ..*old(metrics) }),
            !is_timeout ==> *final(metrics) == (NetMetrics { http_errors: wrap_add(old(metrics).http_errors, 1), ..*old(metrics) }),
    {
        if is_timeout {
            metrics.http_timeout();
        } else {
            metrics.http_error();
        }
        self.on_error()
    }
}

/// A plain HTTP send makes at most five attempts, and each wait lies within
/// 200 ms and 5 s.
pub proof fn lemma_send_backoff_bounded(ms: u64)
    requires
        SEND_BACKOFF_START_MS <= ms <= SEND_BACKOFF_MAX_MS,
    ensures
        SEND_BACKOFF_START_MS <= spec_next_send_backoff(ms) <= SEND_BACKOFF_MAX_MS,
        ms <= spec_next_send_backoff(ms),
{
}

/// A random jitter for a plain HTTP send, from `rand::thread_rng().gen_range(0..=200)`.
/// The value is random: only its range is stated.
#[verifier::external_body]
pub(crate) fn send_jitter_ms() -> (r: u64)
    ensures
        r <= 200,
{
    rand::thread_rng().gen_range(0..=200u64)
}

/// How long a plain HTTP send sleeps before its next attempt: the step's
/// delay plus a random jitter of at most 200 ms (saturating).
pub fn retry_sleep_ms(wait_ms: u64) -> (r: u64)
    ensures
        wait_ms <= r,
        r <= wait_ms + 200 || r == u64::MAX,
{
    let j = send_jitter_ms();
    if wait_ms > u64::MAX - j { u64::MAX } else { wait_ms + j }
}

/// The delay of a queued job before its next attempt.
pub struct Backoff {
    pub secs: u64,
    pub jitter_ms: u64,
}

/// The whole-second part of a queue backoff after attempt `attempt`:
/// `base_secs` doubled `attempt - 1` times (at most twenty), saturating,
/// then capped at `max_secs`.
pub open spec fn spec_backoff_secs(attempt: u32, base_secs: u64, max_secs: u64) -> u64 {
    let p: nat = if sat_sub(attempt as u64, 1) > 20 { 20 } else { sat_sub(attempt as u64, 1) as nat };
    let s = if base_secs * two_pow(p) > u64::MAX { u64::MAX } else { (base_secs * two_pow(p)) as u64 };
    if s > max_secs {
        max_secs
    } else {
        s
    }
}

/// Two random bytes read as a little-endian `u16`.
pub(crate) fn random_u16() -> u16 {
    let b = random_bytes(2);
    (b[0] as u16) + 256 * (b[1] as u16)
}

/// The backoff of a queued job with the random part given: `raw % 1000` ms of jitter.
pub fn backoff_with_jitter(attempt: u32, base_secs: u64, max_secs: u64, raw: u16) -> (r: Backoff)
    ensures
        r.secs == spec_backoff_secs(attempt, base_secs, max_secs),
        r.jitter_ms == raw as u64 % 1000,
{
    let a = saturating_sub_u64(attempt as u64, 1);
    let p: u32 = if a > 20 { 20 } else { a as u32 };
    let m = pow2_u64(p);
    let mut secs = saturating_mul_u64(base_secs, m);
    if secs > max_secs {
        secs = max_secs;
    }
    Backoff { secs, jitter_ms: raw as u64 % 1000 }
}

/// The backoff of a queued job after attempt `attempt`, with a random jitter below 1 s.
pub fn next_backoff(attempt: u32, base_secs: u64, max_secs: u64) -> (r: Backoff)
    ensures
        r.secs == spec_backoff_secs(attempt, base_secs, max_secs),
        r.jitter_ms < 1000,
{
    let raw = random_u16();
    backoff_with_jitter(attempt, base_secs, max_secs, raw)
}

/// A queue backoff never exceeds its cap and never shrinks as attempts grow.
pub proof fn lemma_backoff_monotone_capped(a: u32, b: u32, base_secs: u64, max_secs: u64)
    requires
        a <= b,
    ensures
        spec_backoff_secs(a, base_secs, max_secs) <= spec_backoff_secs(b, base_secs, max_secs),
        spec_backoff_secs(b, base_secs, max_secs) <= max_secs,
{
    let pa: nat = if sat_sub(a as u64, 1) > 20 { 20 } else { sat_sub(a as u64, 1) as nat };
    let pb: nat = if sat_sub(b as u64, 1) > 20 { 20 } else { sat_sub(b as u64, 1) as nat };
    lemma_two_pow_mono(pa, pb);
    assert(base_secs * two_pow(pa) <= base_secs * two_pow(pb)) by (nonlinear_arith)
        requires
            two_pow(pa) <= two_pow(pb),
    ;
}

} // verus!
