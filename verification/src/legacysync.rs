//! Pulling the legacy (non-P2P) timeline from the relay: the page requests,
//! the checks on each page, the checkpoint bookkeeping, and how a relayed
//! note becomes an inbox activity.
use vstd::prelude::*;
use crate::text::{trim, trim_end_char, dec, dec_signed, str_chars, trim_chars, string_from_chars, trim_end_char_chars, append_str, push_dec_signed, str_eq};
use crate::devicesync::{parse_i64, spec_parse_i64};
use crate::json::{Json, JsonV, JsonNumber, jget, jstr, jget_str, jv_pairs, find_key, set_member, pairs_set, pairs_contains, pairs_get, json_str, lemma_get_after_set, lemma_get_after_push};
use crate::report::push_member;
use crate::activity::AS_PUBLIC;
use crate::metrics::now_ms;
use crate::text::push_dec;

verus! {

/// Whether a byte is left as is in a URL component: ASCII letters and
/// digits, `-`, `.`, `_` and `~`.
pub open spec fn is_unreserved(b: u8) -> bool {
    (0x30 <= b <= 0x39) || (0x41 <= b <= 0x5a) || (0x61 <= b <= 0x7a) || b == 0x2d || b == 0x2e || b == 0x5f || b == 0x7e
}

/// An uppercase hexadecimal digit.
pub open spec fn hex_upper(d: int) -> char {
    if d < 10 { (('0' as int) + d) as char } else { (('A' as int) + d - 10) as char }
}

/// Percent-encoding of bytes: unreserved bytes as themselves, every other
/// byte as `%` and two uppercase hex digits.
pub open spec fn pct_encode(b: Seq<u8>) -> Seq<char>
    decreases b.len(),
{
    if b.len() == 0 {
        Seq::empty()
    } else {
        let x = b.last();
        pct_encode(b.drop_last()) + if is_unreserved(x) {
            seq![x as char]
        } else {
            seq!['%', hex_upper(x as int / 16), hex_upper(x as int % 16)]
        }
    }
}

/// `urlencoding::encode`: the UTF-8 bytes of `s`, percent-encoded except
/// ASCII alphanumerics and `-`, `_`, `.`, `~`.
#[verifier::external_body]
fn url_encode(s: &str) -> (r: String)
    ensures
        r@ == pct_encode(vstd::utf8::encode_utf8(s@)),
{
    urlencoding::encode(s).into_owned()
}

/// Why a legacy sync run stops with an error.
#[derive(Clone, Copy, Debug, PartialEq, Eq, Structural)]
pub enum LegacySyncError {
    MissingRelayBaseUrl,
    MissingRelayToken,
    MissingUsername,
    UnsupportedSchemaVersion,
    UnexpectedMode,
    /// A page could not be fetched from the relay.
    FetchFailed,
    /// A note could not be ingested.
    IngestFailed,
}

/// The trimmed relay base URL, relay token and username a sync needs, each
/// required to be non-blank (checked in that order).
pub fn legacy_sync_config(relay_base: Option<&str>, relay_token: Option<&str>, username: &str) -> (r: Result<(String, String, String), LegacySyncError>)
    ensures
        match r {
            Ok((b, t, u)) => relay_base is Some && relay_token is Some
                && b@ == trim(relay_base->Some_0@) && b@.len() > 0
                && t@ == trim(relay_token->Some_0@) && t@.len() > 0
                && u@ == trim(username@) && u@.len() > 0,
            Err(e) => e == if relay_base is None || trim(relay_base->Some_0@).len() == 0 {
                LegacySyncError::MissingRelayBaseUrl
            } else if relay_token is None || trim(relay_token->Some_0@).len() == 0 {
                LegacySyncError::MissingRelayToken
            } else {
                LegacySyncError::MissingUsername
            },
        },
{
    let b = match relay_base {
        Some(s) => trim_chars(&str_chars(s)),
        None => return Err(LegacySyncError::MissingRelayBaseUrl),
    };
    if b.len() == 0 {
        return Err(LegacySyncError::MissingRelayBaseUrl);
    }
    let t = match relay_token {
        Some(s) => trim_chars(&str_chars(s)),
        None => return Err(LegacySyncError::MissingRelayToken),
    };
    if t.len() == 0 {
        return Err(LegacySyncError::MissingRelayToken);
    }
    let u = trim_chars(&str_chars(username));
    if u.len() == 0 {
        return Err(LegacySyncError::MissingUsername);
    }
    Ok((string_from_chars(&b), string_from_chars(&t), string_from_chars(&u)))
}

/// The stored checkpoint: the stream's own when stored, else the shared
/// one; none when neither is stored or the stored text is not a number.
pub fn checkpoint_from_meta(stream_value: Option<&str>, shared_value: Option<&str>) -> (r: Option<i64>)
    ensures
        r == match stream_value {
            Some(v) => spec_parse_i64(v@),
            None => match shared_value {
                Some(v) => spec_parse_i64(v@),
                None => None,
            },
        },
{
    match stream_value {
        Some(v) => parse_i64(v),
        None => match shared_value {
            Some(v) => parse_i64(v),
            None => None,
        },
    }
}

/// The URL of a page of the relay's legacy timeline: a bootstrap download
/// (pages of 1000) when no checkpoint is stored, else the changes since the
/// checkpoint (pages of 200), continuing from `cursor` when given.
pub open spec fn spec_legacy_page_url(base: Seq<char>, username: Seq<char>, stream: Seq<char>, bootstrap: bool, since: i64, cursor: Option<Seq<char>>) -> Seq<char> {
    let tail = match cursor {
        Some(c) => "&cursor="@ + pct_encode(vstd::utf8::encode_utf8(c)),
        None => Seq::empty(),
    };
    let user = pct_encode(vstd::utf8::encode_utf8(username));
    if bootstrap {
        trim_end_char(base, '/') + "/_fedi3/relay/legacy/bootstrap?v=1&username="@ + user + "&stream="@ + stream
            + "&limit=1000&gzip=true"@ + tail
    } else {
        trim_end_char(base, '/') + "/_fedi3/relay/legacy/sync?v=1&username="@ + user + "&stream="@ + stream
            + "&limit=200&since="@ + dec_signed(since as int) + tail
    }
}

/// Builds the URL of a legacy timeline page (see `spec_legacy_page_url`).
pub fn legacy_page_url(relay_base: &str, username: &str, stream: &str, bootstrap: bool, since: i64, cursor: Option<&str>) -> (r: String)
    ensures
        r@ == spec_legacy_page_url(relay_base@, username@, stream@, bootstrap, since, match cursor {
            Some(c) => Some(c@),
            None => None,
        }),
{
    let mut v = trim_end_char_chars(&str_chars(relay_base), '/');
    if bootstrap {
        append_str(&mut v, "/_fedi3/relay/legacy/bootstrap?v=1&username=");
    } else {
        append_str(&mut v, "/_fedi3/relay/legacy/sync?v=1&username=");
    }
    let user = url_encode(username);
    append_str(&mut v, user.as_str());
    append_str(&mut v, "&stream=");
    append_str(&mut v, stream);
    if bootstrap {
        append_str(&mut v, "&limit=1000&gzip=true");
    } else {
        append_str(&mut v, "&limit=200&since=");
        push_dec_signed(&mut v, since);
    }
    match cursor {
        Some(c) => {
            append_str(&mut v, "&cursor=");
            let e = url_encode(c);
            append_str(&mut v, e.as_str());
        },
        None => {},
    }
    string_from_chars(&v)
}

/// Where a legacy sync run stands.
#[derive(Clone, Debug)]
pub struct LegacySync {
    /// Downloading everything (no checkpoint was stored) rather than catching up.
    pub bootstrap: bool,
    /// The checkpoint the catch-up starts from.
    pub since: i64,
    /// Pages fetched.
    pub pages: usize,
    /// Notes ingested.
    pub ingested: usize,
    /// The newest time seen so far, never below `since`.
    pub latest_checkpoint: i64,
    /// Where the next page starts.
    pub cursor: Option<String>,
    /// Whether the relay has no more pages.
    pub finished: bool,
}

/// The state a run starts in, from the stored checkpoint.
pub open spec fn spec_legacy_start(checkpoint: Option<i64>) -> LegacySync {
    let since = match checkpoint {
        Some(c) => c,
        None => 0,
    };
    LegacySync { bootstrap: checkpoint is None, since, pages: 0, ingested: 0, latest_checkpoint: since, cursor: None, finished: false }
}

/// The state after a reported time is taken into the checkpoint.
pub open spec fn spec_observe_time(s: LegacySync, ms: i64) -> LegacySync {
    LegacySync { latest_checkpoint: if ms > s.latest_checkpoint { ms } else { s.latest_checkpoint }, ..s }
}

/// The state after a note is counted.
pub open spec fn spec_count_ingested(s: LegacySync) -> LegacySync {
    LegacySync { ingested: (s.ingested + 1) as usize, ..s }
}

/// The state after a page ends.
pub open spec fn spec_end_page(s: LegacySync, page_was_empty: bool, next: Option<String>) -> LegacySync {
    if page_was_empty {
        LegacySync { finished: true, ..s }
    } else {
        LegacySync { pages: (s.pages + 1) as usize, finished: s.finished || next is None, cursor: next, ..s }
    }
}

/// The checkpoint stored at the end of a run.
pub open spec fn spec_final_checkpoint(s: LegacySync, now_ms: i64) -> i64 {
    if s.latest_checkpoint <= 0 { now_ms } else { s.latest_checkpoint }
}

/// A run starting from the stored checkpoint (none: a bootstrap download).
pub fn legacy_sync_start(checkpoint: Option<i64>) -> (r: LegacySync)
    ensures
        r == spec_legacy_start(checkpoint),
        r.bootstrap == checkpoint is None,
        r.since == match checkpoint { Some(c) => c, None => 0 },
        r.latest_checkpoint == r.since,
        r.pages == 0,
        r.ingested == 0,
        r.cursor is None,
        !r.finished,
{
    let since = match checkpoint {
        Some(c) => c,
        None => 0,
    };
    LegacySync { bootstrap: checkpoint.is_none(), since, pages: 0, ingested: 0, latest_checkpoint: since, cursor: None, finished: false }
}

/// At least one.
pub open spec fn at_least_one(n: usize) -> usize {
    if n < 1 { 1 } else { n }
}

impl LegacySync {
    /// Whether another page is fetched: the relay has more, and neither the
    /// page budget nor the note budget (each at least one) is used up.
    pub fn wants_page(&self, max_pages: usize, max_items: usize) -> (r: bool)
        ensures
            r == (!self.finished && self.pages < at_least_one(max_pages) && self.ingested < at_least_one(max_items)),
    {
        let mp = if max_pages < 1 { 1 } else { max_pages };
        let mi = if max_items < 1 { 1 } else { max_items };
        !self.finished && self.pages < mp && self.ingested < mi
    }

    /// The URL of the next page.
    pub fn next_page_url(&self, relay_base: &str, username: &str, stream: &str) -> (r: String)
        ensures
            r@ == spec_legacy_page_url(relay_base@, username@, stream@, self.bootstrap, self.since, match self.cursor {
                Some(c) => Some(c@),
                None => None,
            }),
    {
        match &self.cursor {
            Some(c) => legacy_page_url(relay_base, username, stream, self.bootstrap, self.since, Some(c.as_str())),
            None => legacy_page_url(relay_base, username, stream, self.bootstrap, self.since, None),
        }
    }

    /// Checks a page's header: schema version `1`, and the mode the run asked
    /// for (`bootstrap` or `delta`).
    pub fn check_page(&self, schema_version: Option<&str>, mode: Option<&str>) -> (r: Result<(), LegacySyncError>)
        ensures
            match r {
                Ok(()) => schema_version is Some && schema_version->Some_0@ == "1"@
                    && mode is Some && mode->Some_0@ == (if self.bootstrap { "bootstrap"@ } else { "delta"@ }),
                Err(e) => if !(schema_version is Some && schema_version->Some_0@ == "1"@) {
                    e == LegacySyncError::UnsupportedSchemaVersion
                } else {
                    e == LegacySyncError::UnexpectedMode
                        && !(mode is Some && mode->Some_0@ == (if self.bootstrap { "bootstrap"@ } else { "delta"@ }))
                },
            },
    {
        let schema_ok = match schema_version {
            Some(s) => str_eq(s, "1"),
            None => false,
        };
        if !schema_ok {
            return Err(LegacySyncError::UnsupportedSchemaVersion);
        }
        let want = if self.bootstrap { "bootstrap" } else { "delta" };
        let mode_ok = match mode {
            Some(m) => str_eq(m, want),
            None => false,
        };
        if !mode_ok {
            return Err(LegacySyncError::UnexpectedMode);
        }
        Ok(())
    }

    /// Takes a time the relay reported into the checkpoint: the checkpoint
    /// becomes the later of the two, so it never moves back.
    pub fn observe_time(&mut self, ms: i64)
        ensures
            *final(self) == spec_observe_time(*old(self), ms),
            final(self).latest_checkpoint == if ms > old(self).latest_checkpoint { ms } else { old(self).latest_checkpoint },
            final(self).latest_checkpoint >= old(self).latest_checkpoint,
            final(self).bootstrap == old(self).bootstrap,
            final(self).since == old(self).since,
            final(self).pages == old(self).pages,
            final(self).ingested == old(self).ingested,
            final(self).cursor == old(self).cursor,
            final(self).finished == old(self).finished,
    {
        if ms > self.latest_checkpoint {
            self.latest_checkpoint = ms;
        }
    }

    /// Whether another note of the page is taken: the note budget (at least
    /// one) is not used up.
    pub fn wants_item(&self, max_items: usize) -> (r: bool)
        ensures
            r == (self.ingested < at_least_one(max_items)),
    {
        let mi = if max_items < 1 { 1 } else { max_items };
        self.ingested < mi
    }

    /// Counts a note that was ingested.
    pub fn count_ingested(&mut self)
        requires
            old(self).ingested < usize::MAX,
        ensures
            *final(self) == spec_count_ingested(*old(self)),
            final(self).ingested == old(self).ingested + 1,
            final(self).latest_checkpoint == old(self).latest_checkpoint,
            final(self).bootstrap == old(self).bootstrap,
            final(self).since == old(self).since,
            final(self).pages == old(self).pages,
            final(self).cursor == old(self).cursor,
            final(self).finished == old(self).finished,
    {
        self.ingested = self.ingested + 1;
    }

    /// Ends a page: an empty page ends the run; otherwise the run moves to
    /// the relay's next cursor, and ends when there is none.
    pub fn end_page(&mut self, page_was_empty: bool, next: Option<String>)
        requires
            old(self).pages < usize::MAX,
        ensures
            *final(self) == spec_end_page(*old(self), page_was_empty, next),
            page_was_empty ==> final(self).finished && final(self).pages == old(self).pages && final(self).cursor == old(self).cursor,
            !page_was_empty ==> final(self).pages == old(self).pages + 1 && final(self).cursor == next
                && final(self).finished == (old(self).finished || next is None),
            final(self).latest_checkpoint == old(self).latest_checkpoint,
            final(self).ingested == old(self).ingested,
            final(self).bootstrap == old(self).bootstrap,
            final(self).since == old(self).since,
    {
        if page_was_empty {
            self.finished = true;
        } else {
            let done = next.is_none();
            self.cursor = next;
            self.pages = self.pages + 1;
            if done {
                self.finished = true;
            }
        }
    }

    /// The checkpoint to store at the end of a run: the newest time seen,
    /// or the current time when none is positive.
    pub fn final_checkpoint(&self, now_ms: i64) -> (r: i64)
        ensures
            r == spec_final_checkpoint(*self, now_ms),
            r == if self.latest_checkpoint <= 0 { now_ms } else { self.latest_checkpoint },
    {
        if self.latest_checkpoint <= 0 { now_ms } else { self.latest_checkpoint }
    }

    /// What a run that ended stores: the checkpoint (see `final_checkpoint`),
    /// the number of notes ingested, whether a bootstrap download is done,
    /// and the phase `ready`.
    pub fn end_of_run(&self, now_ms: i64) -> (r: LegacyRunEnd)
        ensures
            r.checkpoint == spec_final_checkpoint(*self, now_ms),
            r.items == self.ingested,
            r.bootstrap_done == self.bootstrap,
            r.phase@ == "ready"@,
    {
        LegacyRunEnd {
            checkpoint: self.final_checkpoint(now_ms),
            items: self.ingested,
            bootstrap_done: self.bootstrap,
            phase: "ready".to_string(),
        }
    }
}

/// What a legacy sync run stores when it ends.
pub struct LegacyRunEnd {
    /// The stream's new checkpoint.
    pub checkpoint: i64,
    /// The notes ingested in the run.
    pub items: usize,
    /// Whether the stream's bootstrap download is now done.
    pub bootstrap_done: bool,
    /// The sync phase stored.
    pub phase: String,
}

/// One step of a legacy sync run, as the caller takes it.
pub enum LegacyStep {
    /// A time the relay reported (`observe_time`).
    Time(i64),
    /// A note ingested (`count_ingested`).
    Item,
    /// A page ended, empty or not, with the relay's next cursor (`end_page`).
    EndPage(bool, Option<String>),
}

/// Whether a step keeps to the run's protocol in state `s`: a note is
/// counted only while the note budget lasts (`wants_item`), and a page ends
/// only when it was fetched, that is while the run is open and the page
/// budget lasts (`wants_page`).
pub open spec fn legacy_step_allowed(s: LegacySync, step: LegacyStep, max_pages: usize, max_items: usize) -> bool {
    match step {
        LegacyStep::Time(_) => true,
        LegacyStep::Item => s.ingested < at_least_one(max_items),
        LegacyStep::EndPage(_, _) => !s.finished && s.pages < at_least_one(max_pages),
    }
}

/// The state after one step.
pub open spec fn legacy_step(s: LegacySync, step: LegacyStep) -> LegacySync {
    match step {
        LegacyStep::Time(ms) => spec_observe_time(s, ms),
        LegacyStep::Item => spec_count_ingested(s),
        LegacyStep::EndPage(empty, next) => spec_end_page(s, empty, next),
    }
}

/// Whether every step of a run keeps to the protocol.
pub open spec fn legacy_run_allowed(s: LegacySync, steps: Seq<LegacyStep>, max_pages: usize, max_items: usize) -> bool
    decreases steps.len(),
{
    steps.len() == 0 || (legacy_step_allowed(s, steps[0], max_pages, max_items)
        && legacy_run_allowed(legacy_step(s, steps[0]), steps.drop_first(), max_pages, max_items))
}

/// The state at the end of a run.
pub open spec fn legacy_run(s: LegacySync, steps: Seq<LegacyStep>) -> LegacySync
    decreases steps.len(),
{
    if steps.len() == 0 {
        s
    } else {
        legacy_run(legacy_step(s, steps[0]), steps.drop_first())
    }
}

proof fn lemma_legacy_run_keeps(s: LegacySync, steps: Seq<LegacyStep>, max_pages: usize, max_items: usize)
    requires
        legacy_run_allowed(s, steps, max_pages, max_items),
        s.pages <= at_least_one(max_pages),
        s.ingested <= at_least_one(max_items),
    ensures
        legacy_run(s, steps).pages <= at_least_one(max_pages),
        legacy_run(s, steps).ingested <= at_least_one(max_items),
        legacy_run(s, steps).since == s.since,
        legacy_run(s, steps).latest_checkpoint >= s.latest_checkpoint,
    decreases steps.len(),
{
    if steps.len() > 0 {
        lemma_legacy_run_keeps(legacy_step(s, steps[0]), steps.drop_first(), max_pages, max_items);
    }
}

/// Over a whole run that keeps to the protocol, from any stored checkpoint:
/// at most `max(max_items, 1)` notes are counted and `max(max_pages, 1)`
/// pages fetched, the checkpoint never falls below the stored one, and the
/// checkpoint stored at the end is positive (the clock being positive) and
/// not below the one the run started from.
pub proof fn law_legacy_run_bounds(checkpoint: Option<i64>, steps: Seq<LegacyStep>, max_pages: usize, max_items: usize, now_ms: i64)
    requires
        legacy_run_allowed(spec_legacy_start(checkpoint), steps, max_pages, max_items),
        now_ms > 0,
    ensures
        legacy_run(spec_legacy_start(checkpoint), steps).pages <= at_least_one(max_pages),
        legacy_run(spec_legacy_start(checkpoint), steps).ingested <= at_least_one(max_items),
        legacy_run(spec_legacy_start(checkpoint), steps).latest_checkpoint >= spec_legacy_start(checkpoint).since,
        spec_final_checkpoint(legacy_run(spec_legacy_start(checkpoint), steps), now_ms) > 0,
        checkpoint matches Some(c) ==> spec_final_checkpoint(legacy_run(spec_legacy_start(checkpoint), steps), now_ms) >= c,
{
    lemma_legacy_run_keeps(spec_legacy_start(checkpoint), steps, max_pages, max_items);
}

/// A note of a relay page, with the time the relay recorded it.
pub struct LegacyItem {
    pub note: Json,
    pub created_at_ms: i64,
}

/// A page the relay answered.
pub struct LegacyPage {
    pub schema_version: Option<String>,
    pub mode: Option<String>,
    /// The relay's checkpoint for the page, if it gave one.
    pub checkpoint_ms: Option<i64>,
    pub items: Vec<LegacyItem>,
    /// Where the next page starts; none on the last.
    pub next: Option<String>,
}

fn opt_str(o: &Option<String>) -> (r: Option<&str>)
    ensures
        match o {
            Some(s) => r matches Some(x) && x@ == s@,
            None => r is None,
        },
{
    match o {
        Some(s) => Some(s.as_str()),
        None => None,
    }
}

/// Runs a legacy sync of one stream: while the run wants a page, fetches it
/// (`fetch` gets the page URL), checks its header, takes its checkpoint,
/// and hands its notes to `ingest` (given the note and its time, it says
/// whether the note was stored) while the note budget lasts, then moves to
/// the next page. A page that cannot be fetched or a note that cannot be
/// ingested stops the run with an error. Whatever the pages hold, the run
/// keeps to its budgets and its checkpoint never falls below the stored one.
pub fn run_legacy_stream<F, G>(relay_base: &str, username: &str, stream: &str, checkpoint: Option<i64>,
    max_pages: usize, max_items: usize, fetch: F, ingest: G) -> (r: Result<LegacySync, LegacySyncError>)
    where
        F: Fn(String) -> Option<LegacyPage>,
        G: Fn(&Json, i64) -> Option<bool>,
    requires
        forall|u: String| fetch.requires((u,)),
        forall|n: &Json, t: i64| ingest.requires((n, t)),
    ensures
        match r {
            Ok(s) => {
                &&& s.pages <= at_least_one(max_pages)
                &&& s.ingested <= at_least_one(max_items)
                &&& s.since == spec_legacy_start(checkpoint).since
                &&& s.bootstrap == (checkpoint is None)
                &&& s.latest_checkpoint >= s.since
                &&& !s.finished ==> s.pages == at_least_one(max_pages) || s.ingested == at_least_one(max_items)
            },
            Err(e) => e == LegacySyncError::FetchFailed || e == LegacySyncError::IngestFailed
                || e == LegacySyncError::UnsupportedSchemaVersion || e == LegacySyncError::UnexpectedMode,
        },
{
    let mut st = legacy_sync_start(checkpoint);
    let ghost since = st.since;
    while st.wants_page(max_pages, max_items)
        invariant
            forall|u: String| fetch.requires((u,)),
            forall|n: &Json, t: i64| ingest.requires((n, t)),
            st.pages <= at_least_one(max_pages),
            st.ingested <= at_least_one(max_items),
            st.since == since,
            since == spec_legacy_start(checkpoint).since,
            st.bootstrap == (checkpoint is None),
            st.latest_checkpoint >= st.since,
        decreases (at_least_one(max_pages) - st.pages) * 2 + (if st.finished { 0int } else { 1int }),
    {
        let url = st.next_page_url(relay_base, username, stream);
        let page = match fetch(url) {
            Some(p) => p,
            None => return Err(LegacySyncError::FetchFailed),
        };
        match st.check_page(opt_str(&page.schema_version), opt_str(&page.mode)) {
            Ok(()) => {},
            Err(e) => return Err(e),
        }
        match page.checkpoint_ms {
            Some(cp) => st.observe_time(cp),
            None => {},
        }
        if page.items.len() == 0 {
            st.end_page(true, None);
        } else {
            let mut i: usize = 0;
            let ghost pages0 = st.pages;
            while i < page.items.len()
                invariant
                    forall|n: &Json, t: i64| ingest.requires((n, t)),
                    i <= page.items.len(),
                    st.pages == pages0,
                    pages0 < at_least_one(max_pages),
                    !st.finished,
                    st.ingested <= at_least_one(max_items),
                    st.since == since,
                    st.bootstrap == (checkpoint is None),
                    st.latest_checkpoint >= st.since,
                decreases page.items.len() - i,
            {
                if !st.wants_item(max_items) {
                    break;
                }
                st.observe_time(page.items[i].created_at_ms);
                match ingest(&page.items[i].note, page.items[i].created_at_ms) {
                    Some(true) => st.count_ingested(),
                    Some(false) => {},
                    None => return Err(LegacySyncError::IngestFailed),
                }
                i += 1;
            }
            st.end_page(false, page.next);
        }
    }
    Ok(st)
}

/// The members of a relayed note made Note-like: a `Page` or `Article` is
/// typed `Note`, and a note without text content takes its `name` as content.
pub open spec fn normalized_members(ps: Seq<(Seq<char>, JsonV)>) -> Seq<(Seq<char>, JsonV)> {
    let t = jget_str(JsonV::Object(ps), "type"@);
    let p1 = if t == Some("Page"@) || t == Some("Article"@) {
        set_member(ps, "type"@, JsonV::Str("Note"@))
    } else {
        ps
    };
    if jget_str(JsonV::Object(p1), "content"@) is None {
        match jget_str(JsonV::Object(p1), "name"@) {
            Some(n) => set_member(p1, "content"@, JsonV::Str(n)),
            None => p1,
        }
    } else {
        p1
    }
}

proof fn lemma_normalized_keeps(ps: Seq<(Seq<char>, JsonV)>, k: Seq<char>)
    requires
        k != "type"@,
        k != "content"@,
    ensures
        jget(JsonV::Object(normalized_members(ps)), k) == jget(JsonV::Object(ps), k),
{
    let t = jget_str(JsonV::Object(ps), "type"@);
    let p1 = if t == Some("Article"@) || t == Some("Page"@) {
        set_member(ps, "type"@, JsonV::Str("Note"@))
    } else {
        ps
    };
    lemma_get_after_set(ps, "type"@, JsonV::Str("Note"@), k);
    lemma_get_after_set(ps, "type"@, JsonV::Str("Note"@), "content"@);
    lemma_get_after_set(ps, "type"@, JsonV::Str("Note"@), "name"@);
    if jget_str(JsonV::Object(p1), "content"@) is None {
        match jget_str(JsonV::Object(p1), "name"@) {
            Some(n) => lemma_get_after_set(p1, "content"@, JsonV::Str(n), k),
            None => {},
        }
    }
}

/// What an accepted relayed note is made of: its id is the note's id
/// trimmed; its author the note's `attributedTo`, else its `actor`, trimmed;
/// the time it was seen the relay's time when positive, else `now_ms`; the
/// note keeps its own `created_at_ms` or gets that time; and a note without
/// text content takes its `name` as content.
pub proof fn law_relay_note_fields(note: JsonV, created_at_ms: i64, now_ms: u64)
    requires
        spec_relay_note(note, created_at_ms, now_ms) is Some,
    ensures
        match spec_relay_note(note, created_at_ms, now_ms) {
            Some((n, id, actor, seen)) => {
                &&& seen == (if created_at_ms > 0 { created_at_ms as u64 } else { now_ms })
                &&& jget_str(note, "id"@) matches Some(raw) && id == trim(raw) && id.len() > 0
                &&& actor.len() > 0
                &&& actor == match jstr(match jget(note, "attributedTo"@) {
                        Some(x) => Some(x),
                        None => jget(note, "actor"@),
                    }) {
                        Some(a) => trim(a),
                        None => Seq::empty(),
                    }
                &&& jget(n, "created_at_ms"@) == (if jget(note, "created_at_ms"@) is Some {
                        jget(note, "created_at_ms"@)
                    } else {
                        Some(JsonV::PosInt(seen))
                    })
                &&& jget(n, "id"@) == jget(note, "id"@)
                &&& (jget_str(note, "content"@) is None && jget_str(note, "name"@) is Some)
                    ==> jget_str(n, "content"@) == jget_str(note, "name"@)
                &&& jget_str(note, "content"@) is Some ==> jget(n, "content"@) == jget(note, "content"@)
            },
            None => false,
        },
{
    reveal_strlit("type");
    reveal_strlit("content");
    reveal_strlit("created_at_ms");
    reveal_strlit("id");
    reveal_strlit("attributedTo");
    reveal_strlit("actor");
    reveal_strlit("name");
    assert("type"@.len() == 4 && "content"@.len() == 7 && "created_at_ms"@.len() == 13 && "id"@.len() == 2);
    assert("attributedTo"@.len() == 12 && "actor"@.len() == 5 && "name"@.len() == 4);
    assert("name"@ != "type"@) by { assert("name"@[0] != "type"@[0]); }
    let ps = note->Object_0;
    let p = normalized_members(ps);
    lemma_normalized_keeps(ps, "id"@);
    lemma_normalized_keeps(ps, "attributedTo"@);
    lemma_normalized_keeps(ps, "actor"@);
    lemma_normalized_keeps(ps, "created_at_ms"@);
    lemma_normalized_keeps(ps, "name"@);
    let t = jget_str(JsonV::Object(ps), "type"@);
    let p1 = if t == Some("Article"@) || t == Some("Page"@) {
        set_member(ps, "type"@, JsonV::Str("Note"@))
    } else {
        ps
    };
    lemma_get_after_set(ps, "type"@, JsonV::Str("Note"@), "content"@);
    lemma_get_after_set(ps, "type"@, JsonV::Str("Note"@), "name"@);
    if jget_str(JsonV::Object(p1), "content"@) is None {
        match jget_str(JsonV::Object(p1), "name"@) {
            Some(nm) => lemma_get_after_set(p1, "content"@, JsonV::Str(nm), "content"@),
            None => {},
        }
    }
    let seen: u64 = if created_at_ms > 0 { created_at_ms as u64 } else { now_ms };
    crate::json::lemma_find_key(p, "created_at_ms"@);
    lemma_get_after_push(p, "created_at_ms"@, JsonV::PosInt(seen), "id"@);
    lemma_get_after_push(p, "created_at_ms"@, JsonV::PosInt(seen), "content"@);
    if find_key(p, "created_at_ms"@) < 0 {
        lemma_get_after_set(p, "created_at_ms"@, JsonV::PosInt(seen), "created_at_ms"@);
        assert(set_member(p, "created_at_ms"@, JsonV::PosInt(seen)) == p.push(("created_at_ms"@, JsonV::PosInt(seen))));
    }
}

/// A relayed `Page` or `Article` is ingested as a `Note`: whenever such a
/// note is accepted, the normalized note's `type` is `Note`, for both kinds alike.
pub proof fn law_relay_page_becomes_note(note: JsonV, created_at_ms: i64, now_ms: u64)
    requires
        jget_str(note, "type"@) == Some("Page"@) || jget_str(note, "type"@) == Some("Article"@),
        spec_relay_note(note, created_at_ms, now_ms) is Some,
    ensures
        match spec_relay_note(note, created_at_ms, now_ms) {
            Some((n, _, _, _)) => jget_str(n, "type"@) == Some("Note"@),
            None => false,
        },
{
    reveal_strlit("type");
    reveal_strlit("content");
    reveal_strlit("created_at_ms");
    assert("type"@.len() == 4 && "content"@.len() == 7 && "created_at_ms"@.len() == 13);
    let ps = note->Object_0;
    let p1 = set_member(ps, "type"@, JsonV::Str("Note"@));
    lemma_get_after_set(ps, "type"@, JsonV::Str("Note"@), "type"@);
    let p = normalized_members(ps);
    if jget_str(JsonV::Object(p1), "content"@) is None {
        match jget_str(JsonV::Object(p1), "name"@) {
            Some(n) => lemma_get_after_set(p1, "content"@, JsonV::Str(n), "type"@),
            None => {},
        }
    }
    assert(jget(JsonV::Object(p), "type"@) == Some(JsonV::Str("Note"@)));
    let seen: u64 = if created_at_ms > 0 { created_at_ms as u64 } else { now_ms };
    lemma_get_after_push(p, "created_at_ms"@, JsonV::PosInt(seen), "type"@);
}

/// The author of a note: its `attributedTo` when present, else its
/// `actor`, as trimmed text (empty when it is not text).
pub open spec fn note_author(ps: Seq<(Seq<char>, JsonV)>) -> Seq<char> {
    let v = match jget(JsonV::Object(ps), "attributedTo"@) {
        Some(x) => Some(x),
        None => jget(JsonV::Object(ps), "actor"@),
    };
    match jstr(v) {
        Some(a) => trim(a),
        None => Seq::empty(),
    }
}

/// A relayed note ready to be ingested: the normalized note (with the time
/// the relay saw it added when it had none), its trimmed id and author, and
/// that time; none for anything but an object with a non-blank id and author.
pub open spec fn spec_relay_note(note: JsonV, created_at_ms: i64, now_ms: u64) -> Option<(JsonV, Seq<char>, Seq<char>, u64)> {
    match note {
        JsonV::Object(ps) => {
            let p = normalized_members(ps);
            match jget_str(JsonV::Object(p), "id"@) {
                None => None,
                Some(raw_id) => {
                    let id = trim(raw_id);
                    let actor = note_author(p);
                    if id.len() == 0 || actor.len() == 0 {
                        None
                    } else {
                        let seen: u64 = if created_at_ms > 0 { created_at_ms as u64 } else { now_ms };
                        let p2 = if find_key(p, "created_at_ms"@) >= 0 {
                            p
                        } else {
                            p.push(("created_at_ms"@, JsonV::PosInt(seen)))
                        };
                        Some((JsonV::Object(p2), id, actor, seen))
                    }
                }
            }
        },
        _ => None,
    }
}

/// A relayed note ready to be ingested.
#[derive(Debug)]
pub struct RelayNote {
    pub note: Json,
    pub note_id: String,
    pub actor: String,
    /// When the relay saw the note (milliseconds since the epoch).
    pub seen_ms: u64,
}

/// Normalizes a relayed note (see `spec_relay_note`); `now_ms` stands in
/// for the relay's time when it gave none.
pub fn normalize_relay_note(note: Json, created_at_ms: i64, now_ms: u64) -> (r: Option<RelayNote>)
    ensures
        match r {
            Some(n) => spec_relay_note(note@, created_at_ms, now_ms) == Some((n.note@, n.note_id@, n.actor@, n.seen_ms)),
            None => spec_relay_note(note@, created_at_ms, now_ms) is None,
        },
{
    let ghost nv = note@;
    let mut ps = match note {
        Json::Object(ps) => ps,
        _ => return None,
    };
    let ghost p0 = jv_pairs(ps@);
    assert(nv == JsonV::Object(p0));
    let is_page = match pairs_get(&ps, "type") {
        Some(v) => match v.as_str() {
            Some(t) => str_eq(t, "Page") || str_eq(t, "Article"),
            None => false,
        },
        None => false,
    };
    if is_page {
        pairs_set(&mut ps, "type", json_str("Note"));
    }
    let ghost p1 = jv_pairs(ps@);
    let has_content = match pairs_get(&ps, "content") {
        Some(v) => v.as_str().is_some(),
        None => false,
    };
    if !has_content {
        let name: Option<String> = match pairs_get(&ps, "name") {
            Some(v) => match v.as_str() {
                Some(n) => Some(n.to_string()),
                None => None,
            },
            None => None,
        };
        match name {
            Some(n) => pairs_set(&mut ps, "content", Json::Str(n)),
            None => {},
        }
    }
    let ghost p = jv_pairs(ps@);
    assert(p == normalized_members(p0));
    let id = match pairs_get(&ps, "id") {
        Some(v) => match v.as_str() {
            Some(x) => trim_chars(&str_chars(x)),
            None => return None,
        },
        None => return None,
    };
    let author = match pairs_get(&ps, "attributedTo") {
        Some(v) => Some(v),
        None => pairs_get(&ps, "actor"),
    };
    let actor = match author {
        Some(v) => match v.as_str() {
            Some(x) => trim_chars(&str_chars(x)),
            None => Vec::new(),
        },
        None => Vec::new(),
    };
    assert(actor@ == note_author(p));
    if id.len() == 0 || actor.len() == 0 {
        return None;
    }
    let seen: u64 = if created_at_ms > 0 { created_at_ms as u64 } else { now_ms };
    if !pairs_contains(&ps, "created_at_ms") {
        push_member(&mut ps, "created_at_ms", Json::Number(JsonNumber::PosInt(seen)));
    }
    Some(RelayNote { note: Json::Object(ps), note_id: string_from_chars(&id), actor: string_from_chars(&actor), seen_ms: seen })
}

/// The RFC 3339 text of the instant `secs` seconds and `ms` milliseconds
/// after the epoch, when the `time` crate can represent it.
pub uninterp spec fn rfc3339_of(secs: i64, ms: i64) -> Option<Seq<char>>;

/// `time::OffsetDateTime::from_unix_timestamp(secs)`, plus
/// `time::Duration::milliseconds(ms)` with `checked_add`, formatted with
/// `well_known::Rfc3339`; `None` when a step fails.
#[verifier::external_body]
pub(crate) fn format_rfc3339(secs: i64, ms: i64) -> (r: Option<String>)
    ensures
        match r {
            Some(t) => rfc3339_of(secs, ms) == Some(t@),
            None => rfc3339_of(secs, ms) is None,
        },
{
    time::OffsetDateTime::from_unix_timestamp(secs)
        .ok()
        .and_then(|dt| dt.checked_add(time::Duration::milliseconds(ms)))
        .and_then(|x| x.format(&time::format_description::well_known::Rfc3339).ok())
}

/// The publication time given to a relayed activity: the time the relay saw
/// the note, in RFC 3339, or the epoch when it cannot be written.
pub fn relay_published(seen_ms: u64) -> (r: String)
    ensures
        r@ == match rfc3339_of((seen_ms / 1000) as i64, (seen_ms % 1000) as i64) {
            Some(t) => t,
            None => "1970-01-01T00:00:00Z"@,
        },
{
    let secs = (seen_ms / 1000) as i64;
    let ms = (seen_ms % 1000) as i64;
    match format_rfc3339(secs, ms) {
        Some(t) => t,
        None => "1970-01-01T00:00:00Z".to_string(),
    }
}

/// The id of the activity a relayed note is ingested as: unique per note
/// and relay time.
pub open spec fn spec_relay_activity_id(note_id: Seq<char>, seen_ms: u64) -> Seq<char> {
    note_id + "#fedi3-relay-sync:"@ + dec(seen_ms as nat)
}

/// The `Create` activity a relayed note is ingested as, public, stamped with
/// the relay's time.
pub open spec fn spec_relay_activity(note: JsonV, activity_id: Seq<char>, actor: Seq<char>, published: Seq<char>, seen_ms: u64) -> JsonV {
    JsonV::Object(seq![
        ("@context"@, JsonV::Str("https://www.w3.org/ns/activitystreams"@)),
        ("id"@, JsonV::Str(activity_id)),
        ("type"@, JsonV::Str("Create"@)),
        ("actor"@, JsonV::Str(actor)),
        ("object"@, note),
        ("published"@, JsonV::Str(published)),
        ("created_at_ms"@, JsonV::PosInt(seen_ms)),
        ("fedi3RelaySync"@, JsonV::Bool(true)),
        ("to"@, JsonV::Array(seq![JsonV::Str(AS_PUBLIC@)])),
    ])
}

/// The activity id and the `Create` activity of a relayed note.
pub fn relay_sync_activity(n: RelayNote) -> (r: (String, Json))
    ensures
        r.0@ == spec_relay_activity_id(n.note_id@, n.seen_ms),
        r.1@ == spec_relay_activity(n.note@, r.0@, n.actor@, match rfc3339_of((n.seen_ms / 1000) as i64, (n.seen_ms % 1000) as i64) {
            Some(t) => t,
            None => "1970-01-01T00:00:00Z"@,
        }, n.seen_ms),
{
    let mut idv = str_chars(n.note_id.as_str());
    append_str(&mut idv, "#fedi3-relay-sync:");
    push_dec(&mut idv, n.seen_ms);
    let id = string_from_chars(&idv);
    let published = relay_published(n.seen_ms);
    let ghost nv = n.note@;
    let mut ps: Vec<(String, Json)> = Vec::new();
    assert(jv_pairs(ps@) =~= Seq::<(Seq<char>, JsonV)>::empty());
    push_member(&mut ps, "@context", json_str("https://www.w3.org/ns/activitystreams"));
    push_member(&mut ps, "id", json_str(id.as_str()));
    push_member(&mut ps, "type", json_str("Create"));
    push_member(&mut ps, "actor", json_str(n.actor.as_str()));
    push_member(&mut ps, "object", n.note);
    push_member(&mut ps, "published", Json::Str(published));
    push_member(&mut ps, "created_at_ms", Json::Number(JsonNumber::PosInt(n.seen_ms)));
    push_member(&mut ps, "fedi3RelaySync", Json::Bool(true));
    let mut to: Vec<Json> = Vec::new();
    to.push(json_str(AS_PUBLIC));
    proof {
        crate::json::lemma_jv_seq(to@);
        assert(crate::json::jv_seq(to@) =~= seq![JsonV::Str(AS_PUBLIC@)]);
    }
    push_member(&mut ps, "to", Json::Array(to));
    proof {
        let pv = jv_pairs(ps@);
        let want = spec_relay_activity(n.note@, id@, n.actor@, published@, n.seen_ms);
        assert(want matches JsonV::Object(w) && pv =~= w);
    }
    let act = Json::Object(ps);
    (id, act)
}

/// The RFC 3339 text given to a relayed activity for relay time `seen_ms`.
pub open spec fn published_text(seen_ms: u64) -> Seq<char> {
    match rfc3339_of((seen_ms / 1000) as i64, (seen_ms % 1000) as i64) {
        Some(t) => t,
        None => "1970-01-01T00:00:00Z"@,
    }
}

/// The activity id and activity a relayed note is ingested as, with `now_ms`
/// standing in for a missing relay time.
pub open spec fn relay_activity_of(note: JsonV, created_at_ms: i64, now_ms: u64) -> Option<(Seq<char>, JsonV)> {
    match spec_relay_note(note, created_at_ms, now_ms) {
        Some((nn, nid, a, seen)) => {
            let id = spec_relay_activity_id(nid, seen);
            Some((id, spec_relay_activity(nn, id, a, published_text(seen), seen)))
        },
        None => None,
    }
}

proof fn lemma_relay_note_time(note: JsonV, created_at_ms: i64, x: u64, y: u64)
    ensures
        spec_relay_note(note, created_at_ms, x) is None <==> spec_relay_note(note, created_at_ms, y) is None,
        created_at_ms > 0 ==> spec_relay_note(note, created_at_ms, x) == spec_relay_note(note, created_at_ms, y),
{
}

/// Normalizes a relayed note with the current time standing in for a
/// missing relay time, then builds its activity id and `Create` activity;
/// none when the note cannot be ingested.
pub fn ingest_relay_note(note: Json, created_at_ms: i64) -> (r: Option<(String, Json)>)
    ensures
        r is None <==> spec_relay_note(note@, created_at_ms, 0) is None,
        match r {
            Some((id, act)) => (exists|now: u64| #[trigger] relay_activity_of(note@, created_at_ms, now) == Some((id@, act@)))
                && (created_at_ms > 0 ==> relay_activity_of(note@, created_at_ms, 0) == Some((id@, act@))),
            None => true,
        },
{
    let ghost nv = note@;
    let now = now_ms();
    proof {
        lemma_relay_note_time(nv, created_at_ms, now, 0);
    }
    match normalize_relay_note(note, created_at_ms, now) {
        Some(n) => {
            let (id, act) = relay_sync_activity(n);
            proof {
                assert(relay_activity_of(nv, created_at_ms, now) == Some((id@, act@)));
            }
            Some((id, act))
        },
        None => None,
    }
}

} // verus!
