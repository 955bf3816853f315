//! The node's configuration as the core starts it: the settings records and
//! the rules that derive the running settings from a start configuration.
use vstd::prelude::*;
use crate::text::{trim, trim_end_char, starts_with, str_chars, trim_chars, trim_end_char_chars,
    string_from_chars, append_str, str_eq, str_starts_with, contains, str_contains};
use crate::urls::{spec_infer_http_base, infer_http_base_from_relay_ws, RelayWsError};
use crate::media::MediaConfig;
use crate::queue::{QueueSettings, PostDeliveryMode, spec_post_delivery_mode};
use crate::limits::{InboxRateLimits, GlobalIngestPolicy};
use crate::order::{sort_dedup, sorted_strict, views};

verus! {

/// A name and value shown on the actor's profile.
#[derive(Clone, Debug)]
pub struct ProfileField {
    pub name: String,
    pub value: String,
}

/// What the ActivityPub side knows of the local node.
#[derive(Clone)]
pub struct ApConfig {
    pub username: String,
    pub domain: String,
    pub public_base_url: String,
    pub relay_base_url: Option<String>,
    pub relay_token: Option<String>,
    pub public_key_pem: String,
    pub also_known_as: Vec<String>,
    pub p2p_peer_id: Option<String>,
    pub p2p_peer_addrs: Vec<String>,
    pub display_name: Option<String>,
    pub summary: Option<String>,
    pub icon_url: Option<String>,
    pub icon_media_type: Option<String>,
    pub image_url: Option<String>,
    pub image_media_type: Option<String>,
    pub profile_fields: Vec<ProfileField>,
    pub manually_approves_followers: bool,
    pub published_ms: Option<i64>,
    /// Block inbound/outbound interactions with these domains (exact or suffix, e.g. `example.com` or `*.example.com`).
    pub blocked_domains: Vec<String>,
    /// Block inbound/outbound interactions with these actors (exact actor id URL).
    pub blocked_actors: Vec<String>,
    /// Mailbox cache TTL for P2P store-and-forward (seconds).
    pub p2p_cache_ttl_secs: u64,
}

/// A remote actor as delivery needs it.
#[derive(Clone, Debug)]
pub struct ActorInfo {
    pub inbox: String,
    pub p2p_peer_id: Option<String>,
    pub p2p_peer_addrs: Vec<String>,
    pub public_key_pem: Option<String>,
}

/// The actor behind a signing key.
#[derive(Debug, Clone)]
pub struct ActorSummary {
    pub actor_url: String,
    pub key_id: String,
    pub public_key_pem: String,
    pub is_fedi3: bool,
}

/// The key used to sign object fetches.
#[derive(Clone)]
pub struct SignedFetchConfig {
    pub private_key_pem: String,
    pub key_id: String,
}

/// A port forwarded by the router.
#[derive(Clone, Copy, Debug)]
pub struct NatPortMapping {
    pub internal_port: u16,
    pub external_port: u16,
}

/// The peer-to-peer settings.
#[derive(Clone, Debug)]
pub struct P2pConfig {
    pub enable: bool,
    pub listen: Option<String>,
    pub bootstrap: Option<Vec<String>>,
    pub announce: Option<Vec<String>>,
    pub relay_reserve: Option<Vec<String>>,
    pub mailbox_poll_secs: Option<u64>,
    pub gossip_enable: Option<bool>,
    pub discovery_enable: Option<bool>,
    pub sync_enable: Option<bool>,
    pub sync_poll_secs: Option<u64>,
    pub sync_batch_limit: Option<u32>,
    pub prefer_relay_addrs: Option<bool>,
    pub force_relay_only: Option<bool>,
    pub auto_force_relay_only: Option<bool>,
    pub device_sync_enable: Option<bool>,
    pub device_sync_poll_secs: Option<u64>,
    pub ipv4_only: Option<bool>,
    pub webrtc_enable: Option<bool>,
    pub webrtc_poll_secs: Option<u64>,
    pub webrtc_ice_urls: Option<Vec<String>>,
    pub webrtc_ice_username: Option<String>,
    pub webrtc_ice_credential: Option<String>,
    pub webrtc_connect_timeout_secs: Option<u64>,
    pub webrtc_idle_ttl_secs: Option<u64>,
}

impl Default for P2pConfig {
    /// P2P off; when on: TCP and QUIC on any port, gossip, discovery and
    /// outbox sync on, IPv4 only, WebRTC off.
    fn default() -> (r: Self)
        ensures
            !r.enable,
            r.mailbox_poll_secs == Some(15u64),
            r.gossip_enable == Some(true) && r.discovery_enable == Some(true) && r.sync_enable == Some(true),
            r.sync_poll_secs == Some(30u64) && r.sync_batch_limit == Some(50u32),
            r.prefer_relay_addrs == Some(false) && r.force_relay_only == Some(false) && r.auto_force_relay_only == Some(true),
            r.device_sync_enable == Some(false) && r.device_sync_poll_secs == Some(30u64),
            r.ipv4_only == Some(true) && r.webrtc_enable == Some(false) && r.webrtc_poll_secs == Some(2u64),
            r.webrtc_ice_username is None && r.webrtc_ice_credential is None,
            r.webrtc_connect_timeout_secs == Some(20u64) && r.webrtc_idle_ttl_secs == Some(300u64),
            r.bootstrap matches Some(v) && v@.len() == 0,
            r.announce matches Some(v) && v@.len() == 0,
            r.relay_reserve matches Some(v) && v@.len() == 0,
            r.webrtc_ice_urls matches Some(v) && v@.len() == 0,
            r.listen matches Some(l) && l@ == "/ip4/0.0.0.0/tcp/0,/ip4/0.0.0.0/udp/0/quic-v1"@,
    {
        P2pConfig {
            enable: false,
            listen: Some("/ip4/0.0.0.0/tcp/0,/ip4/0.0.0.0/udp/0/quic-v1".to_owned()),
            bootstrap: Some(Vec::new()),
            announce: Some(Vec::new()),
            relay_reserve: Some(Vec::new()),
            mailbox_poll_secs: Some(15),
            gossip_enable: Some(true),
            discovery_enable: Some(true),
            sync_enable: Some(true),
            sync_poll_secs: Some(30),
            sync_batch_limit: Some(50),
            prefer_relay_addrs: Some(false),
            force_relay_only: Some(false),
            auto_force_relay_only: Some(true),
            device_sync_enable: Some(false),
            device_sync_poll_secs: Some(30),
            ipv4_only: Some(true),
            webrtc_enable: Some(false),
            webrtc_poll_secs: Some(2),
            webrtc_ice_urls: Some(Vec::new()),
            webrtc_ice_username: None,
            webrtc_ice_credential: None,
            webrtc_connect_timeout_secs: Some(20),
            webrtc_idle_ttl_secs: Some(300),
        }
    }
}

/// The configuration the core is started with.
#[derive(Clone)]
pub struct CoreStartConfig {
    pub username: String,
    pub domain: String,
    pub public_base_url: String,
    pub previous_public_base_url: Option<String>,
    /// Relay token for the previous relay when performing a migration (used to register a moved-to mapping).
    pub previous_relay_token: Option<String>,
    /// Safety guard: refuse changing relay/public_base_url when legacy followers exist unless a migration is configured.
    pub allow_relay_switch_without_migration: Option<bool>,
    pub relay_ws: String,
    pub relay_token: Option<String>,
    pub bind: String,
    pub p2p: Option<P2pConfig>,
    pub media: Option<MediaConfig>,
    pub data_dir: Option<String>,
    pub max_date_skew_secs: Option<u64>,
    pub internal_token: Option<String>,
    pub global_ingest_max_items_per_actor_per_min: Option<u32>,
    pub global_ingest_max_bytes_per_actor_per_min: Option<u64>,
    pub blocked_domains: Option<Vec<String>>,
    pub blocked_actors: Option<Vec<String>>,
    pub upnp_port_start: Option<u16>,
    pub upnp_port_end: Option<u16>,
    pub upnp_lease_secs: Option<u32>,
    pub upnp_timeout_secs: Option<u64>,
    /// External legacy accounts added as aliases (when migrating from a legacy instance).
    pub legacy_aliases: Option<Vec<String>>,
    pub display_name: Option<String>,
    pub summary: Option<String>,
    pub icon_url: Option<String>,
    pub icon_media_type: Option<String>,
    pub image_url: Option<String>,
    pub image_media_type: Option<String>,
    pub profile_fields: Option<Vec<ProfileField>>,
    /// When true, inbound Follow requests require manual approval (a.k.a. "locked account").
    pub manually_approves_followers: Option<bool>,
    pub ap_relays: Option<Vec<String>>,
    pub bootstrap_follow_actors: Option<Vec<String>>,
    /// HTTP client timeout for outbound requests (seconds).
    pub http_timeout_secs: Option<u64>,
    /// Max inbound request body size (bytes).
    pub max_body_bytes: Option<usize>,
    /// Post delivery mode: "p2p_only" or "p2p_relay".
    pub post_delivery_mode: Option<String>,
    /// Seconds to wait after a failed P2P attempt before using relay (P2P+relay mode).
    pub p2p_relay_fallback_secs: Option<u64>,
    /// Mailbox cache TTL for P2P store-and-forward (seconds).
    pub p2p_cache_ttl_secs: Option<u64>,
}

/// `v` kept within `lo..=hi` (`Ord::clamp`).
pub open spec fn clamp(v: int, lo: int, hi: int) -> int {
    if v < lo { lo } else if v > hi { hi } else { v }
}

/// The public base URL: the configured one without trailing slashes, or the
/// one inferred from the relay's WebSocket URL when none is configured.
pub open spec fn spec_public_base(public_base_url: Seq<char>, relay_ws: Seq<char>) -> Result<Seq<char>, RelayWsError> {
    if trim(public_base_url).len() == 0 {
        spec_infer_http_base(relay_ws)
    } else {
        Ok(trim_end_char(public_base_url, '/'))
    }
}

/// The node's public base URL.
pub fn resolve_public_base(public_base_url: &str, relay_ws: &str) -> (r: Result<String, RelayWsError>)
    ensures
        match r {
            Ok(s) => spec_public_base(public_base_url@, relay_ws@) == Ok::<Seq<char>, RelayWsError>(s@),
            Err(e) => spec_public_base(public_base_url@, relay_ws@) == Err::<Seq<char>, RelayWsError>(e),
        },
{
    if trim_chars(&str_chars(public_base_url)).len() == 0 {
        infer_http_base_from_relay_ws(relay_ws)
    } else {
        Ok(string_from_chars(&trim_end_char_chars(&str_chars(public_base_url), '/')))
    }
}

/// The non-blank entries of a list, trimmed, in order.
pub open spec fn nonblank_trimmed(v: Seq<Seq<char>>) -> Seq<Seq<char>>
    decreases v.len(),
{
    if v.len() == 0 {
        Seq::empty()
    } else {
        let r = nonblank_trimmed(v.drop_last());
        if trim(v.last()).len() > 0 { r.push(trim(v.last())) } else { r }
    }
}

/// The non-blank entries of a list, trimmed.
pub fn trimmed_nonblank(v: &Vec<String>) -> (r: Vec<String>)
    ensures
        views(r@) == nonblank_trimmed(views(v@)),
{
    let ghost vv = views(v@);
    let mut out: Vec<String> = Vec::new();
    let mut i: usize = 0;
    assert(views(out@) =~= nonblank_trimmed(vv.take(0)));
    while i < v.len()
        invariant
            i <= v.len(),
            vv == views(v@),
            views(out@) == nonblank_trimmed(vv.take(i as int)),
        decreases v.len() - i,
    {
        assert(vv.take(i + 1).drop_last() =~= vv.take(i as int));
        assert(vv.take(i + 1).last() == v@[i as int]@);
        let t = trim_chars(&str_chars(v[i].as_str()));
        let ghost before = out@;
        if t.len() > 0 {
            out.push(string_from_chars(&t));
            assert(views(out@) =~= views(before).push(t@));
        }
        i += 1;
    }
    assert(vv.take(i as int) =~= vv);
    out
}

pub open spec fn opt_list_view(v: Option<Vec<String>>) -> Seq<Seq<char>> {
    match v {
        Some(l) => views(l@),
        None => Seq::empty(),
    }
}

/// The P2P addresses the node announces: the configured announce list, or
/// when that yields none, the relay reservations (each trimmed, blanks dropped).
pub open spec fn spec_announced_addrs(announce: Option<Vec<String>>, relay_reserve: Option<Vec<String>>) -> Seq<Seq<char>> {
    let a = nonblank_trimmed(opt_list_view(announce));
    if a.len() > 0 { a } else { nonblank_trimmed(opt_list_view(relay_reserve)) }
}

/// The addresses announced for the local peer.
pub fn announced_addrs(p2p: &P2pConfig) -> (r: Vec<String>)
    ensures
        views(r@) == spec_announced_addrs(p2p.announce, p2p.relay_reserve),
{
    let a = match &p2p.announce {
        Some(l) => trimmed_nonblank(l),
        None => {
            let e: Vec<String> = Vec::new();
            assert(views(e@) =~= nonblank_trimmed(Seq::empty()));
            e
        },
    };
    if a.len() > 0 {
        return a;
    }
    match &p2p.relay_reserve {
        Some(l) => trimmed_nonblank(l),
        None => {
            let e: Vec<String> = Vec::new();
            assert(views(e@) =~= nonblank_trimmed(Seq::empty()));
            e
        },
    }
}

/// Whether the node may start at `new_base` after running at `prev_stored`:
/// always when the base is unchanged, there are no legacy followers or the
/// switch is explicitly allowed; otherwise only when the configured previous
/// base names the stored one (a migration).
pub open spec fn spec_relay_switch_ok(prev_stored: Option<Seq<char>>, new_base: Seq<char>, legacy_followers: u64, allow: Option<bool>, previous_cfg: Option<Seq<char>>) -> bool {
    match prev_stored {
        None => true,
        Some(prev) => {
            let prev_n = trim_end_char(prev, '/');
            if prev_n == new_base || legacy_followers == 0 || allow == Some(true) {
                true
            } else {
                match previous_cfg {
                    Some(p) => trim(p).len() > 0 && trim_end_char(trim(p), '/') == prev_n,
                    None => false,
                }
            }
        },
    }
}

/// The migration guard of a relay change (see `spec_relay_switch_ok`).
pub fn relay_switch_ok(prev_stored: Option<&str>, new_base: &str, legacy_followers: u64, allow: Option<bool>, previous_cfg: Option<&str>) -> (r: bool)
    ensures
        r == spec_relay_switch_ok(crate::urls::opt_view(prev_stored), new_base@, legacy_followers, allow, crate::urls::opt_view(previous_cfg)),
{
    let prev = match prev_stored {
        Some(p) => p,
        None => return true,
    };
    let prev_n = trim_end_char_chars(&str_chars(prev), '/');
    if crate::text::chars_eq(&prev_n, &str_chars(new_base)) || legacy_followers == 0 || allow == Some(true) {
        return true;
    }
    match previous_cfg {
        Some(p) => {
            let t = trim_chars(&str_chars(p));
            t.len() > 0 && crate::text::chars_eq(&trim_end_char_chars(&t, '/'), &prev_n)
        },
        None => false,
    }
}

/// Whether a base URL points at this machine.
pub open spec fn is_loopback(base: Seq<char>) -> bool {
    contains(trim_end_char(base, '/'), "127.0.0.1"@) || contains(trim_end_char(base, '/'), "localhost"@)
}

/// A non-blank value.
pub open spec fn nonblank(o: Option<String>) -> bool {
    match o {
        Some(s) => trim(s@).len() > 0,
        None => false,
    }
}

fn is_loopback_exec(base: &str) -> (r: bool)
    ensures
        r == is_loopback(base@),
{
    let b = string_from_chars(&trim_end_char_chars(&str_chars(base), '/'));
    str_contains(b.as_str(), "127.0.0.1") || str_contains(b.as_str(), "localhost")
}

fn nonblank_exec(o: &Option<String>) -> (r: bool)
    ensures
        r == nonblank(*o),
{
    match o {
        Some(s) => trim_chars(&str_chars(s.as_str())).len() > 0,
        None => false,
    }
}

/// The media backend chosen at start: the configured one; a node that is
/// not on loopback and has a relay token stores media on the relay unless
/// another backend than `local` is configured; the relay backend falls back
/// to the public base URL and the node's relay token.
pub fn adjust_media_config(media: Option<MediaConfig>, public_base_url: &str, relay_token: &Option<String>) -> (r: MediaConfig)
    ensures
        ({
            let switch = (media is None || (media matches Some(m) && (m.backend matches Some(b) && crate::text::lower(b@) == "local"@)))
                && !is_loopback(public_base_url@) && nonblank(*relay_token);
            let backend_v = if switch { Some("relay"@) } else { match media { Some(m) => match m.backend { Some(b) => Some(b@), None => None }, None => Some("local"@) } };
            &&& match r.backend { Some(b) => backend_v == Some(b@), None => backend_v is None }
            &&& (backend_v matches Some(b) && crate::text::lower(trim(b)) == "relay"@) ==> {
                &&& (nonblank(match media { Some(m) => m.relay_base_url, None => None })
                    ==> r.relay_base_url == match media { Some(m) => m.relay_base_url, None => None })
                &&& (!nonblank(match media { Some(m) => m.relay_base_url, None => None })
                    ==> (r.relay_base_url matches Some(u) && u@ == public_base_url@))
                &&& (nonblank(match media { Some(m) => m.relay_token, None => None })
                    ==> r.relay_token == match media { Some(m) => m.relay_token, None => None })
                &&& (!nonblank(match media { Some(m) => m.relay_token, None => None })
                    ==> r.relay_token == *relay_token)
            }
        }),
{
    let was_none = media.is_none();
    let mut cfg = match media {
        Some(m) => m,
        None => MediaConfig::default(),
    };
    let local_backend = match &cfg.backend {
        Some(b) => crate::text::chars_eq(&crate::text::lower_chars(&str_chars(b.as_str())), &str_chars("local")),
        None => false,
    };
    if (was_none || local_backend) && !is_loopback_exec(public_base_url) && nonblank_exec(relay_token) {
        cfg.backend = Some("relay".to_owned());
    }
    let relay_backend = match &cfg.backend {
        Some(b) => crate::text::chars_eq(&crate::text::lower_chars(&trim_chars(&str_chars(b.as_str()))), &str_chars("relay")),
        None => false,
    };
    if relay_backend {
        if !nonblank_exec(&cfg.relay_base_url) {
            cfg.relay_base_url = Some(public_base_url.to_owned());
        }
        if !nonblank_exec(&cfg.relay_token) {
            cfg.relay_token = relay_token.clone();
        }
    }
    cfg
}

/// The HTTP client timeout: 30 s by default, kept within 5..=120 s.
pub fn http_timeout_secs(cfg: &CoreStartConfig) -> (r: u64)
    ensures
        r == clamp(match cfg.http_timeout_secs { Some(v) => v as int, None => 30 }, 5, 120),
{
    let v = match cfg.http_timeout_secs { Some(v) => v, None => 30 };
    if v < 5 { 5 } else if v > 120 { 120 } else { v }
}

/// The P2P mailbox cache lifetime: a week by default, kept within a minute and 90 days.
pub fn p2p_cache_ttl_secs(cfg: &CoreStartConfig) -> (r: u64)
    ensures
        r == clamp(match cfg.p2p_cache_ttl_secs { Some(v) => v as int, None => 604800int }, 60, 7776000int),
{
    let v = match cfg.p2p_cache_ttl_secs { Some(v) => v, None => 7 * 24 * 3600 };
    if v < 60 { 60 } else if v > 90 * 24 * 3600 { 90 * 24 * 3600 } else { v }
}

/// The largest accepted request body: 20 MiB by default, kept within 1..=100 MiB.
pub fn max_body_bytes(cfg: &CoreStartConfig) -> (r: usize)
    ensures
        r == clamp(match cfg.max_body_bytes { Some(v) => v as int, None => 20971520int }, 1048576int, 104857600int),
{
    let v = match cfg.max_body_bytes { Some(v) => v, None => 20 * 1024 * 1024 };
    if v < 1024 * 1024 { 1024 * 1024 } else if v > 100 * 1024 * 1024 { 100 * 1024 * 1024 } else { v }
}

/// What the global feed takes from one actor per minute: 20 items (at
/// least 1) and 256 KiB (at least 1 KiB) by default.
pub fn global_ingest_policy(cfg: &CoreStartConfig) -> (r: GlobalIngestPolicy)
    ensures
        r.max_items_per_actor_per_min == (match cfg.global_ingest_max_items_per_actor_per_min { Some(v) => if v < 1 { 1 } else { v }, None => 20 }),
        r.max_bytes_per_actor_per_min == (match cfg.global_ingest_max_bytes_per_actor_per_min { Some(v) => if v < 1024 { 1024 } else { v }, None => 262144u64 }),
{
    let items = match cfg.global_ingest_max_items_per_actor_per_min { Some(v) => v, None => 20 };
    let bytes = match cfg.global_ingest_max_bytes_per_actor_per_min { Some(v) => v, None => 256 * 1024 };
    GlobalIngestPolicy {
        max_items_per_actor_per_min: if items < 1 { 1 } else { items },
        max_bytes_per_actor_per_min: if bytes < 1024 { 1024 } else { bytes },
    }
}

/// The inbox limits: 120 requests and 2 MiB a minute, 20 000 requests and 200 MiB a day.
pub fn default_inbox_limits() -> (r: InboxRateLimits)
    ensures
        r.max_reqs_per_min == 120 && r.max_bytes_per_min == 2 * 1024 * 1024,
        r.max_reqs_per_day == 20_000 && r.max_bytes_per_day == 200 * 1024 * 1024,
{
    InboxRateLimits {
        max_reqs_per_min: 120,
        max_bytes_per_min: 2 * 1024 * 1024,
        max_reqs_per_day: 20_000,
        max_bytes_per_day: 200 * 1024 * 1024,
    }
}

/// The queue settings at start: the defaults, with the configured delivery
/// mode when it parses, the configured fallback delay kept within 0..=600 s,
/// and the given cache lifetime.
pub fn queue_settings_for(cfg: &CoreStartConfig, cache_ttl_secs: u64) -> (r: QueueSettings)
    ensures
        r.max_attempts == 10 && r.base_backoff_secs == 5 && r.max_backoff_secs == 3600,
        r.post_delivery_mode == (match cfg.post_delivery_mode {
            Some(m) => match spec_post_delivery_mode(m@) { Some(p) => p, None => PostDeliveryMode::P2pRelay },
            None => PostDeliveryMode::P2pRelay,
        }),
        r.p2p_relay_fallback_secs == (match cfg.p2p_relay_fallback_secs { Some(v) => if v > 600 { 600 } else { v }, None => 5 }),
        r.p2p_cache_ttl_secs == cache_ttl_secs,
{
    let mut q = QueueSettings::default();
    match &cfg.post_delivery_mode {
        Some(m) => match PostDeliveryMode::from_str(m.as_str()) {
            Some(p) => q.post_delivery_mode = p,
            None => {},
        },
        None => {},
    }
    match cfg.p2p_relay_fallback_secs {
        Some(v) => q.p2p_relay_fallback_secs = if v > 600 { 600 } else { v },
        None => {},
    }
    q.p2p_cache_ttl_secs = cache_ttl_secs;
    q
}

/// The UPnP port range: when both ends are set, the start is not zero and not after the end.
pub fn upnp_range(cfg: &CoreStartConfig) -> (r: Option<(u16, u16)>)
    ensures
        r == (match (cfg.upnp_port_start, cfg.upnp_port_end) {
            (Some(s), Some(e)) => if s > 0 && s <= e { Some((s, e)) } else { None },
            _ => None,
        }),
{
    match (cfg.upnp_port_start, cfg.upnp_port_end) {
        (Some(s), Some(e)) => if s > 0 && s <= e { Some((s, e)) } else { None },
        _ => None,
    }
}

/// Whether an alias is an http(s) URL.
pub open spec fn alias_ok(a: Seq<char>) -> bool {
    starts_with(a, "http://"@) || starts_with(a, "https://"@)
}

/// The http(s) entries of a list, trimmed, blanks dropped, in order.
pub open spec fn url_aliases(v: Seq<Seq<char>>) -> Seq<Seq<char>>
    decreases v.len(),
{
    if v.len() == 0 {
        Seq::empty()
    } else {
        let r = url_aliases(v.drop_last());
        let a = trim(v.last());
        if a.len() > 0 && alias_ok(a) { r.push(a) } else { r }
    }
}

fn push_url_aliases(out: &mut Vec<String>, v: &Vec<String>)
    ensures
        views(final(out)@) == views(old(out)@) + url_aliases(views(v@)),
{
    let ghost vv = views(v@);
    let ghost start = views(out@);
    let mut i: usize = 0;
    assert(start =~= start + url_aliases(vv.take(0)));
    while i < v.len()
        invariant
            i <= v.len(),
            vv == views(v@),
            views(out@) == start + url_aliases(vv.take(i as int)),
        decreases v.len() - i,
    {
        assert(vv.take(i + 1).drop_last() =~= vv.take(i as int));
        assert(vv.take(i + 1).last() == v@[i as int]@);
        let t = trim_chars(&str_chars(v[i].as_str()));
        let ghost before = out@;
        let a = string_from_chars(&t);
        if t.len() > 0 && (str_starts_with(a.as_str(), "http://") || str_starts_with(a.as_str(), "https://")) {
            out.push(a);
            assert(views(out@) =~= views(before).push(t@));
        }
        i += 1;
    }
    assert(vv.take(i as int) =~= vv);
}

/// The aliases of the local actor: the configured and stored legacy
/// accounts (http(s) URLs), the previous actor when it differs, and the DID.
pub open spec fn alias_candidates(legacy: Option<Vec<String>>, persisted: Seq<Seq<char>>, old_actor: Option<Seq<char>>, new_actor: Seq<char>, did: Seq<char>) -> Seq<Seq<char>> {
    url_aliases(opt_list_view(legacy)) + url_aliases(persisted)
        + (match old_actor { Some(o) => if o != new_actor { seq![o] } else { Seq::empty() }, None => Seq::empty() })
        + seq![did]
}

/// The actor's `alsoKnownAs`, sorted and without duplicates.
pub fn also_known_as(legacy: &Option<Vec<String>>, persisted: &Vec<String>, old_actor: Option<&str>, new_actor: &str, did: &str) -> (r: Vec<String>)
    ensures
        sorted_strict(views(r@)),
        views(r@).to_set() == alias_candidates(*legacy, views(persisted@), crate::urls::opt_view(old_actor), new_actor@, did@).to_set(),
{
    let mut out: Vec<String> = Vec::new();
    assert(views(out@) =~= Seq::<Seq<char>>::empty());
    match legacy {
        Some(l) => push_url_aliases(&mut out, l),
        None => {},
    }
    let ghost a = views(out@);
    assert(a =~= Seq::<Seq<char>>::empty() + url_aliases(opt_list_view(*legacy)));
    push_url_aliases(&mut out, persisted);
    let ghost b = views(out@);
    match old_actor {
        Some(o) => {
            if !str_eq(o, new_actor) {
                out.push(o.to_owned());
            }
        },
        None => {},
    }
    let ghost c = views(out@);
    out.push(did.to_owned());
    assert(views(out@) =~= alias_candidates(*legacy, views(persisted@), crate::urls::opt_view(old_actor), new_actor@, did@));
    sort_dedup(out)
}

/// The local signing key's id: the actor URL and `#main-key`.
pub open spec fn spec_local_key_id(base: Seq<char>, username: Seq<char>) -> Seq<char> {
    trim_end_char(base, '/') + "/users/"@ + username + "#main-key"@
}

/// The id of the local signing key.
pub fn local_key_id(base: &str, username: &str) -> (r: String)
    ensures
        r@ == spec_local_key_id(base@, username@),
{
    let mut v = trim_end_char_chars(&str_chars(base), '/');
    append_str(&mut v, "/users/");
    append_str(&mut v, username);
    append_str(&mut v, "#main-key");
    string_from_chars(&v)
}

} // verus!
