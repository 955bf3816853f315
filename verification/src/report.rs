//! Health and metrics reports of the node: the Prometheus text exposition
//! and the JSON bodies of the health and metrics endpoints.
use vstd::prelude::*;
use crate::metrics::NetMetrics;
use crate::queue::QueueStats;
use crate::text::{dec, push_dec, str_chars, string_from_chars, append_str};
use crate::json::{Json, JsonV, JsonNumber, jv_pairs};

verus! {

/// One metric in the Prometheus text format: its `# TYPE` line and its sample.
pub open spec fn prom_metric(name: Seq<char>, kind: Seq<char>, value: nat) -> Seq<char> {
    "# TYPE "@ + name + " "@ + kind + "\n"@ + name + " "@ + dec(value) + "\n"@
}

pub open spec fn flag(b: bool) -> nat {
    if b {
        1
    } else {
        0
    }
}

/// The transport and error metrics, in exposition order.
pub open spec fn prom_net(n: NetMetrics) -> Seq<char> {
    prom_metric("fedi3_core_relay_connected"@, "gauge"@, flag(n.relay_connected))
        + prom_metric("fedi3_core_relay_rx_bytes"@, "counter"@, n.relay_rx_bytes as nat)
        + prom_metric("fedi3_core_relay_tx_bytes"@, "counter"@, n.relay_tx_bytes as nat)
        + prom_metric("fedi3_core_relay_rtt_ms"@, "gauge"@, n.relay_rtt_ema_ms as nat)
        + prom_metric("fedi3_core_p2p_enabled"@, "gauge"@, flag(n.p2p_enabled))
        + prom_metric("fedi3_core_p2p_connected_peers"@, "gauge"@, n.p2p_connected_peers as nat)
        + prom_metric("fedi3_core_p2p_active_peers"@, "gauge"@, n.p2p_active_peers as nat)
        + prom_metric("fedi3_core_p2p_rx_bytes"@, "counter"@, n.p2p_rx_bytes as nat)
        + prom_metric("fedi3_core_p2p_tx_bytes"@, "counter"@, n.p2p_tx_bytes as nat)
        + prom_metric("fedi3_core_p2p_rtt_ms"@, "gauge"@, n.p2p_rtt_ema_ms as nat)
        + prom_metric("fedi3_core_webrtc_active_peers"@, "gauge"@, n.webrtc_active_peers as nat)
        + prom_metric("fedi3_core_webrtc_rx_bytes"@, "counter"@, n.webrtc_rx_bytes as nat)
        + prom_metric("fedi3_core_webrtc_tx_bytes"@, "counter"@, n.webrtc_tx_bytes as nat)
        + prom_metric("fedi3_core_http_timeouts"@, "counter"@, n.http_timeouts as nat)
        + prom_metric("fedi3_core_http_errors"@, "counter"@, n.http_errors as nat)
        + prom_metric("fedi3_core_auth_failures"@, "counter"@, n.auth_failures as nat)
        + prom_metric("fedi3_core_rate_limit_hits"@, "counter"@, n.rate_limit_hits as nat)
}

/// The queue metrics, when the queue's counts could be read.
pub open spec fn prom_queue(q: Option<QueueStats>) -> Seq<char> {
    match q {
        Some(s) => prom_metric("fedi3_core_queue_pending"@, "gauge"@, s.pending as nat)
            + prom_metric("fedi3_core_queue_delivered"@, "counter"@, s.delivered as nat)
            + prom_metric("fedi3_core_queue_dead"@, "counter"@, s.dead as nat),
        None => Seq::empty(),
    }
}

/// The whole exposition.
pub open spec fn prom_text(n: NetMetrics, q: Option<QueueStats>, db_ok: bool) -> Seq<char> {
    prom_net(n) + prom_queue(q) + prom_metric("fedi3_core_db_ok"@, "gauge"@, flag(db_ok))
}

fn push_metric(out: &mut Vec<char>, name: &str, kind: &str, value: u64)
    ensures
        final(out)@ == old(out)@ + prom_metric(name@, kind@, value as nat),
{
    append_str(out, "# TYPE ");
    append_str(out, name);
    append_str(out, " ");
    append_str(out, kind);
    append_str(out, "\n");
    append_str(out, name);
    append_str(out, " ");
    push_dec(out, value);
    append_str(out, "\n");
    assert(final(out)@ =~= old(out)@ + prom_metric(name@, kind@, value as nat));
}

#[verifier::rlimit(50)]
/// Renders the node's metrics in the Prometheus text format: relay, P2P and
/// WebRTC traffic, HTTP and abuse counters, the queue's counts when known,
/// and whether the database answers.
pub fn render_prometheus(net: &NetMetrics, queue: Option<QueueStats>, db_ok: bool) -> (r: String)
    ensures
        r@ == prom_text(*net, queue, db_ok),
{
    let mut out: Vec<char> = Vec::new();
    push_metric(&mut out, "fedi3_core_relay_connected", "gauge", if net.relay_connected { 1 } else { 0 });
    push_metric(&mut out, "fedi3_core_relay_rx_bytes", "counter", net.relay_rx_bytes);
    push_metric(&mut out, "fedi3_core_relay_tx_bytes", "counter", net.relay_tx_bytes);
    push_metric(&mut out, "fedi3_core_relay_rtt_ms", "gauge", net.relay_rtt_ema_ms);
    push_metric(&mut out, "fedi3_core_p2p_enabled", "gauge", if net.p2p_enabled { 1 } else { 0 });
    push_metric(&mut out, "fedi3_core_p2p_connected_peers", "gauge", net.p2p_connected_peers);
    push_metric(&mut out, "fedi3_core_p2p_active_peers", "gauge", net.p2p_active_peers);
    push_metric(&mut out, "fedi3_core_p2p_rx_bytes", "counter", net.p2p_rx_bytes);
    push_metric(&mut out, "fedi3_core_p2p_tx_bytes", "counter", net.p2p_tx_bytes);
    push_metric(&mut out, "fedi3_core_p2p_rtt_ms", "gauge", net.p2p_rtt_ema_ms);
    push_metric(&mut out, "fedi3_core_webrtc_active_peers", "gauge", net.webrtc_active_peers);
    push_metric(&mut out, "fedi3_core_webrtc_rx_bytes", "counter", net.webrtc_rx_bytes);
    push_metric(&mut out, "fedi3_core_webrtc_tx_bytes", "counter", net.webrtc_tx_bytes);
    push_metric(&mut out, "fedi3_core_http_timeouts", "counter", net.http_timeouts);
    push_metric(&mut out, "fedi3_core_http_errors", "counter", net.http_errors);
    push_metric(&mut out, "fedi3_core_auth_failures", "counter", net.auth_failures);
    push_metric(&mut out, "fedi3_core_rate_limit_hits", "counter", net.rate_limit_hits);
    let ghost after_net = out@;
    assert(after_net =~= prom_net(*net));
    match queue {
        Some(s) => {
            push_metric(&mut out, "fedi3_core_queue_pending", "gauge", s.pending);
            push_metric(&mut out, "fedi3_core_queue_delivered", "counter", s.delivered);
            push_metric(&mut out, "fedi3_core_queue_dead", "counter", s.dead);
        },
        None => {},
    }
    assert(out@ =~= prom_net(*net) + prom_queue(queue));
    push_metric(&mut out, "fedi3_core_db_ok", "gauge", if db_ok { 1 } else { 0 });
    assert(out@ =~= prom_text(*net, queue, db_ok));
    string_from_chars(&out)
}

/// Whether a request carries the internal token: always when no token is
/// configured, otherwise when the `X-Fedi3-Internal` header equals it.
pub open spec fn spec_is_internal(token: Seq<char>, header: Option<Seq<char>>) -> bool {
    token.len() == 0 || header == Some(token)
}

/// Whether a request may use the internal endpoints; `header` is the value
/// of its `X-Fedi3-Internal` header, when present and readable as text.
pub fn is_internal(internal_token: &str, header: Option<&str>) -> (r: bool)
    ensures
        r == spec_is_internal(internal_token@, match header { Some(h) => Some(h@), None => None }),
{
    let t = str_chars(internal_token);
    if t.len() == 0 {
        return true;
    }
    match header {
        Some(h) => crate::text::str_eq(h, internal_token),
        None => false,
    }
}

/// Appends member `k: v` to an object under construction.
pub fn push_member(ps: &mut Vec<(String, Json)>, k: &str, v: Json)
    ensures
        jv_pairs(final(ps)@) == jv_pairs(old(ps)@).push((k@, v@)),
{
    let ghost before = ps@;
    ps.push((k.to_owned(), v));
    assert(ps@.drop_last() =~= before);
}

/// A JSON unsigned integer.
pub open spec fn juint(n: u64) -> JsonV {
    JsonV::PosInt(n)
}

/// The queue's counts as a JSON object.
pub open spec fn queue_json_spec(s: QueueStats) -> JsonV {
    JsonV::Object(seq![("pending"@, juint(s.pending)), ("delivered"@, juint(s.delivered)), ("dead"@, juint(s.dead))])
}

/// The queue's counts as a JSON object.
pub fn queue_json(s: &QueueStats) -> (r: Json)
    ensures
        r@ == queue_json_spec(*s),
{
    let mut ps: Vec<(String, Json)> = Vec::new();
    push_member(&mut ps, "pending", Json::Number(JsonNumber::PosInt(s.pending)));
    push_member(&mut ps, "delivered", Json::Number(JsonNumber::PosInt(s.delivered)));
    push_member(&mut ps, "dead", Json::Number(JsonNumber::PosInt(s.dead)));
    assert(jv_pairs(ps@) =~= seq![("pending"@, juint(s.pending)), ("delivered"@, juint(s.delivered)), ("dead"@, juint(s.dead))]);
    Json::Object(ps)
}

/// The body of the health endpoint.
pub open spec fn health_json_spec(n: NetMetrics, q: Option<QueueStats>, db_ok: bool) -> JsonV {
    JsonV::Object(seq![
        ("ok"@, JsonV::Bool(db_ok)),
        ("db"@, JsonV::Object(seq![("ok"@, JsonV::Bool(db_ok))])),
        ("queue"@, match q { Some(s) => queue_json_spec(s), None => JsonV::Null }),
        ("relay"@, JsonV::Object(seq![("connected"@, JsonV::Bool(n.relay_connected)), ("rtt_ms"@, juint(n.relay_rtt_ema_ms))])),
        ("p2p"@, JsonV::Object(seq![("enabled"@, JsonV::Bool(n.p2p_enabled)), ("connected_peers"@, juint(n.p2p_connected_peers))])),
        ("webrtc"@, JsonV::Object(seq![("sessions"@, juint(n.webrtc_sessions))])),
    ])
}

/// The health report: database state, queue counts when known, and the
/// state of the relay, P2P and WebRTC transports.
pub fn health_json(net: &NetMetrics, queue: Option<QueueStats>, db_ok: bool) -> (r: Json)
    ensures
        r@ == health_json_spec(*net, queue, db_ok),
{
    let mut db: Vec<(String, Json)> = Vec::new();
    push_member(&mut db, "ok", Json::Bool(db_ok));
    assert(jv_pairs(db@) =~= seq![("ok"@, JsonV::Bool(db_ok))]);
    let q = match &queue {
        Some(s) => queue_json(s),
        None => Json::Null,
    };
    let mut relay: Vec<(String, Json)> = Vec::new();
    push_member(&mut relay, "connected", Json::Bool(net.relay_connected));
    push_member(&mut relay, "rtt_ms", Json::Number(JsonNumber::PosInt(net.relay_rtt_ema_ms)));
    assert(jv_pairs(relay@) =~= seq![("connected"@, JsonV::Bool(net.relay_connected)), ("rtt_ms"@, juint(net.relay_rtt_ema_ms))]);
    let mut p2p: Vec<(String, Json)> = Vec::new();
    push_member(&mut p2p, "enabled", Json::Bool(net.p2p_enabled));
    push_member(&mut p2p, "connected_peers", Json::Number(JsonNumber::PosInt(net.p2p_connected_peers)));
    assert(jv_pairs(p2p@) =~= seq![("enabled"@, JsonV::Bool(net.p2p_enabled)), ("connected_peers"@, juint(net.p2p_connected_peers))]);
    let mut webrtc: Vec<(String, Json)> = Vec::new();
    push_member(&mut webrtc, "sessions", Json::Number(JsonNumber::PosInt(net.webrtc_sessions)));
    assert(jv_pairs(webrtc@) =~= seq![("sessions"@, juint(net.webrtc_sessions))]);
    let dbj = Json::Object(db);
    let relayj = Json::Object(relay);
    let p2pj = Json::Object(p2p);
    let webrtcj = Json::Object(webrtc);
    let ghost sp = health_json_spec(*net, queue, db_ok);
    let ghost items = match sp {
        JsonV::Object(ps) => ps,
        _ => Seq::empty(),
    };
    assert(dbj@ == items[1].1);
    assert(q@ == items[2].1);
    assert(relayj@ == items[3].1);
    assert(p2pj@ == items[4].1);
    assert(webrtcj@ == items[5].1);
    let mut body: Vec<(String, Json)> = Vec::new();
    push_member(&mut body, "ok", Json::Bool(db_ok));
    push_member(&mut body, "db", dbj);
    push_member(&mut body, "queue", q);
    push_member(&mut body, "relay", relayj);
    push_member(&mut body, "p2p", p2pj);
    push_member(&mut body, "webrtc", webrtcj);
    assert(jv_pairs(body@) =~= items);
    Json::Object(body)
}

} // verus!
