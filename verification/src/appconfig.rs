//! The desktop app's configuration file: reading typed values from it and
//! turning its camel-case layout into the core's configuration layout.
use vstd::prelude::*;
use crate::json::{Json, JsonV, JsonNumber, jv, jv_seq, jv_pairs, jget, find_key, lemma_jv_seq, pairs_get};
use crate::text::{trim, str_chars, trim_chars, string_from_chars};
use crate::content::{spec_text_to_html, text_to_html};
use crate::report::push_member;

verus! {

/// A non-blank string value, trimmed.
pub open spec fn nonblank_str(v: Option<JsonV>) -> Option<Seq<char>> {
    match v {
        Some(JsonV::Str(s)) => if trim(s).len() > 0 {
            Some(trim(s))
        } else {
            None
        },
        _ => None,
    }
}

/// A boolean value.
pub open spec fn bool_val(v: Option<JsonV>) -> Option<bool> {
    match v {
        Some(JsonV::Bool(b)) => Some(b),
        _ => None,
    }
}

/// A number that fits in `u64` (`Value::as_u64`).
pub open spec fn u64_val(v: Option<JsonV>) -> Option<u64> {
    match v {
        Some(JsonV::PosInt(n)) => Some(n),
        _ => None,
    }
}

/// A number that fits in `i64` (`Value::as_i64`).
pub open spec fn i64_val(v: Option<JsonV>) -> Option<i64> {
    match v {
        Some(JsonV::PosInt(n)) => if n <= i64::MAX {
            Some(n as i64)
        } else {
            None
        },
        Some(JsonV::NegInt(n)) => Some(n),
        _ => None,
    }
}

/// The non-blank strings of an array, trimmed, in order.
pub open spec fn str_items(items: Seq<JsonV>) -> Seq<Seq<char>>
    decreases items.len(),
{
    if items.len() == 0 {
        Seq::empty()
    } else {
        let r = str_items(items.drop_last());
        match items.last() {
            JsonV::Str(s) => if trim(s).len() > 0 {
                r.push(trim(s))
            } else {
                r
            },
            _ => r,
        }
    }
}

/// An array with at least one non-blank string, as its non-blank strings.
pub open spec fn list_val(v: Option<JsonV>) -> Option<Seq<Seq<char>>> {
    match v {
        Some(JsonV::Array(items)) => if str_items(items).len() > 0 {
            Some(str_items(items))
        } else {
            None
        },
        _ => None,
    }
}

pub open spec fn f_str() -> spec_fn(Option<JsonV>) -> Option<Seq<char>> {
    |v: Option<JsonV>| nonblank_str(v)
}

pub open spec fn f_bool() -> spec_fn(Option<JsonV>) -> Option<bool> {
    |v: Option<JsonV>| bool_val(v)
}

pub open spec fn f_u64() -> spec_fn(Option<JsonV>) -> Option<u64> {
    |v: Option<JsonV>| u64_val(v)
}

pub open spec fn f_i64() -> spec_fn(Option<JsonV>) -> Option<i64> {
    |v: Option<JsonV>| i64_val(v)
}

pub open spec fn f_list() -> spec_fn(Option<JsonV>) -> Option<Seq<Seq<char>>> {
    |v: Option<JsonV>| list_val(v)
}

/// The first of `keys` whose member `f` accepts, and what `f` makes of it.
pub open spec fn first_key<T>(ps: Seq<(Seq<char>, JsonV)>, keys: Seq<Seq<char>>, f: spec_fn(Option<JsonV>) -> Option<T>) -> Option<T>
    decreases keys.len(),
{
    if keys.len() == 0 {
        None
    } else {
        match f(jget(JsonV::Object(ps), keys[0])) {
            Some(x) => Some(x),
            None => first_key(ps, keys.drop_first(), f),
        }
    }
}

pub open spec fn key_views(keys: Seq<&str>) -> Seq<Seq<char>> {
    keys.map_values(|k: &str| k@)
}

proof fn lemma_first_key_step<T>(ps: Seq<(Seq<char>, JsonV)>, keys: Seq<Seq<char>>, f: spec_fn(Option<JsonV>) -> Option<T>, i: int)
    requires
        0 <= i < keys.len(),
    ensures
        first_key(ps, keys.skip(i), f) == match f(jget(JsonV::Object(ps), keys[i])) {
            Some(x) => Some(x),
            None => first_key(ps, keys.skip(i + 1), f),
        },
{
    assert(keys.skip(i)[0] == keys[i]);
    assert(keys.skip(i).drop_first() =~= keys.skip(i + 1));
}

fn str_member(map: &Vec<(String, Json)>, k: &str) -> (r: Option<String>)
    ensures
        match r {
            Some(s) => nonblank_str(jget(JsonV::Object(jv_pairs(map@)), k@)) == Some(s@),
            None => nonblank_str(jget(JsonV::Object(jv_pairs(map@)), k@)) is None,
        },
{
    match pairs_get(map, k) {
        Some(v) => match v.as_str() {
            Some(s) => {
                let t = trim_chars(&str_chars(s));
                if t.len() > 0 {
                    Some(string_from_chars(&t))
                } else {
                    None
                }
            },
            None => None,
        },
        None => None,
    }
}

/// The first of `keys` holding a non-blank string, trimmed.
pub fn get_str(map: &Vec<(String, Json)>, keys: &[&str]) -> (r: Option<String>)
    ensures
        match r {
            Some(s) => first_key(jv_pairs(map@), key_views(keys@), f_str()) == Some(s@),
            None => first_key(jv_pairs(map@), key_views(keys@), f_str()) is None,
        },
{
    let ghost ks = key_views(keys@);
    let ghost f = f_str();
    let mut i: usize = 0;
    assert(ks.skip(0) =~= ks);
    while i < keys.len()
        invariant
            i <= keys.len(),
            ks == key_views(keys@),
            f == (f_str()),
            first_key(jv_pairs(map@), ks, f) == first_key(jv_pairs(map@), ks.skip(i as int), f),
        decreases keys.len() - i,
    {
        proof {
            lemma_first_key_step(jv_pairs(map@), ks, f, i as int);
        }
        let r = str_member(map, keys[i]);
        if r.is_some() {
            return r;
        }
        i += 1;
    }
    None
}

/// The first of `keys` holding a boolean.
pub fn get_bool(map: &Vec<(String, Json)>, keys: &[&str]) -> (r: Option<bool>)
    ensures
        r == first_key(jv_pairs(map@), key_views(keys@), f_bool()),
{
    let ghost ks = key_views(keys@);
    let ghost f = f_bool();
    let mut i: usize = 0;
    assert(ks.skip(0) =~= ks);
    while i < keys.len()
        invariant
            i <= keys.len(),
            ks == key_views(keys@),
            f == (f_bool()),
            first_key(jv_pairs(map@), ks, f) == first_key(jv_pairs(map@), ks.skip(i as int), f),
        decreases keys.len() - i,
    {
        proof {
            lemma_first_key_step(jv_pairs(map@), ks, f, i as int);
        }
        match pairs_get(map, keys[i]) {
            Some(Json::Bool(b)) => return Some(*b),
            _ => {},
        }
        i += 1;
    }
    None
}

/// The first of `keys` holding a number that fits in `u64`.
pub fn get_u64(map: &Vec<(String, Json)>, keys: &[&str]) -> (r: Option<u64>)
    ensures
        r == first_key(jv_pairs(map@), key_views(keys@), f_u64()),
{
    let ghost ks = key_views(keys@);
    let ghost f = f_u64();
    let mut i: usize = 0;
    assert(ks.skip(0) =~= ks);
    while i < keys.len()
        invariant
            i <= keys.len(),
            ks == key_views(keys@),
            f == (f_u64()),
            first_key(jv_pairs(map@), ks, f) == first_key(jv_pairs(map@), ks.skip(i as int), f),
        decreases keys.len() - i,
    {
        proof {
            lemma_first_key_step(jv_pairs(map@), ks, f, i as int);
        }
        match pairs_get(map, keys[i]) {
            Some(Json::Number(JsonNumber::PosInt(n))) => return Some(*n),
            _ => {},
        }
        i += 1;
    }
    None
}

/// The first of `keys` holding a number that fits in `i64`.
pub fn get_i64(map: &Vec<(String, Json)>, keys: &[&str]) -> (r: Option<i64>)
    ensures
        r == first_key(jv_pairs(map@), key_views(keys@), f_i64()),
{
    let ghost ks = key_views(keys@);
    let ghost f = f_i64();
    let mut i: usize = 0;
    assert(ks.skip(0) =~= ks);
    while i < keys.len()
        invariant
            i <= keys.len(),
            ks == key_views(keys@),
            f == (f_i64()),
            first_key(jv_pairs(map@), ks, f) == first_key(jv_pairs(map@), ks.skip(i as int), f),
        decreases keys.len() - i,
    {
        proof {
            lemma_first_key_step(jv_pairs(map@), ks, f, i as int);
        }
        match pairs_get(map, keys[i]) {
            Some(Json::Number(JsonNumber::PosInt(n))) => {
                if *n <= i64::MAX as u64 {
                    return Some(*n as i64);
                }
            },
            Some(Json::Number(JsonNumber::NegInt(n))) => return Some(*n),
            _ => {},
        }
        i += 1;
    }
    None
}

fn str_items_exec(items: &Vec<Json>) -> (r: Vec<String>)
    ensures
        r@.map_values(|s: String| s@) == str_items(jv_seq(items@)),
{
    let mut out: Vec<String> = Vec::new();
    let mut i: usize = 0;
    proof {
        lemma_jv_seq(items@);
    }
    while i < items.len()
        invariant
            i <= items.len(),
            jv_seq(items@).len() == items@.len(),
            forall|j: int| 0 <= j < items@.len() ==> #[trigger] jv_seq(items@)[j] == jv(items@[j]),
            out@.map_values(|s: String| s@) == str_items(jv_seq(items@).take(i as int)),
        decreases items.len() - i,
    {
        let ghost sv = jv_seq(items@);
        assert(sv.take(i + 1).drop_last() =~= sv.take(i as int));
        assert(sv.take(i + 1).last() == jv(items@[i as int]));
        let ghost ov = out@.map_values(|s: String| s@);
        match items[i].as_str() {
            Some(s) => {
                let t = trim_chars(&str_chars(s));
                if t.len() > 0 {
                    out.push(string_from_chars(&t));
                    assert(out@.map_values(|s: String| s@) =~= ov.push(t@));
                }
            },
            None => {},
        }
        i += 1;
    }
    assert(jv_seq(items@).take(i as int) =~= jv_seq(items@));
    out
}

/// The first of `keys` holding an array with non-blank strings, as those strings trimmed.
pub fn get_list(map: &Vec<(String, Json)>, keys: &[&str]) -> (r: Option<Vec<String>>)
    ensures
        match r {
            Some(l) => first_key(jv_pairs(map@), key_views(keys@), f_list()) == Some(l@.map_values(|s: String| s@)),
            None => first_key(jv_pairs(map@), key_views(keys@), f_list()) is None,
        },
{
    let ghost ks = key_views(keys@);
    let ghost f = f_list();
    let mut i: usize = 0;
    assert(ks.skip(0) =~= ks);
    while i < keys.len()
        invariant
            i <= keys.len(),
            ks == key_views(keys@),
            f == (f_list()),
            first_key(jv_pairs(map@), ks, f) == first_key(jv_pairs(map@), ks.skip(i as int), f),
        decreases keys.len() - i,
    {
        proof {
            lemma_first_key_step(jv_pairs(map@), ks, f, i as int);
        }
        match pairs_get(map, keys[i]) {
            Some(Json::Array(items)) => {
                let l = str_items_exec(items);
                if l.len() > 0 {
                    return Some(l);
                }
            },
            _ => {},
        }
        i += 1;
    }
    None
}

/// Why the app's configuration cannot be read.
#[derive(PartialEq, Eq, Structural, Clone, Copy, Debug)]
pub enum ConfigError {
    /// The configuration is not a JSON object.
    NotObject,
    MissingUsername,
    MissingDomain,
    MissingRelayWs,
    MissingBind,
}

impl ConfigError {
    /// The error's message.
    pub fn message(&self) -> (r: &'static str)
        ensures
            r@ == match self {
                ConfigError::NotObject => "config must be a JSON object"@,
                ConfigError::MissingUsername => "missing username"@,
                ConfigError::MissingDomain => "missing domain"@,
                ConfigError::MissingRelayWs => "missing relayWs"@,
                ConfigError::MissingBind => "missing bind"@,
            },
    {
        match self {
            ConfigError::NotObject => "config must be a JSON object",
            ConfigError::MissingUsername => "missing username",
            ConfigError::MissingDomain => "missing domain",
            ConfigError::MissingRelayWs => "missing relayWs",
            ConfigError::MissingBind => "missing bind",
        }
    }
}

/// The member `k` holding a string, when there is one.
pub open spec fn opt_member(k: Seq<char>, v: Option<JsonV>) -> Seq<(Seq<char>, JsonV)> {
    match v {
        Some(x) => seq![(k, x)],
        None => Seq::empty(),
    }
}

pub open spec fn str_of(v: Option<Seq<char>>) -> Option<JsonV> {
    match v {
        Some(s) => Some(JsonV::Str(s)),
        None => None,
    }
}

/// A JSON array of strings.
pub open spec fn str_array(l: Seq<Seq<char>>) -> JsonV {
    JsonV::Array(l.map_values(|s: Seq<char>| JsonV::Str(s)))
}

/// An `i64` as a JSON number.
pub open spec fn jint(v: i64) -> JsonV {
    if v < 0 {
        JsonV::NegInt(v)
    } else {
        JsonV::PosInt(v as u64)
    }
}

pub open spec fn cfg_s(ps: Seq<(Seq<char>, JsonV)>, k: Seq<char>) -> Option<Seq<char>> {
    first_key(ps, seq![k], f_str())
}

/// The profile fields of the app's layout, as the core's: each object with
/// a non-blank `name` and a `value` whose HTML is not empty.
pub open spec fn profile_items(items: Seq<JsonV>) -> Seq<JsonV>
    decreases items.len(),
{
    if items.len() == 0 {
        Seq::empty()
    } else {
        let r = profile_items(items.drop_last());
        let f = items.last();
        match f {
            JsonV::Object(_) => {
                let name = trim(match jget(f, "name"@) {
                    Some(JsonV::Str(s)) => s,
                    _ => Seq::empty(),
                });
                let val = match jget(f, "value"@) {
                    Some(JsonV::Str(s)) => s,
                    _ => Seq::empty(),
                };
                let html = spec_text_to_html(val);
                if name.len() == 0 || html.len() == 0 {
                    r
                } else {
                    r.push(JsonV::Object(seq![("name"@, JsonV::Str(name)), ("value"@, JsonV::Str(html))]))
                }
            },
            _ => r,
        }
    }
}

/// The `profile_fields` member, when the app lists fields that survive.
pub open spec fn profile_member(ps: Seq<(Seq<char>, JsonV)>) -> Seq<(Seq<char>, JsonV)> {
    match jget(JsonV::Object(ps), "profileFields"@) {
        Some(JsonV::Array(items)) => if profile_items(items).len() > 0 {
            seq![("profile_fields"@, JsonV::Array(profile_items(items)))]
        } else {
            Seq::empty()
        },
        _ => Seq::empty(),
    }
}

/// The `summary` member: the app's summary as HTML, when not empty.
pub open spec fn summary_member(ps: Seq<(Seq<char>, JsonV)>) -> Seq<(Seq<char>, JsonV)> {
    match cfg_s(ps, "summary"@) {
        Some(v) => if spec_text_to_html(v).len() > 0 {
            seq![("summary"@, JsonV::Str(spec_text_to_html(v)))]
        } else {
            Seq::empty()
        },
        None => Seq::empty(),
    }
}

pub open spec fn list_json(ps: Seq<(Seq<char>, JsonV)>, k: Seq<char>) -> Option<JsonV> {
    match first_key(ps, seq![k], f_list()) {
        Some(x) => Some(str_array(x)),
        None => None,
    }
}

pub open spec fn int_json(ps: Seq<(Seq<char>, JsonV)>, k: Seq<char>) -> Option<JsonV> {
    match first_key(ps, seq![k], f_i64()) {
        Some(x) => Some(jint(x)),
        None => None,
    }
}

pub open spec fn uint_json(ps: Seq<(Seq<char>, JsonV)>, k: Seq<char>) -> Option<JsonV> {
    match first_key(ps, seq![k], f_u64()) {
        Some(x) => Some(JsonV::PosInt(x)),
        None => None,
    }
}

pub open spec fn approve_member(ps: Seq<(Seq<char>, JsonV)>) -> Seq<(Seq<char>, JsonV)> {
    if first_key(ps, seq!["manuallyApprovesFollowers"@], f_bool()) == Some(true) {
        seq![("manually_approves_followers"@, JsonV::Bool(true))]
    } else {
        Seq::empty()
    }
}

/// `base` followed by the optional members of the core layout, in order.
pub open spec fn with_optional_members(base: Seq<(Seq<char>, JsonV)>, ps: Seq<(Seq<char>, JsonV)>) -> Seq<(Seq<char>, JsonV)> {
    base + opt_member("relay_token"@, str_of(cfg_s(ps, "relayToken"@)))
        + opt_member("internal_token"@, str_of(cfg_s(ps, "internalToken"@)))
        + opt_member("display_name"@, str_of(cfg_s(ps, "displayName"@)))
        + summary_member(ps)
        + opt_member("icon_url"@, str_of(cfg_s(ps, "iconUrl"@)))
        + opt_member("icon_media_type"@, str_of(cfg_s(ps, "iconMediaType"@)))
        + opt_member("image_url"@, str_of(cfg_s(ps, "imageUrl"@)))
        + opt_member("image_media_type"@, str_of(cfg_s(ps, "imageMediaType"@)))
        + profile_member(ps)
        + approve_member(ps)
        + opt_member("blocked_domains"@, list_json(ps, "blockedDomains"@))
        + opt_member("blocked_actors"@, list_json(ps, "blockedActors"@))
        + opt_member("ap_relays"@, list_json(ps, "apRelays"@))
        + opt_member("bootstrap_follow_actors"@, list_json(ps, "bootstrapFollowActors"@))
        + opt_member("previous_public_base_url"@, str_of(cfg_s(ps, "previousPublicBaseUrl"@)))
        + opt_member("previous_relay_token"@, str_of(cfg_s(ps, "previousRelayToken"@)))
        + opt_member("upnp_port_start"@, int_json(ps, "upnpPortRangeStart"@))
        + opt_member("upnp_port_end"@, int_json(ps, "upnpPortRangeEnd"@))
        + opt_member("upnp_lease_secs"@, int_json(ps, "upnpLeaseSecs"@))
        + opt_member("upnp_timeout_secs"@, int_json(ps, "upnpTimeoutSecs"@))
        + opt_member("post_delivery_mode"@, str_of(cfg_s(ps, "postDeliveryMode"@)))
        + opt_member("p2p_relay_fallback_secs"@, uint_json(ps, "p2pRelayFallbackSecs"@))
        + opt_member("p2p_cache_ttl_secs"@, uint_json(ps, "p2pCacheTtlSecs"@))
}

/// The app's configuration in the core's layout. A configuration that
/// already uses the core's layout (it has `relay_ws`, `public_base_url` or
/// `relay_token`) is kept as it is.
pub open spec fn spec_normalize_app_config(raw: JsonV) -> Result<JsonV, ConfigError> {
    match raw {
        JsonV::Object(ps) => if find_key(ps, "relay_ws"@) >= 0 || find_key(ps, "public_base_url"@) >= 0
            || find_key(ps, "relay_token"@) >= 0 {
            Ok(raw)
        } else {
            match (cfg_s(ps, "username"@), cfg_s(ps, "domain"@), cfg_s(ps, "relayWs"@), cfg_s(ps, "bind"@)) {
                (None, _, _, _) => Err(ConfigError::MissingUsername),
                (Some(_), None, _, _) => Err(ConfigError::MissingDomain),
                (Some(_), Some(_), None, _) => Err(ConfigError::MissingRelayWs),
                (Some(_), Some(_), Some(_), None) => Err(ConfigError::MissingBind),
                (Some(user), Some(domain), Some(ws), Some(bind)) => Ok(JsonV::Object(
                    with_optional_members(seq![
                        ("username"@, JsonV::Str(user)),
                        ("domain"@, JsonV::Str(domain)),
                        ("public_base_url"@, JsonV::Str(match cfg_s(ps, "publicBaseUrl"@) { Some(b) => b, None => Seq::empty() })),
                        ("relay_ws"@, JsonV::Str(ws)),
                        ("bind"@, JsonV::Str(bind)),
                    ], ps),
                )),
            }
        },
        _ => Err(ConfigError::NotObject),
    }
}

fn one_key(k: &str) -> (r: Vec<&str>)
    ensures
        key_views(r@) == seq![k@],
{
    let v = vec![k];
    assert(key_views(v@) =~= seq![k@]);
    v
}

fn push_opt_str(out: &mut Vec<(String, Json)>, key: &str, map: &Vec<(String, Json)>, src: &str)
    ensures
        jv_pairs(final(out)@) == jv_pairs(old(out)@) + opt_member(key@, str_of(cfg_s(jv_pairs(map@), src@))),
{
    let ks = one_key(src);
    match get_str(map, ks.as_slice()) {
        Some(v) => {
            push_member(out, key, Json::Str(v));
            assert(jv_pairs(final(out)@) =~= jv_pairs(old(out)@) + opt_member(key@, str_of(cfg_s(jv_pairs(map@), src@))));
        },
        None => {
            assert(jv_pairs(final(out)@) =~= jv_pairs(old(out)@) + opt_member(key@, str_of(cfg_s(jv_pairs(map@), src@))));
        },
    }
}

fn str_array_exec(l: Vec<String>) -> (r: Json)
    ensures
        r@ == str_array(l@.map_values(|s: String| s@)),
{
    let mut out: Vec<Json> = Vec::new();
    let mut i: usize = 0;
    while i < l.len()
        invariant
            i <= l.len(),
            jv_seq(out@) == l@.map_values(|s: String| s@).take(i as int).map_values(|s: Seq<char>| JsonV::Str(s)),
        decreases l.len() - i,
    {
        let ghost before = out@;
        let item = Json::Str(l[i].clone());
        let ghost gi = item;
        assert(gi@ == JsonV::Str(l@[i as int]@));
        out.push(item);
        assert(out@ =~= before.push(gi));
        assert(out@.drop_last() =~= before);
        assert(jv_seq(out@) == jv_seq(before).push(gi@));
        assert(l@.map_values(|s: String| s@).take(i + 1).map_values(|s: Seq<char>| JsonV::Str(s)) =~= l@.map_values(|s: String| s@).take(i as int).map_values(|s: Seq<char>| JsonV::Str(s)).push(JsonV::Str(l@[i as int]@)));
        i += 1;
    }
    assert(l@.map_values(|s: String| s@).take(i as int) =~= l@.map_values(|s: String| s@));
    Json::Array(out)
}

fn push_opt_list(out: &mut Vec<(String, Json)>, key: &str, map: &Vec<(String, Json)>, src: &str)
    ensures
        jv_pairs(final(out)@) == jv_pairs(old(out)@) + opt_member(key@, list_json(jv_pairs(map@), src@)),
{
    let ks = one_key(src);
    match get_list(map, ks.as_slice()) {
        Some(l) => {
            let a = str_array_exec(l);
            push_member(out, key, a);
        },
        None => {},
    }
    assert(jv_pairs(final(out)@) =~= jv_pairs(old(out)@) + opt_member(key@, list_json(jv_pairs(map@), src@)));
}

fn push_opt_i64(out: &mut Vec<(String, Json)>, key: &str, map: &Vec<(String, Json)>, src: &str)
    ensures
        jv_pairs(final(out)@) == jv_pairs(old(out)@) + opt_member(key@, int_json(jv_pairs(map@), src@)),
{
    let ks = one_key(src);
    match get_i64(map, ks.as_slice()) {
        Some(v) => {
            let j = if v < 0 { Json::Number(JsonNumber::NegInt(v)) } else { Json::Number(JsonNumber::PosInt(v as u64)) };
            push_member(out, key, j);
        },
        None => {},
    }
    assert(jv_pairs(final(out)@) =~= jv_pairs(old(out)@) + opt_member(key@, int_json(jv_pairs(map@), src@)));
}

fn push_opt_u64(out: &mut Vec<(String, Json)>, key: &str, map: &Vec<(String, Json)>, src: &str)
    ensures
        jv_pairs(final(out)@) == jv_pairs(old(out)@) + opt_member(key@, uint_json(jv_pairs(map@), src@)),
{
    let ks = one_key(src);
    match get_u64(map, ks.as_slice()) {
        Some(v) => push_member(out, key, Json::Number(JsonNumber::PosInt(v))),
        None => {},
    }
    assert(jv_pairs(final(out)@) =~= jv_pairs(old(out)@) + opt_member(key@, uint_json(jv_pairs(map@), src@)));
}

fn push_summary(out: &mut Vec<(String, Json)>, map: &Vec<(String, Json)>)
    ensures
        jv_pairs(final(out)@) == jv_pairs(old(out)@) + summary_member(jv_pairs(map@)),
{
    let ks = one_key("summary");
    match get_str(map, ks.as_slice()) {
        Some(v) => {
            let html = text_to_html(v.as_str());
            if str_chars(html.as_str()).len() > 0 {
                push_member(out, "summary", Json::Str(html));
            }
        },
        None => {},
    }
    assert(jv_pairs(final(out)@) =~= jv_pairs(old(out)@) + summary_member(jv_pairs(map@)));
}

fn push_profile_fields(out: &mut Vec<(String, Json)>, map: &Vec<(String, Json)>)
    ensures
        jv_pairs(final(out)@) == jv_pairs(old(out)@) + profile_member(jv_pairs(map@)),
{
    let items = match pairs_get(map, "profileFields") {
        Some(Json::Array(items)) => items,
        _ => {
            assert(jv_pairs(final(out)@) =~= jv_pairs(old(out)@) + profile_member(jv_pairs(map@)));
            return;
        },
    };
    proof {
        lemma_jv_seq(items@);
    }
    let ghost iv = jv_seq(items@);
    let mut fields: Vec<Json> = Vec::new();
    let mut i: usize = 0;
    while i < items.len()
        invariant
            i <= items.len(),
            iv == jv_seq(items@),
            iv.len() == items@.len(),
            forall|j: int| 0 <= j < items@.len() ==> #[trigger] iv[j] == jv(items@[j]),
            jv_seq(fields@) == profile_items(iv.take(i as int)),
        decreases items.len() - i,
    {
        assert(iv.take(i + 1).drop_last() =~= iv.take(i as int));
        assert(iv.take(i + 1).last() == jv(items@[i as int]));
        let f = &items[i];
        let ghost r0 = profile_items(iv.take(i as int));
        assert(profile_items(iv.take(i + 1)) == match f@ {
            JsonV::Object(_) => {
                let name = trim(match jget(f@, "name"@) {
                    Some(JsonV::Str(s)) => s,
                    _ => Seq::empty(),
                });
                let val = match jget(f@, "value"@) {
                    Some(JsonV::Str(s)) => s,
                    _ => Seq::empty(),
                };
                let html = spec_text_to_html(val);
                if name.len() == 0 || html.len() == 0 {
                    r0
                } else {
                    r0.push(JsonV::Object(seq![("name"@, JsonV::Str(name)), ("value"@, JsonV::Str(html))]))
                }
            },
            _ => r0,
        });
        if f.is_object() {
            let nopt = f.get_str("name");
            let name = match nopt {
                Some(s) => trim_chars(&str_chars(s)),
                None => Vec::new(),
            };
            assert(trim(Seq::<char>::empty()) =~= Seq::<char>::empty());
            let vopt = f.get_str("value");
            let val: &str = match vopt {
                Some(s) => s,
                None => "",
            };
            proof {
                reveal_strlit("");
            }
            let html = text_to_html(val);
            if name.len() > 0 && str_chars(html.as_str()).len() > 0 {
                let mut ps: Vec<(String, Json)> = Vec::new();
                let ghost gh = html@;
                push_member(&mut ps, "name", Json::Str(string_from_chars(&name)));
                push_member(&mut ps, "value", Json::Str(html));
                assert(jv_pairs(ps@) =~= seq![("name"@, JsonV::Str(name@)), ("value"@, JsonV::Str(gh))]);
                let ghost before = fields@;
                let fj = Json::Object(ps);
                let ghost fjv = fj@;
                fields.push(fj);
                assert(fields@.drop_last() =~= before);
                assert(jv_seq(fields@) == jv_seq(before).push(fjv));
            }
        }
        i += 1;
    }
    assert(iv.take(i as int) =~= iv);
    if fields.len() > 0 {
        push_member(out, "profile_fields", Json::Array(fields));
    }
    assert(jv_pairs(final(out)@) =~= jv_pairs(old(out)@) + profile_member(jv_pairs(map@)));
}

fn push_approve(out: &mut Vec<(String, Json)>, map: &Vec<(String, Json)>)
    ensures
        jv_pairs(final(out)@) == jv_pairs(old(out)@) + approve_member(jv_pairs(map@)),
{
    if get_bool(map, one_key("manuallyApprovesFollowers").as_slice()) == Some(true) {
        push_member(out, "manually_approves_followers", Json::Bool(true));
    }
    assert(jv_pairs(final(out)@) =~= jv_pairs(old(out)@) + approve_member(jv_pairs(map@)));
}

#[verifier::rlimit(50)]
fn push_optional_members(out: &mut Vec<(String, Json)>, obj: &Vec<(String, Json)>)
    ensures
        jv_pairs(final(out)@) == with_optional_members(jv_pairs(old(out)@), jv_pairs(obj@)),
{
    push_opt_str(out, "relay_token", obj, "relayToken");
    push_opt_str(out, "internal_token", obj, "internalToken");
    push_opt_str(out, "display_name", obj, "displayName");
    push_summary(out, obj);
    push_opt_str(out, "icon_url", obj, "iconUrl");
    push_opt_str(out, "icon_media_type", obj, "iconMediaType");
    push_opt_str(out, "image_url", obj, "imageUrl");
    push_opt_str(out, "image_media_type", obj, "imageMediaType");
    push_profile_fields(out, obj);
    push_approve(out, obj);
    push_opt_list(out, "blocked_domains", obj, "blockedDomains");
    push_opt_list(out, "blocked_actors", obj, "blockedActors");
    push_opt_list(out, "ap_relays", obj, "apRelays");
    push_opt_list(out, "bootstrap_follow_actors", obj, "bootstrapFollowActors");
    push_opt_str(out, "previous_public_base_url", obj, "previousPublicBaseUrl");
    push_opt_str(out, "previous_relay_token", obj, "previousRelayToken");
    push_opt_i64(out, "upnp_port_start", obj, "upnpPortRangeStart");
    push_opt_i64(out, "upnp_port_end", obj, "upnpPortRangeEnd");
    push_opt_i64(out, "upnp_lease_secs", obj, "upnpLeaseSecs");
    push_opt_i64(out, "upnp_timeout_secs", obj, "upnpTimeoutSecs");
    push_opt_str(out, "post_delivery_mode", obj, "postDeliveryMode");
    push_opt_u64(out, "p2p_relay_fallback_secs", obj, "p2pRelayFallbackSecs");
    push_opt_u64(out, "p2p_cache_ttl_secs", obj, "p2pCacheTtlSecs");
}

/// Turns the app's configuration into the core's layout (see
/// `spec_normalize_app_config`).
pub fn normalize_app_config(raw: Json) -> (r: Result<Json, ConfigError>)
    ensures
        match r {
            Ok(j) => spec_normalize_app_config(raw@) == Ok::<JsonV, ConfigError>(j@),
            Err(e) => spec_normalize_app_config(raw@) == Err::<JsonV, ConfigError>(e),
        },
{
    let obj = match &raw {
        Json::Object(ps) => ps,
        _ => return Err(ConfigError::NotObject),
    };
    let ghost ps = jv_pairs(obj@);
    let core_style = pairs_get(obj, "relay_ws").is_some() || pairs_get(obj, "public_base_url").is_some()
        || pairs_get(obj, "relay_token").is_some();
    proof {
        crate::json::lemma_find_key(ps, "relay_ws"@);
        crate::json::lemma_find_key(ps, "public_base_url"@);
        crate::json::lemma_find_key(ps, "relay_token"@);
    }
    assert(raw@ == JsonV::Object(ps));
    if core_style {
        assert(spec_normalize_app_config(raw@) == Ok::<JsonV, ConfigError>(raw@));
        return Ok(raw);
    }
    let username = match get_str(obj, one_key("username").as_slice()) {
        Some(v) => v,
        None => return Err(ConfigError::MissingUsername),
    };
    let domain = match get_str(obj, one_key("domain").as_slice()) {
        Some(v) => v,
        None => return Err(ConfigError::MissingDomain),
    };
    let relay_ws = match get_str(obj, one_key("relayWs").as_slice()) {
        Some(v) => v,
        None => return Err(ConfigError::MissingRelayWs),
    };
    let bind = match get_str(obj, one_key("bind").as_slice()) {
        Some(v) => v,
        None => return Err(ConfigError::MissingBind),
    };
    let base = match get_str(obj, one_key("publicBaseUrl").as_slice()) {
        Some(v) => v,
        None => String::new(),
    };
    let ghost (gu, gd, gw, gb, gbase) = (username@, domain@, relay_ws@, bind@, base@);
    let mut out: Vec<(String, Json)> = Vec::new();
    push_member(&mut out, "username", Json::Str(username));
    push_member(&mut out, "domain", Json::Str(domain));
    push_member(&mut out, "public_base_url", Json::Str(base));
    push_member(&mut out, "relay_ws", Json::Str(relay_ws));
    push_member(&mut out, "bind", Json::Str(bind));
    let ghost head = jv_pairs(out@);
    assert(head =~= seq![
        ("username"@, JsonV::Str(gu)),
        ("domain"@, JsonV::Str(gd)),
        ("public_base_url"@, JsonV::Str(match cfg_s(ps, "publicBaseUrl"@) { Some(b) => b, None => Seq::empty() })),
        ("relay_ws"@, JsonV::Str(gw)),
        ("bind"@, JsonV::Str(gb)),
    ]);
    push_optional_members(&mut out, obj);
    assert(jv_pairs(out@) == with_optional_members(head, ps));
    Ok(Json::Object(out))
}

} // verus!
