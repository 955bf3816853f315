//! The documents that describe the local actor to the fediverse: the actor
//! itself, WebFinger, host-meta and NodeInfo.
use vstd::prelude::*;
use crate::text::{trim, trim_end_char, starts_with, split_on, str_chars, trim_chars, string_from_chars, trim_end_char_chars, append_str, split_chars, starts_with_chars};
use crate::json::{Json, JsonV, jv_pairs, jv_seq, json_str, lemma_jv_seq};
use crate::report::push_member;
use crate::startup::{ApConfig, ProfileField};
use crate::activity::{spec_local_actor, local_actor};
use crate::legacysync::{rfc3339_of, format_rfc3339};
use crate::content::{url_decode, url_decode_from};
use crate::urls::{before_char, first_index_of, lemma_before_char, before_char_chars};
use crate::text::chars_eq;

verus! {

/// Milliseconds divided by 1000, rounded toward zero (as Rust's `/`).
pub open spec fn trunc_secs(ms: i64) -> int {
    if ms >= 0 { ms / 1000 } else { -((-ms) / 1000) }
}

/// The RFC 3339 text of a time in milliseconds since the epoch: the whole
/// seconds (toward zero) plus the millisecond remainder taken non-negative.
pub fn ms_to_rfc3339(ms: i64) -> (r: Option<String>)
    ensures
        match r {
            Some(t) => rfc3339_of(trunc_secs(ms) as i64, (ms % 1000) as i64) == Some(t@),
            None => rfc3339_of(trunc_secs(ms) as i64, (ms % 1000) as i64) is None,
        },
{
    let (secs, rem): (i64, i64) = if ms >= 0 {
        let a: u64 = ms as u64;
        ((a / 1000) as i64, (a % 1000) as i64)
    } else {
        let a: u64 = (0i128 - (ms as i128)) as u64;
        let r0: u64 = a % 1000;
        proof {
            assert((if r0 == 0 { 0int } else { 1000 - r0 }) == ms % 1000) by (nonlinear_arith)
                requires
                    a == -ms,
                    r0 == a % 1000,
                    ms < 0,
            ;
        }
        (-((a / 1000) as i64), if r0 == 0 { 0 } else { (1000 - r0) as i64 })
    };
    format_rfc3339(secs, rem)
}

/// An `Image` with the given media type (`image/png` by default) and URL.
pub open spec fn image_doc(url: Seq<char>, media_type: Option<String>) -> JsonV {
    JsonV::Object(seq![
        ("type"@, JsonV::Str("Image"@)),
        ("mediaType"@, JsonV::Str(match media_type { Some(m) => m@, None => "image/png"@ })),
        ("url"@, JsonV::Str(url)),
    ])
}

/// A one-member list for `key` when the image URL is present and not blank:
/// an `Image` with the given media type (`image/png` by default) and URL.
pub open spec fn image_member(key: Seq<char>, url: Option<String>, media_type: Option<String>) -> Seq<(Seq<char>, JsonV)> {
    match url {
        Some(u) => if trim(u@).len() > 0 {
            seq![(key, image_doc(u@, media_type))]
        } else {
            Seq::empty()
        },
        None => Seq::empty(),
    }
}

/// The profile fields shown on the actor: trimmed, those with both a name
/// and a value, in order.
pub open spec fn field_items(fs: Seq<ProfileField>) -> Seq<JsonV>
    decreases fs.len(),
{
    if fs.len() == 0 {
        Seq::empty()
    } else {
        let r = field_items(fs.drop_last());
        let f = fs.last();
        if trim(f.name@).len() > 0 && trim(f.value@).len() > 0 {
            r.push(JsonV::Object(seq![
                ("type"@, JsonV::Str("PropertyValue"@)),
                ("name"@, JsonV::Str(trim(f.name@))),
                ("value"@, JsonV::Str(trim(f.value@))),
            ]))
        } else {
            r
        }
    }
}

/// Strings as JSON strings.
pub open spec fn str_items(v: Seq<String>) -> Seq<JsonV> {
    v.map_values(|s: String| JsonV::Str(s@))
}

/// A member only when the list is not empty.
pub open spec fn list_member(key: Seq<char>, items: Seq<JsonV>) -> Seq<(Seq<char>, JsonV)> {
    if items.len() > 0 { seq![(key, JsonV::Array(items))] } else { Seq::empty() }
}

/// The local actor's endpoints: the shared inbox, and the P2P peer id and
/// addresses when known.
pub open spec fn endpoints_doc(cfg: ApConfig) -> JsonV {
    let base = trim_end_char(cfg.public_base_url@, '/');
    JsonV::Object(seq![("sharedInbox"@, JsonV::Str(base + "/inbox"@))]
        + match cfg.p2p_peer_id { Some(p) => seq![("fedi3PeerId"@, JsonV::Str(p@))], None => Seq::empty() }
        + list_member("fedi3PeerAddrs"@, str_items(cfg.p2p_peer_addrs@)))
}

/// The actor's display name when not blank, else its username.
pub open spec fn actor_name(cfg: ApConfig) -> Seq<char> {
    match cfg.display_name {
        Some(d) => if trim(d@).len() > 0 { d@ } else { cfg.username@ },
        None => cfg.username@,
    }
}

/// The local actor document (a `Person`), as served at its id.
pub open spec fn spec_local_actor_doc(cfg: ApConfig) -> JsonV {
    let id = spec_local_actor(cfg.public_base_url@, cfg.username@);
    let published = match cfg.published_ms {
        Some(ms) => match rfc3339_of(trunc_secs(ms) as i64, (ms % 1000) as i64) {
            Some(t) => seq![("published"@, JsonV::Str(t))],
            None => Seq::empty(),
        },
        None => Seq::empty(),
    };
    JsonV::Object(
        seq![
            ("@context"@, JsonV::Array(seq![
                JsonV::Str("https://www.w3.org/ns/activitystreams"@),
                JsonV::Str("https://w3id.org/security/v1"@),
                JsonV::Str("http://joinmastodon.org/ns#"@),
            ])),
            ("id"@, JsonV::Str(id)),
            ("type"@, JsonV::Str("Person"@)),
            ("preferredUsername"@, JsonV::Str(cfg.username@)),
            ("name"@, JsonV::Str(actor_name(cfg))),
            ("url"@, JsonV::Str(id)),
            ("summary"@, JsonV::Str(match cfg.summary { Some(s) => s@, None => Seq::empty() })),
        ]
        + published
        + seq![("manuallyApprovesFollowers"@, JsonV::Bool(cfg.manually_approves_followers))]
        + list_member("attachment"@, field_items(cfg.profile_fields@))
        + list_member("alsoKnownAs"@, str_items(cfg.also_known_as@))
        + seq![
            ("followers"@, JsonV::Str(id + "/followers"@)),
            ("following"@, JsonV::Str(id + "/following"@)),
            ("inbox"@, JsonV::Str(id + "/inbox"@)),
            ("outbox"@, JsonV::Str(id + "/outbox"@)),
            ("endpoints"@, endpoints_doc(cfg)),
            ("publicKey"@, JsonV::Object(seq![
                ("id"@, JsonV::Str(id + "#main-key"@)),
                ("owner"@, JsonV::Str(id)),
                ("publicKeyPem"@, JsonV::Str(cfg.public_key_pem@)),
            ])),
        ]
        + image_member("icon"@, cfg.icon_url, cfg.icon_media_type)
        + image_member("image"@, cfg.image_url, cfg.image_media_type)
        + seq![
            ("discoverable"@, JsonV::Bool(true)),
            ("indexable"@, JsonV::Bool(true)),
            ("featured"@, JsonV::Str(id + "/collections/featured"@)),
            ("featuredTags"@, JsonV::Str(id + "/collections/featuredTags"@)),
        ],
    )
}

fn str_of(v: &Vec<char>) -> (r: Json)
    ensures
        r@ == JsonV::Str(v@),
{
    Json::Str(string_from_chars(v))
}

fn suffixed(id: &Vec<char>, s: &str) -> (r: Json)
    ensures
        r@ == JsonV::Str(id@ + s@),
{
    let mut v = id.clone();
    append_str(&mut v, s);
    str_of(&v)
}

fn image_json(url: &String, media_type: &Option<String>) -> (r: Json)
    ensures
        r@ == image_doc(url@, *media_type),
{
    let mut img: Vec<(String, Json)> = Vec::new();
    assert(jv_pairs(img@) =~= Seq::<(Seq<char>, JsonV)>::empty());
    push_member(&mut img, "type", json_str("Image"));
    let mt = match media_type {
        Some(m) => Json::Str(m.clone()),
        None => json_str("image/png"),
    };
    push_member(&mut img, "mediaType", mt);
    push_member(&mut img, "url", Json::Str(url.clone()));
    assert(image_doc(url@, *media_type) matches JsonV::Object(w) && jv_pairs(img@) =~= w);
    Json::Object(img)
}

fn push_image(ps: &mut Vec<(String, Json)>, key: &str, url: &Option<String>, media_type: &Option<String>)
    ensures
        jv_pairs(final(ps)@) == jv_pairs(old(ps)@) + image_member(key@, *url, *media_type),
{
    let ghost before = jv_pairs(ps@);
    match url {
        Some(u) => {
            if trim_chars(&str_chars(u.as_str())).len() > 0 {
                let o = image_json(u, media_type);
                let ghost ov = o@;
                push_member(ps, key, o);
                assert(*url == Some(*u));
                assert(image_member(key@, *url, *media_type) =~= seq![(key@, ov)]);
                assert(jv_pairs(ps@) =~= before + image_member(key@, *url, *media_type));
            } else {
                assert(jv_pairs(ps@) =~= before + image_member(key@, *url, *media_type));
            }
        },
        None => {
            assert(jv_pairs(ps@) =~= before + image_member(key@, *url, *media_type));
        },
    }
}

fn field_array(fs: &Vec<ProfileField>) -> (r: Vec<Json>)
    ensures
        jv_seq(r@) == field_items(fs@),
{
    let mut out: Vec<Json> = Vec::new();
    let mut i: usize = 0;
    assert(fs@.take(0) =~= Seq::<ProfileField>::empty());
    while i < fs.len()
        invariant
            i <= fs.len(),
            jv_seq(out@) == field_items(fs@.take(i as int)),
        decreases fs.len() - i,
    {
        proof {
            assert(fs@.take(i + 1).drop_last() =~= fs@.take(i as int));
            assert(fs@.take(i + 1).last() == fs@[i as int]);
        }
        let name = trim_chars(&str_chars(fs[i].name.as_str()));
        let value = trim_chars(&str_chars(fs[i].value.as_str()));
        if name.len() > 0 && value.len() > 0 {
            let mut o: Vec<(String, Json)> = Vec::new();
            assert(jv_pairs(o@) =~= Seq::<(Seq<char>, JsonV)>::empty());
            push_member(&mut o, "type", json_str("PropertyValue"));
            push_member(&mut o, "name", str_of(&name));
            push_member(&mut o, "value", str_of(&value));
            assert(jv_pairs(o@) =~= seq![
                ("type"@, JsonV::Str("PropertyValue"@)),
                ("name"@, JsonV::Str(trim(fs@[i as int].name@))),
                ("value"@, JsonV::Str(trim(fs@[i as int].value@))),
            ]);
            let ghost before = out@;
            let ghost ov = Json::Object(o)@;
            out.push(Json::Object(o));
            assert(out@.drop_last() =~= before);
            assert(jv_seq(out@) == jv_seq(before).push(ov));
        }
        i += 1;
    }
    assert(fs@.take(i as int) =~= fs@);
    out
}

fn string_array(v: &Vec<String>) -> (r: Vec<Json>)
    ensures
        jv_seq(r@) == str_items(v@),
{
    let mut out: Vec<Json> = Vec::new();
    let mut i: usize = 0;
    while i < v.len()
        invariant
            i <= v.len(),
            jv_seq(out@) == str_items(v@).take(i as int),
        decreases v.len() - i,
    {
        let ghost before = out@;
        let x = Json::Str(v[i].clone());
        assert(x@ == JsonV::Str(v@[i as int]@));
        out.push(x);
        proof {
            assert(out@.drop_last() =~= before);
            assert(jv_seq(out@) == jv_seq(before).push(JsonV::Str(v@[i as int]@)));
            assert(str_items(v@).take(i + 1) =~= str_items(v@).take(i as int).push(JsonV::Str(v@[i as int]@)));
        }
        i += 1;
    }
    assert(str_items(v@).take(i as int) =~= str_items(v@));
    out
}

fn push_list(ps: &mut Vec<(String, Json)>, key: &str, items: Vec<Json>)
    ensures
        jv_pairs(final(ps)@) == jv_pairs(old(ps)@) + list_member(key@, jv_seq(items@)),
{
    let ghost before = jv_pairs(ps@);
    proof {
        lemma_jv_seq(items@);
    }
    if items.len() > 0 {
        push_member(ps, key, Json::Array(items));
    }
    assert(jv_pairs(ps@) =~= before + list_member(key@, jv_seq(items@)));
}

fn endpoints_json(cfg: &ApConfig, base: &Vec<char>) -> (r: Json)
    requires
        base@ == trim_end_char(cfg.public_base_url@, '/'),
    ensures
        r@ == endpoints_doc(*cfg),
{
    let mut ps: Vec<(String, Json)> = Vec::new();
    assert(jv_pairs(ps@) =~= Seq::<(Seq<char>, JsonV)>::empty());
    push_member(&mut ps, "sharedInbox", suffixed(base, "/inbox"));
    let ghost mid = jv_pairs(ps@);
    match &cfg.p2p_peer_id {
        Some(p) => push_member(&mut ps, "fedi3PeerId", Json::Str(p.clone())),
        None => {},
    }
    let ghost mid2 = jv_pairs(ps@);
    assert(mid2 =~= mid + match cfg.p2p_peer_id { Some(p) => seq![("fedi3PeerId"@, JsonV::Str(p@))], None => Seq::<(Seq<char>, JsonV)>::empty() });
    push_list(&mut ps, "fedi3PeerAddrs", string_array(&cfg.p2p_peer_addrs));
    Json::Object(ps)
}

/// Builds the local actor document (see `spec_local_actor_doc`).
#[verifier::rlimit(100)]
#[verifier::spinoff_prover]
pub fn build_local_actor(cfg: &ApConfig) -> (r: Json)
    ensures
        r@ == spec_local_actor_doc(*cfg),
{
    let base = trim_end_char_chars(&str_chars(cfg.public_base_url.as_str()), '/');
    let mut idv = base.clone();
    append_str(&mut idv, "/users/");
    append_str(&mut idv, cfg.username.as_str());
    let ghost id = idv@;
    assert(id == spec_local_actor(cfg.public_base_url@, cfg.username@));
    let mut ps: Vec<(String, Json)> = Vec::new();
    assert(jv_pairs(ps@) =~= Seq::<(Seq<char>, JsonV)>::empty());
    let mut ctx: Vec<Json> = Vec::new();
    ctx.push(json_str("https://www.w3.org/ns/activitystreams"));
    ctx.push(json_str("https://w3id.org/security/v1"));
    ctx.push(json_str("http://joinmastodon.org/ns#"));
    proof {
        lemma_jv_seq(ctx@);
        assert(jv_seq(ctx@) =~= seq![
            JsonV::Str("https://www.w3.org/ns/activitystreams"@),
            JsonV::Str("https://w3id.org/security/v1"@),
            JsonV::Str("http://joinmastodon.org/ns#"@),
        ]);
    }
    push_member(&mut ps, "@context", Json::Array(ctx));
    push_member(&mut ps, "id", str_of(&idv));
    push_member(&mut ps, "type", json_str("Person"));
    push_member(&mut ps, "preferredUsername", Json::Str(cfg.username.clone()));
    let name = match &cfg.display_name {
        Some(d) => if trim_chars(&str_chars(d.as_str())).len() > 0 { d.clone() } else { cfg.username.clone() },
        None => cfg.username.clone(),
    };
    push_member(&mut ps, "name", Json::Str(name));
    push_member(&mut ps, "url", str_of(&idv));
    let summary = match &cfg.summary {
        Some(s) => s.clone(),
        None => String::new(),
    };
    push_member(&mut ps, "summary", Json::Str(summary));
    let ghost p1 = jv_pairs(ps@);
    assert(p1 =~= seq![
        ("@context"@, JsonV::Array(seq![
            JsonV::Str("https://www.w3.org/ns/activitystreams"@),
            JsonV::Str("https://w3id.org/security/v1"@),
            JsonV::Str("http://joinmastodon.org/ns#"@),
        ])),
        ("id"@, JsonV::Str(id)),
        ("type"@, JsonV::Str("Person"@)),
        ("preferredUsername"@, JsonV::Str(cfg.username@)),
        ("name"@, JsonV::Str(actor_name(*cfg))),
        ("url"@, JsonV::Str(id)),
        ("summary"@, JsonV::Str(match cfg.summary { Some(x) => x@, None => Seq::empty() })),
    ]);
    match cfg.published_ms {
        Some(ms) => match ms_to_rfc3339(ms) {
            Some(t) => push_member(&mut ps, "published", Json::Str(t)),
            None => {},
        },
        None => {},
    }
    let ghost p2 = jv_pairs(ps@);
    push_member(&mut ps, "manuallyApprovesFollowers", Json::Bool(cfg.manually_approves_followers));
    push_list(&mut ps, "attachment", field_array(&cfg.profile_fields));
    push_list(&mut ps, "alsoKnownAs", string_array(&cfg.also_known_as));
    let ghost p5 = jv_pairs(ps@);
    push_member(&mut ps, "followers", suffixed(&idv, "/followers"));
    push_member(&mut ps, "following", suffixed(&idv, "/following"));
    push_member(&mut ps, "inbox", suffixed(&idv, "/inbox"));
    push_member(&mut ps, "outbox", suffixed(&idv, "/outbox"));
    push_member(&mut ps, "endpoints", endpoints_json(cfg, &base));
    let mut pk: Vec<(String, Json)> = Vec::new();
    assert(jv_pairs(pk@) =~= Seq::<(Seq<char>, JsonV)>::empty());
    push_member(&mut pk, "id", suffixed(&idv, "#main-key"));
    push_member(&mut pk, "owner", str_of(&idv));
    push_member(&mut pk, "publicKeyPem", Json::Str(cfg.public_key_pem.clone()));
    assert(jv_pairs(pk@) =~= seq![
        ("id"@, JsonV::Str(id + "#main-key"@)),
        ("owner"@, JsonV::Str(id)),
        ("publicKeyPem"@, JsonV::Str(cfg.public_key_pem@)),
    ]);
    let pko = Json::Object(pk);
    assert(pko@ == JsonV::Object(seq![
        ("id"@, JsonV::Str(id + "#main-key"@)),
        ("owner"@, JsonV::Str(id)),
        ("publicKeyPem"@, JsonV::Str(cfg.public_key_pem@)),
    ]));
    push_member(&mut ps, "publicKey", pko);
    let ghost p6 = jv_pairs(ps@);
    push_image(&mut ps, "icon", &cfg.icon_url, &cfg.icon_media_type);
    push_image(&mut ps, "image", &cfg.image_url, &cfg.image_media_type);
    let ghost p8 = jv_pairs(ps@);
    push_member(&mut ps, "discoverable", Json::Bool(true));
    push_member(&mut ps, "indexable", Json::Bool(true));
    push_member(&mut ps, "featured", suffixed(&idv, "/collections/featured"));
    push_member(&mut ps, "featuredTags", suffixed(&idv, "/collections/featuredTags"));
    proof {
        let published = match cfg.published_ms {
            Some(ms) => match rfc3339_of(trunc_secs(ms) as i64, (ms % 1000) as i64) {
                Some(t) => seq![("published"@, JsonV::Str(t))],
                None => Seq::<(Seq<char>, JsonV)>::empty(),
            },
            None => Seq::<(Seq<char>, JsonV)>::empty(),
        };
        assert(p2 =~= p1 + published);
        assert(p6 =~= p5 + seq![
            ("followers"@, JsonV::Str(id + "/followers"@)),
            ("following"@, JsonV::Str(id + "/following"@)),
            ("inbox"@, JsonV::Str(id + "/inbox"@)),
            ("outbox"@, JsonV::Str(id + "/outbox"@)),
            ("endpoints"@, endpoints_doc(*cfg)),
            ("publicKey"@, JsonV::Object(seq![
                ("id"@, JsonV::Str(id + "#main-key"@)),
                ("owner"@, JsonV::Str(id)),
                ("publicKeyPem"@, JsonV::Str(cfg.public_key_pem@)),
            ])),
        ]);
        assert(jv_pairs(ps@) =~= p8 + seq![
            ("discoverable"@, JsonV::Bool(true)),
            ("indexable"@, JsonV::Bool(true)),
            ("featured"@, JsonV::Str(id + "/collections/featured"@)),
            ("featuredTags"@, JsonV::Str(id + "/collections/featuredTags"@)),
        ]);
        let want = spec_local_actor_doc(*cfg);
        assert(want matches JsonV::Object(w) && jv_pairs(ps@) =~= w);
    }
    Json::Object(ps)
}

/// Why a WebFinger query is refused.
#[derive(PartialEq, Eq, Structural, Clone, Copy, Debug)]
pub enum WebfingerError {
    /// No `resource` parameter, or an empty one.
    MissingResource,
    /// The resource is not the local user.
    NotFound,
}

impl WebfingerError {
    /// The HTTP status of the refusal.
    pub fn status(&self) -> (r: u16)
        ensures
            r == match self {
                WebfingerError::MissingResource => 400u16,
                WebfingerError::NotFound => 404u16,
            },
    {
        match self {
            WebfingerError::MissingResource => 400,
            WebfingerError::NotFound => 404,
        }
    }
}

/// The value of the first `resource=` parameter among the query's pieces.
pub open spec fn first_resource(pieces: Seq<Seq<char>>) -> Option<Seq<char>>
    decreases pieces.len(),
{
    if pieces.len() == 0 {
        None
    } else if starts_with(pieces[0], "resource="@) {
        Some(pieces[0].skip(9))
    } else {
        first_resource(pieces.drop_first())
    }
}

/// The decoded `resource` a WebFinger query asks for (empty when absent).
pub open spec fn webfinger_resource(query: Option<Seq<char>>) -> Seq<char> {
    match query {
        Some(q) => match first_resource(split_on(q, '&')) {
            Some(v) => url_decode_from(vstd::utf8::encode_utf8(v), 0),
            None => Seq::empty(),
        },
        None => Seq::empty(),
    }
}

/// Whether a resource names the local user: its `acct:` URI, its actor URL,
/// or any `acct:` URI with the same user name (whatever the domain).
pub open spec fn is_local_resource(resource: Seq<char>, actor: Seq<char>, acct: Seq<char>, username: Seq<char>) -> bool {
    resource == acct || resource == actor || (starts_with(resource, "acct:"@)
        && first_index_of(resource.skip(5), '@') < resource.skip(5).len()
        && before_char(resource.skip(5), '@') == username)
}

/// A WebFinger link.
pub open spec fn wf_link(rel: Seq<char>, ty: Seq<char>, href: Seq<char>) -> JsonV {
    JsonV::Object(seq![("rel"@, JsonV::Str(rel)), ("type"@, JsonV::Str(ty)), ("href"@, JsonV::Str(href))])
}

/// The WebFinger answer for a query: the local user's `acct:` subject with
/// links to the actor (as ActivityPub and as a profile page).
pub open spec fn spec_webfinger(cfg: ApConfig, query: Option<Seq<char>>) -> Result<JsonV, WebfingerError> {
    let resource = webfinger_resource(query);
    let actor = spec_local_actor(cfg.public_base_url@, cfg.username@);
    let acct = "acct:"@ + cfg.username@ + "@"@ + cfg.domain@;
    if resource.len() == 0 {
        Err(WebfingerError::MissingResource)
    } else if !is_local_resource(resource, actor, acct, cfg.username@) {
        Err(WebfingerError::NotFound)
    } else {
        Ok(JsonV::Object(seq![
            ("subject"@, JsonV::Str(acct)),
            ("links"@, JsonV::Array(seq![
                wf_link("self"@, "application/activity+json"@, actor),
                wf_link("http://webfinger.net/rel/profile-page"@, "text/html"@, actor),
            ])),
        ]))
    }
}

fn find_resource(pieces: &Vec<Vec<char>>) -> (r: Option<Vec<char>>)
    ensures
        match r {
            Some(v) => first_resource(pieces@.map_values(|p: Vec<char>| p@)) == Some(v@),
            None => first_resource(pieces@.map_values(|p: Vec<char>| p@)) is None,
        },
{
    let ghost all = pieces@.map_values(|p: Vec<char>| p@);
    let prefix = str_chars("resource=");
    proof {
        reveal_strlit("resource=");
    }
    assert(prefix@.len() == 9);
    let mut i: usize = 0;
    assert(all.skip(0) =~= all);
    while i < pieces.len()
        invariant
            i <= pieces.len(),
            all == pieces@.map_values(|p: Vec<char>| p@),
            prefix@ == "resource="@,
            prefix@.len() == 9,
            first_resource(all) == first_resource(all.skip(i as int)),
        decreases pieces.len() - i,
    {
        proof {
            assert(all.skip(i as int)[0] == pieces@[i as int]@);
            assert(all.skip(i as int).drop_first() =~= all.skip(i + 1));
        }
        if starts_with_chars(&pieces[i], &prefix) {
            let p = &pieces[i];
            let mut out: Vec<char> = Vec::new();
            let mut k: usize = 9;
            while k < p.len()
                invariant
                    9 <= k <= p.len(),
                    out@ == p@.subrange(9, k as int),
                decreases p.len() - k,
            {
                out.push(p[k]);
                proof {
                    assert(p@.subrange(9, k + 1) =~= p@.subrange(9, k as int).push(p@[k as int]));
                }
                k += 1;
            }
            assert(out@ =~= p@.skip(9));
            return Some(out);
        }
        i += 1;
    }
    None
}

/// Answers a WebFinger query (`query` is the request's query string) for
/// the local user (see `spec_webfinger`).
pub fn webfinger(cfg: &ApConfig, query: Option<&str>) -> (r: Result<Json, WebfingerError>)
    ensures
        match r {
            Ok(j) => spec_webfinger(*cfg, crate::urls::opt_view(query)) == Ok::<JsonV, WebfingerError>(j@),
            Err(e) => spec_webfinger(*cfg, crate::urls::opt_view(query)) == Err::<JsonV, WebfingerError>(e),
        },
{
    let resource: Vec<char> = match query {
        Some(q) => {
            let pieces = split_chars(&str_chars(q), '&');
            match find_resource(&pieces) {
                Some(v) => str_chars(url_decode(string_from_chars(&v).as_str()).as_str()),
                None => Vec::new(),
            }
        },
        None => Vec::new(),
    };
    assert(resource@ == webfinger_resource(crate::urls::opt_view(query)));
    if resource.len() == 0 {
        return Err(WebfingerError::MissingResource);
    }
    let actor = local_actor(cfg.public_base_url.as_str(), cfg.username.as_str());
    let mut acct = str_chars("acct:");
    append_str(&mut acct, cfg.username.as_str());
    append_str(&mut acct, "@");
    append_str(&mut acct, cfg.domain.as_str());
    let mut ok = chars_eq(&resource, &acct) || chars_eq(&resource, &str_chars(actor.as_str()));
    if !ok && starts_with_chars(&resource, &str_chars("acct:")) {
        proof {
            reveal_strlit("acct:");
        }
        let mut rest: Vec<char> = Vec::new();
        let mut k: usize = 5;
        while k < resource.len()
            invariant
                5 <= k <= resource.len(),
                rest@ == resource@.subrange(5, k as int),
            decreases resource.len() - k,
        {
            rest.push(resource[k]);
            proof {
                assert(resource@.subrange(5, k + 1) =~= resource@.subrange(5, k as int).push(resource@[k as int]));
            }
            k += 1;
        }
        assert(rest@ =~= resource@.skip(5));
        let user = before_char_chars(&rest, '@');
        proof {
            lemma_before_char(rest@, '@');
        }
        if user.len() < rest.len() {
            ok = chars_eq(&user, &str_chars(cfg.username.as_str()));
        }
    }
    if !ok {
        return Err(WebfingerError::NotFound);
    }
    let acct_s = string_from_chars(&acct);
    let mut l1: Vec<(String, Json)> = Vec::new();
    assert(jv_pairs(l1@) =~= Seq::<(Seq<char>, JsonV)>::empty());
    push_member(&mut l1, "rel", json_str("self"));
    push_member(&mut l1, "type", json_str("application/activity+json"));
    push_member(&mut l1, "href", Json::Str(actor.clone()));
    assert(wf_link("self"@, "application/activity+json"@, actor@) matches JsonV::Object(w) && jv_pairs(l1@) =~= w);
    let mut l2: Vec<(String, Json)> = Vec::new();
    assert(jv_pairs(l2@) =~= Seq::<(Seq<char>, JsonV)>::empty());
    push_member(&mut l2, "rel", json_str("http://webfinger.net/rel/profile-page"));
    push_member(&mut l2, "type", json_str("text/html"));
    push_member(&mut l2, "href", Json::Str(actor.clone()));
    assert(wf_link("http://webfinger.net/rel/profile-page"@, "text/html"@, actor@) matches JsonV::Object(w) && jv_pairs(l2@) =~= w);
    let o1 = Json::Object(l1);
    let o2 = Json::Object(l2);
    assert(o1@ == wf_link("self"@, "application/activity+json"@, actor@));
    assert(o2@ == wf_link("http://webfinger.net/rel/profile-page"@, "text/html"@, actor@));
    let mut links: Vec<Json> = Vec::new();
    links.push(o1);
    links.push(o2);
    proof {
        lemma_jv_seq(links@);
        assert(jv_seq(links@) =~= seq![
            wf_link("self"@, "application/activity+json"@, actor@),
            wf_link("http://webfinger.net/rel/profile-page"@, "text/html"@, actor@),
        ]);
    }
    let mut ps: Vec<(String, Json)> = Vec::new();
    assert(jv_pairs(ps@) =~= Seq::<(Seq<char>, JsonV)>::empty());
    push_member(&mut ps, "subject", Json::Str(acct_s));
    push_member(&mut ps, "links", Json::Array(links));
    let r = Json::Object(ps);
    proof {
        let ghost want = spec_webfinger(*cfg, crate::urls::opt_view(query));
        assert(want matches Ok(JsonV::Object(w)) && jv_pairs(ps@) =~= w);
    }
    Ok(r)
}

/// The `host-meta` document (JSON form): where WebFinger lives.
pub open spec fn spec_host_meta(cfg: ApConfig) -> JsonV {
    JsonV::Object(seq![("links"@, JsonV::Array(seq![JsonV::Object(seq![
        ("rel"@, JsonV::Str("lrdd"@)),
        ("type"@, JsonV::Str("application/jrd+json"@)),
        ("template"@, JsonV::Str(trim_end_char(cfg.public_base_url@, '/') + "/.well-known/webfinger?resource={uri}"@)),
    ])]))])
}

/// Builds the JSON `host-meta` document.
pub fn host_meta_json(cfg: &ApConfig) -> (r: Json)
    ensures
        r@ == spec_host_meta(*cfg),
{
    let base = trim_end_char_chars(&str_chars(cfg.public_base_url.as_str()), '/');
    let mut l: Vec<(String, Json)> = Vec::new();
    assert(jv_pairs(l@) =~= Seq::<(Seq<char>, JsonV)>::empty());
    push_member(&mut l, "rel", json_str("lrdd"));
    push_member(&mut l, "type", json_str("application/jrd+json"));
    push_member(&mut l, "template", suffixed(&base, "/.well-known/webfinger?resource={uri}"));
    let ghost inner = JsonV::Object(seq![
        ("rel"@, JsonV::Str("lrdd"@)),
        ("type"@, JsonV::Str("application/jrd+json"@)),
        ("template"@, JsonV::Str(base@ + "/.well-known/webfinger?resource={uri}"@)),
    ]);
    assert(inner matches JsonV::Object(w) && jv_pairs(l@) =~= w);
    let o = Json::Object(l);
    assert(o@ == inner);
    let mut links: Vec<Json> = Vec::new();
    links.push(o);
    proof {
        lemma_jv_seq(links@);
        assert(jv_seq(links@) =~= seq![inner]);
    }
    let mut ps: Vec<(String, Json)> = Vec::new();
    assert(jv_pairs(ps@) =~= Seq::<(Seq<char>, JsonV)>::empty());
    push_member(&mut ps, "links", Json::Array(links));
    assert(spec_host_meta(*cfg) matches JsonV::Object(w) && jv_pairs(ps@) =~= w);
    Json::Object(ps)
}

/// The NodeInfo discovery document: where NodeInfo 2.0 lives.
pub open spec fn spec_nodeinfo_links(cfg: ApConfig) -> JsonV {
    JsonV::Object(seq![("links"@, JsonV::Array(seq![JsonV::Object(seq![
        ("rel"@, JsonV::Str("http://nodeinfo.diaspora.software/ns/schema/2.0"@)),
        ("href"@, JsonV::Str(trim_end_char(cfg.public_base_url@, '/') + "/nodeinfo/2.0"@)),
    ])]))])
}

/// Builds the NodeInfo discovery document.
pub fn nodeinfo_links(cfg: &ApConfig) -> (r: Json)
    ensures
        r@ == spec_nodeinfo_links(*cfg),
{
    let base = trim_end_char_chars(&str_chars(cfg.public_base_url.as_str()), '/');
    let mut l: Vec<(String, Json)> = Vec::new();
    assert(jv_pairs(l@) =~= Seq::<(Seq<char>, JsonV)>::empty());
    push_member(&mut l, "rel", json_str("http://nodeinfo.diaspora.software/ns/schema/2.0"));
    push_member(&mut l, "href", suffixed(&base, "/nodeinfo/2.0"));
    let ghost inner = JsonV::Object(seq![
        ("rel"@, JsonV::Str("http://nodeinfo.diaspora.software/ns/schema/2.0"@)),
        ("href"@, JsonV::Str(base@ + "/nodeinfo/2.0"@)),
    ]);
    assert(inner matches JsonV::Object(w) && jv_pairs(l@) =~= w);
    let o = Json::Object(l);
    assert(o@ == inner);
    let mut links: Vec<Json> = Vec::new();
    links.push(o);
    proof {
        lemma_jv_seq(links@);
        assert(jv_seq(links@) =~= seq![inner]);
    }
    let mut ps: Vec<(String, Json)> = Vec::new();
    assert(jv_pairs(ps@) =~= Seq::<(Seq<char>, JsonV)>::empty());
    push_member(&mut ps, "links", Json::Array(links));
    assert(spec_nodeinfo_links(*cfg) matches JsonV::Object(w) && jv_pairs(ps@) =~= w);
    Json::Object(ps)
}

} // verus!
