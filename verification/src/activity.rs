//! Reading ActivityPub activities: their addressing, actor and object,
//! and whether one concerns the local user.
use vstd::prelude::*;
use crate::json::{Json, JsonV, jv, jv_seq, jv_pairs, jget, jget_str, jstr, lemma_jv_seq, pairs_get, clone_json, json_str, set_member, pairs_set, pairs_contains, find_key,
    lemma_get_after_set};
use crate::digest::{spec_short_hash, short_hash, sha256, sha256_of, hex_lower, push_hex};
use crate::order::{sort_dedup, sorted_strict, views};
use crate::text::{trim, trim_end_char, trim_end_char_chars, trim_chars, string_from_chars, append_str};
use crate::text::{str_eq, str_contains, str_chars, chars_eq, contains, trim_start_char, trim_start_char_chars, starts_with, ends_with, str_starts_with, str_ends_with};
use vstd::string::StringSliceAdditionalSpecFns;

verus! {

/// The ActivityStreams public collection.
pub const AS_PUBLIC: &'static str = "https://www.w3.org/ns/activitystreams#Public";

/// The first present value of `s`, in order.
pub open spec fn first_some<A>(s: Seq<Option<A>>) -> Option<A>
    decreases s.len(),
{
    if s.len() == 0 {
        None
    } else if s[0] is Some {
        s[0]
    } else {
        first_some(s.drop_first())
    }
}

pub proof fn lemma_first_some_step<A>(s: Seq<Option<A>>, i: int)
    requires
        0 <= i < s.len(),
        forall|j: int| 0 <= j < i ==> (#[trigger] s[j]) is None,
    ensures
        s[i] is Some ==> first_some(s) == s[i],
        s[i] is None ==> forall|j: int| 0 <= j < i + 1 ==> (#[trigger] s[j]) is None,
    decreases i,
{
    if i > 0 {
        let d = s.drop_first();
        assert forall|j: int| 0 <= j < i - 1 implies (#[trigger] d[j]) is None by {
            assert(d[j] == s[j + 1]);
        }
        lemma_first_some_step(d, i - 1);
        assert(d[i - 1] == s[i]);
    }
}

pub proof fn lemma_first_some_none<A>(s: Seq<Option<A>>)
    requires
        forall|j: int| 0 <= j < s.len() ==> (#[trigger] s[j]) is None,
    ensures
        first_some(s) is None,
    decreases s.len(),
{
    if s.len() > 0 {
        let d = s.drop_first();
        assert forall|j: int| 0 <= j < d.len() implies (#[trigger] d[j]) is None by {
            assert(d[j] == s[j + 1]);
        }
        lemma_first_some_none(d);
    }
}

/// A string, or an array that holds it at any depth.
pub open spec fn has_target(v: JsonV, t: Seq<char>) -> bool
    decreases v,
{
    match v {
        JsonV::Str(s) => s == t,
        JsonV::Array(items) => any_has_target(items, t),
        _ => false,
    }
}

pub open spec fn any_has_target(items: Seq<JsonV>, t: Seq<char>) -> bool
    decreases items,
{
    if items.len() == 0 {
        false
    } else {
        any_has_target(items.drop_last(), t) || has_target(items.last(), t)
    }
}

/// Whether `v` is the string `t` or an array holding it at any depth.
pub fn json_has_target(v: &Json, t: &str) -> (r: bool)
    ensures
        r == has_target(v@, t@),
    decreases v,
{
    match v {
        Json::Str(s) => str_eq(s.as_str(), t),
        Json::Array(a) => {
            let mut found = false;
            let mut i: usize = 0;
            while i < a.len()
                invariant
                    i <= a.len(),
                    *v == Json::Array(*a),
                    found == any_has_target(jv_seq(a@.take(i as int)), t@),
                decreases a.len() - i,
            {
                proof {
                    vstd::std_specs::vec::axiom_vec_index_decreases(*a, i as int);
                    assert(decreases_to!(*v => (*v)->Array_0));
                    assert(decreases_to!(*v => a[i as int]));
                }
                let h = json_has_target(&a[i], t);
                proof {
                    let prev = jv_seq(a@.take(i as int));
                    assert(a@.take(i + 1).drop_last() =~= a@.take(i as int));
                    assert(a@.take(i + 1).last() == a@[i as int]);
                    assert(jv_seq(a@.take(i + 1)) == prev.push(jv(a@[i as int])));
                    assert(prev.push(jv(a@[i as int])).drop_last() =~= prev);
                }
                found = found || h;
                i += 1;
            }
            assert(a@.take(i as int) =~= a@);
            found
        },
        _ => false,
    }
}

/// The activity names `t` in its `to` or `cc` addressing.
pub open spec fn spec_has_recipient(a: JsonV, t: Seq<char>) -> bool {
    (match jget(a, "to"@) {
        Some(v) => has_target(v, t),
        None => false,
    }) || (match jget(a, "cc"@) {
        Some(v) => has_target(v, t),
        None => false,
    })
}

/// Whether the activity's `to` or `cc` names `target`.
pub fn activity_has_recipient(activity: &Json, target: &str) -> (r: bool)
    ensures
        r == spec_has_recipient(activity@, target@),
{
    let in_to = match activity.get("to") {
        Some(v) => json_has_target(v, target),
        None => false,
    };
    if in_to {
        return true;
    }
    match activity.get("cc") {
        Some(v) => json_has_target(v, target),
        None => false,
    }
}

/// Whether the activity is addressed to the public collection.
pub fn is_public_activity(activity: &Json) -> (r: bool)
    ensures
        r == spec_has_recipient(activity@, AS_PUBLIC@),
{
    activity_has_recipient(activity, AS_PUBLIC)
}

/// An object's id: the string itself, or the `id` member of an object.
pub open spec fn item_id(v: JsonV) -> Option<Seq<char>> {
    match v {
        JsonV::Str(s) => Some(s),
        JsonV::Object(_) => jget_str(v, "id"@),
        _ => None,
    }
}

/// The id of the activity's object: a string, an object's `id`, or the first
/// item of an array that has one.
pub open spec fn spec_extract_object_id(a: JsonV) -> Option<Seq<char>> {
    match jget(a, "object"@) {
        Some(JsonV::Str(s)) => Some(s),
        Some(JsonV::Object(ps)) => jget_str(JsonV::Object(ps), "id"@),
        Some(JsonV::Array(items)) => first_some(items.map_values(|x: JsonV| item_id(x))),
        _ => None,
    }
}

fn item_id_exec(v: &Json) -> (r: Option<String>)
    ensures
        match r {
            Some(s) => item_id(v@) == Some(s@),
            None => item_id(v@) is None,
        },
{
    match v {
        Json::Str(s) => Some(s.clone()),
        Json::Object(_) => match v.get_str("id") {
            Some(s) => Some(s.to_owned()),
            None => None,
        },
        _ => None,
    }
}

/// The id of the activity's object.
pub fn extract_object_id(activity: &Json) -> (r: Option<String>)
    ensures
        match r {
            Some(s) => spec_extract_object_id(activity@) == Some(s@),
            None => spec_extract_object_id(activity@) is None,
        },
{
    let obj = match activity.get("object") {
        Some(o) => o,
        None => return None,
    };
    match obj {
        Json::Str(s) => Some(s.clone()),
        Json::Object(_) => match obj.get_str("id") {
            Some(s) => Some(s.to_owned()),
            None => None,
        },
        Json::Array(items) => {
            let ghost ids = jv_seq(items@).map_values(|x: JsonV| item_id(x));
            proof {
                lemma_jv_seq(items@);
                assert(spec_extract_object_id(activity@) == first_some(ids));
            }
            let mut i: usize = 0;
            while i < items.len()
                invariant
                    i <= items.len(),
                    ids == jv_seq(items@).map_values(|x: JsonV| item_id(x)),
                    spec_extract_object_id(activity@) == first_some(ids),
                    ids.len() == items@.len(),
                    forall|j: int| 0 <= j < items@.len() ==> #[trigger] ids[j] == item_id(jv(items@[j])),
                    forall|j: int| 0 <= j < i ==> (#[trigger] ids[j]) is None,
                decreases items.len() - i,
            {
                let r = item_id_exec(&items[i]);
                proof {
                    lemma_first_some_step(ids, i as int);
                }
                if r.is_some() {
                    return r;
                }
                i += 1;
            }
            proof {
                lemma_first_some_none(ids);
            }
            None
        },
        _ => None,
    }
}

/// A reference to an actor: a string, or the `id` member of an object.
pub open spec fn ref_id(v: JsonV) -> Option<Seq<char>> {
    match v {
        JsonV::Str(s) => Some(s),
        _ => jget_str(v, "id"@),
    }
}

fn ref_id_exec(v: &Json) -> (r: Option<String>)
    ensures
        match r {
            Some(s) => ref_id(v@) == Some(s@),
            None => ref_id(v@) is None,
        },
{
    match v {
        Json::Str(s) => Some(s.clone()),
        _ => match v.get_str("id") {
            Some(s) => Some(s.to_owned()),
            None => None,
        },
    }
}

/// The author of an object's `attributedTo`: a reference, or the first
/// reference found in an array.
pub open spec fn attributed_actor(at: JsonV) -> Option<Seq<char>> {
    match ref_id(at) {
        Some(s) => Some(s),
        None => match at {
            JsonV::Array(items) => first_some(items.map_values(|x: JsonV| ref_id(x))),
            _ => None,
        },
    }
}

/// The actor of an activity: its `actor` reference, else the author of its object.
pub open spec fn spec_extract_actor(a: JsonV) -> Option<Seq<char>> {
    let direct = match jget(a, "actor"@) {
        Some(x) => ref_id(x),
        None => None,
    };
    match direct {
        Some(s) => Some(s),
        None => match jget(a, "object"@) {
            None => None,
            Some(obj) => match jget(obj, "attributedTo"@) {
                None => None,
                Some(at) => attributed_actor(at),
            },
        },
    }
}

/// The actor of an activity (a string or an object's id), falling back to
/// the `attributedTo` of its object.
pub fn extract_actor(activity: &Json) -> (r: Option<String>)
    ensures
        match r {
            Some(s) => spec_extract_actor(activity@) == Some(s@),
            None => spec_extract_actor(activity@) is None,
        },
{
    if let Some(a) = activity.get("actor") {
        let d = ref_id_exec(a);
        if d.is_some() {
            return d;
        }
    }
    let obj = match activity.get("object") {
        Some(o) => o,
        None => return None,
    };
    let at = match obj.get("attributedTo") {
        Some(x) => x,
        None => return None,
    };
    let d = ref_id_exec(at);
    if d.is_some() {
        return d;
    }
    match at {
        Json::Array(items) => {
            let ghost ids = jv_seq(items@).map_values(|x: JsonV| ref_id(x));
            proof {
                lemma_jv_seq(items@);
                assert(spec_extract_actor(activity@) == first_some(ids));
            }
            let mut i: usize = 0;
            while i < items.len()
                invariant
                    i <= items.len(),
                    ids == jv_seq(items@).map_values(|x: JsonV| ref_id(x)),
                    spec_extract_actor(activity@) == first_some(ids),
                    ids.len() == items@.len(),
                    forall|j: int| 0 <= j < items@.len() ==> #[trigger] ids[j] == ref_id(jv(items@[j])),
                    forall|j: int| 0 <= j < i ==> (#[trigger] ids[j]) is None,
                decreases items.len() - i,
            {
                let r = ref_id_exec(&items[i]);
                proof {
                    lemma_first_some_step(ids, i as int);
                }
                if r.is_some() {
                    return r;
                }
                i += 1;
            }
            proof {
                lemma_first_some_none(ids);
            }
            None
        },
        _ => None,
    }
}

/// An actor document: its `type` is one of the ActivityStreams actor types.
pub open spec fn spec_is_actor_value(v: JsonV) -> bool {
    match jget_str(v, "type"@) {
        Some(t) => t == "Person"@ || t == "Service"@ || t == "Organization"@ || t == "Group"@
            || t == "Application"@,
        None => false,
    }
}

/// Whether a document is an actor (Person, Service, Organization, Group or Application).
pub fn is_actor_value(v: &Json) -> (r: bool)
    ensures
        r == spec_is_actor_value(v@),
{
    match v.get_str("type") {
        Some(t) => str_eq(t, "Person") || str_eq(t, "Service") || str_eq(t, "Organization")
            || str_eq(t, "Group") || str_eq(t, "Application"),
        None => false,
    }
}

/// `object.id` of an activity, when it is a string.
pub open spec fn spec_note_id_from_activity(v: JsonV) -> Option<Seq<char>> {
    match jget(v, "object"@) {
        Some(o) => jget_str(o, "id"@),
        None => None,
    }
}

/// The id of the note an activity carries.
pub fn note_id_from_activity(v: &Json) -> (r: Option<String>)
    ensures
        match r {
            Some(s) => spec_note_id_from_activity(v@) == Some(s@),
            None => spec_note_id_from_activity(v@) is None,
        },
{
    match v.get("object") {
        Some(o) => match o.get_str("id") {
            Some(s) => Some(s.to_owned()),
            None => None,
        },
        None => None,
    }
}

/// The activity with `t` added to its `cc`: appended to an array, or
/// replacing any other value with a one-element array.
pub open spec fn spec_add_cc(a: JsonV, t: Seq<char>) -> JsonV {
    match a {
        JsonV::Object(ps) => JsonV::Object(match jget(a, "cc"@) {
            Some(JsonV::Array(items)) => set_member(ps, "cc"@, JsonV::Array(items.push(JsonV::Str(t)))),
            _ => set_member(ps, "cc"@, JsonV::Array(seq![JsonV::Str(t)])),
        }),
        _ => a,
    }
}

fn array_plus(v: &Json, t: &str) -> (r: Json)
    requires
        v@ is Array,
    ensures
        r@ == JsonV::Array(v@->Array_0.push(JsonV::Str(t@))),
{
    let c = clone_json(v);
    match c {
        Json::Array(mut items) => {
            let ghost before = items@;
            items.push(json_str(t));
            assert(items@.drop_last() =~= before);
            Json::Array(items)
        },
        _ => Json::Null,
    }
}

/// The activity with `target` added to its `cc` (by value).
pub fn with_cc(activity: Json, target: &str) -> (r: Json)
    ensures
        r@ == spec_add_cc(activity@, target@),
{
    match activity {
        Json::Object(mut ps) => {
            let cc = match pairs_get(&ps, "cc") {
                Some(v) => if let Json::Array(_) = v {
                    array_plus(v, target)
                } else {
                    let mut one: Vec<Json> = Vec::new();
                    one.push(json_str(target));
                    proof {
                        lemma_jv_seq(one@);
                    }
                    assert(jv_seq(one@) =~= seq![JsonV::Str(target@)]);
                    Json::Array(one)
                },
                None => {
                    let mut one: Vec<Json> = Vec::new();
                    one.push(json_str(target));
                    proof {
                        lemma_jv_seq(one@);
                    }
                    assert(jv_seq(one@) =~= seq![JsonV::Str(target@)]);
                    Json::Array(one)
                },
            };
            pairs_set(&mut ps, "cc", cc);
            Json::Object(ps)
        },
        other => other,
    }
}

/// Adds `target` to an activity's `cc` (see `spec_add_cc`).
pub fn activity_add_cc(activity: &mut Json, target: &str)
    ensures
        final(activity)@ == spec_add_cc(old(activity)@, target@),
{
    let mut taken = Json::Null;
    std::mem::swap(&mut taken, activity);
    *activity = with_cc(taken, target);
}

/// The activity with `fedi3SearchSource` set, when it is an object.
pub open spec fn spec_set_search_source(v: JsonV, source: Seq<char>) -> JsonV {
    match v {
        JsonV::Object(ps) => JsonV::Object(set_member(ps, "fedi3SearchSource"@, JsonV::Str(source))),
        _ => v,
    }
}

/// Marks a search result with where it came from.
pub fn set_search_source(v: &mut Json, source: &str)
    ensures
        final(v)@ == spec_set_search_source(old(v)@, source@),
{
    let mut taken = Json::Null;
    std::mem::swap(&mut taken, v);
    *v = match taken {
        Json::Object(mut ps) => {
            pairs_set(&mut ps, "fedi3SearchSource", json_str(source));
            Json::Object(ps)
        },
        other => other,
    };
}

/// Why the outbox refuses an activity.
#[derive(PartialEq, Eq, Structural, Clone, Copy, Debug)]
pub enum OutboxError {
    /// The activity names another actor (403).
    ActorMismatch,
    /// An update or delete has no object (400).
    MissingObject,
    /// An update's object is not an object (400).
    InvalidObject,
    /// An update's object has no id (400).
    MissingObjectId,
    /// The object is not one of ours (403).
    NotOwner,
}

impl OutboxError {
    /// The HTTP status of the refusal.
    pub fn status(&self) -> (r: u16)
        ensures
            r == match self {
                OutboxError::ActorMismatch | OutboxError::NotOwner => 403u16,
                _ => 400u16,
            },
    {
        match self {
            OutboxError::ActorMismatch | OutboxError::NotOwner => 403,
            _ => 400,
        }
    }

    /// The message of the refusal.
    pub fn message(&self) -> (r: &'static str)
        ensures
            r@ == match self {
                OutboxError::ActorMismatch => "actor mismatch"@,
                OutboxError::MissingObject => "missing object"@,
                OutboxError::InvalidObject => "invalid object"@,
                OutboxError::MissingObjectId => "missing object id"@,
                OutboxError::NotOwner => "not owner"@,
            },
    {
        match self {
            OutboxError::ActorMismatch => "actor mismatch",
            OutboxError::MissingObject => "missing object",
            OutboxError::InvalidObject => "invalid object",
            OutboxError::MissingObjectId => "missing object id",
            OutboxError::NotOwner => "not owner",
        }
    }
}

/// The local actor's URL: the public base without trailing slashes, `/users/` and the name.
pub open spec fn spec_local_actor(base: Seq<char>, username: Seq<char>) -> Seq<char> {
    trim_end_char(base, '/') + "/users/"@ + username
}

/// The local actor's URL.
pub fn local_actor(base: &str, username: &str) -> (r: String)
    ensures
        r@ == spec_local_actor(base@, username@),
{
    let mut v = trim_end_char_chars(&str_chars(base), '/');
    append_str(&mut v, "/users/");
    append_str(&mut v, username);
    string_from_chars(&v)
}

/// An activity posted to the outbox, made ready to store: its actor checked
/// (or set to the local actor), the local followers added to `cc` of a
/// public activity that lacks them, and its id kept or set to `fallback_id`.
pub open spec fn spec_outbox_prepare(a: JsonV, base: Seq<char>, username: Seq<char>, fallback_id: Seq<char>) -> Result<(JsonV, Seq<char>), OutboxError> {
    let expected = spec_local_actor(base, username);
    let followers = expected + "/followers"@;
    match jget_str(a, "actor"@) {
        Some(act) if act != expected => Err(OutboxError::ActorMismatch),
        _ => {
            let a1 = match jget_str(a, "actor"@) {
                Some(_) => a,
                None => match a {
                    JsonV::Object(ps) => JsonV::Object(set_member(ps, "actor"@, JsonV::Str(expected))),
                    _ => a,
                },
            };
            let a2 = if spec_has_recipient(a1, AS_PUBLIC@) && !spec_has_recipient(a1, followers) {
                spec_add_cc(a1, followers)
            } else {
                a1
            };
            let id = match jget_str(a2, "id"@) {
                Some(i) => i,
                None => fallback_id,
            };
            let a3 = match a2 {
                JsonV::Object(ps) => JsonV::Object(set_member(ps, "id"@, JsonV::Str(id))),
                _ => a2,
            };
            Ok((a3, id))
        },
    }
}

/// Prepares an activity posted by the local user (see `spec_outbox_prepare`);
/// `fallback_id` is the id given to an activity that has none.
pub fn outbox_prepare(activity: Json, public_base_url: &str, username: &str, fallback_id: &str) -> (r: Result<(Json, String), OutboxError>)
    ensures
        match r {
            Ok((a, id)) => spec_outbox_prepare(activity@, public_base_url@, username@, fallback_id@) == Ok::<(JsonV, Seq<char>), OutboxError>((a@, id@)),
            Err(e) => spec_outbox_prepare(activity@, public_base_url@, username@, fallback_id@) == Err::<(JsonV, Seq<char>), OutboxError>(e),
        },
{
    let expected = local_actor(public_base_url, username);
    let mut followers_v = str_chars(expected.as_str());
    append_str(&mut followers_v, "/followers");
    let followers = string_from_chars(&followers_v);
    let has_actor = match activity.get_str("actor") {
        Some(act) => {
            if !str_eq(act, expected.as_str()) {
                return Err(OutboxError::ActorMismatch);
            }
            true
        },
        None => false,
    };
    let a1 = if has_actor {
        activity
    } else {
        match activity {
            Json::Object(mut ps) => {
                pairs_set(&mut ps, "actor", Json::Str(expected.clone()));
                Json::Object(ps)
            },
            other => other,
        }
    };
    let a2 = if is_public_activity(&a1) && !activity_has_recipient(&a1, followers.as_str()) {
        with_cc(a1, followers.as_str())
    } else {
        a1
    };
    let id = match a2.get_str("id") {
        Some(i) => i.to_owned(),
        None => fallback_id.to_owned(),
    };
    let a3 = match a2 {
        Json::Object(mut ps) => {
            pairs_set(&mut ps, "id", Json::Str(id.clone()));
            Json::Object(ps)
        },
        other => other,
    };
    Ok((a3, id))
}

/// The path part that marks an object as one of the local user's.
pub open spec fn local_objects_marker(username: Seq<char>) -> Seq<char> {
    "/users/"@ + username + "/objects/"@
}

/// The checks on a `Delete` posted to the outbox: the object's id must be
/// known and name one of the local user's objects.
pub open spec fn spec_outbox_delete_check(a: JsonV, username: Seq<char>) -> Result<Seq<char>, OutboxError> {
    let id = match spec_extract_object_id(a) {
        Some(i) => i,
        None => Seq::empty(),
    };
    if id.len() == 0 {
        Err(OutboxError::MissingObject)
    } else if !contains(id, local_objects_marker(username)) {
        Err(OutboxError::NotOwner)
    } else {
        Ok(id)
    }
}

/// Checks a `Delete` posted by the local user and gives the deleted object's id.
pub fn outbox_delete_check(activity: &Json, username: &str) -> (r: Result<String, OutboxError>)
    ensures
        match r {
            Ok(id) => spec_outbox_delete_check(activity@, username@) == Ok::<Seq<char>, OutboxError>(id@),
            Err(e) => spec_outbox_delete_check(activity@, username@) == Err::<Seq<char>, OutboxError>(e),
        },
{
    let id = match extract_object_id(activity) {
        Some(i) => i,
        None => String::new(),
    };
    if str_chars(id.as_str()).len() == 0 {
        return Err(OutboxError::MissingObject);
    }
    let mut marker = str_chars("/users/");
    append_str(&mut marker, username);
    append_str(&mut marker, "/objects/");
    let m = string_from_chars(&marker);
    if !str_contains(id.as_str(), m.as_str()) {
        return Err(OutboxError::NotOwner);
    }
    Ok(id)
}

/// The checks on the object of an `Update` posted to the outbox: it must be
/// an object with a non-blank id naming one of the local user's objects, and
/// its `attributedTo`, when a string, must be the local actor. Gives the id.
pub open spec fn spec_outbox_update_check(a: JsonV, base: Seq<char>, username: Seq<char>) -> Result<Seq<char>, OutboxError> {
    match jget(a, "object"@) {
        None => Err(OutboxError::MissingObject),
        Some(obj) => match obj {
            JsonV::Object(_) => {
                let id = match jget_str(obj, "id"@) {
                    Some(i) => trim(i),
                    None => Seq::empty(),
                };
                if id.len() == 0 {
                    Err(OutboxError::MissingObjectId)
                } else if !contains(id, local_objects_marker(username)) {
                    Err(OutboxError::NotOwner)
                } else {
                    match jget_str(obj, "attributedTo"@) {
                        Some(at) => if at != spec_local_actor(base, username) {
                            Err(OutboxError::NotOwner)
                        } else {
                            Ok(id)
                        },
                        None => Ok(id),
                    }
                }
            },
            _ => Err(OutboxError::InvalidObject),
        },
    }
}

/// An `Update` of one of the local user's objects (a non-blank id holding
/// `/users/{username}/objects/`) is accepted, with its trimmed id, when the
/// object's `attributedTo` is the local actor (the base without trailing
/// slashes, `/users/` and the name) or absent; a string `attributedTo` naming
/// anyone else is refused as not the owner's.
pub proof fn law_update_of_own_object(a: JsonV, base: Seq<char>, username: Seq<char>, obj: JsonV, raw_id: Seq<char>)
    requires
        jget(a, "object"@) == Some(obj),
        obj is Object,
        jget_str(obj, "id"@) == Some(raw_id),
        trim(raw_id).len() > 0,
        contains(trim(raw_id), "/users/"@ + username + "/objects/"@),
    ensures
        jget_str(obj, "attributedTo"@) == Some(trim_end_char(base, '/') + "/users/"@ + username)
            ==> spec_outbox_update_check(a, base, username) == Ok::<Seq<char>, OutboxError>(trim(raw_id)),
        jget_str(obj, "attributedTo"@) is None
            ==> spec_outbox_update_check(a, base, username) == Ok::<Seq<char>, OutboxError>(trim(raw_id)),
        (jget_str(obj, "attributedTo"@) matches Some(at) && at != trim_end_char(base, '/') + "/users/"@ + username)
            ==> spec_outbox_update_check(a, base, username) == Err::<Seq<char>, OutboxError>(OutboxError::NotOwner),
{
}

/// An `Update` with no object is refused as missing one; with an object
/// that is not a JSON object, as invalid; with an object whose id is absent,
/// not text or blank, as missing its id; with an id that is not one of the
/// local user's objects, as not the owner's.
pub proof fn law_update_refusals(a: JsonV, base: Seq<char>, username: Seq<char>, o: JsonV, i: Seq<char>)
    ensures
        jget(a, "object"@) is None
            ==> spec_outbox_update_check(a, base, username) == Err::<Seq<char>, OutboxError>(OutboxError::MissingObject),
        jget(a, "object"@) == Some(o) && !(o is Object)
            ==> spec_outbox_update_check(a, base, username) == Err::<Seq<char>, OutboxError>(OutboxError::InvalidObject),
        jget(a, "object"@) == Some(o) && o is Object && jget_str(o, "id"@) is None
            ==> spec_outbox_update_check(a, base, username) == Err::<Seq<char>, OutboxError>(OutboxError::MissingObjectId),
        jget(a, "object"@) == Some(o) && o is Object && jget_str(o, "id"@) == Some(i) && trim(i).len() == 0
            ==> spec_outbox_update_check(a, base, username) == Err::<Seq<char>, OutboxError>(OutboxError::MissingObjectId),
        jget(a, "object"@) == Some(o) && o is Object && jget_str(o, "id"@) == Some(i) && trim(i).len() > 0
            && !contains(trim(i), "/users/"@ + username + "/objects/"@)
            ==> spec_outbox_update_check(a, base, username) == Err::<Seq<char>, OutboxError>(OutboxError::NotOwner),
{
}

/// An activity posted to the outbox that names an actor other than the
/// local actor is refused; one that names the local actor, or none, is
/// accepted with the local actor as its actor and an id that is its own
/// string id, else the fallback, also written into it.
pub proof fn law_outbox_actor_and_id(ps: Seq<(Seq<char>, JsonV)>, base: Seq<char>, username: Seq<char>, fallback_id: Seq<char>)
    ensures
        (jget_str(JsonV::Object(ps), "actor"@) matches Some(act) && act != trim_end_char(base, '/') + "/users/"@ + username)
            ==> spec_outbox_prepare(JsonV::Object(ps), base, username, fallback_id)
                == Err::<(JsonV, Seq<char>), OutboxError>(OutboxError::ActorMismatch),
        (jget_str(JsonV::Object(ps), "actor"@) is None
            || jget_str(JsonV::Object(ps), "actor"@) == Some(trim_end_char(base, '/') + "/users/"@ + username))
            ==> match spec_outbox_prepare(JsonV::Object(ps), base, username, fallback_id) {
                Ok((out, id)) => {
                    &&& jget_str(out, "actor"@) == Some(trim_end_char(base, '/') + "/users/"@ + username)
                    &&& id == match jget_str(JsonV::Object(ps), "id"@) {
                        Some(i) => i,
                        None => fallback_id,
                    }
                    &&& jget_str(out, "id"@) == Some(id)
                },
                Err(_) => false,
            },
{
    reveal_strlit("actor");
    reveal_strlit("id");
    reveal_strlit("cc");
    assert("actor"@.len() == 5 && "id"@.len() == 2 && "cc"@.len() == 2);
    assert("cc"@ != "id"@) by { assert("cc"@[0] != "id"@[0]); }
    let expected = spec_local_actor(base, username);
    let followers = expected + "/followers"@;
    let a = JsonV::Object(ps);
    let a1 = match jget_str(a, "actor"@) {
        Some(_) => a,
        None => JsonV::Object(set_member(ps, "actor"@, JsonV::Str(expected))),
    };
    lemma_get_after_set(ps, "actor"@, JsonV::Str(expected), "actor"@);
    lemma_get_after_set(ps, "actor"@, JsonV::Str(expected), "id"@);
    let p1 = a1->Object_0;
    let cc_v = match jget(a1, "cc"@) {
        Some(JsonV::Array(items)) => JsonV::Array(items.push(JsonV::Str(followers))),
        _ => JsonV::Array(seq![JsonV::Str(followers)]),
    };
    lemma_get_after_set(p1, "cc"@, cc_v, "actor"@);
    lemma_get_after_set(p1, "cc"@, cc_v, "id"@);
    let a2 = if spec_has_recipient(a1, AS_PUBLIC@) && !spec_has_recipient(a1, followers) {
        spec_add_cc(a1, followers)
    } else {
        a1
    };
    let id = match jget_str(a2, "id"@) {
        Some(i) => i,
        None => fallback_id,
    };
    lemma_get_after_set(a2->Object_0, "id"@, JsonV::Str(id), "actor"@);
    lemma_get_after_set(a2->Object_0, "id"@, JsonV::Str(id), "id"@);
}

/// Deleting is allowed exactly for an object id naming one of the local
/// user's objects; with no object id it is refused as missing one.
pub proof fn law_delete_own_objects_only(a: JsonV, username: Seq<char>)
    ensures
        (spec_extract_object_id(a) matches Some(id) && id.len() > 0 && contains(id, "/users/"@ + username + "/objects/"@))
            ==> spec_outbox_delete_check(a, username) == Ok::<Seq<char>, OutboxError>(spec_extract_object_id(a)->Some_0),
        (spec_extract_object_id(a) matches Some(id) && id.len() > 0 && !contains(id, "/users/"@ + username + "/objects/"@))
            ==> spec_outbox_delete_check(a, username) == Err::<Seq<char>, OutboxError>(OutboxError::NotOwner),
        (spec_extract_object_id(a) is None || spec_extract_object_id(a) == Some(Seq::<char>::empty()))
            ==> spec_outbox_delete_check(a, username) == Err::<Seq<char>, OutboxError>(OutboxError::MissingObject),
{
}

/// Checks an `Update` posted by the local user and gives the updated object's id.
pub fn outbox_update_check(activity: &Json, public_base_url: &str, username: &str) -> (r: Result<String, OutboxError>)
    ensures
        match r {
            Ok(id) => spec_outbox_update_check(activity@, public_base_url@, username@) == Ok::<Seq<char>, OutboxError>(id@),
            Err(e) => spec_outbox_update_check(activity@, public_base_url@, username@) == Err::<Seq<char>, OutboxError>(e),
        },
{
    let obj = match activity.get("object") {
        Some(o) => o,
        None => return Err(OutboxError::MissingObject),
    };
    if !obj.is_object() {
        return Err(OutboxError::InvalidObject);
    }
    let id = match obj.get_str("id") {
        Some(i) => trim_chars(&str_chars(i)),
        None => Vec::new(),
    };
    assert(trim(Seq::<char>::empty()) =~= Seq::<char>::empty());
    if id.len() == 0 {
        return Err(OutboxError::MissingObjectId);
    }
    let mut marker = str_chars("/users/");
    append_str(&mut marker, username);
    append_str(&mut marker, "/objects/");
    if !crate::text::contains_chars(&id, &marker) {
        return Err(OutboxError::NotOwner);
    }
    match obj.get_str("attributedTo") {
        Some(at) => {
            let expected = local_actor(public_base_url, username);
            if !str_eq(at, expected.as_str()) {
                return Err(OutboxError::NotOwner);
            }
        },
        None => {},
    }
    Ok(string_from_chars(&id))
}

/// The id given to the object of a `Create` posted to the outbox: its own id
/// when it already names one of the local user's objects, otherwise one
/// derived from the activity id.
pub open spec fn spec_create_object_id(obj_id: Option<Seq<char>>, activity_id: Seq<u8>, base: Seq<char>, username: Seq<char>) -> Seq<char> {
    match obj_id {
        Some(i) if contains(i, local_objects_marker(username)) => i,
        _ => trim_end_char(base, '/') + "/users/"@ + username + "/objects/"@ + spec_short_hash(activity_id),
    }
}

/// The id of a created object (see `spec_create_object_id`).
pub fn create_object_id(obj_id: Option<&str>, activity_id: &str, public_base_url: &str, username: &str) -> (r: String)
    ensures
        r@ == spec_create_object_id(crate::urls::opt_view(obj_id), activity_id.spec_bytes(), public_base_url@, username@),
{
    let mut marker = str_chars("/users/");
    append_str(&mut marker, username);
    append_str(&mut marker, "/objects/");
    match obj_id {
        Some(i) => {
            if crate::text::contains_chars(&str_chars(i), &marker) {
                return i.to_owned();
            }
        },
        None => {},
    }
    let mut v = trim_end_char_chars(&str_chars(public_base_url), '/');
    append_str(&mut v, "/users/");
    append_str(&mut v, username);
    append_str(&mut v, "/objects/");
    let h = short_hash(activity_id);
    append_str(&mut v, h.as_str());
    string_from_chars(&v)
}

/// `ps` with member `k` set to `v` when it has none (`entry(k).or_insert(v)`).
pub open spec fn set_if_absent(ps: Seq<(Seq<char>, JsonV)>, k: Seq<char>, v: JsonV) -> Seq<(Seq<char>, JsonV)> {
    if find_key(ps, k) >= 0 { ps } else { set_member(ps, k, v) }
}

/// `ps` with member `k` set to `v`, when there is a `v` and `ps` has no `k`.
pub open spec fn set_opt_if_absent(ps: Seq<(Seq<char>, JsonV)>, k: Seq<char>, v: Option<JsonV>) -> Seq<(Seq<char>, JsonV)> {
    match v {
        Some(x) => set_if_absent(ps, k, x),
        None => ps,
    }
}

/// The object of a `Create` posted to the outbox, completed: its id set,
/// and where it has none, `attributedTo` the local actor, the activity's
/// `to` and `cc`, and `published` the posting time (when one is given).
pub open spec fn spec_complete_created(ps: Seq<(Seq<char>, JsonV)>, object_id: Seq<char>, actor: Seq<char>,
    to: Option<JsonV>, cc: Option<JsonV>, published: Option<Seq<char>>) -> Seq<(Seq<char>, JsonV)> {
    let p0 = set_member(ps, "id"@, JsonV::Str(object_id));
    let p1 = set_if_absent(p0, "attributedTo"@, JsonV::Str(actor));
    let p2 = set_opt_if_absent(p1, "to"@, to);
    let p3 = set_opt_if_absent(p2, "cc"@, cc);
    match published {
        Some(p) => set_if_absent(p3, "published"@, JsonV::Str(p)),
        None => p3,
    }
}

/// The object of an `Update` posted to the outbox (already checked by
/// `outbox_update_check`), completed: `attributedTo` the local actor when it
/// is not a string, and where it has none, `updated` the posting time (when
/// one is given) and the activity's `to` and `cc`.
pub open spec fn spec_complete_updated(ps: Seq<(Seq<char>, JsonV)>, actor: Seq<char>,
    to: Option<JsonV>, cc: Option<JsonV>, updated: Option<Seq<char>>) -> Seq<(Seq<char>, JsonV)> {
    let p1 = if jget_str(JsonV::Object(ps), "attributedTo"@) is Some {
        ps
    } else {
        set_member(ps, "attributedTo"@, JsonV::Str(actor))
    };
    let p2 = match updated {
        Some(u) => set_if_absent(p1, "updated"@, JsonV::Str(u)),
        None => p1,
    };
    set_opt_if_absent(set_opt_if_absent(p2, "to"@, to), "cc"@, cc)
}

fn put_if_absent(ps: &mut Vec<(String, Json)>, key: &str, v: Option<&Json>)
    ensures
        jv_pairs(final(ps)@) == set_opt_if_absent(jv_pairs(old(ps)@), key@, match v {
            Some(x) => Some(x@),
            None => None,
        }),
{
    match v {
        Some(x) => {
            if !pairs_contains(ps, key) {
                pairs_set(ps, key, clone_json(x));
            }
        },
        None => {},
    }
}

/// Completes the members of a created object (see `spec_complete_created`).
pub fn complete_created_object(obj: &mut Vec<(String, Json)>, object_id: &str, actor: &str, to: Option<&Json>,
    cc: Option<&Json>, published: Option<&str>)
    ensures
        jv_pairs(final(obj)@) == spec_complete_created(jv_pairs(old(obj)@), object_id@, actor@,
            match to { Some(x) => Some(x@), None => None },
            match cc { Some(x) => Some(x@), None => None },
            crate::urls::opt_view(published)),
{
    pairs_set(obj, "id", json_str(object_id));
    if !pairs_contains(obj, "attributedTo") {
        pairs_set(obj, "attributedTo", json_str(actor));
    }
    put_if_absent(obj, "to", to);
    put_if_absent(obj, "cc", cc);
    match published {
        Some(p) => {
            if !pairs_contains(obj, "published") {
                pairs_set(obj, "published", json_str(p));
            }
        },
        None => {},
    }
}

/// Completes the members of an updated object (see `spec_complete_updated`).
pub fn complete_updated_object(obj: &mut Vec<(String, Json)>, actor: &str, to: Option<&Json>,
    cc: Option<&Json>, updated: Option<&str>)
    ensures
        jv_pairs(final(obj)@) == spec_complete_updated(jv_pairs(old(obj)@), actor@,
            match to { Some(x) => Some(x@), None => None },
            match cc { Some(x) => Some(x@), None => None },
            crate::urls::opt_view(updated)),
{
    let has_attributed = match pairs_get(obj, "attributedTo") {
        Some(a) => a.as_str().is_some(),
        None => false,
    };
    if !has_attributed {
        pairs_set(obj, "attributedTo", json_str(actor));
    }
    match updated {
        Some(u) => {
            if !pairs_contains(obj, "updated") {
                pairs_set(obj, "updated", json_str(u));
            }
        },
        None => {},
    }
    put_if_absent(obj, "to", to);
    put_if_absent(obj, "cc", cc);
}

/// A recipient worth delivering to directly: an http(s) URL that is
/// neither the public collection nor a followers collection.
pub open spec fn recipient_ok(s: Seq<char>) -> bool {
    !contains(s, "activitystreams#Public"@) && !ends_with(s, "/followers"@)
        && (starts_with(s, "http://"@) || starts_with(s, "https://"@))
}

/// The acceptable recipients among `items`, in order.
pub open spec fn ok_recipients(items: Seq<JsonV>) -> Seq<Seq<char>>
    decreases items.len(),
{
    if items.len() == 0 {
        Seq::empty()
    } else {
        let r = ok_recipients(items.drop_last());
        match items.last() {
            JsonV::Str(s) => if recipient_ok(s) { r.push(s) } else { r },
            _ => r,
        }
    }
}

/// The acceptable recipients of an addressing field (a value or an array).
pub open spec fn field_recipients(v: Option<JsonV>) -> Seq<Seq<char>> {
    match v {
        None => Seq::empty(),
        Some(JsonV::Array(items)) => ok_recipients(items),
        Some(x) => ok_recipients(seq![x]),
    }
}

fn push_ok_recipients(out: &mut Vec<String>, v: &Json)
    ensures
        views(final(out)@) == views(old(out)@) + field_recipients(Some(v@)),
{
    let ghost start = views(out@);
    match v {
        Json::Array(items) => {
            proof {
                lemma_jv_seq(items@);
            }
            let ghost iv = jv_seq(items@);
            let mut i: usize = 0;
            while i < items.len()
                invariant
                    i <= items.len(),
                    iv == jv_seq(items@),
                    iv.len() == items@.len(),
                    forall|j: int| 0 <= j < items@.len() ==> #[trigger] iv[j] == jv(items@[j]),
                    views(out@) == start + ok_recipients(iv.take(i as int)),
                decreases items.len() - i,
            {
                assert(iv.take(i + 1).drop_last() =~= iv.take(i as int));
                assert(iv.take(i + 1).last() == jv(items@[i as int]));
                let ghost before = out@;
                if let Some(s) = items[i].as_str() {
                    if recipient_ok_exec(s) {
                        out.push(s.to_owned());
                        assert(views(out@) =~= views(before).push(s@));
                    }
                }
                i += 1;
            }
            assert(iv.take(i as int) =~= iv);
        },
        _ => {
            let ghost one = seq![v@];
            assert(ok_recipients(one) == match one.last() {
                JsonV::Str(s) => if recipient_ok(s) { ok_recipients(one.drop_last()).push(s) } else { ok_recipients(one.drop_last()) },
                _ => ok_recipients(one.drop_last()),
            });
            assert(one.drop_last() =~= Seq::<JsonV>::empty());
            let ghost before = out@;
            if let Some(s) = v.as_str() {
                if recipient_ok_exec(s) {
                    out.push(s.to_owned());
                    assert(views(out@) =~= views(before).push(s@));
                }
            }
            assert(views(out@) =~= start + field_recipients(Some(v@)));
        },
    }
}

fn recipient_ok_exec(s: &str) -> (r: bool)
    ensures
        r == recipient_ok(s@),
{
    !str_contains(s, "activitystreams#Public") && !str_ends_with(s, "/followers")
        && (str_starts_with(s, "http://") || str_starts_with(s, "https://"))
}

/// The actors an activity is addressed to by `to` and `cc` (strings or
/// arrays of strings): http(s) URLs other than the public and followers
/// collections, sorted and without duplicates.
pub fn collect_recipient_actors(to: Option<&Json>, cc: Option<&Json>) -> (r: Vec<String>)
    ensures
        sorted_strict(views(r@)),
        views(r@).to_set() == (field_recipients(match to { Some(v) => Some(v@), None => None })
            + field_recipients(match cc { Some(v) => Some(v@), None => None })).to_set(),
{
    let mut out: Vec<String> = Vec::new();
    assert(views(out@) =~= Seq::<Seq<char>>::empty());
    match to {
        Some(v) => push_ok_recipients(&mut out, v),
        None => {},
    }
    let ghost mid = views(out@);
    assert(mid =~= Seq::<Seq<char>>::empty() + field_recipients(match to { Some(v) => Some(v@), None => None }));
    match cc {
        Some(v) => push_ok_recipients(&mut out, v),
        None => {},
    }
    assert(views(out@) =~= field_recipients(match to { Some(v) => Some(v@), None => None })
        + field_recipients(match cc { Some(v) => Some(v@), None => None }));
    sort_dedup(out)
}

/// The strings of an addressing field: the string itself, or the strings of an array.
pub open spec fn field_strings(v: Option<JsonV>) -> Seq<Seq<char>> {
    match v {
        Some(JsonV::Str(s)) => seq![s],
        Some(JsonV::Array(items)) => strings_of(items),
        _ => Seq::empty(),
    }
}

/// The strings among `items`, in order.
pub open spec fn strings_of(items: Seq<JsonV>) -> Seq<Seq<char>>
    decreases items.len(),
{
    if items.len() == 0 {
        Seq::empty()
    } else {
        let r = strings_of(items.drop_last());
        match items.last() {
            JsonV::Str(s) => r.push(s),
            _ => r,
        }
    }
}

fn push_field_strings(out: &mut Vec<String>, v: Option<&Json>)
    ensures
        views(final(out)@) == views(old(out)@) + field_strings(match v { Some(x) => Some(x@), None => None }).filter(|s: Seq<char>| s != AS_PUBLIC@),
{
    let ghost start = views(out@);
    let ghost fs = field_strings(match v { Some(x) => Some(x@), None => None });
    match v {
        Some(Json::Str(s)) => {
            if !str_eq(s.as_str(), AS_PUBLIC) {
                out.push(s.clone());
            }
            assert(seq![s@].filter(|s: Seq<char>| s != AS_PUBLIC@) =~= (if s@ != AS_PUBLIC@ { seq![s@] } else { Seq::empty() })) by {
                assert(seq![s@].drop_last() =~= Seq::<Seq<char>>::empty());
                reveal_with_fuel(Seq::filter, 2);
            }
            assert(views(out@) =~= start + fs.filter(|s: Seq<char>| s != AS_PUBLIC@));
        },
        Some(Json::Array(items)) => {
            proof {
                lemma_jv_seq(items@);
            }
            let ghost iv = jv_seq(items@);
            let mut i: usize = 0;
            while i < items.len()
                invariant
                    i <= items.len(),
                    iv == jv_seq(items@),
                    iv.len() == items@.len(),
                    forall|j: int| 0 <= j < items@.len() ==> #[trigger] iv[j] == jv(items@[j]),
                    views(out@) == start + strings_of(iv.take(i as int)).filter(|s: Seq<char>| s != AS_PUBLIC@),
                decreases items.len() - i,
            {
                assert(iv.take(i + 1).drop_last() =~= iv.take(i as int));
                assert(iv.take(i + 1).last() == jv(items@[i as int]));
                let ghost before = out@;
                let ghost prev = strings_of(iv.take(i as int));
                if let Some(s) = items[i].as_str() {
                    assert(prev.push(s@).filter(|s: Seq<char>| s != AS_PUBLIC@) == (if s@ != AS_PUBLIC@ {
                        prev.filter(|s: Seq<char>| s != AS_PUBLIC@).push(s@)
                    } else {
                        prev.filter(|s: Seq<char>| s != AS_PUBLIC@)
                    })) by {
                        assert(prev.push(s@).drop_last() =~= prev);
                        reveal(Seq::filter);
                    }
                    if !str_eq(s, AS_PUBLIC) {
                        out.push(s.to_owned());
                        assert(views(out@) =~= views(before).push(s@));
                    }
                }
                i += 1;
            }
            assert(iv.take(i as int) =~= iv);
        },
        _ => {
            assert(fs.filter(|s: Seq<char>| s != AS_PUBLIC@) =~= Seq::<Seq<char>>::empty()) by {
                reveal(Seq::filter);
            }
            assert(views(out@) =~= start + fs.filter(|s: Seq<char>| s != AS_PUBLIC@));
        },
    }
}

/// The recipients named by an activity's `to` and `cc`, without the public
/// collection, sorted and without duplicates.
pub fn extract_recipients(activity: &Json) -> (r: Vec<String>)
    ensures
        sorted_strict(views(r@)),
        views(r@).to_set() == (field_strings(jget(activity@, "to"@)).filter(|s: Seq<char>| s != AS_PUBLIC@)
            + field_strings(jget(activity@, "cc"@)).filter(|s: Seq<char>| s != AS_PUBLIC@)).to_set(),
{
    let mut out: Vec<String> = Vec::new();
    assert(views(out@) =~= Seq::<Seq<char>>::empty());
    let to = activity.get("to");
    push_field_strings(&mut out, to);
    let ghost mid = views(out@);
    let cc = activity.get("cc");
    push_field_strings(&mut out, cc);
    proof {
        let f1 = field_strings(jget(activity@, "to"@)).filter(|s: Seq<char>| s != AS_PUBLIC@);
        let f2 = field_strings(jget(activity@, "cc"@)).filter(|s: Seq<char>| s != AS_PUBLIC@);
        assert(mid =~= Seq::<Seq<char>>::empty() + f1);
        assert(views(out@) =~= f1 + f2);
    }
    sort_dedup(out)
}

/// A `Mention` tag that names the local user, by actor URL or by handle
/// (with or without leading `@`).
pub open spec fn mention_matches(t: JsonV, me: Seq<char>, handle: Seq<char>) -> bool {
    jget_str(t, "type"@) == Some("Mention"@) && (jget_str(t, "href"@) == Some(me) || match jget_str(t, "name"@) {
        Some(n) => n == handle || trim_start_char(n, '@') == trim_start_char(handle, '@'),
        None => false,
    })
}

/// A created note that concerns the local user: a reply to a local object,
/// a mention, or content naming the handle.
pub open spec fn note_notifies(obj: JsonV, me: Seq<char>, handle: Seq<char>) -> bool {
    if jget_str(obj, "type"@) != Some("Note"@) {
        false
    } else if (match jget(obj, "inReplyTo"@) {
        Some(JsonV::Str(r)) => contains(r, "/users/"@) && contains(r, "/objects/"@),
        _ => false,
    }) {
        true
    } else if (match jget(obj, "tag"@) {
        Some(JsonV::Array(tags)) => exists|i: int| 0 <= i < tags.len() && mention_matches(#[trigger] tags[i], me, handle),
        _ => false,
    }) {
        true
    } else {
        match jget_str(obj, "content"@) {
            Some(c) => contains(c, handle),
            None => false,
        }
    }
}

/// Whether an inbox activity is a notification for the local user: follows,
/// accepts, rejects, boosts, likes and reactions always; a created note when
/// it concerns the user.
pub open spec fn spec_is_notification(a: JsonV, me: Seq<char>, handle: Seq<char>) -> bool {
    let ty = match jget_str(a, "type"@) {
        Some(t) => t,
        None => Seq::empty(),
    };
    if ty == "Follow"@ || ty == "Accept"@ || ty == "Reject"@ || ty == "Announce"@ || ty == "Like"@ || ty == "EmojiReact"@ {
        true
    } else if ty == "Create"@ {
        match jget(a, "object"@) {
            Some(JsonV::Object(ps)) => note_notifies(JsonV::Object(ps), me, handle),
            _ => false,
        }
    } else {
        false
    }
}

fn mention_matches_exec(t: &Json, me: &str, handle: &str) -> (r: bool)
    ensures
        r == mention_matches(t@, me@, handle@),
{
    match t.get_str("type") {
        Some(ty) => {
            if !str_eq(ty, "Mention") {
                return false;
            }
        },
        None => return false,
    }
    match t.get_str("href") {
        Some(h) => {
            if str_eq(h, me) {
                return true;
            }
        },
        None => {},
    }
    match t.get_str("name") {
        Some(n) => {
            if str_eq(n, handle) {
                return true;
            }
            let a = trim_start_char_chars(&str_chars(n), '@');
            let b = trim_start_char_chars(&str_chars(handle), '@');
            chars_eq(&a, &b)
        },
        None => false,
    }
}

/// Whether an activity in the inbox is a notification for the local user
/// (`me` is the local actor URL, `my_handle` its `@user@host` handle).
pub fn is_notification(activity: &Json, me_actor: &str, my_handle: &str) -> (r: bool)
    ensures
        r == spec_is_notification(activity@, me_actor@, my_handle@),
{
    let ty: &str = match activity.get_str("type") {
        Some(t) => t,
        None => "",
    };
    proof {
        reveal_strlit("");
    }
    assert(ty@ == match jget_str(activity@, "type"@) {
        Some(t) => t,
        None => Seq::empty(),
    });
    if str_eq(ty, "Follow") || str_eq(ty, "Accept") || str_eq(ty, "Reject") || str_eq(ty, "Announce")
        || str_eq(ty, "Like") || str_eq(ty, "EmojiReact") {
        return true;
    }
    if !str_eq(ty, "Create") {
        return false;
    }
    let obj = match activity.get("object") {
        Some(o) => o,
        None => return false,
    };
    if !obj.is_object() {
        return false;
    }
    match obj.get_str("type") {
        Some(t) => {
            if !str_eq(t, "Note") {
                return false;
            }
        },
        None => return false,
    }
    assert(jget(activity@, "object"@) == Some(obj@));
    if let Some(x) = obj.get("inReplyTo") {
        if let Json::Str(rt) = x {
            assert(x@ == JsonV::Str(rt@));
            if str_contains(rt.as_str(), "/users/") && str_contains(rt.as_str(), "/objects/") {
                assert(note_notifies(obj@, me_actor@, my_handle@));
                assert(spec_is_notification(activity@, me_actor@, my_handle@));
                return true;
            }
        }
    }
    match obj.get("tag") {
        Some(Json::Array(tags)) => {
            proof {
                lemma_jv_seq(tags@);
            }
            let ghost tv = jv_seq(tags@);
            assert((exists|j: int| 0 <= j < tv.len() && mention_matches(#[trigger] tv[j], me_actor@, my_handle@))
                ==> spec_is_notification(activity@, me_actor@, my_handle@));
            let mut i: usize = 0;
            while i < tags.len()
                invariant
                    i <= tags.len(),
                    tv == jv_seq(tags@),
                    (exists|j: int| 0 <= j < tv.len() && mention_matches(#[trigger] tv[j], me_actor@, my_handle@))
                        ==> spec_is_notification(activity@, me_actor@, my_handle@),
                    tv.len() == tags@.len(),
                    forall|j: int| 0 <= j < tags@.len() ==> #[trigger] tv[j] == jv(tags@[j]),
                    forall|j: int| 0 <= j < i ==> !mention_matches(#[trigger] tv[j], me_actor@, my_handle@),
                decreases tags.len() - i,
            {
                if mention_matches_exec(&tags[i], me_actor, my_handle) {
                    assert(mention_matches(tv[i as int], me_actor@, my_handle@));
                    return true;
                }
                i += 1;
            }
        },
        _ => {},
    }
    match obj.get_str("content") {
        Some(c) => str_contains(c, my_handle),
        None => false,
    }
}

/// A search result built from a note: a `Create` wrapping it, with id
/// `<note id>#search`; none for a note without a non-blank id.
pub open spec fn spec_activity_from_note(note: JsonV) -> Option<JsonV> {
    let id = match jget_str(note, "id"@) {
        Some(i) => i,
        None => Seq::empty(),
    };
    let actor = match (match jget(note, "attributedTo"@) {
        Some(v) => jstr(Some(v)),
        None => jget_str(note, "actor"@),
    }) {
        Some(a) => a,
        None => Seq::empty(),
    };
    if trim(id).len() == 0 {
        None
    } else {
        Some(JsonV::Object(seq![
            ("id"@, JsonV::Str(id + "#search"@)),
            ("type"@, JsonV::Str("Create"@)),
            ("actor"@, JsonV::Str(actor)),
            ("object"@, note),
        ]))
    }
}

/// Wraps a note found by search in a `Create` activity.
pub fn activity_from_note(note: &Json) -> (r: Option<Json>)
    ensures
        match r {
            Some(j) => spec_activity_from_note(note@) == Some(j@),
            None => spec_activity_from_note(note@) is None,
        },
{
    let id: &str = match note.get_str("id") {
        Some(i) => i,
        None => "",
    };
    proof {
        reveal_strlit("");
    }
    if trim_chars(&str_chars(id)).len() == 0 {
        return None;
    }
    let actor_opt = match note.get("attributedTo") {
        Some(v) => v.as_str(),
        None => note.get_str("actor"),
    };
    let actor: &str = match actor_opt {
        Some(a) => a,
        None => "",
    };
    let mut idv = str_chars(id);
    append_str(&mut idv, "#search");
    let mut ps: Vec<(String, Json)> = Vec::new();
    crate::report::push_member(&mut ps, "id", Json::Str(string_from_chars(&idv)));
    crate::report::push_member(&mut ps, "type", json_str("Create"));
    crate::report::push_member(&mut ps, "actor", json_str(actor));
    crate::report::push_member(&mut ps, "object", clone_json(note));
    assert(actor@ == match (match jget(note@, "attributedTo"@) {
        Some(v) => jstr(Some(v)),
        None => jget_str(note@, "actor"@),
    }) {
        Some(a) => a,
        None => Seq::empty(),
    });
    assert(jv_pairs(ps@) =~= seq![
        ("id"@, JsonV::Str(id@ + "#search"@)),
        ("type"@, JsonV::Str("Create"@)),
        ("actor"@, JsonV::Str(actor@)),
        ("object"@, note@),
    ]);
    Some(Json::Object(ps))
}

/// The id an inbox activity is deduplicated by: its trimmed id, or a
/// SHA-256 URN of its canonical serialization.
pub open spec fn spec_activity_dedup_id(a: JsonV, canonical: Seq<u8>) -> Seq<char> {
    let id = match jget_str(a, "id"@) {
        Some(i) => trim(i),
        None => Seq::empty(),
    };
    if id.len() > 0 {
        id
    } else {
        "urn:fedi3:inbox:"@ + hex_lower(sha256_of(canonical))
    }
}

/// The deduplication id of an inbox activity; `canonical` is the JSON
/// serialization of its canonical form (`canonjson::canonicalize_json`).
pub fn activity_dedup_id(activity: &Json, canonical: &[u8]) -> (r: String)
    ensures
        r@ == spec_activity_dedup_id(activity@, canonical@),
{
    if let Some(id) = activity.get_str("id") {
        let t = trim_chars(&str_chars(id));
        if t.len() > 0 {
            return string_from_chars(&t);
        }
    }
    let d = sha256(canonical);
    let mut v = str_chars("urn:fedi3:inbox:");
    push_hex(&mut v, d.as_slice());
    string_from_chars(&v)
}

} // verus!
