//! What an inbound activity does to the local state: which kind of activity
//! it is, which object it carries, and what follows, accepts, rejects and
//! undos mean for the local user.
use vstd::prelude::*;
use crate::json::{Json, JsonV, jv, jv_seq, jv_pairs, jget, jget_str, lemma_jv_seq, clone_json, json_str};
use crate::text::{trim, str_eq, str_chars, trim_chars, string_from_chars, append_str};
use crate::activity::{first_some, lemma_first_some_step, lemma_first_some_none, spec_extract_object_id, extract_object_id};
use crate::report::push_member;
use crate::digest::{spec_short_hash, short_hash};
use vstd::string::StringSliceAdditionalSpecFns;

verus! {

/// How the inbox handles an activity.
#[derive(PartialEq, Eq, Structural, Clone, Copy, Debug)]
pub enum InboxKind {
    /// Stored and indexed: Create, Update, Delete, Announce, Like, EmojiReact.
    Generic,
    Follow,
    Accept,
    Reject,
    Undo,
    /// Ignored.
    Other,
}

/// The `type` of an activity, or the empty string.
pub open spec fn type_of(a: JsonV) -> Seq<char> {
    match jget_str(a, "type"@) {
        Some(t) => t,
        None => Seq::empty(),
    }
}

pub open spec fn spec_inbox_kind(a: JsonV) -> InboxKind {
    let t = type_of(a);
    if t == "Create"@ || t == "Update"@ || t == "Delete"@ || t == "Announce"@ || t == "Like"@ || t == "EmojiReact"@ {
        InboxKind::Generic
    } else if t == "Follow"@ {
        InboxKind::Follow
    } else if t == "Accept"@ {
        InboxKind::Accept
    } else if t == "Reject"@ {
        InboxKind::Reject
    } else if t == "Undo"@ {
        InboxKind::Undo
    } else {
        InboxKind::Other
    }
}

fn type_str(a: &Json) -> (r: &str)
    ensures
        r@ == type_of(a@),
{
    let t: &str = match a.get_str("type") {
        Some(t) => t,
        None => "",
    };
    proof {
        reveal_strlit("");
    }
    t
}

/// Classifies an inbound activity by its type.
pub fn inbox_kind(activity: &Json) -> (r: InboxKind)
    ensures
        r == spec_inbox_kind(activity@),
{
    let t = type_str(activity);
    if str_eq(t, "Create") || str_eq(t, "Update") || str_eq(t, "Delete") || str_eq(t, "Announce")
        || str_eq(t, "Like") || str_eq(t, "EmojiReact") {
        InboxKind::Generic
    } else if str_eq(t, "Follow") {
        InboxKind::Follow
    } else if str_eq(t, "Accept") {
        InboxKind::Accept
    } else if str_eq(t, "Reject") {
        InboxKind::Reject
    } else if str_eq(t, "Undo") {
        InboxKind::Undo
    } else {
        InboxKind::Other
    }
}

/// An embedded object with a string id.
pub open spec fn object_entry(v: JsonV) -> Option<(Seq<char>, JsonV)> {
    match v {
        JsonV::Object(_) => match jget_str(v, "id"@) {
            Some(id) => Some((id, v)),
            None => None,
        },
        _ => None,
    }
}

/// The embedded object of an activity with its id: the object itself, or
/// the first object of an array that has a string id.
pub open spec fn spec_extract_object(a: JsonV) -> Option<(Seq<char>, JsonV)> {
    match jget(a, "object"@) {
        Some(JsonV::Object(ps)) => object_entry(JsonV::Object(ps)),
        Some(JsonV::Array(items)) => first_some(items.map_values(|x: JsonV| object_entry(x))),
        _ => None,
    }
}

fn object_entry_exec(v: &Json) -> (r: Option<(String, Json)>)
    ensures
        match r {
            Some((id, o)) => object_entry(v@) == Some((id@, o@)),
            None => object_entry(v@) is None,
        },
{
    if !v.is_object() {
        return None;
    }
    match v.get_str("id") {
        Some(id) => Some((id.to_owned(), clone_json(v))),
        None => None,
    }
}

/// The object an activity embeds, with its id (see `spec_extract_object`).
pub fn extract_object(activity: &Json) -> (r: Option<(String, Json)>)
    ensures
        match r {
            Some((id, o)) => spec_extract_object(activity@) == Some((id@, o@)),
            None => spec_extract_object(activity@) is None,
        },
{
    let obj = match activity.get("object") {
        Some(o) => o,
        None => return None,
    };
    match obj {
        Json::Object(_) => object_entry_exec(obj),
        Json::Array(items) => {
            let ghost es = jv_seq(items@).map_values(|x: JsonV| object_entry(x));
            proof {
                lemma_jv_seq(items@);
                assert(spec_extract_object(activity@) == first_some(es));
            }
            let mut i: usize = 0;
            while i < items.len()
                invariant
                    i <= items.len(),
                    es == jv_seq(items@).map_values(|x: JsonV| object_entry(x)),
                    spec_extract_object(activity@) == first_some(es),
                    es.len() == items@.len(),
                    forall|j: int| 0 <= j < items@.len() ==> #[trigger] es[j] == object_entry(jv(items@[j])),
                    forall|j: int| 0 <= j < i ==> (#[trigger] es[j]) is None,
                decreases items.len() - i,
            {
                let r = object_entry_exec(&items[i]);
                proof {
                    lemma_first_some_step(es, i as int);
                }
                if r.is_some() {
                    return r;
                }
                i += 1;
            }
            proof {
                lemma_first_some_none(es);
            }
            None
        },
        _ => None,
    }
}

/// The embedded object of a `Delete`, with its id and whether it is a tombstone.
pub open spec fn spec_extract_object_or_tombstone(a: JsonV) -> Option<(Seq<char>, JsonV, bool)> {
    match jget(a, "object"@) {
        Some(JsonV::Object(ps)) => match jget_str(JsonV::Object(ps), "id"@) {
            Some(id) => Some((id, JsonV::Object(ps), type_of(JsonV::Object(ps)) == "Tombstone"@)),
            None => None,
        },
        _ => None,
    }
}

/// The object a `Delete` embeds, with its id and whether it is a `Tombstone`.
pub fn extract_object_or_tombstone(activity: &Json) -> (r: Option<(String, Json, bool)>)
    ensures
        match r {
            Some((id, o, t)) => spec_extract_object_or_tombstone(activity@) == Some((id@, o@, t)),
            None => spec_extract_object_or_tombstone(activity@) is None,
        },
{
    let obj = match activity.get("object") {
        Some(o) => o,
        None => return None,
    };
    if !obj.is_object() {
        return None;
    }
    let id = match obj.get_str("id") {
        Some(i) => i.to_owned(),
        None => return None,
    };
    let t = str_eq(type_str(obj), "Tombstone");
    Some((id, clone_json(obj), t))
}

/// The note a created note replies to: the trimmed `inReplyTo` of a `Note`, when not blank.
pub open spec fn spec_reply_target(obj: JsonV) -> Option<Seq<char>> {
    if jget_str(obj, "type"@) == Some("Note"@) {
        match jget_str(obj, "inReplyTo"@) {
            Some(r) => if trim(r).len() > 0 { Some(trim(r)) } else { None },
            None => None,
        }
    } else {
        None
    }
}

/// What a created note replies to, for the reply index.
pub fn reply_target(obj: &Json) -> (r: Option<String>)
    ensures
        match r {
            Some(s) => spec_reply_target(obj@) == Some(s@),
            None => spec_reply_target(obj@) is None,
        },
{
    match obj.get_str("type") {
        Some(t) => {
            if !str_eq(t, "Note") {
                return None;
            }
        },
        None => return None,
    }
    match obj.get_str("inReplyTo") {
        Some(r) => {
            let t = trim_chars(&str_chars(r));
            if t.len() > 0 {
                Some(string_from_chars(&t))
            } else {
                None
            }
        },
        None => None,
    }
}

/// The id of an activity for UI events: its id, when not blank.
pub open spec fn spec_event_id(a: JsonV) -> Option<Seq<char>> {
    match jget_str(a, "id"@) {
        Some(i) => if trim(i).len() > 0 { Some(i) } else { None },
        None => None,
    }
}

/// The id reported with UI events about an activity.
pub fn event_id(activity: &Json) -> (r: Option<String>)
    ensures
        match r {
            Some(s) => spec_event_id(activity@) == Some(s@),
            None => spec_event_id(activity@) is None,
        },
{
    match activity.get_str("id") {
        Some(i) => if trim_chars(&str_chars(i)).len() > 0 {
            Some(i.to_owned())
        } else {
            None
        },
        None => None,
    }
}

/// The `actor` of an activity when a string, or the empty string.
pub open spec fn actor_str(a: JsonV) -> Seq<char> {
    match jget_str(a, "actor"@) {
        Some(s) => s,
        None => Seq::empty(),
    }
}

fn actor_str_exec(a: &Json) -> (r: &str)
    ensures
        r@ == actor_str(a@),
{
    let s: &str = match a.get_str("actor") {
        Some(s) => s,
        None => "",
    };
    proof {
        reveal_strlit("");
    }
    s
}

/// A boost, like or reaction to record.
pub struct ReactionPlan {
    pub actor: String,
    pub object_id: String,
    /// The reaction's id and its trimmed content, when it has a non-empty id.
    pub record: Option<(String, Option<String>)>,
}

/// A reaction needs an actor and an object id; it is recorded under its own
/// id when that is not empty, with its trimmed content when not blank.
pub open spec fn spec_reaction_plan(a: JsonV) -> Option<(Seq<char>, Seq<char>, Option<(Seq<char>, Option<Seq<char>>)>)> {
    let actor = actor_str(a);
    if actor.len() == 0 {
        None
    } else {
        match spec_extract_object_id(a) {
            None => None,
            Some(obj) => {
                let id = match jget_str(a, "id"@) {
                    Some(i) => i,
                    None => Seq::empty(),
                };
                let content = match jget_str(a, "content"@) {
                    Some(c) => if trim(c).len() > 0 { Some(trim(c)) } else { None },
                    None => None,
                };
                Some((actor, obj, if id.len() > 0 { Some((id, content)) } else { None }))
            },
        }
    }
}

/// A boost, like or reaction from a non-empty actor `who` on the object
/// with id `obj` is recorded for `who` on `obj`; it is kept under its own id
/// `id` when that is non-empty, with its content trimmed when that is not
/// blank; a reaction without a sender records nothing.
pub proof fn law_reaction_of_actor_on_object(a: JsonV, who: Seq<char>, obj: Seq<char>, id: Seq<char>)
    requires
        jget_str(a, "actor"@) == Some(who),
        who.len() > 0,
        spec_extract_object_id(a) == Some(obj),
    ensures
        (spec_reaction_plan(a) matches Some((x, o, _)) && x == who && o == obj),
        jget_str(a, "id"@) == Some(id) && id.len() > 0 ==> (spec_reaction_plan(a) matches Some((_, _, Some((i, c))))
            && i == id
            && c == (match jget_str(a, "content"@) {
                Some(t) => if trim(t).len() > 0 { Some(trim(t)) } else { None },
                None => None,
            })),
        (jget_str(a, "id"@) is None || jget_str(a, "id"@) == Some(Seq::<char>::empty()))
            ==> (spec_reaction_plan(a) matches Some((_, _, None))),
{
}

/// An activity whose `actor` is not a non-empty string records no reaction.
pub proof fn law_reaction_needs_actor(a: JsonV)
    requires
        !(jget_str(a, "actor"@) matches Some(s) && s.len() > 0),
    ensures
        spec_reaction_plan(a) is None,
{
}

pub open spec fn reaction_view(p: ReactionPlan) -> (Seq<char>, Seq<char>, Option<(Seq<char>, Option<Seq<char>>)>) {
    (p.actor@, p.object_id@, match p.record {
        Some((i, c)) => Some((i@, match c { Some(x) => Some(x@), None => None })),
        None => None,
    })
}

/// What a boost, like or reaction records.
pub fn reaction_plan(activity: &Json) -> (r: Option<ReactionPlan>)
    ensures
        match r {
            Some(p) => spec_reaction_plan(activity@) == Some(reaction_view(p)),
            None => spec_reaction_plan(activity@) is None,
        },
{
    let actor = actor_str_exec(activity);
    if str_chars(actor).len() == 0 {
        return None;
    }
    let obj = match extract_object_id(activity) {
        Some(o) => o,
        None => return None,
    };
    let id: &str = match activity.get_str("id") {
        Some(i) => i,
        None => "",
    };
    proof {
        reveal_strlit("");
    }
    let content = match activity.get_str("content") {
        Some(c) => {
            let t = trim_chars(&str_chars(c));
            if t.len() > 0 { Some(string_from_chars(&t)) } else { None }
        },
        None => None,
    };
    let record = if str_chars(id).len() > 0 { Some((id.to_owned(), content)) } else { None };
    Some(ReactionPlan { actor: actor.to_owned(), object_id: obj, record })
}

/// A follow request addressed to the local actor `me`: its actor, and its id when a string.
pub open spec fn spec_follow_request(a: JsonV, me: Seq<char>) -> Option<(Seq<char>, Option<Seq<char>>)> {
    let actor = actor_str(a);
    let object = match jget_str(a, "object"@) {
        Some(o) => o,
        None => Seq::empty(),
    };
    if actor.len() == 0 || object != me {
        None
    } else {
        Some((actor, jget_str(a, "id"@)))
    }
}

/// A `Follow` whose actor is a non-empty string `who` and whose object is
/// the local actor `me` is a request from `who`: the follower is the
/// follow's actor (never its object), carried with the follow's id; a
/// follow of any other account is no request of ours.
pub proof fn law_follow_request_from_actor(a: JsonV, me: Seq<char>, who: Seq<char>)
    requires
        jget_str(a, "actor"@) == Some(who),
        who.len() > 0,
    ensures
        jget_str(a, "object"@) == Some(me)
            ==> spec_follow_request(a, me) == Some((who, jget_str(a, "id"@))),
        jget_str(a, "object"@) is Some && jget_str(a, "object"@) != Some(me)
            ==> spec_follow_request(a, me) is None,
{
}

/// The follower and follow id of a `Follow` of the local actor `me`.
pub fn follow_request(activity: &Json, me: &str) -> (r: Option<(String, Option<String>)>)
    ensures
        match r {
            Some((who, follow_id)) => spec_follow_request(activity@, me@) == Some((who@, match follow_id { Some(f) => Some(f@), None => None })),
            None => spec_follow_request(activity@, me@) is None,
        },
{
    let actor = actor_str_exec(activity);
    let object: &str = match activity.get_str("object") {
        Some(o) => o,
        None => "",
    };
    proof {
        reveal_strlit("");
    }
    assert(object@ == match jget_str(activity@, "object"@) {
        Some(o) => o,
        None => Seq::<char>::empty(),
    });
    let empty_actor = str_chars(actor).len() == 0;
    let same = str_eq(object, me);
    if empty_actor || !same {
        assert(spec_follow_request(activity@, me@) is None);
        return None;
    }
    let fid = match activity.get_str("id") {
        Some(f) => Some(f.to_owned()),
        None => None,
    };
    Some((actor.to_owned(), fid))
}

/// The `Accept` answering a follow.
pub open spec fn spec_build_accept(accept_id: Seq<char>, me: Seq<char>, follow: JsonV, actor: Seq<char>) -> JsonV {
    JsonV::Object(seq![
        ("@context"@, JsonV::Str("https://www.w3.org/ns/activitystreams"@)),
        ("id"@, JsonV::Str(accept_id)),
        ("type"@, JsonV::Str("Accept"@)),
        ("actor"@, JsonV::Str(me)),
        ("object"@, follow),
        ("to"@, JsonV::Array(seq![JsonV::Str(actor)])),
    ])
}

/// The `Accept` the local actor `me` sends to `actor` for its `follow`.
pub fn build_accept(accept_id: &str, me: &str, follow: &Json, actor: &str) -> (r: Json)
    ensures
        r@ == spec_build_accept(accept_id@, me@, follow@, actor@),
{
    let mut to: Vec<Json> = Vec::new();
    to.push(json_str(actor));
    proof {
        lemma_jv_seq(to@);
    }
    assert(jv_seq(to@) =~= seq![JsonV::Str(actor@)]);
    let mut ps: Vec<(String, Json)> = Vec::new();
    push_member(&mut ps, "@context", json_str("https://www.w3.org/ns/activitystreams"));
    push_member(&mut ps, "id", json_str(accept_id));
    push_member(&mut ps, "type", json_str("Accept"));
    push_member(&mut ps, "actor", json_str(me));
    push_member(&mut ps, "object", clone_json(follow));
    push_member(&mut ps, "to", Json::Array(to));
    assert(jv_pairs(ps@) =~= seq![
        ("@context"@, JsonV::Str("https://www.w3.org/ns/activitystreams"@)),
        ("id"@, JsonV::Str(accept_id@)),
        ("type"@, JsonV::Str("Accept"@)),
        ("actor"@, JsonV::Str(me@)),
        ("object"@, follow@),
        ("to"@, JsonV::Array(seq![JsonV::Str(actor@)])),
    ]);
    Json::Object(ps)
}

/// What an `Accept` or `Reject` refers to.
pub enum FollowAnswer {
    /// It answers the local actor's follow of this actor.
    OurFollow(String),
    /// It carries no follow: its sender's pending follow, if any, is the one answered.
    NotAFollow,
    /// It answers someone else's follow, or names no one.
    Ignore,
}

/// What an `Accept`/`Reject` whose (resolved) object is `obj` answers.
pub open spec fn spec_follow_answer(obj: JsonV, me: Seq<char>) -> Option<Option<Seq<char>>> {
    if type_of(obj) != "Follow"@ {
        None
    } else {
        let obj_actor = actor_str(obj);
        let obj_object = match jget_str(obj, "object"@) {
            Some(o) => o,
            None => Seq::empty(),
        };
        if obj_actor != me || obj_object.len() == 0 {
            Some(None)
        } else {
            Some(Some(obj_object))
        }
    }
}

/// An `Accept`/`Reject` of a `Follow` whose actor is the local actor and
/// whose object is a non-empty string `o` answers our follow of `o`: the
/// followed account is the follow's object, never its actor.
pub proof fn law_answer_names_followed_account(obj: JsonV, me: Seq<char>, o: Seq<char>)
    requires
        jget_str(obj, "type"@) == Some("Follow"@),
        jget_str(obj, "actor"@) == Some(me),
        jget_str(obj, "object"@) == Some(o),
        o.len() > 0,
    ensures
        spec_follow_answer(obj, me) == Some(Some(o)),
{
}

/// Whatever follow an answer names is the follow's object.
pub proof fn law_answered_follow_is_object(obj: JsonV, me: Seq<char>, t: Seq<char>)
    requires
        spec_follow_answer(obj, me) == Some(Some(t)),
    ensures
        jget_str(obj, "object"@) == Some(t),
        me.len() > 0 ==> jget_str(obj, "actor"@) == Some(me),
{
}

/// An answer whose object is not a `Follow` carries no follow; one whose
/// `Follow` was made by someone other than the local actor is ignored.
pub proof fn law_answer_other_follows(obj: JsonV, me: Seq<char>)
    ensures
        jget_str(obj, "type"@) != Some("Follow"@) ==> spec_follow_answer(obj, me) is None,
        jget_str(obj, "type"@) == Some("Follow"@) && me.len() > 0 && jget_str(obj, "actor"@) != Some(me)
            ==> spec_follow_answer(obj, me) == Some(None::<Seq<char>>),
{
    reveal_strlit("Follow");
    assert("Follow"@.len() > 0);
}

/// Which follow an `Accept` or `Reject` answers; `obj` is its object, resolved
/// when it was given by id (`Null` when it could not be).
pub fn follow_answer(obj: &Json, me: &str) -> (r: FollowAnswer)
    ensures
        match r {
            FollowAnswer::OurFollow(t) => spec_follow_answer(obj@, me@) == Some(Some(t@)),
            FollowAnswer::NotAFollow => spec_follow_answer(obj@, me@) is None,
            FollowAnswer::Ignore => spec_follow_answer(obj@, me@) == Some(None::<Seq<char>>),
        },
{
    if !str_eq(type_str(obj), "Follow") {
        return FollowAnswer::NotAFollow;
    }
    let obj_actor = actor_str_exec(obj);
    let obj_object: &str = match obj.get_str("object") {
        Some(o) => o,
        None => "",
    };
    proof {
        reveal_strlit("");
    }
    if !str_eq(obj_actor, me) || str_chars(obj_object).len() == 0 {
        return FollowAnswer::Ignore;
    }
    FollowAnswer::OurFollow(obj_object.to_owned())
}

/// What an `Undo` undoes.
pub enum UndoPlan {
    /// Only an id is known: drop the reaction with this id, and the follow
    /// with this id when the inbox recorded it from the same actor.
    ById(String),
    /// The actor's follow of the local actor (with the follow's id, when a string).
    Follow(Option<String>),
    /// The reaction with this id.
    Reaction(String),
    Nothing,
}

pub open spec fn spec_undo_plan(obj: JsonV, actor: Seq<char>, me: Seq<char>) -> UndoPlanV {
    match obj {
        JsonV::Str(id) => UndoPlanV::ById(id),
        _ => {
            let t = type_of(obj);
            if t == "Follow"@ {
                let obj_object = match jget_str(obj, "object"@) {
                    Some(o) => o,
                    None => Seq::empty(),
                };
                if actor.len() == 0 || actor_str(obj) != actor || obj_object != me {
                    UndoPlanV::Nothing
                } else {
                    UndoPlanV::Follow(jget_str(obj, "id"@))
                }
            } else if t == "Like"@ || t == "Announce"@ {
                let id = match jget_str(obj, "id"@) {
                    Some(i) => i,
                    None => Seq::empty(),
                };
                if id.len() > 0 { UndoPlanV::Reaction(id) } else { UndoPlanV::Nothing }
            } else {
                UndoPlanV::Nothing
            }
        },
    }
}

/// The view of an undo plan.
pub enum UndoPlanV {
    ById(Seq<char>),
    Follow(Option<Seq<char>>),
    Reaction(Seq<char>),
    Nothing,
}

pub open spec fn undo_view(p: UndoPlan) -> UndoPlanV {
    match p {
        UndoPlan::ById(i) => UndoPlanV::ById(i@),
        UndoPlan::Follow(f) => UndoPlanV::Follow(match f { Some(x) => Some(x@), None => None }),
        UndoPlan::Reaction(i) => UndoPlanV::Reaction(i@),
        UndoPlan::Nothing => UndoPlanV::Nothing,
    }
}

/// Undoing a `Like` or an `Announce` given as an object with a non-empty
/// string id removes the reaction with that id, whoever sent it: likes and
/// boosts are undone alike.
pub proof fn law_undo_like_or_boost(obj: JsonV, actor: Seq<char>, me: Seq<char>, id: Seq<char>)
    requires
        !(obj is Str),
        jget_str(obj, "type"@) == Some("Like"@) || jget_str(obj, "type"@) == Some("Announce"@),
        jget_str(obj, "id"@) == Some(id),
        id.len() > 0,
    ensures
        spec_undo_plan(obj, actor, me) == UndoPlanV::Reaction(id),
{
    reveal_strlit("Like");
    reveal_strlit("Announce");
    reveal_strlit("Follow");
    assert("Like"@.len() == 4 && "Announce"@.len() == 8 && "Follow"@.len() == 6);
    assert("Like"@ != "Follow"@);
    assert("Announce"@ != "Follow"@);
}

/// Undoing by id alone drops whatever has that id; undoing a `Follow` of
/// the local actor made by the undo's own (non-empty) sender drops that
/// follow (with its id when it has one); a `Follow` by anyone else, or of
/// anyone else, undoes nothing.
pub proof fn law_undo_follow_and_ids(obj: JsonV, actor: Seq<char>, me: Seq<char>)
    ensures
        obj matches JsonV::Str(id) ==> spec_undo_plan(obj, actor, me) == UndoPlanV::ById(id),
        !(obj is Str) && jget_str(obj, "type"@) == Some("Follow"@) && actor.len() > 0
            && jget_str(obj, "actor"@) == Some(actor) && jget_str(obj, "object"@) == Some(me)
            ==> spec_undo_plan(obj, actor, me) == UndoPlanV::Follow(jget_str(obj, "id"@)),
        !(obj is Str) && jget_str(obj, "type"@) == Some("Follow"@)
            && (jget_str(obj, "actor"@) != Some(actor) || jget_str(obj, "object"@) != Some(me))
            && !(actor.len() == 0 && jget_str(obj, "actor"@) is None)
            && !(me.len() == 0 && jget_str(obj, "object"@) is None)
            ==> spec_undo_plan(obj, actor, me) == UndoPlanV::Nothing,
{
}

/// What an `Undo` from `actor` undoes; `obj` is its object, resolved when it
/// was given by id (kept as the id when it could not be).
pub fn undo_plan(obj: &Json, actor: &str, me: &str) -> (r: UndoPlan)
    ensures
        undo_view(r) == spec_undo_plan(obj@, actor@, me@),
{
    if let Json::Str(id) = obj {
        return UndoPlan::ById(id.clone());
    }
    assert(!(obj@ is Str));
    let t = type_str(obj);
    if str_eq(t, "Follow") {
        let obj_object: &str = match obj.get_str("object") {
            Some(o) => o,
            None => "",
        };
        proof {
            reveal_strlit("");
        }
        assert(obj_object@ == match jget_str(obj@, "object"@) {
            Some(o) => o,
            None => Seq::<char>::empty(),
        });
        let oa = actor_str_exec(obj);
        let no_actor = str_chars(actor).len() == 0;
        let same_actor = str_eq(oa, actor);
        let to_me = str_eq(obj_object, me);
        if no_actor || !same_actor || !to_me {
            return UndoPlan::Nothing;
        }
        let fid = match obj.get_str("id") {
            Some(f) => Some(f.to_owned()),
            None => None,
        };
        return UndoPlan::Follow(fid);
    }
    if str_eq(t, "Like") || str_eq(t, "Announce") {
        let id: &str = match obj.get_str("id") {
            Some(i) => i,
            None => "",
        };
        proof {
            reveal_strlit("");
        }
        if str_chars(id).len() > 0 {
            return UndoPlan::Reaction(id.to_owned());
        }
        return UndoPlan::Nothing;
    }
    UndoPlan::Nothing
}

/// The persistent quota key of a signing key, an actor or a host: `day:`,
/// the kind, `:` and the fingerprint.
pub open spec fn spec_quota_key(kind: Seq<char>, s: Seq<u8>) -> Seq<char> {
    "day:"@ + kind + ":"@ + spec_short_hash(s)
}

/// The daily quota key for `s` of the given kind (`key`, `actor` or `host`).
pub fn quota_key(kind: &str, s: &str) -> (r: String)
    ensures
        r@ == spec_quota_key(kind@, s.spec_bytes()),
{
    let mut v = str_chars("day:");
    append_str(&mut v, kind);
    append_str(&mut v, ":");
    let h = short_hash(s);
    append_str(&mut v, h.as_str());
    string_from_chars(&v)
}

/// How the inbox answers once it has tried to mark an activity's
/// deduplication id as seen (`None`: the store failed).
#[derive(PartialEq, Eq, Structural, Clone, Copy, Debug)]
pub enum SeenAnswer {
    /// The id was new: the activity is processed.
    Process,
    /// The id had been seen: answered `202 duplicate`, nothing processed.
    Duplicate,
    /// The store failed: answered `502 db error`.
    StoreError,
}

impl SeenAnswer {
    /// The HTTP status answered without processing, if any.
    pub fn status(&self) -> (r: Option<u16>)
        ensures
            r == match self {
                SeenAnswer::Process => None,
                SeenAnswer::Duplicate => Some(202u16),
                SeenAnswer::StoreError => Some(502u16),
            },
    {
        match self {
            SeenAnswer::Process => None,
            SeenAnswer::Duplicate => Some(202),
            SeenAnswer::StoreError => Some(502),
        }
    }
}

/// The answer to marking an activity seen: new ids are processed, seen ones
/// are duplicates, and a failed store is an error.
pub fn seen_answer(marked_new: Option<bool>) -> (r: SeenAnswer)
    ensures
        r == match marked_new {
            Some(true) => SeenAnswer::Process,
            Some(false) => SeenAnswer::Duplicate,
            None => SeenAnswer::StoreError,
        },
{
    match marked_new {
        Some(true) => SeenAnswer::Process,
        Some(false) => SeenAnswer::Duplicate,
        None => SeenAnswer::StoreError,
    }
}

/// The checks the inbox makes on a delivery, in the order it makes them.
#[derive(PartialEq, Eq, Structural, Clone, Copy, Debug)]
pub enum InboxGate {
    /// The sender's address is within its rate limit.
    IpRate,
    /// A `Digest` header, when present, matches the body.
    Digest,
    /// The `Date` header is recent enough.
    Date,
    /// A `Signature` header is present.
    SignaturePresent,
    /// The `Signature` header parses.
    SignatureParsed,
    /// The signing key id is not temporarily blocked.
    KeyNotBlocked,
    /// The signing key id is within its rate limit.
    KeyRate,
    /// The signed headers make a signing string.
    SignedHeaders,
    /// The key id resolves to an actor and its public key.
    KeyResolved,
    /// The signature verifies under that key.
    SignatureValid,
    /// The actor is not temporarily blocked.
    ActorNotBlocked,
    /// The actor is not blocked by the local user.
    ActorAllowed,
    /// The actor is within its rate limit.
    ActorRate,
    /// The key id is within its daily quota.
    KeyQuota,
    /// The actor is within its daily quota.
    ActorQuota,
    /// The actor's host is within its daily quota.
    HostQuota,
    /// The body is a JSON activity.
    ValidJson,
}

/// What the inbox does after a check.
#[derive(PartialEq, Eq, Structural, Clone, Copy, Debug)]
pub enum InboxStep {
    /// Make this check next.
    Check(InboxGate),
    /// Answer with this status and stop.
    Refuse(u16),
    /// Every check passed: deduplicate and process the activity.
    Process,
}

/// The status the inbox answers when a check fails.
pub open spec fn gate_status(g: InboxGate) -> u16 {
    match g {
        InboxGate::IpRate | InboxGate::KeyNotBlocked | InboxGate::KeyRate | InboxGate::ActorNotBlocked
        | InboxGate::ActorRate | InboxGate::KeyQuota | InboxGate::ActorQuota | InboxGate::HostQuota => 429,
        InboxGate::ActorAllowed => 403,
        InboxGate::ValidJson => 400,
        _ => 401,
    }
}

/// The check after `g`, or none after the last.
pub open spec fn gate_after(g: InboxGate) -> Option<InboxGate> {
    match g {
        InboxGate::IpRate => Some(InboxGate::Digest),
        InboxGate::Digest => Some(InboxGate::Date),
        InboxGate::Date => Some(InboxGate::SignaturePresent),
        InboxGate::SignaturePresent => Some(InboxGate::SignatureParsed),
        InboxGate::SignatureParsed => Some(InboxGate::KeyNotBlocked),
        InboxGate::KeyNotBlocked => Some(InboxGate::KeyRate),
        InboxGate::KeyRate => Some(InboxGate::SignedHeaders),
        InboxGate::SignedHeaders => Some(InboxGate::KeyResolved),
        InboxGate::KeyResolved => Some(InboxGate::SignatureValid),
        InboxGate::SignatureValid => Some(InboxGate::ActorNotBlocked),
        InboxGate::ActorNotBlocked => Some(InboxGate::ActorAllowed),
        InboxGate::ActorAllowed => Some(InboxGate::ActorRate),
        InboxGate::ActorRate => Some(InboxGate::KeyQuota),
        InboxGate::KeyQuota => Some(InboxGate::ActorQuota),
        InboxGate::ActorQuota => Some(InboxGate::HostQuota),
        InboxGate::HostQuota => Some(InboxGate::ValidJson),
        InboxGate::ValidJson => None,
    }
}

/// The step after check `g` passed or failed: a failed check is answered
/// with its status; a passed one leads to the next check, or to processing
/// after the last.
pub open spec fn spec_inbox_next(g: InboxGate, passed: bool) -> InboxStep {
    if !passed {
        InboxStep::Refuse(gate_status(g))
    } else {
        match gate_after(g) {
            Some(n) => InboxStep::Check(n),
            None => InboxStep::Process,
        }
    }
}

impl InboxGate {
    /// The check the inbox makes first.
    pub fn first() -> (r: InboxGate)
        ensures
            r == InboxGate::IpRate,
    {
        InboxGate::IpRate
    }

    /// What follows this check (see `spec_inbox_next`).
    pub fn next(self, passed: bool) -> (r: InboxStep)
        ensures
            r == spec_inbox_next(self, passed),
    {
        if !passed {
            let status: u16 = match self {
                InboxGate::IpRate | InboxGate::KeyNotBlocked | InboxGate::KeyRate | InboxGate::ActorNotBlocked
                | InboxGate::ActorRate | InboxGate::KeyQuota | InboxGate::ActorQuota | InboxGate::HostQuota => 429,
                InboxGate::ActorAllowed => 403,
                InboxGate::ValidJson => 400,
                _ => 401,
            };
            return InboxStep::Refuse(status);
        }
        match self {
            InboxGate::IpRate => InboxStep::Check(InboxGate::Digest),
            InboxGate::Digest => InboxStep::Check(InboxGate::Date),
            InboxGate::Date => InboxStep::Check(InboxGate::SignaturePresent),
            InboxGate::SignaturePresent => InboxStep::Check(InboxGate::SignatureParsed),
            InboxGate::SignatureParsed => InboxStep::Check(InboxGate::KeyNotBlocked),
            InboxGate::KeyNotBlocked => InboxStep::Check(InboxGate::KeyRate),
            InboxGate::KeyRate => InboxStep::Check(InboxGate::SignedHeaders),
            InboxGate::SignedHeaders => InboxStep::Check(InboxGate::KeyResolved),
            InboxGate::KeyResolved => InboxStep::Check(InboxGate::SignatureValid),
            InboxGate::SignatureValid => InboxStep::Check(InboxGate::ActorNotBlocked),
            InboxGate::ActorNotBlocked => InboxStep::Check(InboxGate::ActorAllowed),
            InboxGate::ActorAllowed => InboxStep::Check(InboxGate::ActorRate),
            InboxGate::ActorRate => InboxStep::Check(InboxGate::KeyQuota),
            InboxGate::KeyQuota => InboxStep::Check(InboxGate::ActorQuota),
            InboxGate::ActorQuota => InboxStep::Check(InboxGate::HostQuota),
            InboxGate::HostQuota => InboxStep::Check(InboxGate::ValidJson),
            InboxGate::ValidJson => InboxStep::Process,
        }
    }

    /// Whether a failure of this check counts as a strike against the key
    /// id, and against the actor.
    pub fn strikes(self) -> (r: (bool, bool))
        ensures
            r == (if self == InboxGate::KeyResolved {
                (true, false)
            } else if self == InboxGate::SignatureValid {
                (true, true)
            } else {
                (false, false)
            }),
    {
        match self {
            InboxGate::KeyResolved => (true, false),
            InboxGate::SignatureValid => (true, true),
            _ => (false, false),
        }
    }
}

/// The outcome of running the checks from `g` on with the outcomes given in
/// order (one per check made).
pub open spec fn inbox_run(g: InboxGate, outcomes: Seq<bool>) -> InboxStep
    decreases outcomes.len(),
{
    if outcomes.len() == 0 {
        InboxStep::Check(g)
    } else {
        match spec_inbox_next(g, outcomes[0]) {
            InboxStep::Check(n) => inbox_run(n, outcomes.drop_first()),
            other => other,
        }
    }
}

/// The inbox processes a delivery only after all seventeen checks passed,
/// and answers a delivery whose `k`-th check is the first to fail with that
/// check's status, having made no later check.
pub proof fn law_inbox_checks_in_order(outcomes: Seq<bool>)
    requires
        outcomes.len() == 17,
    ensures
        (inbox_run(InboxGate::IpRate, outcomes) == InboxStep::Process) <==> (forall|i: int| 0 <= i < 17 ==> #[trigger] outcomes[i]),
        forall|k: int| 0 <= k < 17 && !outcomes[k] && (forall|i: int| 0 <= i < k ==> #[trigger] outcomes[i])
            ==> #[trigger] inbox_run(InboxGate::IpRate, outcomes) == InboxStep::Refuse(gate_status(gate_order()[k])),
{
    lemma_inbox_run_from(0, outcomes);
    assert(outcomes.skip(0) =~= outcomes);
    assert(gate_order()[0] == InboxGate::IpRate);
}

/// The checks in order.
pub open spec fn gate_order() -> Seq<InboxGate> {
    seq![InboxGate::IpRate, InboxGate::Digest, InboxGate::Date, InboxGate::SignaturePresent, InboxGate::SignatureParsed,
        InboxGate::KeyNotBlocked, InboxGate::KeyRate, InboxGate::SignedHeaders, InboxGate::KeyResolved,
        InboxGate::SignatureValid, InboxGate::ActorNotBlocked, InboxGate::ActorAllowed, InboxGate::ActorRate,
        InboxGate::KeyQuota, InboxGate::ActorQuota, InboxGate::HostQuota, InboxGate::ValidJson]
}

proof fn lemma_inbox_run_from(j: int, outcomes: Seq<bool>)
    requires
        0 <= j <= 17,
        outcomes.len() == 17,
    ensures
        j < 17 ==> ((inbox_run(gate_order()[j], outcomes.skip(j)) == InboxStep::Process) <==> (forall|i: int| j <= i < 17 ==> #[trigger] outcomes[i])),
        j < 17 ==> forall|k: int| j <= k < 17 && !outcomes[k] && (forall|i: int| j <= i < k ==> #[trigger] outcomes[i])
            ==> #[trigger] inbox_run(gate_order()[j], outcomes.skip(j)) == InboxStep::Refuse(gate_status(gate_order()[k])),
    decreases 17 - j,
{
    if j < 17 {
        let g = gate_order()[j];
        let rest = outcomes.skip(j);
        assert(rest[0] == outcomes[j]);
        assert(rest.drop_first() =~= outcomes.skip(j + 1));
        lemma_inbox_run_from(j + 1, outcomes);
        if j < 16 {
            assert(gate_after(g) == Some(gate_order()[j + 1]));
        } else {
            assert(gate_after(g) is None);
        }
    }
}

} // verus!
