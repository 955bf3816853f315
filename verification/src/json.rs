//! JSON documents as the library holds them, with their mathematical view
//! and the lookups the ActivityPub logic makes on them.
use vstd::prelude::*;
use crate::text::str_eq;

verus! {

/// A JSON number as parsed: a non-negative integer, a negative integer,
/// or any other number kept as its decimal text.
#[derive(Debug)]
pub enum JsonNumber {
    PosInt(u64),
    NegInt(i64),
    Float(String),
}

/// A JSON value. An object keeps its members in order; a document read
/// from text holds each key at most once.
#[derive(Debug)]
pub enum Json {
    Null,
    Bool(bool),
    Number(JsonNumber),
    Str(String),
    Array(Vec<Json>),
    Object(Vec<(String, Json)>),
}

/// The mathematical value of a JSON document.
pub enum JsonV {
    Null,
    Bool(bool),
    PosInt(u64),
    NegInt(i64),
    Float(Seq<char>),
    Str(Seq<char>),
    Array(Seq<JsonV>),
    Object(Seq<(Seq<char>, JsonV)>),
}

pub open spec fn jv(j: Json) -> JsonV
    decreases j,
{
    match j {
        Json::Null => JsonV::Null,
        Json::Bool(b) => JsonV::Bool(b),
        Json::Number(JsonNumber::PosInt(n)) => JsonV::PosInt(n),
        Json::Number(JsonNumber::NegInt(n)) => JsonV::NegInt(n),
        Json::Number(JsonNumber::Float(s)) => JsonV::Float(s@),
        Json::Str(s) => JsonV::Str(s@),
        Json::Array(a) => JsonV::Array(jv_seq(a@)),
        Json::Object(o) => JsonV::Object(jv_pairs(o@)),
    }
}

pub open spec fn jv_seq(s: Seq<Json>) -> Seq<JsonV>
    decreases s,
{
    if s.len() == 0 {
        Seq::empty()
    } else {
        jv_seq(s.drop_last()).push(jv(s.last()))
    }
}

pub open spec fn jv_pairs(s: Seq<(String, Json)>) -> Seq<(Seq<char>, JsonV)>
    decreases s,
{
    if s.len() == 0 {
        Seq::empty()
    } else {
        jv_pairs(s.drop_last()).push((s.last().0@, jv(s.last().1)))
    }
}

impl View for Json {
    type V = JsonV;

    open spec fn view(&self) -> JsonV {
        jv(*self)
    }
}

pub broadcast proof fn lemma_jv_seq(s: Seq<Json>)
    ensures
        #[trigger] jv_seq(s).len() == s.len(),
        forall|i: int| 0 <= i < s.len() ==> #[trigger] jv_seq(s)[i] == jv(s[i]),
    decreases s.len(),
{
    if s.len() > 0 {
        lemma_jv_seq(s.drop_last());
        assert forall|i: int| 0 <= i < s.len() implies #[trigger] jv_seq(s)[i] == jv(s[i]) by {
            if i < s.len() - 1 {
                assert(s.drop_last()[i] == s[i]);
            }
        }
    }
}

pub broadcast proof fn lemma_jv_pairs(s: Seq<(String, Json)>)
    ensures
        #[trigger] jv_pairs(s).len() == s.len(),
        forall|i: int| 0 <= i < s.len() ==> #[trigger] jv_pairs(s)[i] == (s[i].0@, jv(s[i].1)),
    decreases s.len(),
{
    if s.len() > 0 {
        lemma_jv_pairs(s.drop_last());
        assert forall|i: int| 0 <= i < s.len() implies #[trigger] jv_pairs(s)[i] == (s[i].0@, jv(s[i].1)) by {
            if i < s.len() - 1 {
                assert(s.drop_last()[i] == s[i]);
            }
        }
    }
}

pub broadcast group group_json_view {
    lemma_jv_seq,
    lemma_jv_pairs,
}

/// The position of the first member named `k`, or -1.
pub open spec fn find_key(ps: Seq<(Seq<char>, JsonV)>, k: Seq<char>) -> int
    decreases ps.len(),
{
    if ps.len() == 0 {
        -1
    } else if ps[0].0 == k {
        0
    } else {
        let r = find_key(ps.drop_first(), k);
        if r < 0 {
            -1
        } else {
            r + 1
        }
    }
}

pub proof fn lemma_find_key(ps: Seq<(Seq<char>, JsonV)>, k: Seq<char>)
    ensures
        -1 <= find_key(ps, k) < ps.len(),
        find_key(ps, k) >= 0 ==> ps[find_key(ps, k)].0 == k,
        find_key(ps, k) >= 0 ==> forall|i: int| 0 <= i < find_key(ps, k) ==> (#[trigger] ps[i]).0 != k,
        find_key(ps, k) < 0 ==> forall|i: int| 0 <= i < ps.len() ==> (#[trigger] ps[i]).0 != k,
    decreases ps.len(),
{
    if ps.len() > 0 && ps[0].0 != k {
        let d = ps.drop_first();
        lemma_find_key(d, k);
        let f = find_key(d, k);
        if f >= 0 {
            assert(ps[f + 1] == d[f]);
            assert forall|i: int| 0 <= i < f + 1 implies (#[trigger] ps[i]).0 != k by {
                if i > 0 {
                    assert(ps[i] == d[i - 1]);
                }
            }
        } else {
            assert forall|i: int| 0 <= i < ps.len() implies (#[trigger] ps[i]).0 != k by {
                if i > 0 {
                    assert(ps[i] == d[i - 1]);
                }
            }
        }
    }
}

/// The member `k` of an object (`Value::get` with a key); `None` on anything else.
pub open spec fn jget(j: JsonV, k: Seq<char>) -> Option<JsonV> {
    match j {
        JsonV::Object(ps) => {
            let i = find_key(ps, k);
            if i >= 0 {
                Some(ps[i].1)
            } else {
                None
            }
        },
        _ => None,
    }
}

/// The text of a string value (`Value::as_str`).
pub open spec fn jstr(j: Option<JsonV>) -> Option<Seq<char>> {
    match j {
        Some(JsonV::Str(s)) => Some(s),
        _ => None,
    }
}

/// `Value::get(k).and_then(Value::as_str)`.
pub open spec fn jget_str(j: JsonV, k: Seq<char>) -> Option<Seq<char>> {
    jstr(jget(j, k))
}

impl Json {
    /// The member named `key`, when `self` is an object holding one (the first such member).
    pub fn get(&self, key: &str) -> (r: Option<&Json>)
        ensures
            match r {
                Some(x) => jget(self@, key@) == Some(x@),
                None => jget(self@, key@) is None,
            },
    {
        match self {
            Json::Object(ps) => pairs_get(ps, key),
            _ => None,
        }
    }

    /// The text of a string value.
    pub fn as_str(&self) -> (r: Option<&str>)
        ensures
            match r {
                Some(s) => self@ == JsonV::Str(s@),
                None => !(self@ is Str),
            },
    {
        match self {
            Json::Str(s) => Some(s.as_str()),
            _ => None,
        }
    }

    /// The member `key` as text, when it is a string.
    pub fn get_str(&self, key: &str) -> (r: Option<&str>)
        ensures
            match r {
                Some(s) => jget_str(self@, key@) == Some(s@),
                None => jget_str(self@, key@) is None,
            },
    {
        match self.get(key) {
            Some(v) => v.as_str(),
            None => None,
        }
    }

    /// Whether the value is an object.
    pub fn is_object(&self) -> (r: bool)
        ensures
            r == (self@ is Object),
    {
        match self {
            Json::Object(_) => true,
            _ => false,
        }
    }
}

/// The value of the first member named `key` among `ps`.
pub fn pairs_get<'a>(ps: &'a Vec<(String, Json)>, key: &str) -> (r: Option<&'a Json>)
    ensures
        match r {
            Some(x) => jget(JsonV::Object(jv_pairs(ps@)), key@) == Some(x@),
            None => jget(JsonV::Object(jv_pairs(ps@)), key@) is None,
        },
{
    let ghost pv = jv_pairs(ps@);
    proof {
        lemma_find_key(pv, key@);
        lemma_jv_pairs(ps@);
    }
    let mut i: usize = 0;
    while i < ps.len()
        invariant
            i <= ps.len(),
            pv == jv_pairs(ps@),
            pv.len() == ps@.len(),
            forall|j: int| 0 <= j < ps@.len() ==> #[trigger] pv[j] == (ps@[j].0@, jv(ps@[j].1)),
            forall|j: int| 0 <= j < i ==> (#[trigger] pv[j]).0 != key@,
        decreases ps.len() - i,
    {
        if str_eq(ps[i].0.as_str(), key) {
            proof {
                lemma_find_key(pv, key@);
                let f = find_key(pv, key@);
                assert(pv[i as int].0 == key@);
                if 0 <= f < i {
                    assert(pv[f].0 == key@);
                }
                assert(f == i);
            }
            return Some(&ps[i].1);
        }
        i += 1;
    }
    proof {
        lemma_find_key(pv, key@);
        let f = find_key(pv, key@);
        if f >= 0 {
            assert(pv[f].0 == key@);
        }
    }
    None
}

/// A deep copy of a JSON value.
pub fn clone_json(j: &Json) -> (r: Json)
    ensures
        r@ == j@,
    decreases j,
{
    match j {
        Json::Null => Json::Null,
        Json::Bool(b) => Json::Bool(*b),
        Json::Number(JsonNumber::PosInt(n)) => Json::Number(JsonNumber::PosInt(*n)),
        Json::Number(JsonNumber::NegInt(n)) => Json::Number(JsonNumber::NegInt(*n)),
        Json::Number(JsonNumber::Float(s)) => Json::Number(JsonNumber::Float(s.clone())),
        Json::Str(s) => Json::Str(s.clone()),
        Json::Array(a) => {
            let mut out: Vec<Json> = Vec::new();
            let mut i: usize = 0;
            while i < a.len()
                invariant
                    i <= a.len(),
                    *j == Json::Array(*a),
                    jv_seq(out@) == jv_seq(a@.take(i as int)),
                decreases a.len() - i,
            {
                proof {
                    vstd::std_specs::vec::axiom_vec_index_decreases(*a, i as int);
                    assert(decreases_to!(*j => (*j)->Array_0));
                    assert(decreases_to!(*j => a[i as int]));
                }
                let c = clone_json(&a[i]);
                let ghost before = out@;
                out.push(c);
                assert(out@.drop_last() == before);
                assert(a@.take(i + 1).drop_last() =~= a@.take(i as int));
                i += 1;
            }
            assert(a@.take(i as int) =~= a@);
            Json::Array(out)
        },
        Json::Object(o) => {
            let mut out: Vec<(String, Json)> = Vec::new();
            let mut i: usize = 0;
            while i < o.len()
                invariant
                    i <= o.len(),
                    *j == Json::Object(*o),
                    jv_pairs(out@) == jv_pairs(o@.take(i as int)),
                decreases o.len() - i,
            {
                let k = o[i].0.clone();
                proof {
                    vstd::std_specs::vec::axiom_vec_index_decreases(*o, i as int);
                    assert(decreases_to!(*j => (*j)->Object_0));
                    assert(decreases_to!(o[i as int] => o[i as int].1));
                    assert(decreases_to!(*j => o[i as int].1));
                }
                let c = clone_json(&o[i].1);
                let ghost before = out@;
                out.push((k, c));
                assert(out@.drop_last() == before);
                assert(o@.take(i + 1).drop_last() =~= o@.take(i as int));
                i += 1;
            }
            assert(o@.take(i as int) =~= o@);
            Json::Object(out)
        },
    }
}

/// A string value holding `s`.
pub fn json_str(s: &str) -> (r: Json)
    ensures
        r@ == JsonV::Str(s@),
{
    Json::Str(s.to_owned())
}

/// `ps` with member `k` set to `v`: replaced in place when present (its
/// first occurrence), appended otherwise (`Map::insert`).
pub open spec fn set_member(ps: Seq<(Seq<char>, JsonV)>, k: Seq<char>, v: JsonV) -> Seq<(Seq<char>, JsonV)> {
    let i = find_key(ps, k);
    if i >= 0 {
        ps.update(i, (k, v))
    } else {
        ps.push((k, v))
    }
}

/// The position of the first member named `key`.
pub fn pairs_index(ps: &Vec<(String, Json)>, key: &str) -> (r: Option<usize>)
    ensures
        match r {
            Some(i) => i < ps.len() && find_key(jv_pairs(ps@), key@) == i,
            None => find_key(jv_pairs(ps@), key@) < 0,
        },
{
    let ghost pv = jv_pairs(ps@);
    proof {
        lemma_find_key(pv, key@);
        lemma_jv_pairs(ps@);
    }
    let mut i: usize = 0;
    while i < ps.len()
        invariant
            i <= ps.len(),
            pv == jv_pairs(ps@),
            pv.len() == ps@.len(),
            forall|j: int| 0 <= j < ps@.len() ==> #[trigger] pv[j] == (ps@[j].0@, jv(ps@[j].1)),
            forall|j: int| 0 <= j < i ==> (#[trigger] pv[j]).0 != key@,
        decreases ps.len() - i,
    {
        if str_eq(ps[i].0.as_str(), key) {
            proof {
                lemma_find_key(pv, key@);
                let f = find_key(pv, key@);
                assert(pv[i as int].0 == key@);
                if 0 <= f < i {
                    assert(pv[f].0 == key@);
                }
            }
            return Some(i);
        }
        i += 1;
    }
    proof {
        lemma_find_key(pv, key@);
        let f = find_key(pv, key@);
        if f >= 0 {
            assert(pv[f].0 == key@);
        }
    }
    None
}

/// Sets member `key` of an object's members to `v` (`Map::insert`).
pub fn pairs_set(ps: &mut Vec<(String, Json)>, key: &str, v: Json)
    ensures
        jv_pairs(final(ps)@) == set_member(jv_pairs(old(ps)@), key@, v@),
{
    let ghost old_pv = jv_pairs(ps@);
    let ghost vv = v@;
    proof {
        lemma_jv_pairs(ps@);
    }
    match pairs_index(ps, key) {
        Some(i) => {
            ps.set(i, (key.to_owned(), v));
            proof {
                lemma_jv_pairs(ps@);
                assert(jv_pairs(ps@) =~= old_pv.update(i as int, (key@, vv)));
            }
        },
        None => {
            let ghost before = ps@;
            ps.push((key.to_owned(), v));
            assert(ps@.drop_last() =~= before);
        },
    }
}

/// Whether the members hold one named `key` (`Map::contains_key`).
pub fn pairs_contains(ps: &Vec<(String, Json)>, key: &str) -> (r: bool)
    ensures
        r == (find_key(jv_pairs(ps@), key@) >= 0),
{
    pairs_index(ps, key).is_some()
}

pub proof fn lemma_find_at(q: Seq<(Seq<char>, JsonV)>, k: Seq<char>, i: int)
    requires
        0 <= i < q.len(),
        q[i].0 == k,
        forall|j: int| 0 <= j < i ==> (#[trigger] q[j]).0 != k,
    ensures
        find_key(q, k) == i,
{
    lemma_find_key(q, k);
    let g = find_key(q, k);
    if g < 0 {
        assert(q[i].0 != k);
    } else if g < i {
        assert(q[g].0 == k);
    } else if g > i {
        assert(q[i].0 != k);
    }
}

pub proof fn lemma_find_none(q: Seq<(Seq<char>, JsonV)>, k: Seq<char>)
    requires
        forall|j: int| 0 <= j < q.len() ==> (#[trigger] q[j]).0 != k,
    ensures
        find_key(q, k) < 0,
{
    lemma_find_key(q, k);
    let g = find_key(q, k);
    if g >= 0 {
        assert(q[g].0 == k);
    }
}

pub proof fn lemma_get_after_set(ps: Seq<(Seq<char>, JsonV)>, k: Seq<char>, v: JsonV, k2: Seq<char>)
    ensures
        jget(JsonV::Object(set_member(ps, k, v)), k2) == (if k2 == k { Some(v) } else { jget(JsonV::Object(ps), k2) }),
{
    lemma_find_key(ps, k);
    lemma_find_key(ps, k2);
    let q = set_member(ps, k, v);
    let f = find_key(ps, k);
    let f2 = find_key(ps, k2);
    if k2 == k {
        if f >= 0 {
            lemma_find_at(q, k, f);
        } else {
            lemma_find_at(q, k, ps.len() as int);
        }
    } else if f2 >= 0 {
        assert forall|j: int| 0 <= j < f2 implies (#[trigger] q[j]).0 != k2 by {
            if f >= 0 && j == f {
            } else {
                assert(q[j] == ps[j]);
            }
        }
        if f >= 0 {
            assert(f != f2);
        }
        assert(q[f2] == ps[f2]);
        lemma_find_at(q, k2, f2);
    } else {
        assert forall|j: int| 0 <= j < q.len() implies (#[trigger] q[j]).0 != k2 by {
            if (f >= 0 && j == f) || j == ps.len() {
            } else {
                assert(q[j] == ps[j]);
            }
        }
        lemma_find_none(q, k2);
    }
}

pub proof fn lemma_get_after_push(ps: Seq<(Seq<char>, JsonV)>, k: Seq<char>, v: JsonV, k2: Seq<char>)
    requires
        k != k2,
    ensures
        jget(JsonV::Object(ps.push((k, v))), k2) == jget(JsonV::Object(ps), k2),
{
    lemma_find_key(ps, k2);
    let q = ps.push((k, v));
    let f2 = find_key(ps, k2);
    if f2 >= 0 {
        assert forall|j: int| 0 <= j < f2 implies (#[trigger] q[j]).0 != k2 by {
            assert(q[j] == ps[j]);
        }
        assert(q[f2] == ps[f2]);
        lemma_find_at(q, k2, f2);
    } else {
        assert forall|j: int| 0 <= j < q.len() implies (#[trigger] q[j]).0 != k2 by {
            if j < ps.len() {
                assert(q[j] == ps[j]);
            }
        }
        lemma_find_none(q, k2);
    }
}

} // verus!
