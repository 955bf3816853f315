//! The canonical form of a JSON value: every object's members sorted by key
//! (a later member replacing an earlier one of the same key, as a map
//! does), recursively, so that equal documents serialize to equal bytes.
use vstd::prelude::*;
use crate::json::{Json, JsonV, JsonNumber, jv, jv_seq, jv_pairs, group_json_view};
use crate::order::{lex_lt, compare_chars, lemma_lex_irrefl};
use crate::text::str_chars;

verus! {

/// `kv` put in its place among members kept in key order: before the first
/// member whose key does not sort before its own, replacing that member
/// when the keys are equal.
pub open spec fn insert_member(acc: Seq<(Seq<char>, JsonV)>, kv: (Seq<char>, JsonV)) -> Seq<(Seq<char>, JsonV)>
    decreases acc.len(),
{
    if acc.len() == 0 {
        seq![kv]
    } else if acc[0].0 == kv.0 {
        seq![kv] + acc.drop_first()
    } else if lex_lt(acc[0].0, kv.0) {
        seq![acc[0]] + insert_member(acc.drop_first(), kv)
    } else {
        seq![kv] + acc
    }
}

/// The canonical form of a JSON value.
pub open spec fn canon(j: JsonV) -> JsonV
    decreases j, 2int,
{
    match j {
        JsonV::Array(s) => JsonV::Array(canon_seq(s)),
        JsonV::Object(ps) => JsonV::Object(canon_members(ps)),
        _ => j,
    }
}

/// The canonical form of each element.
pub open spec fn canon_seq(s: Seq<JsonV>) -> Seq<JsonV>
    decreases s, 1int,
{
    if s.len() == 0 {
        Seq::empty()
    } else {
        canon_seq(s.drop_last()).push(canon(s.last()))
    }
}

/// The members of an object in key order, each value in canonical form.
pub open spec fn canon_members(ps: Seq<(Seq<char>, JsonV)>) -> Seq<(Seq<char>, JsonV)>
    decreases ps, 1int,
{
    if ps.len() == 0 {
        Seq::empty()
    } else {
        insert_member(canon_members(ps.drop_last()), (ps.last().0, canon(ps.last().1)))
    }
}

proof fn lemma_insert_member_at(acc: Seq<(Seq<char>, JsonV)>, kv: (Seq<char>, JsonV), p: int)
    requires
        0 <= p <= acc.len(),
        forall|j: int| 0 <= j < p ==> lex_lt(#[trigger] acc[j].0, kv.0),
        p < acc.len() ==> !lex_lt(acc[p].0, kv.0),
    ensures
        insert_member(acc, kv) == (if p < acc.len() && acc[p].0 == kv.0 {
            acc.update(p, kv)
        } else {
            acc.insert(p, kv)
        }),
    decreases p,
{
    if p == 0 {
        if acc.len() > 0 && acc[0].0 == kv.0 {
            assert(seq![kv] + acc.drop_first() =~= acc.update(0, kv));
        } else {
            assert(seq![kv] + acc =~= acc.insert(0, kv));
            if acc.len() > 0 {
                assert(acc[0].0 != kv.0);
            }
        }
    } else {
        let rest = acc.drop_first();
        assert(lex_lt(acc[0].0, kv.0));
        lemma_lex_irrefl(kv.0);
        assert(acc[0].0 != kv.0);
        assert forall|j: int| 0 <= j < p - 1 implies lex_lt(#[trigger] rest[j].0, kv.0) by {
            assert(rest[j] == acc[j + 1]);
        }
        lemma_insert_member_at(rest, kv, p - 1);
        if p < acc.len() && acc[p].0 == kv.0 {
            assert(seq![acc[0]] + rest.update(p - 1, kv) =~= acc.update(p, kv));
        } else {
            assert(seq![acc[0]] + rest.insert(p - 1, kv) =~= acc.insert(p, kv));
        }
    }
}

/// Member keys strictly increasing (so also free of duplicates).
pub open spec fn keys_sorted(ps: Seq<(Seq<char>, JsonV)>) -> bool {
    forall|i: int, j: int| 0 <= i < j < ps.len() ==> lex_lt(#[trigger] ps[i].0, #[trigger] ps[j].0)
}

proof fn lemma_insert_member_sorted(acc: Seq<(Seq<char>, JsonV)>, kv: (Seq<char>, JsonV))
    requires
        keys_sorted(acc),
    ensures
        keys_sorted(insert_member(acc, kv)),
        forall|i: int| 0 <= i < insert_member(acc, kv).len() ==> #[trigger] insert_member(acc, kv)[i] == kv
            || acc.contains(insert_member(acc, kv)[i]),
    decreases acc.len(),
{
    let r = insert_member(acc, kv);
    if acc.len() == 0 {
    } else if acc[0].0 == kv.0 {
        assert forall|i: int, j: int| 0 <= i < j < r.len() implies lex_lt(#[trigger] r[i].0, #[trigger] r[j].0) by {
            if i == 0 {
                assert(lex_lt(acc[0].0, acc[j].0));
            } else {
                assert(lex_lt(acc[i].0, acc[j].0));
            }
        }
        assert forall|i: int| 0 <= i < r.len() implies #[trigger] r[i] == kv || acc.contains(r[i]) by {
            if i > 0 {
                assert(r[i] == acc[i]);
            }
        }
    } else if lex_lt(acc[0].0, kv.0) {
        let rest = acc.drop_first();
        assert forall|i: int, j: int| 0 <= i < j < rest.len() implies lex_lt(#[trigger] rest[i].0, #[trigger] rest[j].0) by {
            assert(lex_lt(acc[i + 1].0, acc[j + 1].0));
        }
        lemma_insert_member_sorted(rest, kv);
        let t = insert_member(rest, kv);
        assert(r == seq![acc[0]] + t);
        assert forall|i: int| 0 <= i < r.len() implies #[trigger] r[i] == kv || acc.contains(r[i]) by {
            if i > 0 {
                assert(r[i] == t[i - 1]);
                if t[i - 1] != kv {
                    let w = choose|w: int| 0 <= w < rest.len() && rest[w] == t[i - 1];
                    assert(acc[w + 1] == r[i]);
                }
            } else {
                assert(acc[0] == r[0]);
            }
        }
        assert forall|i: int, j: int| 0 <= i < j < r.len() implies lex_lt(#[trigger] r[i].0, #[trigger] r[j].0) by {
            if i == 0 {
                assert(r[j] == t[j - 1]);
                if t[j - 1] != kv {
                    let w = choose|w: int| 0 <= w < rest.len() && rest[w] == t[j - 1];
                    assert(lex_lt(acc[0].0, acc[w + 1].0));
                }
            } else {
                assert(r[i] == t[i - 1] && r[j] == t[j - 1]);
            }
        }
    } else {
        crate::order::lemma_lex_total(acc[0].0, kv.0);
        assert forall|i: int, j: int| 0 <= i < j < r.len() implies lex_lt(#[trigger] r[i].0, #[trigger] r[j].0) by {
            if i == 0 {
                if j > 1 {
                    assert(lex_lt(acc[0].0, acc[j - 1].0));
                    crate::order::lemma_lex_trans(kv.0, acc[0].0, acc[j - 1].0);
                }
            } else {
                assert(lex_lt(acc[i - 1].0, acc[j - 1].0));
            }
        }
        assert forall|i: int| 0 <= i < r.len() implies #[trigger] r[i] == kv || acc.contains(r[i]) by {
            if i > 0 {
                assert(r[i] == acc[i - 1]);
            }
        }
    }
}

proof fn lemma_canon_members_sorted(ps: Seq<(Seq<char>, JsonV)>)
    ensures
        keys_sorted(canon_members(ps)),
    decreases ps.len(),
{
    if ps.len() > 0 {
        lemma_canon_members_sorted(ps.drop_last());
        lemma_insert_member_sorted(canon_members(ps.drop_last()), (ps.last().0, canon(ps.last().1)));
    }
}

/// The canonical form of an object lists its member keys in strictly
/// increasing order, each key once.
pub proof fn law_canonical_keys_sorted(ps: Seq<(Seq<char>, JsonV)>)
    ensures
        canon(JsonV::Object(ps)) matches JsonV::Object(qs) && keys_sorted(qs),
{
    lemma_canon_members_sorted(ps);
}

proof fn lemma_canon_seq_index(s: Seq<JsonV>)
    ensures
        canon_seq(s).len() == s.len(),
        forall|i: int| 0 <= i < s.len() ==> #[trigger] canon_seq(s)[i] == canon(s[i]),
    decreases s.len(),
{
    if s.len() > 0 {
        lemma_canon_seq_index(s.drop_last());
        assert forall|i: int| 0 <= i < s.len() implies #[trigger] canon_seq(s)[i] == canon(s[i]) by {
            if i < s.len() - 1 {
                assert(s.drop_last()[i] == s[i]);
            }
        }
    }
}

proof fn lemma_canon_members_from(ps: Seq<(Seq<char>, JsonV)>)
    ensures
        forall|i: int| 0 <= i < canon_members(ps).len() ==> exists|t: int| 0 <= t < ps.len()
            && #[trigger] canon_members(ps)[i] == (ps[t].0, canon(ps[t].1)),
    decreases ps.len(),
{
    if ps.len() > 0 {
        let prev = canon_members(ps.drop_last());
        let kv = (ps.last().0, canon(ps.last().1));
        lemma_canon_members_from(ps.drop_last());
        lemma_canon_members_sorted(ps.drop_last());
        lemma_insert_member_sorted(prev, kv);
        let r = canon_members(ps);
        assert forall|i: int| 0 <= i < r.len() implies exists|t: int| 0 <= t < ps.len()
            && #[trigger] r[i] == (ps[t].0, canon(ps[t].1)) by {
            if r[i] == kv {
                assert(r[i] == (ps[ps.len() - 1].0, canon(ps[ps.len() - 1].1)));
            } else {
                let w = choose|w: int| 0 <= w < prev.len() && prev[w] == r[i];
                let t = choose|t: int| 0 <= t < ps.drop_last().len() && #[trigger] prev[w] == (ps.drop_last()[t].0, canon(ps.drop_last()[t].1));
                assert(r[i] == (ps[t].0, canon(ps[t].1)));
            }
        }
    }
}

proof fn lemma_canon_members_fixed(q: Seq<(Seq<char>, JsonV)>)
    requires
        keys_sorted(q),
        forall|i: int| 0 <= i < q.len() ==> canon(#[trigger] q[i].1) == q[i].1,
    ensures
        canon_members(q) == q,
    decreases q.len(),
{
    if q.len() > 0 {
        let d = q.drop_last();
        assert forall|i: int, j: int| 0 <= i < j < d.len() implies lex_lt(#[trigger] d[i].0, #[trigger] d[j].0) by {
            assert(lex_lt(q[i].0, q[j].0));
        }
        assert forall|i: int| 0 <= i < d.len() implies canon(#[trigger] d[i].1) == d[i].1 by {
            assert(d[i] == q[i]);
        }
        lemma_canon_members_fixed(d);
        assert(canon(q.last().1) == q.last().1);
        assert forall|j: int| 0 <= j < d.len() implies lex_lt(#[trigger] d[j].0, q.last().0) by {
            assert(lex_lt(q[j].0, q[q.len() - 1].0));
        }
        lemma_insert_member_at(d, q.last(), d.len() as int);
        assert(d.insert(d.len() as int, q.last()) =~= q);
    }
}

proof fn lemma_canon_idem(j: JsonV)
    ensures
        canon(canon(j)) == canon(j),
    decreases j,
{
    match j {
        JsonV::Array(s) => {
            lemma_canon_seq_index(s);
            lemma_canon_seq_index(canon_seq(s));
            assert forall|i: int| 0 <= i < s.len() implies #[trigger] canon_seq(canon_seq(s))[i] == canon_seq(s)[i] by {
                assert(decreases_to!(j => s[i]));
                lemma_canon_idem(s[i]);
            }
            assert(canon_seq(canon_seq(s)) =~= canon_seq(s));
        },
        JsonV::Object(ps) => {
            let q = canon_members(ps);
            lemma_canon_members_sorted(ps);
            lemma_canon_members_from(ps);
            assert forall|i: int| 0 <= i < q.len() implies canon(#[trigger] q[i].1) == q[i].1 by {
                let t = choose|t: int| 0 <= t < ps.len() && #[trigger] q[i] == (ps[t].0, canon(ps[t].1));
                assert(decreases_to!(j => ps[t].1));
                lemma_canon_idem(ps[t].1);
            }
            lemma_canon_members_fixed(q);
        },
        _ => {},
    }
}

/// Canonicalizing is idempotent: the canonical form of a canonical form is itself.
pub proof fn law_canonical_idempotent(j: JsonV)
    ensures
        canon(canon(j)) == canon(j),
{
    lemma_canon_idem(j);
}

/// Puts a member in its place among members kept in key order (see `insert_member`).
fn insert_pair(out: &mut Vec<(String, Json)>, k: String, v: Json)
    ensures
        jv_pairs(final(out)@) == insert_member(jv_pairs(old(out)@), (k@, v@)),
{
    broadcast use group_json_view;
    let ghost acc = jv_pairs(out@);
    let kc = str_chars(k.as_str());
    let mut p: usize = 0;
    let mut equal = false;
    loop
        invariant_except_break
            !equal,
        invariant
            p <= out.len(),
            acc == jv_pairs(out@),
            kc@ == k@,
            forall|j: int| 0 <= j < p ==> lex_lt(#[trigger] acc[j].0, k@),
        ensures
            p <= out.len(),
            forall|j: int| 0 <= j < p ==> lex_lt(#[trigger] acc[j].0, k@),
            p < out.len() ==> !lex_lt(acc[p as int].0, k@),
            equal <==> (p < out.len() && acc[p as int].0 == k@),
        decreases out.len() - p,
    {
        if p >= out.len() {
            break;
        }
        let c = compare_chars(&str_chars(out[p].0.as_str()), &kc);
        proof {
            crate::json::lemma_jv_pairs(out@);
        }
        assert(jv_pairs(out@)[p as int] == (out@[p as int].0@, jv(out@[p as int].1)));
        if c == 0 {
            equal = true;
            break;
        }
        if c > 0 {
            proof {
                crate::order::lemma_lex_asym(k@, acc[p as int].0);
            }
            break;
        }
        p += 1;
    }
    proof {
        lemma_insert_member_at(acc, (k@, v@), p as int);
    }
    if equal {
        out.remove(p);
        out.insert(p, (k, v));
        assert(jv_pairs(out@) =~= acc.update(p as int, (k@, v@)));
    } else {
        out.insert(p, (k, v));
        assert(jv_pairs(out@) =~= acc.insert(p as int, (k@, v@)));
    }
}

/// The canonical form of a JSON value: object members sorted by key,
/// recursively (see `canon`).
pub fn canonicalize_json(j: &Json) -> (r: Json)
    ensures
        r@ == canon(j@),
    decreases j,
{
    broadcast use group_json_view;
    match j {
        Json::Null => Json::Null,
        Json::Bool(b) => Json::Bool(*b),
        Json::Number(JsonNumber::PosInt(n)) => Json::Number(JsonNumber::PosInt(*n)),
        Json::Number(JsonNumber::NegInt(n)) => Json::Number(JsonNumber::NegInt(*n)),
        Json::Number(JsonNumber::Float(s)) => Json::Number(JsonNumber::Float(s.clone())),
        Json::Str(s) => Json::Str(s.clone()),
        Json::Array(a) => {
            let mut out: Vec<Json> = Vec::new();
            let mut i: usize = 0;
            while i < a.len()
                invariant
                    i <= a.len(),
                    *j == Json::Array(*a),
                    jv_seq(out@) == canon_seq(jv_seq(a@.take(i as int))),
                decreases a.len() - i,
            {
                proof {
                    vstd::std_specs::vec::axiom_vec_index_decreases(*a, i as int);
                    assert(decreases_to!(*j => (*j)->Array_0));
                    assert(decreases_to!(*j => a[i as int]));
                }
                let c = canonicalize_json(&a[i]);
                let ghost before = out@;
                out.push(c);
                assert(out@.drop_last() == before);
                assert(a@.take(i + 1).drop_last() =~= a@.take(i as int));
                proof {
                    let s1 = jv_seq(a@.take(i + 1));
                    assert(s1 == jv_seq(a@.take(i as int)).push(jv(a@[i as int])));
                    assert(s1.drop_last() =~= jv_seq(a@.take(i as int)));
                    assert(jv_seq(out@) == jv_seq(before).push(jv(out@.last())));
                }
                i += 1;
            }
            assert(a@.take(i as int) =~= a@);
            Json::Array(out)
        },
        Json::Object(o) => {
            let mut out: Vec<(String, Json)> = Vec::new();
            let mut i: usize = 0;
            while i < o.len()
                invariant
                    i <= o.len(),
                    *j == Json::Object(*o),
                    jv_pairs(out@) == canon_members(jv_pairs(o@.take(i as int))),
                decreases o.len() - i,
            {
                let k = o[i].0.clone();
                proof {
                    vstd::std_specs::vec::axiom_vec_index_decreases(*o, i as int);
                    assert(decreases_to!(*j => (*j)->Object_0));
                    assert(decreases_to!(o[i as int] => o[i as int].1));
                    assert(decreases_to!(*j => o[i as int].1));
                }
                let c = canonicalize_json(&o[i].1);
                insert_pair(&mut out, k, c);
                assert(o@.take(i + 1).drop_last() =~= o@.take(i as int));
                proof {
                    let s1 = jv_pairs(o@.take(i + 1));
                    assert(s1 == jv_pairs(o@.take(i as int)).push((o@[i as int].0@, jv(o@[i as int].1))));
                    assert(s1.drop_last() =~= jv_pairs(o@.take(i as int)));
                }
                i += 1;
            }
            assert(o@.take(i as int) =~= o@);
            Json::Object(out)
        },
    }
}

} // verus!
