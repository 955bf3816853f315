//! Lexicographic order on strings (by code point, which is the byte order of
//! their UTF-8 encoding, as `Ord for String` compares), and sorted sets of strings.
use vstd::prelude::*;
use crate::text::str_chars;

verus! {

/// `a` sorts strictly before `b`.
pub open spec fn lex_lt(a: Seq<char>, b: Seq<char>) -> bool
    decreases a.len(),
{
    if a.len() == 0 {
        b.len() > 0
    } else if b.len() == 0 {
        false
    } else if a[0] != b[0] {
        a[0] < b[0]
    } else {
        lex_lt(a.drop_first(), b.drop_first())
    }
}

pub proof fn lemma_lex_irrefl(a: Seq<char>)
    ensures
        !lex_lt(a, a),
    decreases a.len(),
{
    if a.len() > 0 {
        lemma_lex_irrefl(a.drop_first());
    }
}

pub proof fn lemma_lex_asym(a: Seq<char>, b: Seq<char>)
    ensures
        lex_lt(a, b) ==> !lex_lt(b, a),
    decreases a.len(),
{
    if a.len() > 0 && b.len() > 0 && a[0] == b[0] {
        lemma_lex_asym(a.drop_first(), b.drop_first());
    }
}

pub proof fn lemma_lex_trans(a: Seq<char>, b: Seq<char>, c: Seq<char>)
    ensures
        lex_lt(a, b) && lex_lt(b, c) ==> lex_lt(a, c),
    decreases a.len(),
{
    if a.len() > 0 && b.len() > 0 && c.len() > 0 && a[0] == b[0] && b[0] == c[0] {
        lemma_lex_trans(a.drop_first(), b.drop_first(), c.drop_first());
    }
}

pub proof fn lemma_lex_total(a: Seq<char>, b: Seq<char>)
    ensures
        a != b ==> lex_lt(a, b) || lex_lt(b, a),
    decreases a.len(),
{
    if a.len() > 0 && b.len() > 0 && a[0] == b[0] {
        lemma_lex_total(a.drop_first(), b.drop_first());
        if a.drop_first() == b.drop_first() {
            assert(a =~= seq![a[0]] + a.drop_first());
            assert(b =~= seq![b[0]] + b.drop_first());
        }
    } else if a.len() == 0 && b.len() == 0 {
        assert(a =~= b);
    } else if a.len() > 0 && b.len() > 0 {
        assert(a[0] != b[0]);
    }
}

proof fn lemma_lex_skip(a: Seq<char>, b: Seq<char>, i: int)
    requires
        0 <= i <= a.len(),
        i <= b.len(),
        forall|j: int| 0 <= j < i ==> a[j] == b[j],
    ensures
        lex_lt(a, b) == lex_lt(a.skip(i), b.skip(i)),
    decreases i,
{
    if i > 0 {
        lemma_lex_skip(a.drop_first(), b.drop_first(), i - 1);
        assert(a.drop_first().skip(i - 1) =~= a.skip(i));
        assert(b.drop_first().skip(i - 1) =~= b.skip(i));
    } else {
        assert(a.skip(0) =~= a);
        assert(b.skip(0) =~= b);
    }
}

/// Three-way comparison: -1 when `a` sorts first, 0 when equal, 1 otherwise.
pub fn compare_chars(a: &Vec<char>, b: &Vec<char>) -> (r: i8)
    ensures
        r == 0 <==> a@ == b@,
        r < 0 <==> lex_lt(a@, b@),
        r > 0 <==> lex_lt(b@, a@),
        -1 <= r <= 1,
{
    let mut i: usize = 0;
    while i < a.len() && i < b.len() && a[i] == b[i]
        invariant
            i <= a.len(),
            i <= b.len(),
            forall|j: int| 0 <= j < i ==> a@[j] == b@[j],
        decreases a.len() - i,
    {
        i += 1;
    }
    proof {
        lemma_lex_skip(a@, b@, i as int);
        lemma_lex_skip(b@, a@, i as int);
        lemma_lex_asym(a@, b@);
        lemma_lex_irrefl(a@);
    }
    let ghost sa = a@.skip(i as int);
    let ghost sb = b@.skip(i as int);
    if i == a.len() && i == b.len() {
        assert(a@ =~= b@);
        0
    } else if i == a.len() {
        assert(sa.len() == 0 && sb.len() > 0);
        assert(a@ != b@);
        -1
    } else if i == b.len() {
        assert(sb.len() == 0 && sa.len() > 0);
        assert(a@ != b@);
        1
    } else {
        assert(sa[0] == a@[i as int] && sb[0] == b@[i as int]);
        assert(a@[i as int] != b@[i as int]);
        assert(a@ != b@);
        if a[i] < b[i] {
            -1
        } else {
            1
        }
    }
}

/// The characters of each string in a sequence.
pub open spec fn views(v: Seq<String>) -> Seq<Seq<char>> {
    v.map_values(|s: String| s@)
}

/// Strictly increasing in lexicographic order (so also free of duplicates).
pub open spec fn sorted_strict(v: Seq<Seq<char>>) -> bool {
    forall|i: int, j: int| 0 <= i < j < v.len() ==> lex_lt(#[trigger] v[i], #[trigger] v[j])
}

/// The distinct strings of `v`, sorted (`sort` followed by `dedup`).
pub fn sort_dedup(v: Vec<String>) -> (r: Vec<String>)
    ensures
        sorted_strict(views(r@)),
        views(r@).to_set() == views(v@).to_set(),
{
    let mut out: Vec<String> = Vec::new();
    let mut keys: Vec<Vec<char>> = Vec::new();
    let mut i: usize = 0;
    while i < v.len()
        invariant
            i <= v.len(),
            out.len() == keys.len(),
            forall|j: int| 0 <= j < keys.len() ==> (#[trigger] keys@[j])@ == out@[j]@,
            sorted_strict(views(out@)),
            views(out@).to_set() == views(v@.take(i as int)).to_set(),
        decreases v.len() - i,
    {
        let s = &v[i];
        let k = str_chars(s.as_str());
        let mut p: usize = 0;
        let mut found = false;
        loop
            invariant_except_break
                !found,
            invariant
                i < v.len(),
                p <= keys.len(),
                out.len() == keys.len(),
                forall|j: int| 0 <= j < keys.len() ==> (#[trigger] keys@[j])@ == out@[j]@,
                k@ == v@[i as int]@,
                forall|j: int| 0 <= j < p ==> lex_lt(#[trigger] out@[j]@, k@),
            ensures
                p <= keys.len(),
                forall|j: int| 0 <= j < p ==> lex_lt(#[trigger] out@[j]@, k@),
                found ==> p < keys.len() && out@[p as int]@ == k@,
                !found ==> p < keys.len() ==> lex_lt(k@, out@[p as int]@),
            decreases keys.len() - p,
        {
            if p >= keys.len() {
                break;
            }
            let c = compare_chars(&keys[p], &k);
            if c == 0 {
                found = true;
                break;
            }
            if c > 0 {
                break;
            }
            p += 1;
        }
        let ghost old_out = views(out@);
        let ghost x = v@[i as int]@;
        assert(views(v@.take(i + 1)) =~= views(v@.take(i as int)).push(x));
        proof {
            views(v@.take(i as int)).lemma_push_to_set_commute(x);
        }
        if found {
            assert(old_out[p as int] == x);
            assert(old_out.to_set().contains(x));
            assert(views(v@.take(i + 1)).to_set() =~= views(v@.take(i as int)).to_set().insert(x));
        } else {
            proof {
                assert forall|j: int| p <= j < old_out.len() implies lex_lt(x, #[trigger] old_out[j]) by {
                    if j > p {
                        assert(lex_lt(old_out[p as int], old_out[j]));
                        lemma_lex_trans(x, old_out[p as int], old_out[j]);
                    }
                }
            }
            out.insert(p, v[i].clone());
            keys.insert(p, k);
            proof {
                assert(views(out@) =~= old_out.insert(p as int, x));
                let nw = views(out@);
                assert forall|a: int, b: int| 0 <= a < b < nw.len() implies lex_lt(
                    #[trigger] nw[a],
                    #[trigger] nw[b],
                ) by {
                    if b < p {
                        assert(nw[a] == old_out[a] && nw[b] == old_out[b]);
                    } else if b == p {
                        assert(nw[a] == old_out[a]);
                    } else if a < p {
                        assert(nw[a] == old_out[a] && nw[b] == old_out[b - 1]);
                        assert(lex_lt(old_out[a], x));
                        assert(lex_lt(x, old_out[b - 1]));
                        lemma_lex_trans(old_out[a], x, old_out[b - 1]);
                    } else if a == p {
                        assert(nw[b] == old_out[b - 1]);
                    } else {
                        assert(nw[a] == old_out[a - 1] && nw[b] == old_out[b - 1]);
                    }
                }
                assert(nw.to_set() =~= old_out.to_set().insert(x)) by {
                    assert forall|y: Seq<char>| nw.to_set().contains(y) implies old_out.to_set().insert(x).contains(y) by {
                        let q = choose|q: int| 0 <= q < nw.len() && nw[q] == y;
                        if q < p {
                            assert(old_out[q] == y);
                        } else if q > p {
                            assert(old_out[q - 1] == y);
                        }
                    }
                    assert forall|y: Seq<char>| old_out.to_set().insert(x).contains(y) implies nw.to_set().contains(y) by {
                        if y == x {
                            assert(nw[p as int] == x);
                        } else {
                            let q = choose|q: int| 0 <= q < old_out.len() && old_out[q] == y;
                            if q < p {
                                assert(nw[q] == y);
                            } else {
                                assert(nw[q + 1] == y);
                            }
                        }
                    }
                }
                assert(views(v@.take(i + 1)).to_set() =~= views(v@.take(i as int)).to_set().insert(x));
            }
        }
        i += 1;
    }
    assert(v@.take(v.len() as int) =~= v@);
    out
}

} // verus!
