//! Why what request signing writes reads back: a `Signature` header written
//! by `signature_header` parses (`parse_signature_header`) as the key id,
//! names and signature it was made of, and an added `Digest` header checks
//! out (`verify_digest_if_present`) against the body.
use vstd::prelude::*;
use crate::text::{is_ws, trim, trim_start, trim_end, lower, trim_start_char, trim_end_char, split_on, words,
    ws_pieces, non_empty, lemma_split_on_len, lemma_ws_pieces_len};
use crate::urls::first_index_of;
use crate::httpsig::{part_kv, param_lookup, join_spaces, spec_signature_header, spec_parse_signature, SigParseError,
    b64_decode_of, b64_encode_of, HeaderV, header_lookup, as_headers, spec_added_headers, spec_wants_digest,
    spec_digest_header, spec_verify_digest, DigestError, http_date_of};
use crate::digest::sha256_of;

verus! {

/// `c` does not occur in `s`.
pub open spec fn lacks(s: Seq<char>, c: char) -> bool {
    forall|i: int| 0 <= i < s.len() ==> s[i] != c
}

/// No whitespace occurs in `s`.
pub open spec fn lacks_ws(s: Seq<char>) -> bool {
    forall|i: int| 0 <= i < s.len() ==> !is_ws(s[i])
}

/// A character of the standard base64 alphabet, or its padding.
pub open spec fn is_b64_char(c: char) -> bool {
    ||| ('A' <= c && c <= 'Z')
    ||| ('a' <= c && c <= 'z')
    ||| ('0' <= c && c <= '9')
    ||| c == '+'
    ||| c == '/'
    ||| c == '='
}

/// A key id that a `Signature` header carries unchanged: no comma or quote.
pub open spec fn plain_key_id(k: Seq<char>) -> bool {
    lacks(k, ',') && lacks(k, '"')
}

/// Signed header names that a `Signature` header carries unchanged: each
/// one non-empty, lower-case, and free of whitespace, commas and quotes.
pub open spec fn plain_names(ns: Seq<Seq<char>>) -> bool {
    forall|i: int| 0 <= i < ns.len() ==> {
        &&& (#[trigger] ns[i]).len() > 0
        &&& lacks_ws(ns[i])
        &&& lacks(ns[i], ',')
        &&& lacks(ns[i], '"')
        &&& lower(ns[i]) == ns[i]
    }
}

/// Header names to sign that a `Signature` header carries (lower-cased):
/// each one non-empty and free of whitespace, commas and quotes.
pub open spec fn plain_header_names(ns: Seq<Seq<char>>) -> bool {
    forall|i: int| 0 <= i < ns.len() ==> {
        &&& (#[trigger] ns[i]).len() > 0
        &&& lacks_ws(ns[i])
        &&& lacks(ns[i], ',')
        &&& lacks(ns[i], '"')
    }
}

pub proof fn lemma_lowered_plain(ns: Seq<Seq<char>>)
    requires
        plain_header_names(ns),
    ensures
        plain_names(ns.map_values(|h: Seq<char>| lower(h))),
{
    let ls = ns.map_values(|h: Seq<char>| lower(h));
    assert forall|i: int| 0 <= i < ls.len() implies {
        &&& (#[trigger] ls[i]).len() > 0
        &&& lacks_ws(ls[i])
        &&& lacks(ls[i], ',')
        &&& lacks(ls[i], '"')
        &&& lower(ls[i]) == ls[i]
    } by {
        let n = ns[i];
        assert(ls[i] == lower(n));
        assert forall|k: int| 0 <= k < n.len() implies {
            &&& !is_ws(#[trigger] lower(n)[k])
            &&& lower(n)[k] != ','
            &&& lower(n)[k] != '"'
            &&& crate::text::lower_char(lower(n)[k]) == lower(n)[k]
        } by {
            assert(!is_ws(n[k]) && n[k] != ',' && n[k] != '"');
        }
        assert(lower(lower(n)) =~= lower(n));
    }
}

proof fn lemma_split_concat(a: Seq<char>, b: Seq<char>, c: char)
    ensures
        split_on(a + seq![c] + b, c) == split_on(a, c) + split_on(b, c),
    decreases b.len(),
{
    let s = a + seq![c] + b;
    if b.len() == 0 {
        assert(s.drop_last() =~= a);
        assert(split_on(b, c) =~= seq![Seq::<char>::empty()]);
        assert(split_on(s, c) =~= split_on(a, c) + split_on(b, c));
    } else {
        let b1 = b.drop_last();
        assert(s.drop_last() =~= a + seq![c] + b1);
        lemma_split_concat(a, b1, c);
        lemma_split_on_len(b1, c);
        let sa = split_on(a, c);
        let sb = split_on(b1, c);
        if b.last() == c {
            assert(split_on(s, c) =~= sa + sb.push(Seq::empty()));
        } else {
            assert((sa + sb).update(sa.len() + sb.len() - 1, (sa + sb).last().push(b.last()))
                =~= sa + sb.update(sb.len() - 1, sb.last().push(b.last())));
        }
    }
}

proof fn lemma_split_single(a: Seq<char>, c: char)
    requires
        lacks(a, c),
    ensures
        split_on(a, c) == seq![a],
    decreases a.len(),
{
    if a.len() == 0 {
        assert(a =~= Seq::<char>::empty());
    } else {
        lemma_split_single(a.drop_last(), c);
        assert(a.drop_last().push(a.last()) =~= a);
        assert(seq![a.drop_last()].update(0, a.drop_last().push(a.last())) =~= seq![a]);
    }
}

proof fn lemma_ws_concat(a: Seq<char>, b: Seq<char>, w: char)
    requires
        is_ws(w),
    ensures
        ws_pieces(a + seq![w] + b) == ws_pieces(a) + ws_pieces(b),
    decreases b.len(),
{
    let s = a + seq![w] + b;
    if b.len() == 0 {
        assert(s.drop_last() =~= a);
        assert(ws_pieces(b) =~= seq![Seq::<char>::empty()]);
        assert(ws_pieces(s) =~= ws_pieces(a) + ws_pieces(b));
    } else {
        let b1 = b.drop_last();
        assert(s.drop_last() =~= a + seq![w] + b1);
        lemma_ws_concat(a, b1, w);
        lemma_ws_pieces_len(b1);
        let sa = ws_pieces(a);
        let sb = ws_pieces(b1);
        if is_ws(b.last()) {
            assert(ws_pieces(s) =~= sa + sb.push(Seq::empty()));
        } else {
            assert((sa + sb).update(sa.len() + sb.len() - 1, (sa + sb).last().push(b.last()))
                =~= sa + sb.update(sb.len() - 1, sb.last().push(b.last())));
        }
    }
}

proof fn lemma_ws_single(a: Seq<char>)
    requires
        lacks_ws(a),
    ensures
        ws_pieces(a) == seq![a],
    decreases a.len(),
{
    if a.len() == 0 {
        assert(a =~= Seq::<char>::empty());
    } else {
        lemma_ws_single(a.drop_last());
        assert(a.drop_last().push(a.last()) =~= a);
        assert(seq![a.drop_last()].update(0, a.drop_last().push(a.last())) =~= seq![a]);
    }
}

proof fn lemma_ws_join(ns: Seq<Seq<char>>)
    requires
        ns.len() >= 1,
        forall|i: int| 0 <= i < ns.len() ==> lacks_ws(#[trigger] ns[i]),
    ensures
        ws_pieces(join_spaces(ns)) == ns,
    decreases ns.len(),
{
    if ns.len() == 1 {
        lemma_ws_single(ns[0]);
        assert(seq![ns[0]] =~= ns);
    } else {
        let d = ns.drop_last();
        assert forall|i: int| 0 <= i < d.len() implies lacks_ws(#[trigger] d[i]) by {
            assert(d[i] == ns[i]);
        }
        lemma_ws_join(d);
        reveal_strlit(" ");
        assert(join_spaces(ns) =~= join_spaces(d) + seq![' '] + ns.last());
        assert(is_ws(' '));
        lemma_ws_concat(join_spaces(d), ns.last(), ' ');
        assert(lacks_ws(ns[ns.len() - 1]));
        lemma_ws_single(ns.last());
        assert(d + seq![ns.last()] =~= ns);
    }
}

proof fn lemma_non_empty_keeps(ns: Seq<Seq<char>>)
    requires
        forall|i: int| 0 <= i < ns.len() ==> (#[trigger] ns[i]).len() > 0,
    ensures
        non_empty(ns) == ns,
    decreases ns.len(),
{
    if ns.len() > 0 {
        let d = ns.drop_last();
        assert forall|i: int| 0 <= i < d.len() implies (#[trigger] d[i]).len() > 0 by {
            assert(d[i] == ns[i]);
        }
        lemma_non_empty_keeps(d);
        assert(ns[ns.len() - 1].len() > 0);
        assert(d.push(ns.last()) =~= ns);
    }
}

proof fn lemma_words_join(ns: Seq<Seq<char>>)
    requires
        plain_names(ns),
    ensures
        words(join_spaces(ns)).map_values(|w: Seq<char>| lower(w)) == ns,
{
    if ns.len() == 0 {
        assert(ws_pieces(Seq::<char>::empty()) == seq![Seq::<char>::empty()]);
        assert(seq![Seq::<char>::empty()].drop_last() =~= Seq::<Seq<char>>::empty());
        assert(non_empty(seq![Seq::<char>::empty()]) =~= non_empty(Seq::<Seq<char>>::empty()));
        assert(words(join_spaces(ns)).map_values(|w: Seq<char>| lower(w)) =~= ns);
    } else {
        assert forall|i: int| 0 <= i < ns.len() implies lacks_ws(#[trigger] ns[i]) by {}
        lemma_ws_join(ns);
        lemma_non_empty_keeps(ns);
        assert(words(join_spaces(ns)) == ns);
        assert(ns.map_values(|w: Seq<char>| lower(w)) =~= ns);
    }
}

proof fn lemma_first_eq(name: Seq<char>, rest: Seq<char>)
    requires
        lacks(name, '='),
        rest.len() > 0,
        rest[0] == '=',
    ensures
        first_index_of(name + rest, '=') == name.len(),
    decreases name.len(),
{
    if name.len() > 0 {
        assert((name + rest).drop_first() =~= name.drop_first() + rest);
        lemma_first_eq(name.drop_first(), rest);
    }
}

proof fn lemma_trim_plain(s: Seq<char>)
    requires
        s.len() > 0,
        !is_ws(s[0]),
        !is_ws(s.last()),
    ensures
        trim(s) == s,
{
    assert(trim_start(s) == s);
    assert(trim_end(s) == s);
}

/// A `name="value"` parameter reads back as its name and value.
proof fn lemma_part_kv_quoted(name: Seq<char>, v: Seq<char>)
    requires
        name.len() > 0,
        lacks(name, '='),
        lacks_ws(name),
        lacks(v, '"'),
    ensures
        part_kv(name + seq!['=', '"'] + v + seq!['"']) == Some((name, v)),
{
    let p = name + seq!['=', '"'] + v + seq!['"'];
    assert(!is_ws('"'));
    assert(p[0] == name[0]);
    lemma_trim_plain(p);
    assert(p =~= name + (seq!['=', '"'] + v + seq!['"']));
    lemma_first_eq(name, seq!['=', '"'] + v + seq!['"']);
    assert(p.take(name.len() as int) =~= name);
    lemma_trim_plain(name);
    let q = p.skip(name.len() + 1int);
    assert(q =~= seq!['"'] + v + seq!['"']);
    lemma_trim_plain(q);
    assert(q.drop_first() =~= v + seq!['"']);
    assert(q[0] == '"');
    assert(trim_start_char(q, '"') == trim_start_char(v + seq!['"'], '"'));
    if v.len() == 0 {
        assert(v + seq!['"'] =~= seq!['"']);
        assert(seq!['"'].drop_first() =~= Seq::<char>::empty());
        assert(trim_start_char(seq!['"'], '"') == trim_start_char(Seq::<char>::empty(), '"'));
        assert(trim_start_char(q, '"') == Seq::<char>::empty());
        assert(trim_end_char(Seq::<char>::empty(), '"') == v);
    } else {
        assert((v + seq!['"'])[0] == v[0]);
        assert(v[0] != '"');
        assert(trim_start_char(q, '"') == v + seq!['"']);
        assert((v + seq!['"']).drop_last() =~= v);
        assert((v + seq!['"']).last() == '"');
        assert(trim_end_char(v + seq!['"'], '"') == trim_end_char(v, '"'));
        assert(v.last() != '"');
        assert(trim_end_char(v, '"') == v);
    }
}

/// The `Signature` header of a key id, signed names and signature reads
/// back as them, when the key id and names are plain and the signature's
/// base64 text is made of its alphabet and decodes to the signature.
pub proof fn lemma_signature_header_round_trip(key_id: Seq<char>, names: Seq<Seq<char>>, sig: Seq<u8>)
    requires
        plain_key_id(key_id),
        plain_names(names),
        forall|i: int| 0 <= i < b64_encode_of(sig).len() ==> is_b64_char(#[trigger] b64_encode_of(sig)[i]),
        b64_decode_of(vstd::utf8::encode_utf8(b64_encode_of(sig))) == Some(sig),
    ensures
        spec_parse_signature(spec_signature_header(key_id, names, sig))
            == Ok::<(Seq<char>, Seq<Seq<char>>, Seq<u8>), SigParseError>((key_id, names, sig)),
{
    let j = join_spaces(names);
    let b = b64_encode_of(sig);
    reveal_strlit("keyId=\"");
    reveal_strlit("\",algorithm=\"rsa-sha256\",headers=\"");
    reveal_strlit("\",signature=\"");
    reveal_strlit("\"");
    reveal_strlit("keyId");
    reveal_strlit("headers");
    reveal_strlit("signature");
    let eq = seq!['=', '"'];
    let qt = seq!['"'];
    let k1 = seq!['k', 'e', 'y', 'I', 'd'];
    let k2 = seq!['a', 'l', 'g', 'o', 'r', 'i', 't', 'h', 'm'];
    let v2 = seq!['r', 's', 'a', '-', 's', 'h', 'a', '2', '5', '6'];
    let k3 = seq!['h', 'e', 'a', 'd', 'e', 'r', 's'];
    let k4 = seq!['s', 'i', 'g', 'n', 'a', 't', 'u', 'r', 'e'];
    let p1 = k1 + eq + key_id + qt;
    let p2 = k2 + eq + v2 + qt;
    let p3 = k3 + eq + j + qt;
    let p4 = k4 + eq + b + qt;
    let h = spec_signature_header(key_id, names, sig);
    assert(h =~= p1 + seq![','] + p2 + seq![','] + p3 + seq![','] + p4);
    // the names carry no comma or quote, so neither does their join
    assert(lacks(j, ',') && lacks(j, '"')) by {
        lemma_join_lacks(names, ',');
        lemma_join_lacks(names, '"');
    }
    assert forall|i: int| 0 <= i < b.len() implies b[i] != ',' && b[i] != '"' by {
        assert(is_b64_char(b[i]));
    }
    assert(lacks(p1, ','));
    assert(lacks(p2, ','));
    assert(lacks(p3, ','));
    assert(lacks(p4, ','));
    lemma_split_concat(p1 + seq![','] + p2 + seq![','] + p3, p4, ',');
    lemma_split_concat(p1 + seq![','] + p2, p3, ',');
    lemma_split_concat(p1, p2, ',');
    lemma_split_single(p1, ',');
    lemma_split_single(p2, ',');
    lemma_split_single(p3, ',');
    lemma_split_single(p4, ',');
    let parts = split_on(h, ',');
    assert(parts =~= seq![p1, p2, p3, p4]);
    lemma_part_kv_quoted(k1, key_id);
    lemma_part_kv_quoted(k2, v2);
    lemma_part_kv_quoted(k3, j);
    lemma_part_kv_quoted(k4, b);
    assert(k1 == "keyId"@ && k3 == "headers"@ && k4 == "signature"@);
    assert(k1 != k2 && k1 != k3 && k1 != k4 && k3 != k2 && k3 != k4 && k2 != k4);
    assert(parts.drop_last() =~= seq![p1, p2, p3]);
    assert(seq![p1, p2, p3].drop_last() =~= seq![p1, p2]);
    assert(seq![p1, p2].drop_last() =~= seq![p1]);
    assert(param_lookup(seq![p1], k1) == Some(key_id));
    assert(param_lookup(seq![p1, p2], k1) == Some(key_id));
    assert(param_lookup(seq![p1, p2, p3], k1) == Some(key_id));
    assert(param_lookup(parts, k1) == Some(key_id));
    assert(param_lookup(seq![p1, p2, p3], k3) == Some(j));
    assert(param_lookup(parts, k3) == Some(j));
    assert(param_lookup(parts, k4) == Some(b));
    lemma_words_join(names);
}

proof fn lemma_join_lacks(ns: Seq<Seq<char>>, c: char)
    requires
        c != ' ',
        forall|i: int| 0 <= i < ns.len() ==> lacks(#[trigger] ns[i], c),
    ensures
        lacks(join_spaces(ns), c),
    decreases ns.len(),
{
    if ns.len() >= 2 {
        let d = ns.drop_last();
        assert forall|i: int| 0 <= i < d.len() implies lacks(#[trigger] d[i], c) by {
            assert(d[i] == ns[i]);
        }
        lemma_join_lacks(d, c);
        reveal_strlit(" ");
        assert(lacks(ns[ns.len() - 1], c));
        let r = join_spaces(ns);
        assert(r =~= join_spaces(d) + seq![' '] + ns.last());
        assert forall|i: int| 0 <= i < r.len() implies r[i] != c by {
            if i < join_spaces(d).len() {
            } else if i == join_spaces(d).len() {
            } else {
                assert(r[i] == ns.last()[i - join_spaces(d).len() - 1]);
            }
        }
    } else if ns.len() == 1 {
        assert(lacks(ns[0], c));
    }
}

/// The base64 text of `b` is made of its alphabet and decodes back to `b`.
pub open spec fn b64_round_trips(b: Seq<u8>) -> bool {
    &&& forall|i: int| 0 <= i < b64_encode_of(b).len() ==> is_b64_char(#[trigger] b64_encode_of(b)[i])
    &&& b64_decode_of(vstd::utf8::encode_utf8(b64_encode_of(b))) == Some(b)
}

proof fn lemma_digest_header_verifies(body: Seq<u8>)
    requires
        b64_round_trips(sha256_of(body)),
    ensures
        spec_verify_digest(Some(Some(spec_digest_header(body))), body) == Ok::<(), DigestError>(()),
{
    let b = b64_encode_of(sha256_of(body));
    reveal_strlit("SHA-256=");
    reveal_strlit("sha-256");
    let alg = seq!['S', 'H', 'A', '-', '2', '5', '6'];
    let d = spec_digest_header(body);
    assert(d =~= alg + (seq!['='] + b));
    lemma_first_eq(alg, seq!['='] + b);
    assert(d.take(7) =~= alg);
    lemma_trim_plain(alg);
    assert(lower(alg) =~= "sha-256"@);
    assert(d.skip(8) =~= b);
    if b.len() > 0 {
        assert(is_b64_char(b[0]) && is_b64_char(b[b.len() - 1]));
        lemma_trim_plain(b);
    } else {
        assert(trim_start(b) == b);
        assert(trim_end(b) == b);
    }
}

proof fn lemma_lookup_after(a: Seq<HeaderV>, b: Seq<HeaderV>, n: Seq<char>)
    requires
        header_lookup(a, n) is None,
    ensures
        header_lookup(a + b, n) == header_lookup(b, n),
    decreases a.len(),
{
    if a.len() == 0 {
        assert(a + b =~= b);
    } else {
        assert((a + b).drop_first() =~= a.drop_first() + b);
        lemma_lookup_after(a.drop_first(), b, n);
    }
}

/// After signing, the request's `Digest` header (when the request had none
/// of its own) checks out against the body: either none was added, or the
/// added one is the body's SHA-256.
pub proof fn lemma_added_digest_verifies(hs: Seq<HeaderV>, authority: Option<Seq<char>>, body: Seq<u8>,
    signed: Seq<Seq<char>>, now_secs: u64)
    requires
        header_lookup(hs, "digest"@) is None,
        spec_wants_digest(false, signed, body.len()) ==> b64_round_trips(sha256_of(body)),
    ensures
        spec_verify_digest(header_lookup(hs + as_headers(spec_added_headers(hs, authority, body, signed, now_secs)), "digest"@), body)
            == Ok::<(), DigestError>(()),
{
    let added = spec_added_headers(hs, authority, body, signed, now_secs);
    lemma_lookup_after(hs, as_headers(added), "digest"@);
    reveal_strlit("digest");
    reveal_strlit("date");
    reveal_strlit("host");
    assert("date"@.len() == 4 && "host"@.len() == 4 && "digest"@.len() == 6);
    assert("date"@ != "digest"@);
    assert("host"@ != "digest"@);
    let ah = as_headers(added);
    let dg: HeaderV = ("digest"@, Some(spec_digest_header(body)));
    let dt: Seq<HeaderV> = if header_lookup(hs, "date"@) is None { seq![("date"@, Some(http_date_of(now_secs)))] } else { Seq::empty() };
    let hh: Seq<HeaderV> = match authority {
        Some(h) => if header_lookup(hs, "host"@) is None { seq![("host"@, Some(h))] } else { Seq::empty() },
        None => Seq::empty(),
    };
    assert(header_lookup(Seq::<HeaderV>::empty(), "digest"@) is None);
    if hh.len() > 0 {
        assert(hh.drop_first() =~= Seq::<HeaderV>::empty());
    }
    assert(header_lookup(hh, "digest"@) is None);
    if dt.len() > 0 {
        assert(dt.drop_first() =~= Seq::<HeaderV>::empty());
    }
    assert(header_lookup(dt, "digest"@) is None);
    if spec_wants_digest(false, signed, body.len()) {
        lemma_digest_header_verifies(body);
        assert(ah =~= dt + (seq![dg] + hh));
        lemma_lookup_after(dt, seq![dg] + hh, "digest"@);
        assert(header_lookup(seq![dg] + hh, "digest"@) == Some(Some(spec_digest_header(body))));
    } else {
        assert(ah =~= dt + hh);
        lemma_lookup_after(dt, hh, "digest"@);
    }
}

} // verus!
