//! HTTP Signatures (draft-cavage): parsing the `Signature` header, building
//! the signing string, checking `Digest` and `Date`, and signing with RSA.
use vstd::prelude::*;
use base64::Engine;
use rsa::pkcs8::{DecodePrivateKey, DecodePublicKey};
use rsa::signature::{RandomizedSigner, SignatureEncoding, Verifier};
use crate::text::{trim, lower, trim_start_char, trim_end_char, split_on, words, str_chars,
    trim_chars, lower_chars, trim_start_char_chars, trim_end_char_chars, split_chars, lower_words,
    chars_eq, slice_chars, string_from_chars, append_str, append_chars, str_eq};
use crate::urls::{first_index_of, lemma_before_char};
use crate::digest::{sha256, sha256_of};
use vstd::string::StringSliceAdditionalSpecFns;

verus! {

/// What a `Signature` header carries.
#[derive(Debug)]
pub struct SignatureParams {
    pub key_id: String,
    pub headers: Vec<String>,
    pub signature: Vec<u8>,
}

/// Why a `Signature` header is rejected.
#[derive(PartialEq, Eq, Structural, Clone, Copy, Debug)]
pub enum SigParseError {
    MissingKeyId,
    MissingSignature,
    BadSignatureEncoding,
}

/// The bytes that standard base64 (with padding) decodes `s` to, if valid.
pub uninterp spec fn b64_decode_of(s: Seq<u8>) -> Option<Seq<u8>>;

/// The standard base64 text (with padding) of `b`.
pub uninterp spec fn b64_encode_of(b: Seq<u8>) -> Seq<char>;

/// `base64::engine::general_purpose::STANDARD.decode`: the decoded bytes,
/// or `None` when the input is not valid padded standard base64.
#[verifier::external_body]
pub(crate) fn b64_decode(s: &[u8]) -> (r: Option<Vec<u8>>)
    ensures
        match r {
            Some(v) => b64_decode_of(s@) == Some(v@),
            None => b64_decode_of(s@) is None,
        },
{
    base64::engine::general_purpose::STANDARD.decode(s).ok()
}

/// `base64::engine::general_purpose::STANDARD.encode`: padded standard base64
/// (letters, digits, `+`, `/` and `=` padding), which the same engine's
/// `decode` turns back into `b`.
#[verifier::external_body]
pub(crate) fn b64_encode(b: &[u8]) -> (r: String)
    ensures
        r@ == b64_encode_of(b@),
        b64_decode_of(vstd::utf8::encode_utf8(r@)) == Some(b@),
        forall|i: int| 0 <= i < r@.len() ==> crate::sigroundtrip::is_b64_char(#[trigger] r@[i]),
{
    base64::engine::general_purpose::STANDARD.encode(b)
}

/// A `key=value` parameter: the trimmed key before the first `=`, and the
/// trimmed value after it without surrounding double quotes.
pub open spec fn part_kv(p: Seq<char>) -> Option<(Seq<char>, Seq<char>)> {
    let t = trim(p);
    let i = first_index_of(t, '=');
    if i >= t.len() {
        None
    } else {
        Some((trim(t.take(i)), trim_end_char(trim_start_char(trim(t.skip(i + 1)), '"'), '"')))
    }
}

/// The value of the last parameter named `k`.
pub open spec fn param_lookup(parts: Seq<Seq<char>>, k: Seq<char>) -> Option<Seq<char>>
    decreases parts.len(),
{
    if parts.len() == 0 {
        None
    } else {
        match part_kv(parts.last()) {
            Some((kk, v)) => if kk == k {
                Some(v)
            } else {
                param_lookup(parts.drop_last(), k)
            },
            None => param_lookup(parts.drop_last(), k),
        }
    }
}

/// A parsed `Signature` header: key id, lowercased signed header names
/// (`date` when none are listed), and the decoded signature.
pub open spec fn spec_parse_signature(value: Seq<char>) -> Result<(Seq<char>, Seq<Seq<char>>, Seq<u8>), SigParseError> {
    let parts = split_on(value, ',');
    match param_lookup(parts, "keyId"@) {
        None => Err(SigParseError::MissingKeyId),
        Some(kid) => {
            let hv = match param_lookup(parts, "headers"@) {
                Some(h) => h,
                None => "date"@,
            };
            match param_lookup(parts, "signature"@) {
                None => Err(SigParseError::MissingSignature),
                Some(sig) => match b64_decode_of(vstd::utf8::encode_utf8(sig)) {
                    None => Err(SigParseError::BadSignatureEncoding),
                    Some(bytes) => Ok((kid, words(hv).map_values(|w: Seq<char>| lower(w)), bytes)),
                },
            }
        },
    }
}

fn part_kv_exec(p: &Vec<char>) -> (r: Option<(Vec<char>, Vec<char>)>)
    ensures
        match r {
            Some((k, v)) => part_kv(p@) == Some((k@, v@)),
            None => part_kv(p@) is None,
        },
{
    let t = trim_chars(p);
    proof {
        lemma_before_char(t@, '=');
    }
    let mut i: usize = 0;
    while i < t.len() && t[i] != '='
        invariant
            i <= t.len(),
            i <= first_index_of(t@, '='),
            0 <= first_index_of(t@, '=') <= t@.len(),
            forall|j: int| 0 <= j < first_index_of(t@, '=') ==> t@[j] != '=',
            first_index_of(t@, '=') < t@.len() ==> t@[first_index_of(t@, '=')] == '=',
        decreases t.len() - i,
    {
        i += 1;
    }
    if i >= t.len() {
        return None;
    }
    let k = trim_chars(&slice_chars(&t, 0, i));
    let v0 = trim_chars(&slice_chars(&t, i + 1, t.len()));
    let v = trim_end_char_chars(&trim_start_char_chars(&v0, '"'), '"');
    assert(t@.subrange(0, i as int) =~= t@.take(i as int));
    assert(t@.subrange(i + 1, t@.len() as int) =~= t@.skip(i + 1));
    Some((k, v))
}

fn lookup_param(kvs: &Vec<Option<(Vec<char>, Vec<char>)>>, k: &str) -> (r: Option<Vec<char>>)
    ensures
        forall|parts: Seq<Seq<char>>| #![trigger param_lookup(parts, k@)]
            parts.len() == kvs@.len() && (forall|i: int| 0 <= i < parts.len() ==> kv_view(kvs@[i]) == #[trigger] part_kv(parts[i]))
            ==> match r {
                Some(v) => param_lookup(parts, k@) == Some(v@),
                None => param_lookup(parts, k@) is None,
            },
{
    let key = str_chars(k);
    let mut i: usize = kvs.len();
    assert forall|parts: Seq<Seq<char>>| #![trigger param_lookup(parts, k@)]
        parts.len() == kvs@.len() && (forall|j: int| 0 <= j < parts.len() ==> kv_view(kvs@[j]) == #[trigger] part_kv(parts[j]))
        implies param_lookup(parts, k@) == param_lookup(parts.take(i as int), k@) by {
        assert(parts.take(i as int) =~= parts);
    }
    while i > 0
        invariant
            i <= kvs.len(),
            key@ == k@,
            forall|parts: Seq<Seq<char>>| #![trigger param_lookup(parts, k@)]
                parts.len() == kvs@.len() && (forall|j: int| 0 <= j < parts.len() ==> kv_view(kvs@[j]) == #[trigger] part_kv(parts[j]))
                ==> param_lookup(parts, k@) == param_lookup(parts.take(i as int), k@),
        decreases i,
    {
        let ghost i0 = i;
        match &kvs[i - 1] {
            Some((kk, v)) => {
                if chars_eq(kk, &key) {
                    assert forall|parts: Seq<Seq<char>>| #![trigger param_lookup(parts, k@)]
                        parts.len() == kvs@.len() && (forall|j: int| 0 <= j < parts.len() ==> kv_view(kvs@[j]) == #[trigger] part_kv(parts[j]))
                        implies param_lookup(parts, k@) == Some(v@) by {
                        assert(part_kv(parts[i0 - 1]) == kv_view(kvs@[i0 - 1]));
                        assert(parts.take(i0 as int).last() == parts[i0 - 1]);
                    }
                    return Some(v.clone());
                }
            },
            None => {},
        }
        assert forall|parts: Seq<Seq<char>>| #![trigger param_lookup(parts, k@)]
            parts.len() == kvs@.len() && (forall|j: int| 0 <= j < parts.len() ==> kv_view(kvs@[j]) == #[trigger] part_kv(parts[j]))
            implies param_lookup(parts, k@) == param_lookup(parts.take(i0 - 1), k@) by {
            assert(part_kv(parts[i0 - 1]) == kv_view(kvs@[i0 - 1]));
            assert(parts.take(i0 as int).last() == parts[i0 - 1]);
            assert(parts.take(i0 as int).drop_last() =~= parts.take(i0 - 1));
        }
        i -= 1;
    }
    None
}

/// The view of a parsed parameter.
pub open spec fn kv_view(o: Option<(Vec<char>, Vec<char>)>) -> Option<(Seq<char>, Seq<char>)> {
    match o {
        Some((k, v)) => Some((k@, v@)),
        None => None,
    }
}

/// Parses a `Signature` header (`keyId="…",headers="…",signature="…"`).
/// Later parameters override earlier ones of the same name.
pub fn parse_signature_header(value: &str) -> (r: Result<SignatureParams, SigParseError>)
    ensures
        match r {
            Ok(p) => spec_parse_signature(value@) == Ok::<(Seq<char>, Seq<Seq<char>>, Seq<u8>), SigParseError>(
                (p.key_id@, p.headers@.map_values(|h: String| h@), p.signature@)),
            Err(e) => spec_parse_signature(value@) == Err::<(Seq<char>, Seq<Seq<char>>, Seq<u8>), SigParseError>(e),
        },
{
    let parts = split_chars(&str_chars(value), ',');
    let ghost pv = parts@.map_values(|p: Vec<char>| p@);
    let mut kvs: Vec<Option<(Vec<char>, Vec<char>)>> = Vec::new();
    let mut i: usize = 0;
    while i < parts.len()
        invariant
            i <= parts.len(),
            pv == parts@.map_values(|p: Vec<char>| p@),
            kvs@.len() == i,
            forall|j: int| 0 <= j < i ==> kv_view(#[trigger] kvs@[j]) == part_kv(pv[j]),
        decreases parts.len() - i,
    {
        let kv = part_kv_exec(&parts[i]);
        kvs.push(kv);
        i += 1;
    }
    assert(forall|j: int| 0 <= j < pv.len() ==> kv_view(kvs@[j]) == #[trigger] part_kv(pv[j]));
    let kid = match lookup_param(&kvs, "keyId") {
        Some(v) => v,
        None => return Err(SigParseError::MissingKeyId),
    };
    let hv = match lookup_param(&kvs, "headers") {
        Some(v) => v,
        None => str_chars("date"),
    };
    let sig = match lookup_param(&kvs, "signature") {
        Some(v) => v,
        None => return Err(SigParseError::MissingSignature),
    };
    let sig_s = string_from_chars(&sig);
    let bytes = match b64_decode(sig_s.as_str().as_bytes()) {
        Some(b) => b,
        None => return Err(SigParseError::BadSignatureEncoding),
    };
    let headers = lower_words(&hv);
    Ok(SignatureParams { key_id: string_from_chars(&kid), headers, signature: bytes })
}

/// A byte of a header name as it is normalized: an ASCII upper-case letter
/// lower-cased, any other token character kept, anything else 0 (invalid).
pub open spec fn header_char(b: u8) -> u8 {
    if 65 <= b <= 90 {
        (b + 32) as u8
    } else if (97 <= b <= 122) || (48 <= b <= 57) || b == 33 || (35 <= b <= 39) || b == 42 || b == 43
        || b == 45 || b == 46 || b == 94 || b == 95 || b == 96 || b == 124 || b == 126 {
        b
    } else {
        0
    }
}

/// The normalized form of a header name: between 1 and 65535 token
/// characters, lower-cased; `None` otherwise.
pub open spec fn header_name_of(b: Seq<u8>) -> Option<Seq<char>> {
    if 0 < b.len() <= 65535 && forall|i: int| 0 <= i < b.len() ==> header_char(#[trigger] b[i]) != 0 {
        Some(Seq::new(b.len(), |i: int| header_char(b[i]) as char))
    } else {
        None
    }
}

/// `http::header::HeaderName::from_bytes` (through its table of header
/// characters), giving the normalized name as text.
#[verifier::external_body]
pub(crate) fn header_name(name: &str) -> (r: Option<String>)
    ensures
        match r {
            Some(n) => header_name_of(name.spec_bytes()) == Some(n@),
            None => header_name_of(name.spec_bytes()) is None,
        },
{
    http::header::HeaderName::from_bytes(name.as_bytes()).ok().map(|n| n.as_str().to_owned())
}

/// Why a signing string cannot be built.
#[derive(PartialEq, Eq, Structural, Clone, Copy, Debug)]
pub enum SigningError {
    /// A signed header name is not a valid header name.
    BadHeaderName,
    /// A signed header is absent from the request.
    MissingHeader,
    /// A signed header's value is not visible ASCII text.
    InvalidHeaderValue,
}

/// A request header: its normalized name, and its value when it is visible ASCII text.
pub type HeaderV = (Seq<char>, Option<Seq<char>>);

/// The first header named `n`.
pub open spec fn header_lookup(hs: Seq<HeaderV>, n: Seq<char>) -> Option<Option<Seq<char>>>
    decreases hs.len(),
{
    if hs.len() == 0 {
        None
    } else if hs[0].0 == n {
        Some(hs[0].1)
    } else {
        header_lookup(hs.drop_first(), n)
    }
}

/// The line of the signing string for header `name`.
pub open spec fn signing_line(method: Seq<char>, path: Seq<char>, query: Option<Seq<char>>, hs: Seq<HeaderV>, name: Seq<char>) -> Result<Seq<char>, SigningError> {
    if name == "(request-target)"@ {
        Ok("(request-target): "@ + lower(method) + " "@ + path + match query {
            Some(q) => "?"@ + q,
            None => Seq::empty(),
        })
    } else {
        match header_name_of(vstd::utf8::encode_utf8(name)) {
            None => Err(SigningError::BadHeaderName),
            Some(n) => match header_lookup(hs, n) {
                None => Err(SigningError::MissingHeader),
                Some(None) => Err(SigningError::InvalidHeaderValue),
                Some(Some(v)) => Ok(name + ": "@ + trim(v)),
            },
        }
    }
}

/// The lines for the signed headers, in order, or the first error.
pub open spec fn signing_lines(method: Seq<char>, path: Seq<char>, query: Option<Seq<char>>, hs: Seq<HeaderV>, names: Seq<Seq<char>>) -> Result<Seq<Seq<char>>, SigningError>
    decreases names.len(),
{
    if names.len() == 0 {
        Ok(Seq::empty())
    } else {
        match signing_lines(method, path, query, hs, names.drop_last()) {
            Err(e) => Err(e),
            Ok(ls) => match signing_line(method, path, query, hs, names.last()) {
                Err(e) => Err(e),
                Ok(l) => Ok(ls.push(l)),
            },
        }
    }
}

/// Lines joined with line feeds.
pub open spec fn join_lines(ls: Seq<Seq<char>>) -> Seq<char>
    decreases ls.len(),
{
    if ls.len() == 0 {
        Seq::empty()
    } else if ls.len() == 1 {
        ls[0]
    } else {
        join_lines(ls.drop_last()) + "\n"@ + ls.last()
    }
}

/// The signing string of a request over `names`.
pub open spec fn spec_signing_string(method: Seq<char>, path: Seq<char>, query: Option<Seq<char>>, hs: Seq<HeaderV>, names: Seq<Seq<char>>) -> Result<Seq<char>, SigningError> {
    match signing_lines(method, path, query, hs, names) {
        Ok(ls) => Ok(join_lines(ls)),
        Err(e) => Err(e),
    }
}

pub open spec fn headers_view(hs: Seq<(String, Option<String>)>) -> Seq<HeaderV> {
    hs.map_values(|h: (String, Option<String>)| (h.0@, match h.1 { Some(v) => Some(v@), None => None }))
}

fn lookup_header(hs: &Vec<(String, Option<String>)>, n: &str) -> (r: Option<Option<String>>)
    ensures
        match r {
            None => header_lookup(headers_view(hs@), n@) is None,
            Some(None) => header_lookup(headers_view(hs@), n@) == Some(None::<Seq<char>>),
            Some(Some(v)) => header_lookup(headers_view(hs@), n@) == Some(Some(v@)),
        },
{
    let ghost hv = headers_view(hs@);
    let mut i: usize = 0;
    assert(hv.skip(0) =~= hv);
    while i < hs.len()
        invariant
            i <= hs.len(),
            hv == headers_view(hs@),
            header_lookup(hv, n@) == header_lookup(hv.skip(i as int), n@),
        decreases hs.len() - i,
    {
        let ghost t = hv.skip(i as int);
        assert(t[0] == hv[i as int]);
        assert(t.drop_first() =~= hv.skip(i + 1));
        if str_eq(hs[i].0.as_str(), n) {
            return match &hs[i].1 {
                Some(v) => Some(Some(v.clone())),
                None => Some(None),
            };
        }
        i += 1;
    }
    None
}

fn signing_line_exec(method: &str, path: &str, query: Option<&str>, hs: &Vec<(String, Option<String>)>, name: &str) -> (r: Result<Vec<char>, SigningError>)
    ensures
        match r {
            Ok(l) => signing_line(method@, path@, crate::urls::opt_view(query), headers_view(hs@), name@) == Ok::<Seq<char>, SigningError>(l@),
            Err(e) => signing_line(method@, path@, crate::urls::opt_view(query), headers_view(hs@), name@) == Err::<Seq<char>, SigningError>(e),
        },
{
    if str_eq(name, "(request-target)") {
        let mut out = str_chars("(request-target): ");
        append_chars(&mut out, &lower_chars(&str_chars(method)));
        append_str(&mut out, " ");
        append_str(&mut out, path);
        let ghost base = out@;
        match query {
            Some(q) => {
                append_str(&mut out, "?");
                append_str(&mut out, q);
                assert(out@ =~= base + ("?"@ + q@));
            },
            None => {
                assert(out@ =~= base + Seq::<char>::empty());
            },
        }
        return Ok(out);
    }
    let n = match header_name(name) {
        Some(n) => n,
        None => return Err(SigningError::BadHeaderName),
    };
    match lookup_header(hs, n.as_str()) {
        None => Err(SigningError::MissingHeader),
        Some(None) => Err(SigningError::InvalidHeaderValue),
        Some(Some(v)) => {
            let mut out = str_chars(name);
            append_str(&mut out, ": ");
            append_chars(&mut out, &trim_chars(&str_chars(v.as_str())));
            Ok(out)
        },
    }
}

/// Builds the signing string of a request: one line per signed header, in
/// order, with `(request-target)` as the lowercased method, the path and the
/// query; `headers` holds the request's headers by normalized name, with
/// their values when they are visible ASCII.
pub fn build_signing_string(method: &str, path: &str, query: Option<&str>, headers: &Vec<(String, Option<String>)>, signed_headers: &[String]) -> (r: Result<String, SigningError>)
    ensures
        match r {
            Ok(s) => spec_signing_string(method@, path@, crate::urls::opt_view(query), headers_view(headers@), signed_headers@.map_values(|h: String| h@)) == Ok::<Seq<char>, SigningError>(s@),
            Err(e) => spec_signing_string(method@, path@, crate::urls::opt_view(query), headers_view(headers@), signed_headers@.map_values(|h: String| h@)) == Err::<Seq<char>, SigningError>(e),
        },
{
    let ghost names = signed_headers@.map_values(|h: String| h@);
    let ghost q = crate::urls::opt_view(query);
    let ghost hv = headers_view(headers@);
    let mut out: Vec<char> = Vec::new();
    let ghost mut lines: Seq<Seq<char>> = Seq::empty();
    let mut i: usize = 0;
    while i < signed_headers.len()
        invariant
            i <= signed_headers.len(),
            names == signed_headers@.map_values(|h: String| h@),
            q == crate::urls::opt_view(query),
            hv == headers_view(headers@),
            signing_lines(method@, path@, q, hv, names.take(i as int)) == Ok::<Seq<Seq<char>>, SigningError>(lines),
            lines.len() == i,
            out@ == join_lines(lines),
        decreases signed_headers.len() - i,
    {
        assert(names.take(i + 1).drop_last() =~= names.take(i as int));
        assert(names.take(i + 1).last() == signed_headers@[i as int]@);
        let l = match signing_line_exec(method, path, query, headers, signed_headers[i].as_str()) {
            Ok(l) => l,
            Err(e) => {
                assert(names.take(i + 1).len() > 0);
                proof {
                    lemma_signing_lines_prefix_err(method@, path@, q, hv, names, (i + 1) as int);
                }
                return Err(e);
            },
        };
        if i > 0 {
            out.push('\n');
        }
        let ghost prev = out@;
        append_chars(&mut out, &l);
        proof {
            let nl = lines.push(l@);
            if i > 0 {
                assert(nl.drop_last() =~= lines);
                assert(join_lines(nl) == join_lines(lines) + "\n"@ + l@);
                reveal_strlit("\n");
                assert(out@ =~= join_lines(nl));
            } else {
                assert(nl =~= seq![l@]);
                assert(out@ =~= join_lines(nl));
            }
            lines = nl;
        }
        i += 1;
    }
    assert(names.take(i as int) =~= names);
    Ok(string_from_chars(&out))
}

/// Once the lines for a prefix of the names fail, the whole signing string fails the same way.
proof fn lemma_signing_lines_prefix_err(method: Seq<char>, path: Seq<char>, query: Option<Seq<char>>, hs: Seq<HeaderV>, names: Seq<Seq<char>>, k: int)
    requires
        0 <= k <= names.len(),
        signing_lines(method, path, query, hs, names.take(k)) is Err,
    ensures
        signing_lines(method, path, query, hs, names) == signing_lines(method, path, query, hs, names.take(k)),
    decreases names.len() - k,
{
    if k < names.len() {
        assert(names.take(k + 1).drop_last() =~= names.take(k));
        lemma_signing_lines_prefix_err(method, path, query, hs, names, k + 1);
    } else {
        assert(names.take(k) =~= names);
    }
}

/// Why a `Digest` header is rejected.
#[derive(PartialEq, Eq, Structural, Clone, Copy, Debug)]
pub enum DigestError {
    /// The header is not visible ASCII text.
    NotText,
    /// The header has no `=`.
    Invalid,
    /// The digest is not valid base64.
    BadEncoding,
    /// The digest does not match the body.
    Mismatch,
    /// The algorithm is not SHA-256.
    Unsupported,
}

/// The check of a `Digest` header against the body. `digest` is `None`
/// without the header, `Some(None)` when its value is not text.
pub open spec fn spec_verify_digest(digest: Option<Option<Seq<char>>>, body: Seq<u8>) -> Result<(), DigestError> {
    match digest {
        None => Ok(()),
        Some(None) => Err(DigestError::NotText),
        Some(Some(d)) => {
            let i = first_index_of(d, '=');
            if i >= d.len() {
                Err(DigestError::Invalid)
            } else if lower(trim(d.take(i))) == "sha-256"@ {
                match b64_decode_of(vstd::utf8::encode_utf8(trim(d.skip(i + 1)))) {
                    None => Err(DigestError::BadEncoding),
                    Some(e) => if e == sha256_of(body) {
                        Ok(())
                    } else {
                        Err(DigestError::Mismatch)
                    },
                }
            } else {
                Err(DigestError::Unsupported)
            }
        },
    }
}

fn bytes_eq(a: &Vec<u8>, b: &Vec<u8>) -> (r: bool)
    ensures
        r == (a@ == b@),
{
    if a.len() != b.len() {
        return false;
    }
    let mut i: usize = 0;
    while i < a.len()
        invariant
            i <= a.len(),
            a.len() == b.len(),
            forall|j: int| 0 <= j < i ==> a@[j] == b@[j],
        decreases a.len() - i,
    {
        if a[i] != b[i] {
            return false;
        }
        i += 1;
    }
    assert(a@ =~= b@);
    true
}

pub open spec fn opt_opt_view(d: Option<Option<&str>>) -> Option<Option<Seq<char>>> {
    match d {
        None => None,
        Some(None) => Some(None),
        Some(Some(s)) => Some(Some(s@)),
    }
}

/// Checks a request's `Digest` header, when present, against its body
/// (only `SHA-256=<base64>` is supported, the algorithm in any case).
pub fn verify_digest_if_present(digest: Option<Option<&str>>, body: &[u8]) -> (r: Result<(), DigestError>)
    ensures
        r == spec_verify_digest(opt_opt_view(digest), body@),
{
    let d = match digest {
        None => return Ok(()),
        Some(None) => return Err(DigestError::NotText),
        Some(Some(d)) => str_chars(d),
    };
    proof {
        lemma_before_char(d@, '=');
    }
    let mut i: usize = 0;
    while i < d.len() && d[i] != '='
        invariant
            i <= d.len(),
            i <= first_index_of(d@, '='),
            0 <= first_index_of(d@, '=') <= d@.len(),
            forall|j: int| 0 <= j < first_index_of(d@, '=') ==> d@[j] != '=',
            first_index_of(d@, '=') < d@.len() ==> d@[first_index_of(d@, '=')] == '=',
        decreases d.len() - i,
    {
        i += 1;
    }
    if i >= d.len() {
        return Err(DigestError::Invalid);
    }
    let alg = lower_chars(&trim_chars(&slice_chars(&d, 0, i)));
    assert(d@.subrange(0, i as int) =~= d@.take(i as int));
    if !chars_eq(&alg, &str_chars("sha-256")) {
        return Err(DigestError::Unsupported);
    }
    let value = trim_chars(&slice_chars(&d, i + 1, d.len()));
    assert(d@.subrange(i + 1, d@.len() as int) =~= d@.skip(i + 1));
    let vs = string_from_chars(&value);
    let expected = match b64_decode(vs.as_str().as_bytes()) {
        Some(e) => e,
        None => return Err(DigestError::BadEncoding),
    };
    let actual = sha256(body);
    if bytes_eq(&expected, &actual) {
        Ok(())
    } else {
        Err(DigestError::Mismatch)
    }
}

/// Whether a request needs a `Digest`: it already has one, `digest` is
/// among the signed headers, or the body is not empty.
pub open spec fn spec_wants_digest(has_digest: bool, signed: Seq<Seq<char>>, body_len: nat) -> bool {
    has_digest || signed.contains("digest"@) || body_len > 0
}

/// The `Digest` header value for a body: `SHA-256=` and the base64 of its SHA-256.
pub open spec fn spec_digest_header(body: Seq<u8>) -> Seq<char> {
    "SHA-256="@ + b64_encode_of(sha256_of(body))
}

/// The names joined with single spaces.
pub open spec fn join_spaces(ls: Seq<Seq<char>>) -> Seq<char>
    decreases ls.len(),
{
    if ls.len() == 0 {
        Seq::empty()
    } else if ls.len() == 1 {
        ls[0]
    } else {
        join_spaces(ls.drop_last()) + " "@ + ls.last()
    }
}

/// The `Signature` header value.
pub open spec fn spec_signature_header(key_id: Seq<char>, signed: Seq<Seq<char>>, sig: Seq<u8>) -> Seq<char> {
    "keyId=\""@ + key_id + "\",algorithm=\"rsa-sha256\",headers=\""@ + join_spaces(signed)
        + "\",signature=\""@ + b64_encode_of(sig) + "\""@
}

/// The `Signature` header for a key id, the signed header names and the
/// signature bytes; with a plain key id and plain names it parses back
/// (`parse_signature_header`) as exactly those three.
pub fn signature_header(key_id: &str, signed: &Vec<String>, sig: &[u8]) -> (r: String)
    ensures
        r@ == spec_signature_header(key_id@, signed@.map_values(|h: String| h@), sig@),
        crate::sigroundtrip::plain_key_id(key_id@) && crate::sigroundtrip::plain_names(signed@.map_values(|h: String| h@))
            ==> spec_parse_signature(r@) == Ok::<(Seq<char>, Seq<Seq<char>>, Seq<u8>), SigParseError>(
                (key_id@, signed@.map_values(|h: String| h@), sig@)),
{
    let ghost names = signed@.map_values(|h: String| h@);
    let mut list: Vec<char> = Vec::new();
    let mut i: usize = 0;
    while i < signed.len()
        invariant
            i <= signed.len(),
            names == signed@.map_values(|h: String| h@),
            list@ == join_spaces(names.take(i as int)),
        decreases signed.len() - i,
    {
        let ghost prev = list@;
        assert(names.take(i + 1).drop_last() =~= names.take(i as int));
        if i > 0 {
            list.push(' ');
        }
        append_str(&mut list, signed[i].as_str());
        proof {
            if i > 0 {
                reveal_strlit(" ");
                assert(list@ =~= join_spaces(names.take(i + 1)));
            } else {
                assert(names.take(i + 1) =~= seq![signed@[0]@]);
                assert(list@ =~= join_spaces(names.take(i + 1)));
            }
        }
        i += 1;
    }
    assert(names.take(i as int) =~= names);
    let mut out = str_chars("keyId=\"");
    append_str(&mut out, key_id);
    append_str(&mut out, "\",algorithm=\"rsa-sha256\",headers=\"");
    append_chars(&mut out, &list);
    append_str(&mut out, "\",signature=\"");
    let b = b64_encode(sig);
    append_str(&mut out, b.as_str());
    append_str(&mut out, "\"");
    assert(out@ =~= spec_signature_header(key_id@, names, sig@));
    proof {
        if crate::sigroundtrip::plain_key_id(key_id@) && crate::sigroundtrip::plain_names(names) {
            crate::sigroundtrip::lemma_signature_header_round_trip(key_id@, names, sig@);
        }
    }
    string_from_chars(&out)
}

/// The RSA PKCS#1 v1.5 SHA-256 signature of `msg` under a private key in
/// PKCS#8 PEM, or `None` when the key does not parse or its modulus is too
/// small for the SHA-256 digest info.
pub uninterp spec fn rsa_sha256_signature_of(private_pem: Seq<char>, msg: Seq<u8>) -> Option<Seq<u8>>;

/// Whether `sig` is a valid RSA PKCS#1 v1.5 SHA-256 signature of `msg` under
/// a public key in SPKI PEM (false when the key or signature does not parse).
pub uninterp spec fn rsa_sha256_verifies(public_pem: Seq<char>, msg: Seq<u8>, sig: Seq<u8>) -> bool;

/// Whether every signature the private key makes verifies under the public
/// key (as it does for the two halves of a sound RSA key pair).
pub open spec fn signs_verify(private_pem: Seq<char>, public_pem: Seq<char>) -> bool {
    forall|m: Seq<u8>, s: Seq<u8>| rsa_sha256_signature_of(private_pem, m) == Some(s)
        ==> #[trigger] rsa_sha256_verifies(public_pem, m, s)
}

/// `rsa::pkcs1v15::SigningKey::<Sha256>::try_sign_with_rng` on a key read by
/// `RsaPrivateKey::from_pkcs8_pem`; `None` when the key does not parse or is
/// too small for the SHA-256 digest info. PKCS#1 v1.5 signatures are
/// deterministic (the generator only blinds the computation).
#[verifier::external_body]
pub fn sign_bytes_rsa_sha256(private_key_pem: &str, bytes: &[u8]) -> (r: Option<Vec<u8>>)
    ensures
        match r {
            Some(s) => rsa_sha256_signature_of(private_key_pem@, bytes@) == Some(s@),
            None => rsa_sha256_signature_of(private_key_pem@, bytes@) is None,
        },
{
    let key = rsa::RsaPrivateKey::from_pkcs8_pem(private_key_pem).ok()?;
    let signing_key = rsa::pkcs1v15::SigningKey::<sha2::Sha256>::new(key);
    let mut rng = rand::rngs::OsRng;
    let signed: Result<rsa::pkcs1v15::Signature, rsa::signature::Error> = signing_key.try_sign_with_rng(&mut rng, bytes);
    match signed {
        Ok(sig) => Some(sig.to_bytes().to_vec()),
        Err(_) => None,
    }
}

/// `rsa::pkcs1v15::VerifyingKey::<Sha256>::verify` on a key read by
/// `RsaPublicKey::from_public_key_pem` and a signature read by `Signature::try_from`.
#[verifier::external_body]
pub fn verify_bytes_rsa_sha256(public_key_pem: &str, bytes: &[u8], signature: &[u8]) -> (r: bool)
    ensures
        r == rsa_sha256_verifies(public_key_pem@, bytes@, signature@),
{
    let Ok(key) = rsa::RsaPublicKey::from_public_key_pem(public_key_pem) else { return false };
    let verifying_key = rsa::pkcs1v15::VerifyingKey::<sha2::Sha256>::new(key);
    let Ok(sig) = rsa::pkcs1v15::Signature::try_from(signature) else { return false };
    verifying_key.verify(bytes, &sig).is_ok()
}

/// Verifies a signature over a signing string.
pub fn verify_signature_rsa_sha256(public_key_pem: &str, signing_string: &str, signature: &[u8]) -> (r: bool)
    ensures
        r == rsa_sha256_verifies(public_key_pem@, signing_string.spec_bytes(), signature@),
{
    verify_bytes_rsa_sha256(public_key_pem, signing_string.as_bytes(), signature)
}

/// Seconds since the epoch of an HTTP date (`httpdate::parse_http_date`), if valid.
pub uninterp spec fn http_date_secs_of(s: Seq<char>) -> Option<u64>;

/// The HTTP date (IMF-fixdate) of the instant `secs` seconds after the epoch.
pub uninterp spec fn http_date_of(secs: u64) -> Seq<char>;

/// `httpdate::parse_http_date`, as whole seconds since the epoch (the dates
/// it reads carry no fraction and are not before the epoch).
#[verifier::external_body]
fn parse_http_date_secs(s: &str) -> (r: Option<u64>)
    ensures
        r == http_date_secs_of(s@),
{
    httpdate::parse_http_date(s).ok().and_then(|t| t.duration_since(std::time::UNIX_EPOCH).ok()).map(|d| d.as_secs())
}

/// `httpdate::fmt_http_date` of the instant `secs` seconds after the epoch
/// (it panics from the year 9999 on); `parse_http_date` reads the text back
/// as the same instant.
#[verifier::external_body]
fn format_http_date(secs: u64) -> (r: String)
    requires
        secs < 253402300800,
    ensures
        r@ == http_date_of(secs),
        http_date_secs_of(r@) == Some(secs),
{
    httpdate::fmt_http_date(std::time::UNIX_EPOCH + std::time::Duration::from_secs(secs))
}

/// Why a request's `Date` is refused.
#[derive(PartialEq, Eq, Structural, Clone, Copy, Debug)]
pub enum DateError {
    /// There is no `Date` header.
    Missing,
    /// The `Date` header is not text.
    NotText,
    /// The `Date` header is not an HTTP date.
    Unparsable,
    /// The date is further from now than the allowed skew.
    Skewed,
}

/// The check of a request's `Date` header (`None`: absent; `Some(None)`: not
/// text) at `now_ms`: it must be an HTTP date at most `max_skew_secs` away
/// from now, in either direction.
pub open spec fn spec_check_date(date: Option<Option<Seq<char>>>, max_skew_secs: u64, now_ms: u64) -> Result<(), DateError> {
    match date {
        None => Err(DateError::Missing),
        Some(None) => Err(DateError::NotText),
        Some(Some(d)) => match http_date_secs_of(d) {
            None => Err(DateError::Unparsable),
            Some(t) => {
                let diff = if now_ms >= t * 1000 { now_ms - t * 1000 } else { t * 1000 - now_ms };
                if diff > max_skew_secs * 1000 { Err(DateError::Skewed) } else { Ok(()) }
            },
        },
    }
}

/// A header value as text: absent, present but not text, or its text.
pub open spec fn date_view(date: Option<Option<&str>>) -> Option<Option<Seq<char>>> {
    match date {
        None => None,
        Some(None) => Some(None),
        Some(Some(d)) => Some(Some(d@)),
    }
}

/// Checks a request's `Date` header at time `now_ms` (see `spec_check_date`).
pub fn verify_date_at(date: Option<Option<&str>>, max_skew_secs: u64, now_ms: u64) -> (r: Result<(), DateError>)
    ensures
        r == spec_check_date(date_view(date), max_skew_secs, now_ms),
{
    let d = match date {
        None => return Err(DateError::Missing),
        Some(None) => return Err(DateError::NotText),
        Some(Some(d)) => d,
    };
    let t = match parse_http_date_secs(d) {
        None => return Err(DateError::Unparsable),
        Some(t) => t,
    };
    let tm: u128 = (t as u128) * 1000;
    let now: u128 = now_ms as u128;
    let diff: u128 = if now >= tm { now - tm } else { tm - now };
    if diff > (max_skew_secs as u128) * 1000 {
        Err(DateError::Skewed)
    } else {
        Ok(())
    }
}

/// Checks a request's `Date` header against the current time.
pub fn verify_date(date: Option<Option<&str>>, max_skew_secs: u64) -> (r: Result<(), DateError>)
    ensures
        exists|now: u64| r == #[trigger] spec_check_date(date_view(date), max_skew_secs, now),
{
    let now = crate::metrics::now_ms();
    verify_date_at(date, max_skew_secs, now)
}

/// The headers a signed request gains, and its `Signature` header.
#[derive(Debug)]
pub struct RequestSigning {
    /// Headers added to the request (normalized names), in order: `date`,
    /// `digest` and `host`, each only when needed.
    pub added: Vec<(String, String)>,
    /// The `Signature` header value.
    pub signature: String,
}

/// Why a request cannot be signed.
#[derive(PartialEq, Eq, Structural, Clone, Copy, Debug)]
pub enum SignRequestError {
    /// The signing string cannot be built.
    Signing(SigningError),
    /// The private key is not a PKCS#8 PEM RSA key.
    BadPrivateKey,
    /// The clock reads a time from the year 9999 on, which HTTP dates cannot write.
    ClockOutOfRange,
}

/// The headers added before signing: a `date` for `now_secs` when there is
/// none, a SHA-256 `digest` of the body when one is wanted and absent, and
/// the `host` from the authority when there is none.
pub open spec fn spec_added_headers(hs: Seq<HeaderV>, authority: Option<Seq<char>>, body: Seq<u8>, signed: Seq<Seq<char>>, now_secs: u64) -> Seq<(Seq<char>, Seq<char>)> {
    let a1: Seq<(Seq<char>, Seq<char>)> = if header_lookup(hs, "date"@) is None { seq![("date"@, http_date_of(now_secs))] } else { Seq::empty() };
    let has_digest = header_lookup(hs, "digest"@) is Some;
    let a2 = if spec_wants_digest(has_digest, signed, body.len()) && !has_digest { a1.push(("digest"@, spec_digest_header(body))) } else { a1 };
    match authority {
        Some(h) => if header_lookup(hs, "host"@) is None { a2.push(("host"@, h)) } else { a2 },
        None => a2,
    }
}

/// Added headers as request headers with text values.
pub open spec fn as_headers(a: Seq<(Seq<char>, Seq<char>)>) -> Seq<HeaderV> {
    a.map_values(|h: (Seq<char>, Seq<char>)| (h.0, Some(h.1)))
}

/// Signing a request at `now_secs`: the headers are completed, the signing
/// string is built over the lowercased signed header names, and signed.
pub open spec fn spec_sign_request(private_pem: Seq<char>, key_id: Seq<char>, method: Seq<char>, path: Seq<char>, query: Option<Seq<char>>,
    authority: Option<Seq<char>>, hs: Seq<HeaderV>, body: Seq<u8>, signed_raw: Seq<Seq<char>>, now_secs: u64) -> Result<(Seq<(Seq<char>, Seq<char>)>, Seq<char>), SignRequestError> {
    let signed = signed_raw.map_values(|h: Seq<char>| lower(h));
    let added = spec_added_headers(hs, authority, body, signed, now_secs);
    match spec_signing_string(method, path, query, hs + as_headers(added), signed) {
        Err(e) => Err(SignRequestError::Signing(e)),
        Ok(ss) => match rsa_sha256_signature_of(private_pem, vstd::utf8::encode_utf8(ss)) {
            None => Err(SignRequestError::BadPrivateKey),
            Some(sig) => Ok((added, spec_signature_header(key_id, signed, sig))),
        },
    }
}

pub open spec fn added_view(a: Seq<(String, String)>) -> Seq<(Seq<char>, Seq<char>)> {
    a.map_values(|h: (String, String)| (h.0@, h.1@))
}

fn push_added(added: &mut Vec<(String, String)>, all: &mut Vec<(String, Option<String>)>, name: &str, value: String)
    ensures
        added_view(final(added)@) == added_view(old(added)@).push((name@, value@)),
        headers_view(final(all)@) == headers_view(old(all)@).push((name@, Some(value@))),
{
    let ghost a0 = added@;
    let ghost h0 = all@;
    all.push((name.to_string(), Some(value.clone())));
    added.push((name.to_string(), value));
    proof {
        assert(added_view(added@) =~= added_view(a0).push((name@, value@)));
        assert(headers_view(all@) =~= headers_view(h0).push((name@, Some(value@))));
    }
}

fn clone_headers(hs: &Vec<(String, Option<String>)>) -> (r: Vec<(String, Option<String>)>)
    ensures
        headers_view(r@) == headers_view(hs@),
{
    let mut out: Vec<(String, Option<String>)> = Vec::new();
    let mut i: usize = 0;
    while i < hs.len()
        invariant
            i <= hs.len(),
            headers_view(out@) == headers_view(hs@).take(i as int),
        decreases hs.len() - i,
    {
        let v = match &hs[i].1 {
            Some(x) => Some(x.clone()),
            None => None,
        };
        let ghost o0 = out@;
        out.push((hs[i].0.clone(), v));
        proof {
            assert(headers_view(out@) =~= headers_view(o0).push(headers_view(hs@)[i as int]));
            assert(headers_view(hs@).take(i + 1) =~= headers_view(hs@).take(i as int).push(headers_view(hs@)[i as int]));
        }
        i += 1;
    }
    proof {
        assert(headers_view(hs@).take(i as int) =~= headers_view(hs@));
    }
    out
}

/// Signs a request at `now_secs` (see `spec_sign_request`): `headers` holds
/// the request's headers by normalized name; the result lists the headers to
/// add and the `Signature` value. A `date` added here reads back as `now_secs`.
pub fn sign_request_at(private_key_pem: &str, key_id: &str, method: &str, path: &str, query: Option<&str>, authority: Option<&str>,
    headers: &Vec<(String, Option<String>)>, body: &[u8], signed_headers: &Vec<String>, now_secs: u64) -> (r: Result<RequestSigning, SignRequestError>)
    requires
        now_secs < 253402300800,
    ensures
        match r {
            Ok(rs) => spec_sign_request(private_key_pem@, key_id@, method@, path@, crate::urls::opt_view(query), crate::urls::opt_view(authority),
                headers_view(headers@), body@, crate::order::views(signed_headers@), now_secs)
                == Ok::<(Seq<(Seq<char>, Seq<char>)>, Seq<char>), SignRequestError>((added_view(rs.added@), rs.signature@)),
            Err(e) => spec_sign_request(private_key_pem@, key_id@, method@, path@, crate::urls::opt_view(query), crate::urls::opt_view(authority),
                headers_view(headers@), body@, crate::order::views(signed_headers@), now_secs)
                == Err::<(Seq<(Seq<char>, Seq<char>)>, Seq<char>), SignRequestError>(e),
        },
        match r {
            Ok(rs) => header_lookup(headers_view(headers@), "date"@) is None ==> added_view(rs.added@).len() > 0
                && added_view(rs.added@)[0].0 == "date"@ && http_date_secs_of(added_view(rs.added@)[0].1) == Some(now_secs),
            Err(_) => true,
        },
        match r {
            Ok(rs) => crate::sigroundtrip::plain_key_id(key_id@) && crate::sigroundtrip::plain_header_names(crate::order::views(signed_headers@))
                ==> spec_parse_signature(rs.signature@) is Ok
                && spec_parse_signature(rs.signature@)->Ok_0.0 == key_id@
                && spec_parse_signature(rs.signature@)->Ok_0.1 == crate::order::views(signed_headers@).map_values(|h: Seq<char>| lower(h))
                && match spec_signing_string(method@, path@, crate::urls::opt_view(query),
                    headers_view(headers@) + as_headers(added_view(rs.added@)), spec_parse_signature(rs.signature@)->Ok_0.1) {
                    Ok(ss) => rsa_sha256_signature_of(private_key_pem@, vstd::utf8::encode_utf8(ss)) == Some(spec_parse_signature(rs.signature@)->Ok_0.2)
                        && forall|public_pem: Seq<char>| #[trigger] signs_verify(private_key_pem@, public_pem)
                            ==> rsa_sha256_verifies(public_pem, vstd::utf8::encode_utf8(ss), spec_parse_signature(rs.signature@)->Ok_0.2),
                    Err(_) => false,
                },
            Err(_) => true,
        },
        match r {
            Ok(rs) => header_lookup(headers_view(headers@), "digest"@) is None
                ==> spec_verify_digest(header_lookup(headers_view(headers@) + as_headers(added_view(rs.added@)), "digest"@), body@)
                == Ok::<(), DigestError>(()),
            Err(_) => true,
        },
{
    let ghost hs = headers_view(headers@);
    let ghost raw = crate::order::views(signed_headers@);
    let mut signed: Vec<String> = Vec::new();
    let mut i: usize = 0;
    while i < signed_headers.len()
        invariant
            i <= signed_headers.len(),
            signed@.len() == i,
            forall|j: int| 0 <= j < i ==> (#[trigger] signed@[j])@ == lower(signed_headers@[j]@),
        decreases signed_headers.len() - i,
    {
        let l = string_from_chars(&lower_chars(&str_chars(signed_headers[i].as_str())));
        signed.push(l);
        i += 1;
    }
    proof {
        assert(signed@.map_values(|h: String| h@) =~= raw.map_values(|h: Seq<char>| lower(h)));
    }
    let ghost sv = signed@.map_values(|h: String| h@);
    assert(sv == raw.map_values(|h: Seq<char>| lower(h)));
    let mut all = clone_headers(headers);
    let mut added: Vec<(String, String)> = Vec::new();
    assert(added_view(added@) =~= Seq::<(Seq<char>, Seq<char>)>::empty());
    let has_date = lookup_header(headers, "date").is_some();
    if !has_date {
        let d = format_http_date(now_secs);
        push_added(&mut added, &mut all, "date", d);
    }
    let ghost date_read = added@;
    let has_digest = lookup_header(headers, "digest").is_some();
    let mut wants = has_digest || body.len() > 0;
    let mut k: usize = 0;
    while k < signed.len()
        invariant
            k <= signed.len(),
            wants == (has_digest || body@.len() > 0 || signed@.map_values(|h: String| h@).take(k as int).contains("digest"@)),
        decreases signed.len() - k,
    {
        let ghost before = signed@.map_values(|h: String| h@).take(k as int);
        if str_eq(signed[k].as_str(), "digest") {
            wants = true;
        }
        proof {
            let sq = signed@.map_values(|h: String| h@);
            let nx = sq.take(k + 1);
            assert(nx =~= before.push(sq[k as int]));
            if nx.contains("digest"@) {
                let j = choose|j: int| 0 <= j < nx.len() && #[trigger] nx[j] == "digest"@;
                if j < k {
                    assert(before[j] == "digest"@);
                }
            }
            if before.contains("digest"@) {
                let j = choose|j: int| 0 <= j < before.len() && #[trigger] before[j] == "digest"@;
                assert(nx[j] == "digest"@);
            }
            if sq[k as int] == "digest"@ {
                assert(nx[k as int] == "digest"@);
            }
        }
        k += 1;
    }
    proof {
        assert(signed@.map_values(|h: String| h@).take(k as int) =~= sv);
    }
    if wants && !has_digest {
        let mut dv = str_chars("SHA-256=");
        let h = sha256(body);
        let b = b64_encode(h.as_slice());
        assert(crate::sigroundtrip::b64_round_trips(sha256_of(body@)));
        append_str(&mut dv, b.as_str());
        push_added(&mut added, &mut all, "digest", string_from_chars(&dv));
    }
    match authority {
        Some(a) => {
            if lookup_header(headers, "host").is_none() {
                push_added(&mut added, &mut all, "host", a.to_string());
            }
        },
        None => {},
    }
    proof {
        let want = spec_added_headers(hs, crate::urls::opt_view(authority), body@, sv, now_secs);
        assert(added_view(added@) =~= want);
        assert(headers_view(all@) =~= hs + as_headers(want));
        if !has_date {
            assert(added_view(added@)[0] == added_view(date_read)[0]);
        }
    }
    let ss = match build_signing_string(method, path, query, &all, signed.as_slice()) {
        Ok(s) => s,
        Err(e) => return Err(SignRequestError::Signing(e)),
    };
    let sig = match sign_bytes_rsa_sha256(private_key_pem, ss.as_str().as_bytes()) {
        Some(s) => s,
        None => return Err(SignRequestError::BadPrivateKey),
    };
    let header = signature_header(key_id, &signed, sig.as_slice());
    proof {
        if crate::sigroundtrip::plain_header_names(raw) {
            crate::sigroundtrip::lemma_lowered_plain(raw);
        }
        if header_lookup(hs, "digest"@) is None {
            crate::sigroundtrip::lemma_added_digest_verifies(hs, crate::urls::opt_view(authority), body@, sv, now_secs);
        }
    }
    Ok(RequestSigning { added, signature: header })
}

/// Signs a request at the current time (see `sign_request_at`).
pub fn sign_request_rsa_sha256(private_key_pem: &str, key_id: &str, method: &str, path: &str, query: Option<&str>, authority: Option<&str>,
    headers: &Vec<(String, Option<String>)>, body: &[u8], signed_headers: &Vec<String>) -> (r: Result<RequestSigning, SignRequestError>)
    ensures
        match r {
            Ok(rs) => exists|now: u64| now < 253402300800 && #[trigger] spec_sign_request(private_key_pem@, key_id@, method@, path@, crate::urls::opt_view(query),
                crate::urls::opt_view(authority), headers_view(headers@), body@, crate::order::views(signed_headers@), now)
                == Ok::<(Seq<(Seq<char>, Seq<char>)>, Seq<char>), SignRequestError>((added_view(rs.added@), rs.signature@)),
            Err(SignRequestError::ClockOutOfRange) => true,
            Err(e) => exists|now: u64| now < 253402300800 && #[trigger] spec_sign_request(private_key_pem@, key_id@, method@, path@, crate::urls::opt_view(query),
                crate::urls::opt_view(authority), headers_view(headers@), body@, crate::order::views(signed_headers@), now)
                == Err::<(Seq<(Seq<char>, Seq<char>)>, Seq<char>), SignRequestError>(e),
        },
        match r {
            Ok(rs) => crate::sigroundtrip::plain_key_id(key_id@) && crate::sigroundtrip::plain_header_names(crate::order::views(signed_headers@))
                ==> spec_parse_signature(rs.signature@) is Ok
                && spec_parse_signature(rs.signature@)->Ok_0.0 == key_id@
                && spec_parse_signature(rs.signature@)->Ok_0.1 == crate::order::views(signed_headers@).map_values(|h: Seq<char>| lower(h))
                && match spec_signing_string(method@, path@, crate::urls::opt_view(query),
                    headers_view(headers@) + as_headers(added_view(rs.added@)), spec_parse_signature(rs.signature@)->Ok_0.1) {
                    Ok(ss) => rsa_sha256_signature_of(private_key_pem@, vstd::utf8::encode_utf8(ss)) == Some(spec_parse_signature(rs.signature@)->Ok_0.2)
                        && forall|public_pem: Seq<char>| #[trigger] signs_verify(private_key_pem@, public_pem)
                            ==> rsa_sha256_verifies(public_pem, vstd::utf8::encode_utf8(ss), spec_parse_signature(rs.signature@)->Ok_0.2),
                    Err(_) => false,
                },
            Err(_) => true,
        },
        match r {
            Ok(rs) => header_lookup(headers_view(headers@), "digest"@) is None
                ==> spec_verify_digest(header_lookup(headers_view(headers@) + as_headers(added_view(rs.added@)), "digest"@), body@)
                == Ok::<(), DigestError>(()),
            Err(_) => true,
        },
{
    let now = crate::metrics::now_ms() / 1000;
    if now >= 253402300800 {
        return Err(SignRequestError::ClockOutOfRange);
    }
    sign_request_at(private_key_pem, key_id, method, path, query, authority, headers, body, signed_headers, now)
}

} // verus!
