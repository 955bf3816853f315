//! End-to-end encryption of the HTTP requests a relay forwards: the body is
//! sealed with AES-256-GCM under a fresh key, which travels wrapped with the
//! node's RSA key (RSA-OAEP/SHA-256) in a small JSON envelope.
use vstd::prelude::*;
use rsa::pkcs8::{DecodePrivateKey, DecodePublicKey};
use crate::text::{lower, str_chars, lower_chars, chars_eq};
use crate::httpsig::{b64_decode, b64_encode, b64_decode_of, b64_encode_of};
use crate::chat::{aes256gcm_seal, aes256gcm_open, aes_gcm_seal_of, aes_gcm_open_of};
use crate::digest::random_bytes;
use crate::json::{Json, JsonV, JsonNumber, jv_pairs, json_str, group_json_view};
use crate::jsontext::{json_object_strings, json_object_strings_of, json_object_bytes, object_text, string_members,
    member_str, find_member_str, plain_members_ok, json_plain, strings_view};
use crate::order::lex_lt;
use crate::sigroundtrip::is_b64_char;

verus! {

/// An HTTP request as it travels through the relay or between peers.
#[derive(Clone, Debug)]
pub struct RelayHttpRequest {
    pub id: String,
    pub method: String,
    pub path: String,
    pub query: String,
    pub headers: Vec<(String, String)>,
    pub body_b64: String,
}

/// A relayed request as values.
pub struct RelayRequestV {
    pub id: Seq<char>,
    pub method: Seq<char>,
    pub path: Seq<char>,
    pub query: Seq<char>,
    pub headers: Seq<(Seq<char>, Seq<char>)>,
    pub body_b64: Seq<char>,
}

pub open spec fn pairs_view(hs: Seq<(String, String)>) -> Seq<(Seq<char>, Seq<char>)> {
    hs.map_values(|h: (String, String)| (h.0@, h.1@))
}

impl View for RelayHttpRequest {
    type V = RelayRequestV;

    open spec fn view(&self) -> RelayRequestV {
        RelayRequestV {
            id: self.id@,
            method: self.method@,
            path: self.path@,
            query: self.query@,
            headers: pairs_view(self.headers@),
            body_b64: self.body_b64@,
        }
    }
}

/// Whether a header name is the encryption marker (compared ignoring ASCII case).
pub open spec fn is_marker(name: Seq<char>) -> bool {
    lower(name) == "x-fedi3-encrypted"@
}

/// The value of the first encryption marker header.
pub open spec fn marker_value(hs: Seq<(Seq<char>, Seq<char>)>) -> Option<Seq<char>>
    decreases hs.len(),
{
    if hs.len() == 0 {
        None
    } else if is_marker(hs[0].0) {
        Some(hs[0].1)
    } else {
        marker_value(hs.drop_first())
    }
}

/// The headers without any encryption marker.
pub open spec fn without_marker(hs: Seq<(Seq<char>, Seq<char>)>) -> Seq<(Seq<char>, Seq<char>)>
    decreases hs.len(),
{
    if hs.len() == 0 {
        hs
    } else {
        let r = without_marker(hs.drop_last());
        if is_marker(hs.last().0) { r } else { r.push(hs.last()) }
    }
}

/// Standard base64 decoding of a text.
pub open spec fn b64_text(s: Seq<char>) -> Option<Seq<u8>> {
    b64_decode_of(vstd::utf8::encode_utf8(s))
}

/// The texts of the `ek_b64`, `nonce_b64` and `ct_b64` members of an
/// envelope, when it is a JSON object holding all three as strings.
pub open spec fn envelope_parts(bytes: Seq<u8>) -> Option<(Seq<char>, Seq<char>, Seq<char>)> {
    match json_object_strings_of(bytes) {
        None => None,
        Some(ms) => match (member_str(ms, "ek_b64"@), member_str(ms, "nonce_b64"@), member_str(ms, "ct_b64"@)) {
            (Some(e), Some(n), Some(c)) => Some((e, n, c)),
            _ => None,
        },
    }
}

/// The RSA-OAEP (SHA-256) decryption of `ct` under a private key in PKCS#8
/// PEM; `None` when the key does not parse or the decryption fails.
pub uninterp spec fn rsa_oaep_sha256_decrypt_of(private_pem: Seq<char>, ct: Seq<u8>) -> Option<Seq<u8>>;

/// `RsaPrivateKey::from_pkcs8_pem` then `decrypt(Oaep::new::<Sha256>(), ct)`
/// (which uses no randomness).
#[verifier::external_body]
fn rsa_oaep_sha256_decrypt(private_key_pem: &str, ct: &[u8]) -> (r: Option<Vec<u8>>)
    ensures
        match r {
            Some(k) => rsa_oaep_sha256_decrypt_of(private_key_pem@, ct@) == Some(k@),
            None => rsa_oaep_sha256_decrypt_of(private_key_pem@, ct@) is None,
        },
{
    let key = rsa::RsaPrivateKey::from_pkcs8_pem(private_key_pem).ok()?;
    key.decrypt(rsa::Oaep::new::<sha2::Sha256>(), ct).ok()
}

/// The length in bytes of the modulus of an RSA public key in SPKI PEM, when
/// the text parses as one.
pub uninterp spec fn rsa_public_size_of(public_pem: Seq<char>) -> Option<nat>;

/// `RsaPublicKey::from_public_key_pem`, then `PublicKeyParts::size`.
#[verifier::external_body]
fn rsa_public_key_size(public_key_pem: &str) -> (r: Option<usize>)
    ensures
        match r {
            Some(k) => rsa_public_size_of(public_key_pem@) == Some(k as nat),
            None => rsa_public_size_of(public_key_pem@) is None,
        },
{
    let key = rsa::RsaPublicKey::from_public_key_pem(public_key_pem).ok()?;
    Some(rsa::traits::PublicKeyParts::size(&key))
}

/// Whether `ct` is an RSA-OAEP (SHA-256, no label) encryption of `msg` under
/// the public key in SPKI PEM.
pub uninterp spec fn rsa_oaep_encrypts(public_pem: Seq<char>, msg: Seq<u8>, ct: Seq<u8>) -> bool;

/// Whether RSA-OAEP with SHA-256 can encrypt a message of `len` bytes under
/// the public key: it parses, and its modulus has room for the message and
/// twice the digest plus two bytes of padding.
pub open spec fn oaep_fits(public_pem: Seq<char>, len: nat) -> bool {
    match rsa_public_size_of(public_pem) {
        Some(k) => len + 66 <= k,
        None => false,
    }
}

/// `RsaPublicKey::from_public_key_pem` then
/// `encrypt(OsRng, Oaep::new::<Sha256>(), msg)`. The padding is random, so
/// the bytes are said only to be an RSA-OAEP encryption of `msg` under the
/// key; it fails exactly when the key does not parse or `msg` does not fit.
#[verifier::external_body]
fn rsa_oaep_sha256_encrypt(public_key_pem: &str, msg: &[u8]) -> (r: Option<Vec<u8>>)
    ensures
        match r {
            Some(ek) => rsa_oaep_encrypts(public_key_pem@, msg@, ek@),
            None => true,
        },
        r is Some <==> oaep_fits(public_key_pem@, msg@.len()),
{
    let key = rsa::RsaPublicKey::from_public_key_pem(public_key_pem).ok()?;
    key.encrypt(&mut rand::rngs::OsRng, rsa::Oaep::new::<sha2::Sha256>(), msg).ok()
}

/// The body of an encrypted request opened with the private key: the
/// envelope decoded, the wrapped key unwrapped (32 bytes), the nonce 12 bytes,
/// and the ciphertext authenticated; `None` when any step fails.
pub open spec fn opened_body(private_pem: Seq<char>, body_b64: Seq<char>) -> Option<Seq<u8>> {
    match b64_text(body_b64) {
        None => None,
        Some(env) => match envelope_parts(env) {
            None => None,
            Some((ek_b64, nonce_b64, ct_b64)) => match (b64_text(ek_b64), b64_text(nonce_b64), b64_text(ct_b64)) {
                (Some(ek), Some(nonce), Some(ct)) => if nonce.len() != 12 {
                    None
                } else {
                    match rsa_oaep_sha256_decrypt_of(private_pem, ek) {
                        Some(key) => if key.len() != 32 { None } else { aes_gcm_open_of(key, nonce, ct) },
                        None => None,
                    }
                },
                _ => None,
            },
        },
    }
}

/// The plaintext of a relayed request meant for this node: the opened body
/// of a request marked encrypted (marker value `1`), if it opens.
pub open spec fn decrypted_plaintext(private_pem: Seq<char>, r: RelayRequestV) -> Option<Seq<u8>> {
    if marker_value(r.headers) != Some("1"@) {
        None
    } else {
        opened_body(private_pem, r.body_b64)
    }
}

/// A relayed request after decryption: a request marked encrypted (marker
/// value `1`) whose body opens loses its marker headers and carries the
/// plaintext as its body; any other request is left as it is.
pub open spec fn spec_decrypt_relay(private_pem: Seq<char>, r: RelayRequestV) -> RelayRequestV {
    if marker_value(r.headers) != Some("1"@) {
        r
    } else {
        match opened_body(private_pem, r.body_b64) {
            None => r,
            Some(pt) => RelayRequestV { headers: without_marker(r.headers), body_b64: b64_encode_of(pt), ..r },
        }
    }
}

fn header_is_marker(name: &str) -> (r: bool)
    ensures
        r == is_marker(name@),
{
    chars_eq(&lower_chars(&str_chars(name)), &str_chars("x-fedi3-encrypted"))
}

fn find_marker(hs: &Vec<(String, String)>) -> (r: Option<&String>)
    ensures
        match r {
            Some(v) => marker_value(pairs_view(hs@)) == Some(v@),
            None => marker_value(pairs_view(hs@)) is None,
        },
{
    let ghost all = pairs_view(hs@);
    let mut i: usize = 0;
    assert(all.skip(0) =~= all);
    while i < hs.len()
        invariant
            i <= hs.len(),
            all == pairs_view(hs@),
            marker_value(all) == marker_value(all.skip(i as int)),
        decreases hs.len() - i,
    {
        proof {
            assert(all.skip(i as int)[0] == (hs@[i as int].0@, hs@[i as int].1@));
            assert(all.skip(i as int).drop_first() =~= all.skip(i + 1));
        }
        if header_is_marker(hs[i].0.as_str()) {
            return Some(&hs[i].1);
        }
        i += 1;
    }
    assert(all.skip(i as int).len() == 0);
    None
}

fn drop_markers(hs: Vec<(String, String)>) -> (r: Vec<(String, String)>)
    ensures
        pairs_view(r@) == without_marker(pairs_view(hs@)),
{
    let ghost all = hs@;
    let mut out: Vec<(String, String)> = Vec::new();
    let mut i: usize = 0;
    while i < hs.len()
        invariant
            i <= hs.len(),
            all == hs@,
            pairs_view(out@) == without_marker(pairs_view(all.take(i as int))),
        decreases hs.len() - i,
    {
        proof {
            assert(pairs_view(all.take(i + 1)).drop_last() =~= pairs_view(all.take(i as int)));
            assert(pairs_view(all.take(i + 1)).last() == (all[i as int].0@, all[i as int].1@));
        }
        if !header_is_marker(hs[i].0.as_str()) {
            let ghost before = out@;
            out.push((hs[i].0.clone(), hs[i].1.clone()));
            assert(pairs_view(out@) =~= pairs_view(before).push((all[i as int].0@, all[i as int].1@)));
        }
        i += 1;
    }
    assert(all.take(i as int) =~= all);
    out
}

fn envelope_fields(env: &[u8]) -> (r: Option<(String, String, String)>)
    ensures
        match r {
            Some((e, n, c)) => envelope_parts(env@) == Some((e@, n@, c@)),
            None => envelope_parts(env@) is None,
        },
{
    let ms = json_object_strings(env)?;
    let ek = find_member_str(&ms, "ek_b64");
    let nonce = find_member_str(&ms, "nonce_b64");
    let ct = find_member_str(&ms, "ct_b64");
    match (ek, nonce, ct) {
        (Some(e), Some(n), Some(c)) => Some((e, n, c)),
        _ => None,
    }
}

fn open_body(private_key_pem: &str, body_b64: &str) -> (r: Option<Vec<u8>>)
    ensures
        match r {
            Some(p) => opened_body(private_key_pem@, body_b64@) == Some(p@),
            None => opened_body(private_key_pem@, body_b64@) is None,
        },
{
    let env = b64_decode(body_b64.as_bytes())?;
    let (ek_b64, nonce_b64, ct_b64) = envelope_fields(env.as_slice())?;
    let ek = b64_decode(ek_b64.as_str().as_bytes())?;
    let nonce = b64_decode(nonce_b64.as_str().as_bytes())?;
    let ct = b64_decode(ct_b64.as_str().as_bytes())?;
    if nonce.len() != 12 {
        return None;
    }
    let key = rsa_oaep_sha256_decrypt(private_key_pem, ek.as_slice())?;
    if key.len() != 32 {
        return None;
    }
    aes256gcm_open(key.as_slice(), nonce.as_slice(), ct.as_slice())
}

/// Decrypts the body of a relayed request meant for this node (see
/// `spec_decrypt_relay`); requests that are not encrypted, or that do not
/// open, pass through unchanged.
pub fn decrypt_relay_http_request_body(private_key_pem: &str, req: RelayHttpRequest) -> (r: RelayHttpRequest)
    ensures
        r@ == spec_decrypt_relay(private_key_pem@, req@),
        match decrypted_plaintext(private_key_pem@, req@) {
            Some(pt) => b64_text(r@.body_b64) == Some(pt),
            None => true,
        },
{
    let marked = match find_marker(&req.headers) {
        Some(v) => str_eq_lit_one(v.as_str()),
        None => false,
    };
    if !marked {
        return req;
    }
    match open_body(private_key_pem, req.body_b64.as_str()) {
        None => req,
        Some(pt) => {
            let RelayHttpRequest { id, method, path, query, headers, body_b64: _ } = req;
            let headers = drop_markers(headers);
            RelayHttpRequest { id, method, path, query, headers, body_b64: b64_encode(pt.as_slice()) }
        },
    }
}

fn str_eq_lit_one(v: &str) -> (r: bool)
    ensures
        r == (v@ == "1"@),
{
    crate::text::str_eq(v, "1")
}

/// Why a request body cannot be encrypted.
#[derive(PartialEq, Eq, Structural, Clone, Copy, Debug)]
pub enum EnvelopeError {
    /// The public key does not parse, or cannot wrap the body key.
    PublicKey,
    /// The body is too long for AES-GCM.
    Cipher,
}

/// The algorithm an envelope names.
pub open spec fn envelope_alg() -> Seq<char> {
    "rsa-oaep-sha256+aes-256-gcm"@
}

/// The members of an envelope, in key order: the algorithm, the base64 of
/// the ciphertext, of the wrapped key and of the nonce, and version `1`.
pub open spec fn envelope_members(ek_b64: Seq<char>, nonce_b64: Seq<char>, ct_b64: Seq<char>) -> Seq<(Seq<char>, JsonV)> {
    seq![
        ("alg"@, JsonV::Str(envelope_alg())),
        ("ct_b64"@, JsonV::Str(ct_b64)),
        ("ek_b64"@, JsonV::Str(ek_b64)),
        ("nonce_b64"@, JsonV::Str(nonce_b64)),
        ("v"@, JsonV::PosInt(1)),
    ]
}

/// The JSON text of an envelope.
pub open spec fn envelope_text(ek_b64: Seq<char>, nonce_b64: Seq<char>, ct_b64: Seq<char>) -> Seq<char> {
    object_text(envelope_members(ek_b64, nonce_b64, ct_b64))
}

/// The plaintext of a request body: its base64 decoding, empty when invalid.
pub open spec fn plain_body(body_b64: Seq<char>) -> Seq<u8> {
    match b64_text(body_b64) {
        Some(p) => p,
        None => Seq::empty(),
    }
}

/// The request encrypted with wrapped key `ek`, nonce and ciphertext `ct`:
/// the marker and JSON content-type headers added, the envelope as body.
pub open spec fn encrypted_request(r: RelayRequestV, ek: Seq<u8>, nonce: Seq<u8>, ct: Seq<u8>) -> RelayRequestV {
    RelayRequestV {
        headers: r.headers.push(("x-fedi3-encrypted"@, "1"@)).push(("content-type"@, "application/json"@)),
        body_b64: b64_encode_of(vstd::utf8::encode_utf8(envelope_text(b64_encode_of(ek), b64_encode_of(nonce), b64_encode_of(ct)))),
        ..r
    }
}

/// What encrypting a request with body key `key` and nonce `nonce` gives:
/// an empty body passes through; otherwise the public key must parse, the
/// body is sealed, and the body key, which must fit the key's modulus, is
/// wrapped (by a randomized RSA-OAEP encryption, so `ek` is any encryption
/// of the body key under the public key).
pub open spec fn encrypt_outcome(public_pem: Seq<char>, r: RelayRequestV, key: Seq<u8>, nonce: Seq<u8>, out: Result<RelayRequestV, EnvelopeError>) -> bool {
    let pt = plain_body(r.body_b64);
    if pt.len() == 0 {
        out == Ok::<RelayRequestV, EnvelopeError>(r)
    } else if rsa_public_size_of(public_pem) is None {
        out == Err::<RelayRequestV, EnvelopeError>(EnvelopeError::PublicKey)
    } else {
        match aes_gcm_seal_of(key, nonce, pt) {
            None => out == Err::<RelayRequestV, EnvelopeError>(EnvelopeError::Cipher),
            Some(ct) => if !oaep_fits(public_pem, key.len()) {
                out == Err::<RelayRequestV, EnvelopeError>(EnvelopeError::PublicKey)
            } else {
                exists|ek: Seq<u8>| rsa_oaep_encrypts(public_pem, key, ek)
                    && out == Ok::<RelayRequestV, EnvelopeError>(#[trigger] encrypted_request(r, ek, nonce, ct))
            },
        }
    }
}

/// Whether the private key opens what RSA-OAEP encrypts under the public
/// key (as the private half of a sound key pair does).
pub open spec fn opens_wrapped(private_pem: Seq<char>, public_pem: Seq<char>) -> bool {
    forall|m: Seq<u8>, ek: Seq<u8>| #[trigger] rsa_oaep_encrypts(public_pem, m, ek)
        ==> rsa_oaep_sha256_decrypt_of(private_pem, ek) == Some(m)
}

/// The request as the receiving node sees it after decryption: the JSON
/// content-type header added, the body the same bytes.
pub open spec fn restored_request(r: RelayRequestV) -> RelayRequestV {
    RelayRequestV {
        headers: r.headers.push(("content-type"@, "application/json"@)),
        body_b64: b64_encode_of(plain_body(r.body_b64)),
        ..r
    }
}

/// What reads back from an envelope built from `ek`, `nonce` and `ct`.
pub open spec fn envelope_reads_back(ek: Seq<u8>, nonce: Seq<u8>, ct: Seq<u8>) -> bool {
    let env = vstd::utf8::encode_utf8(envelope_text(b64_encode_of(ek), b64_encode_of(nonce), b64_encode_of(ct)));
    &&& b64_text(b64_encode_of(ek)) == Some(ek)
    &&& b64_text(b64_encode_of(nonce)) == Some(nonce)
    &&& b64_text(b64_encode_of(ct)) == Some(ct)
    &&& b64_text(b64_encode_of(env)) == Some(env)
    &&& json_object_strings_of(env) == Some(string_members(envelope_members(b64_encode_of(ek), b64_encode_of(nonce), b64_encode_of(ct))))
}

pub open spec fn result_view(r: Result<RelayHttpRequest, EnvelopeError>) -> Result<RelayRequestV, EnvelopeError> {
    match r {
        Ok(q) => Ok(q@),
        Err(e) => Err(e),
    }
}


proof fn lemma_marker_concat(a: Seq<(Seq<char>, Seq<char>)>, b: Seq<(Seq<char>, Seq<char>)>)
    ensures
        marker_value(a + b) == (if marker_value(a) is Some { marker_value(a) } else { marker_value(b) }),
    decreases a.len(),
{
    if a.len() == 0 {
        assert(a + b =~= b);
    } else {
        assert((a + b)[0] == a[0]);
        assert((a + b).drop_first() =~= a.drop_first() + b);
        lemma_marker_concat(a.drop_first(), b);
    }
}

proof fn lemma_no_marker(h: Seq<(Seq<char>, Seq<char>)>)
    requires
        marker_value(h) is None,
    ensures
        without_marker(h) == h,
{
    lemma_none_is_markerless(h);
    lemma_markerless_kept(h);
}

proof fn lemma_none_is_markerless(h: Seq<(Seq<char>, Seq<char>)>)
    requires
        marker_value(h) is None,
    ensures
        forall|i: int| 0 <= i < h.len() ==> !is_marker(#[trigger] h[i].0),
    decreases h.len(),
{
    if h.len() > 0 {
        lemma_none_is_markerless(h.drop_first());
        assert forall|i: int| 0 <= i < h.len() implies !is_marker(#[trigger] h[i].0) by {
            if i > 0 {
                assert(h.drop_first()[i - 1] == h[i]);
            }
        }
    }
}

proof fn lemma_markerless_kept(h: Seq<(Seq<char>, Seq<char>)>)
    requires
        forall|i: int| 0 <= i < h.len() ==> !is_marker(#[trigger] h[i].0),
    ensures
        without_marker(h) == h,
    decreases h.len(),
{
    if h.len() > 0 {
        let d = h.drop_last();
        assert forall|i: int| 0 <= i < d.len() implies !is_marker(#[trigger] d[i].0) by {
            assert(d[i] == h[i]);
        }
        lemma_markerless_kept(d);
        assert(!is_marker(h[h.len() - 1].0));
        assert(d.push(h.last()) =~= h);
    }
}

/// Decrypting, with a private key that opens what the public key wraps, a
/// request that was encrypted (and carried no marker of its own) gives back
/// its body and adds only the JSON content-type header.
proof fn lemma_round_trip(sk: Seq<char>, pem: Seq<char>, r: RelayRequestV, key: Seq<u8>, nonce: Seq<u8>,
    ct: Seq<u8>, ek: Seq<u8>)
    requires
        marker_value(r.headers) is None,
        opens_wrapped(sk, pem),
        rsa_oaep_encrypts(pem, key, ek),
        key.len() == 32,
        nonce.len() == 12,
        aes_gcm_open_of(key, nonce, ct) == Some(plain_body(r.body_b64)),
        envelope_reads_back(ek, nonce, ct),
    ensures
        spec_decrypt_relay(sk, encrypted_request(r, ek, nonce, ct)) == restored_request(r),
        decrypted_plaintext(sk, encrypted_request(r, ek, nonce, ct)) == Some(plain_body(r.body_b64)),
{
    reveal_strlit("x-fedi3-encrypted");
    reveal_strlit("1");
    reveal_strlit("content-type");
    reveal_strlit("ek_b64");
    reveal_strlit("nonce_b64");
    reveal_strlit("ct_b64");
    reveal_strlit("alg");
    reveal_strlit("v");
    let q = encrypted_request(r, ek, nonce, ct);
    let hs = r.headers;
    let m = ("x-fedi3-encrypted"@, "1"@);
    let c = ("content-type"@, "application/json"@);
    assert(lower(m.0) =~= m.0);
    assert(is_marker(m.0));
    assert(lower(c.0).len() == 12);
    assert(!is_marker(c.0));
    assert(q.headers =~= hs + seq![m, c]);
    lemma_marker_concat(hs, seq![m, c]);
    assert(marker_value(seq![m, c]) == Some("1"@));
    let (a, b, cc) = (b64_encode_of(ek), b64_encode_of(nonce), b64_encode_of(ct));
    let env = vstd::utf8::encode_utf8(envelope_text(a, b, cc));
    assert(b64_text(q.body_b64) == Some(env));
    let ms = string_members(envelope_members(a, b, cc));
    assert(ms =~= seq![("alg"@, Some(envelope_alg())), ("ct_b64"@, Some(cc)), ("ek_b64"@, Some(a)),
        ("nonce_b64"@, Some(b)), ("v"@, None::<Seq<char>>)]);
    assert("alg"@[0] == 'a' && "ct_b64"@[0] == 'c' && "ek_b64"@[0] == 'e' && "nonce_b64"@[0] == 'n');
    assert("alg"@ != "ek_b64"@ && "ct_b64"@ != "ek_b64"@);
    assert("alg"@ != "nonce_b64"@ && "ct_b64"@ != "nonce_b64"@ && "ek_b64"@ != "nonce_b64"@);
    assert("alg"@ != "ct_b64"@);
    reveal_with_fuel(member_str, 5);
    assert(member_str(ms, "ek_b64"@) == Some(a));
    assert(member_str(ms, "nonce_b64"@) == Some(b));
    assert(member_str(ms, "ct_b64"@) == Some(cc));
    assert(envelope_parts(env) == Some((a, b, cc)));
    assert(rsa_oaep_sha256_decrypt_of(sk, ek) == Some(key));
    assert(opened_body(sk, q.body_b64) == Some(plain_body(r.body_b64)));
    let h1 = hs.push(m);
    assert(hs.push(m).push(c).drop_last() =~= h1);
    assert(h1.drop_last() =~= hs);
    lemma_no_marker(hs);
    assert(h1.last() == m);
    assert(without_marker(h1) == without_marker(hs));
    assert(hs.push(m).push(c).last() == c);
    assert(without_marker(hs.push(m).push(c)) == without_marker(h1).push(c));
    assert(without_marker(q.headers) == hs.push(c));
}

/// The request carrying an encrypted body: the wrapped key, nonce and
/// ciphertext put in the JSON envelope (see `encrypted_request`).
pub fn envelope_request(req: RelayHttpRequest, ek: &[u8], nonce: &[u8], ct: &[u8]) -> (r: RelayHttpRequest)
    ensures
        r@ == encrypted_request(req@, ek@, nonce@, ct@),
        envelope_reads_back(ek@, nonce@, ct@),
{
    broadcast use group_json_view;
    let e = b64_encode(ek);
    let n = b64_encode(nonce);
    let c = b64_encode(ct);
    let mut members: Vec<(String, Json)> = Vec::new();
    members.push(("alg".to_string(), json_str("rsa-oaep-sha256+aes-256-gcm")));
    members.push(("ct_b64".to_string(), json_str(c.as_str())));
    members.push(("ek_b64".to_string(), json_str(e.as_str())));
    members.push(("nonce_b64".to_string(), json_str(n.as_str())));
    members.push(("v".to_string(), Json::Number(JsonNumber::PosInt(1))));
    proof {
        let want = envelope_members(e@, n@, c@);
        assert(jv_pairs(members@) =~= want);
        lemma_envelope_plain(e@, n@, c@);
    }
    let env = json_object_bytes(&members);
    let body = b64_encode(env.as_slice());
    let RelayHttpRequest { id, method, path, query, headers, body_b64: _ } = req;
    let ghost h0 = headers@;
    let mut headers = headers;
    headers.push(("x-fedi3-encrypted".to_string(), "1".to_string()));
    headers.push(("content-type".to_string(), "application/json".to_string()));
    let out = RelayHttpRequest { id, method, path, query, headers, body_b64: body };
    proof {
        assert(pairs_view(out.headers@) =~= pairs_view(h0).push(("x-fedi3-encrypted"@, "1"@)).push(("content-type"@, "application/json"@)));
    }
    out
}

proof fn lemma_b64_plain(s: Seq<char>)
    requires
        forall|i: int| 0 <= i < s.len() ==> is_b64_char(#[trigger] s[i]),
    ensures
        json_plain(s),
{
    assert forall|i: int| 0 <= i < s.len() implies ' ' <= #[trigger] s[i] && s[i] <= '~' && s[i] != '"' && s[i] != '\\' by {
        assert(is_b64_char(s[i]));
    }
}

proof fn lemma_envelope_plain(e: Seq<char>, n: Seq<char>, c: Seq<char>)
    requires
        forall|i: int| 0 <= i < e.len() ==> is_b64_char(#[trigger] e[i]),
        forall|i: int| 0 <= i < n.len() ==> is_b64_char(#[trigger] n[i]),
        forall|i: int| 0 <= i < c.len() ==> is_b64_char(#[trigger] c[i]),
    ensures
        plain_members_ok(envelope_members(e, n, c)),
{
    reveal_strlit("alg");
    reveal_strlit("ct_b64");
    reveal_strlit("ek_b64");
    reveal_strlit("nonce_b64");
    reveal_strlit("v");
    reveal_strlit("rsa-oaep-sha256+aes-256-gcm");
    lemma_b64_plain(e);
    lemma_b64_plain(n);
    lemma_b64_plain(c);
    let ms = envelope_members(e, n, c);
    assert forall|i: int, j: int| 0 <= i < j < ms.len() implies lex_lt(#[trigger] ms[i].0, #[trigger] ms[j].0) by {
        assert(ms[i].0[0] < ms[j].0[0]);
    }
    assert(json_plain("alg"@));
    assert(json_plain("ct_b64"@));
    assert(json_plain("ek_b64"@));
    assert(json_plain("nonce_b64"@));
    assert(json_plain("v"@));
    assert(json_plain(envelope_alg()));
}

/// Encrypts a request body for the node holding `public_key_pem`, with the
/// body key and nonce given (see `encrypt_outcome`). When the body was not
/// empty and the request carried no encryption marker, a private key that
/// opens what the public key wraps decrypts the result back to the request
/// with the JSON content-type header added.
pub fn encrypt_relay_with(public_key_pem: &str, req: RelayHttpRequest, key: &[u8], nonce: &[u8]) -> (r: Result<RelayHttpRequest, EnvelopeError>)
    requires
        key@.len() == 32,
        nonce@.len() == 12,
    ensures
        encrypt_outcome(public_key_pem@, req@, key@, nonce@, result_view(r)),
        match r {
            Ok(q) => plain_body(req@.body_b64).len() > 0 && marker_value(req@.headers) is None
                ==> forall|sk: Seq<char>| #[trigger] opens_wrapped(sk, public_key_pem@)
                    ==> spec_decrypt_relay(sk, q@) == restored_request(req@)
                        && decrypted_plaintext(sk, q@) == Some(plain_body(req@.body_b64)),
            Err(_) => true,
        },
{
    let pt = match b64_decode(req.body_b64.as_str().as_bytes()) {
        Some(p) => p,
        None => Vec::new(),
    };
    assert(pt@ == plain_body(req@.body_b64));
    if pt.len() == 0 {
        return Ok(req);
    }
    if rsa_public_key_size(public_key_pem).is_none() {
        return Err(EnvelopeError::PublicKey);
    }
    let ct = match aes256gcm_seal(key, nonce, pt.as_slice()) {
        Some(c) => c,
        None => return Err(EnvelopeError::Cipher),
    };
    let ek = match rsa_oaep_sha256_encrypt(public_key_pem, key) {
        Some(e) => e,
        None => return Err(EnvelopeError::PublicKey),
    };
    let ghost r0 = req@;
    let out = envelope_request(req, ek.as_slice(), nonce, ct.as_slice());
    proof {
        let sealed = aes_gcm_seal_of(key@, nonce@, plain_body(r0.body_b64));
        assert(sealed->0 == ct@);
        assert(rsa_oaep_encrypts(public_key_pem@, key@, ek@)
            && result_view(Ok(out)) == Ok::<RelayRequestV, EnvelopeError>(encrypted_request(r0, ek@, nonce@, sealed->0)));
        assert forall|sk: Seq<char>| #[trigger] opens_wrapped(sk, public_key_pem@) && marker_value(r0.headers) is None
            implies spec_decrypt_relay(sk, out@) == restored_request(r0)
                && decrypted_plaintext(sk, out@) == Some(plain_body(r0.body_b64)) by {
            lemma_round_trip(sk, public_key_pem@, r0, key@, nonce@, ct@, ek@);
        }
    }
    Ok(out)
}

/// Encrypts a request body for the node holding `public_key_pem`, with a
/// fresh random body key and nonce (see `encrypt_relay_with`).
pub fn encrypt_relay_http_request_body(public_key_pem: &str, req: RelayHttpRequest) -> (r: Result<RelayHttpRequest, EnvelopeError>)
    ensures
        exists|key: Seq<u8>, nonce: Seq<u8>| key.len() == 32 && nonce.len() == 12
            && #[trigger] encrypt_outcome(public_key_pem@, req@, key, nonce, result_view(r)),
        match r {
            Ok(q) => plain_body(req@.body_b64).len() > 0 && marker_value(req@.headers) is None
                ==> forall|sk: Seq<char>| #[trigger] opens_wrapped(sk, public_key_pem@)
                    ==> spec_decrypt_relay(sk, q@) == restored_request(req@)
                        && decrypted_plaintext(sk, q@) == Some(plain_body(req@.body_b64)),
            Err(_) => true,
        },
{
    let key = random_bytes(32);
    let nonce = random_bytes(12);
    let r = encrypt_relay_with(public_key_pem, req, key.as_slice(), nonce.as_slice());
    assert(encrypt_outcome(public_key_pem@, req@, key@, nonce@, result_view(r)));
    r
}

} // verus!
