//! SHA-256 based identifiers: abuse-tracking keys, node DIDs, direct-message
//! thread ids and content-addressed activity ids, with their hex notation.
use vstd::prelude::*;
use rand::RngCore;
use sha2::Digest;
use crate::text::{str_chars, string_from_chars, append_str};
use vstd::string::StringSliceAdditionalSpecFns;

verus! {

/// The SHA-256 digest of a byte string.
pub uninterp spec fn sha256_of(b: Seq<u8>) -> Seq<u8>;

/// `sha2::Sha256::digest`: the 32-byte SHA-256 digest of `b`.
#[verifier::external_body]
pub(crate) fn sha256(b: &[u8]) -> (r: Vec<u8>)
    ensures
        r@ == sha256_of(b@),
        r@.len() == 32,
{
    sha2::Sha256::digest(b).to_vec()
}

/// The lowercase hexadecimal digit for `d < 16`.
pub open spec fn hex_digit(d: nat) -> char {
    if d < 10 {
        crate::text::digit_char(d)
    } else if d == 10 {
        'a'
    } else if d == 11 {
        'b'
    } else if d == 12 {
        'c'
    } else if d == 13 {
        'd'
    } else if d == 14 {
        'e'
    } else {
        'f'
    }
}

/// Lowercase hexadecimal notation, two digits per byte (`hex::encode`).
pub open spec fn hex_lower(b: Seq<u8>) -> Seq<char>
    decreases b.len(),
{
    if b.len() == 0 {
        Seq::empty()
    } else {
        hex_lower(b.drop_last()).push(hex_digit(b.last() as nat / 16)).push(hex_digit(b.last() as nat % 16))
    }
}

pub proof fn lemma_hex_lower_len(b: Seq<u8>)
    ensures
        hex_lower(b).len() == 2 * b.len(),
    decreases b.len(),
{
    if b.len() > 0 {
        lemma_hex_lower_len(b.drop_last());
    }
}

fn hex_digit_exec(d: u8) -> (r: char)
    requires
        d < 16,
    ensures
        r == hex_digit(d as nat),
{
    if d == 0 { '0' }
    else if d == 1 { '1' }
    else if d == 2 { '2' }
    else if d == 3 { '3' }
    else if d == 4 { '4' }
    else if d == 5 { '5' }
    else if d == 6 { '6' }
    else if d == 7 { '7' }
    else if d == 8 { '8' }
    else if d == 9 { '9' }
    else if d == 10 { 'a' }
    else if d == 11 { 'b' }
    else if d == 12 { 'c' }
    else if d == 13 { 'd' }
    else if d == 14 { 'e' }
    else { 'f' }
}

/// Appends the lowercase hex notation of `b`.
pub fn push_hex(out: &mut Vec<char>, b: &[u8])
    ensures
        final(out)@ == old(out)@ + hex_lower(b@),
{
    let ghost start = out@;
    let mut i: usize = 0;
    while i < b.len()
        invariant
            i <= b.len(),
            out@ == start + hex_lower(b@.take(i as int)),
        decreases b.len() - i,
    {
        let x = b[i];
        out.push(hex_digit_exec(x / 16));
        out.push(hex_digit_exec(x % 16));
        assert(b@.take(i + 1).drop_last() =~= b@.take(i as int));
        assert(start + hex_lower(b@.take(i + 1)) =~= (start + hex_lower(b@.take(i as int))).push(
            hex_digit(x as nat / 16),
        ).push(hex_digit(x as nat % 16)));
        i += 1;
    }
    assert(b@.take(i as int) =~= b@);
}

/// `n` bytes from `rand::rngs::OsRng::fill_bytes`, the operating system's
/// generator (which panics if the generator fails). The bytes are random.
#[verifier::external_body]
pub(crate) fn random_bytes(n: usize) -> (r: Vec<u8>)
    ensures
        r@.len() == n,
{
    let mut v = vec![0u8; n];
    rand::rngs::OsRng.fill_bytes(&mut v);
    v
}

/// Lowercase hex notation of `b` as a string.
pub fn hex_encode(b: &[u8]) -> (r: String)
    ensures
        r@ == hex_lower(b@),
{
    let mut v: Vec<char> = Vec::new();
    push_hex(&mut v, b);
    assert(Seq::<char>::empty() + hex_lower(b@) =~= hex_lower(b@));
    string_from_chars(&v)
}

/// The hex notation of the first 8 bytes of the SHA-256 of `s`.
pub open spec fn spec_short_hash(s: Seq<u8>) -> Seq<char> {
    hex_lower(sha256_of(s).take(8))
}

/// A 16-digit hex fingerprint of a string.
pub fn short_hash(s: &str) -> (r: String)
    ensures
        r@ == spec_short_hash(s.spec_bytes()),
{
    let d = sha256(s.as_bytes());
    let head = vstd::slice::slice_subrange(d.as_slice(), 0, 8);
    let mut v: Vec<char> = Vec::new();
    push_hex(&mut v, head);
    assert(Seq::<char>::empty() + hex_lower(head@) =~= hex_lower(head@));
    assert(head@ =~= d@.take(8));
    string_from_chars(&v)
}

/// The abuse-tracking key of a signing key id: `key:` and its fingerprint.
pub fn abuse_key_for_key_id(key_id: &str) -> (r: String)
    ensures
        r@ == "key:"@ + spec_short_hash(key_id.spec_bytes()),
{
    let mut v = str_chars("key:");
    let h = short_hash(key_id);
    append_str(&mut v, h.as_str());
    string_from_chars(&v)
}

/// The abuse-tracking key of an actor: `actor:` and its fingerprint.
pub fn abuse_key_for_actor(actor_url: &str) -> (r: String)
    ensures
        r@ == "actor:"@ + spec_short_hash(actor_url.spec_bytes()),
{
    let mut v = str_chars("actor:");
    let h = short_hash(actor_url);
    append_str(&mut v, h.as_str());
    string_from_chars(&v)
}

/// The node's DID: `did:fedi3:` and the first 32 hex digits of the SHA-256
/// of its public key in PEM form.
pub open spec fn spec_did_from_public_key_pem(pem: Seq<u8>) -> Seq<char> {
    "did:fedi3:"@ + hex_lower(sha256_of(pem)).take(32)
}

/// The DID derived from a public key in PEM form.
pub fn did_from_public_key_pem(public_key_pem: &str) -> (r: String)
    ensures
        r@ == spec_did_from_public_key_pem(public_key_pem.spec_bytes()),
{
    let d = sha256(public_key_pem.as_bytes());
    let head = vstd::slice::slice_subrange(d.as_slice(), 0, 16);
    let mut v = str_chars("did:fedi3:");
    let ghost prefix = v@;
    push_hex(&mut v, head);
    proof {
        assert(head@ =~= d@.take(16));
        lemma_hex_take(d@, 16);
    }
    string_from_chars(&v)
}

/// The hex notation of a prefix of `b` is the prefix of its hex notation.
pub proof fn lemma_hex_take(b: Seq<u8>, n: int)
    requires
        0 <= n <= b.len(),
    ensures
        hex_lower(b.take(n)) == hex_lower(b).take(2 * n),
    decreases b.len(),
{
    lemma_hex_lower_len(b);
    lemma_hex_lower_len(b.take(n));
    if n < b.len() {
        lemma_hex_take(b.drop_last(), n);
        assert(b.drop_last().take(n) =~= b.take(n));
        lemma_hex_lower_len(b.drop_last());
        assert(hex_lower(b).take(2 * n) =~= hex_lower(b.drop_last()).take(2 * n));
    } else {
        assert(b.take(n) =~= b);
        assert(hex_lower(b).take(2 * n) =~= hex_lower(b));
    }
}

/// The members joined with `|`, as bytes.
pub open spec fn joined_members(m: Seq<Seq<u8>>) -> Seq<u8>
    decreases m.len(),
{
    if m.len() == 0 {
        Seq::empty()
    } else if m.len() == 1 {
        m[0]
    } else {
        joined_members(m.drop_last()) + seq![124u8] + m.last()
    }
}

/// The id of the direct-message thread among `members`, in the given order:
/// `urn:fedi3:chat:dm:` and the hex SHA-256 of the members joined with `|`.
pub open spec fn spec_chat_dm_thread_id(m: Seq<Seq<u8>>) -> Seq<char> {
    "urn:fedi3:chat:dm:"@ + hex_lower(sha256_of(joined_members(m)))
}

/// The bytes of each string.
pub open spec fn member_bytes(m: Seq<String>) -> Seq<Seq<u8>> {
    m.map_values(|s: String| vstd::utf8::encode_utf8(s@))
}

/// The thread id of a direct conversation between `members`.
pub fn chat_dm_thread_id(members: &[String]) -> (r: String)
    ensures
        r@ == spec_chat_dm_thread_id(member_bytes(members@)),
{
    let mut buf: Vec<u8> = Vec::new();
    let mut i: usize = 0;
    while i < members.len()
        invariant
            i <= members.len(),
            buf@ == joined_members(member_bytes(members@.take(i as int))),
        decreases members.len() - i,
    {
        let ghost before = buf@;
        if i > 0 {
            buf.push(124u8);
        }
        let bytes = members[i].as_str().as_bytes();
        let mut j: usize = 0;
        let ghost mid = buf@;
        while j < bytes.len()
            invariant
                j <= bytes.len(),
                buf@ == mid + bytes@.take(j as int),
            decreases bytes.len() - j,
        {
            buf.push(bytes[j]);
            assert(mid + bytes@.take(j + 1) =~= (mid + bytes@.take(j as int)).push(bytes@[j as int]));
            j += 1;
        }
        proof {
            assert(bytes@.take(j as int) =~= bytes@);
            let mb = member_bytes(members@.take(i + 1));
            assert(mb.drop_last() =~= member_bytes(members@.take(i as int)));
            assert(mb.last() == bytes@);
            if i == 0 {
                assert(mb.len() == 1);
                assert(buf@ =~= mb[0]);
            } else {
                assert(buf@ =~= before + seq![124u8] + bytes@);
            }
        }
        i += 1;
    }
    assert(members@.take(i as int) =~= members@);
    let d = sha256(buf.as_slice());
    let mut v = str_chars("urn:fedi3:chat:dm:");
    push_hex(&mut v, d.as_slice());
    string_from_chars(&v)
}

} // verus!
