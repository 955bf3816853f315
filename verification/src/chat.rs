//! End-to-end encrypted chat: the wire records, the key schedule, payload
//! sealing, and what a received payload does to the local chat store.
use vstd::prelude::*;
use aes_gcm::aead::Aead;
use aes_gcm::KeyInit;
use crate::text::{trim, starts_with, str_chars, trim_chars, string_from_chars, str_eq, str_starts_with, append_str, push_dec,
    push_dec_signed, dec, dec_signed};
use crate::jsontext::{json_quote, json_quoted};
use crate::httpsig::{sign_bytes_rsa_sha256, verify_bytes_rsa_sha256, rsa_sha256_signature_of, rsa_sha256_verifies, signs_verify};
use crate::httpsig::{b64_decode, b64_encode, b64_decode_of, b64_encode_of};
use crate::discovery::{views_of, clone_strings};
use crate::digest::{random_bytes, hex_encode, hex_lower, chat_dm_thread_id, spec_chat_dm_thread_id, member_bytes};
use crate::order::{sort_dedup, sorted_strict, views};

verus! {

/// A one-time public key that a device publishes for starting chats.
#[derive(Clone, Debug)]
pub struct ChatPreKey {
    pub id: String,
    pub public_b64: String,
}

/// What a device publishes so that others can send it encrypted messages.
#[derive(Clone, Debug)]
pub struct ChatBundle {
    pub v: u32,
    pub actor: String,
    pub peer_id: String,
    pub did: Option<String>,
    pub device_id: String,
    pub kem_public_b64: String,
    pub prekeys: Vec<ChatPreKey>,
    pub created_at_ms: i64,
    pub signature_b64: Option<String>,
}

/// An encrypted chat message as it travels between devices.
#[derive(Clone, Debug)]
pub struct ChatEnvelope {
    pub v: u32,
    pub thread_id: String,
    pub message_id: String,
    pub sender_actor: String,
    pub sender_device: String,
    pub sender_peer_id: String,
    pub created_at_ms: i64,
    pub kem_alg: String,
    pub kem_ciphertext_b64: String,
    pub kem_key_id: String,
    pub nonce_b64: String,
    pub ciphertext_b64: String,
    pub signature_b64: Option<String>,
}

/// The decrypted content of an envelope.
#[derive(Clone, Debug)]
pub struct ChatPayload {
    pub op: String,
    pub text: Option<String>,
    pub reply_to: Option<String>,
    pub message_id: Option<String>,
    pub status: Option<String>,
    pub thread_id: Option<String>,
    pub attachments: Option<Vec<ChatAttachment>>,
    pub action: Option<String>,
    pub targets: Option<Vec<String>>,
    pub members: Option<Vec<String>>,
    pub title: Option<String>,
    pub reaction: Option<String>,
}

/// A media item attached to a chat message.
#[derive(Clone, Debug)]
pub struct ChatAttachment {
    pub id: String,
    pub url: String,
    pub media_type: String,
    pub name: Option<String>,
    pub width: Option<u32>,
    pub height: Option<u32>,
    pub blurhash: Option<String>,
}

/// The wire version of bundles and envelopes.
pub const CHAT_VERSION: u32 = 1;

/// How many unused prekeys a device keeps published.
pub const CHAT_PREKEY_TARGET: u32 = 20;

/// Why a chat operation failed.
#[derive(Clone, Copy, Debug, PartialEq, Eq, Structural)]
pub enum ChatError {
    /// The thread id is blank.
    MissingThreadId,
    /// The symmetric key is not 32 bytes long.
    InvalidKey,
    /// The nonce is not 12 bytes long.
    InvalidNonceLength,
    /// A field is not valid standard base64.
    InvalidBase64,
    /// The payload is too long to encrypt.
    EncryptFailed,
    /// The ciphertext does not authenticate under the key and nonce.
    DecryptFailed,
    /// A bundle or envelope carries no signature.
    MissingSignature,
    /// The signature does not verify under the sender's key.
    BadSignature,
    /// The private key cannot sign.
    SigningFailed,
}

/// A fresh random identifier: 24 lowercase hex digits of 12 random bytes.
pub fn random_id() -> (r: String)
    ensures
        exists|b: Seq<u8>| b.len() == 12 && r@ == #[trigger] hex_lower(b),
{
    let b = random_bytes(12);
    let r = hex_encode(b.as_slice());
    assert(r@ == hex_lower(b@));
    r
}

/// How many prekeys to generate when `unused` are left.
pub fn prekeys_to_create(unused: u32) -> (r: u32)
    ensures
        r == if unused >= CHAT_PREKEY_TARGET { 0 } else { CHAT_PREKEY_TARGET - unused },
{
    if unused >= CHAT_PREKEY_TARGET { 0 } else { CHAT_PREKEY_TARGET - unused }
}

/// The first alias that is a `did:fedi3:` identifier.
pub open spec fn first_did(aka: Seq<Seq<char>>) -> Option<Seq<char>>
    decreases aka.len(),
{
    if aka.len() == 0 {
        None
    } else if starts_with(aka[0], "did:fedi3:"@) {
        Some(aka[0])
    } else {
        first_did(aka.drop_first())
    }
}

/// The DID a bundle announces: the first `did:fedi3:` alias of the actor.
pub fn bundle_did(also_known_as: &Vec<String>) -> (r: Option<String>)
    ensures
        match r {
            Some(d) => first_did(views_of(*also_known_as)) == Some(d@),
            None => first_did(views_of(*also_known_as)) is None,
        },
{
    let ghost all = views_of(*also_known_as);
    let mut i: usize = 0;
    assert(all.skip(0) =~= all);
    while i < also_known_as.len()
        invariant
            i <= also_known_as.len(),
            all == views_of(*also_known_as),
            first_did(all) == first_did(all.skip(i as int)),
        decreases also_known_as.len() - i,
    {
        proof {
            assert(all.skip(i as int)[0] == also_known_as@[i as int]@);
            assert(all.skip(i as int).drop_first() =~= all.skip(i + 1));
        }
        if str_starts_with(also_known_as[i].as_str(), "did:fedi3:") {
            return Some(also_known_as[i].clone());
        }
        i += 1;
    }
    proof {
        assert(all.skip(i as int).len() == 0);
    }
    None
}

/// The key a sender encapsulates to: the first published prekey (its id and
/// public key), or else the device's identity key under the id `identity`.
pub fn kem_target(bundle: &ChatBundle) -> (r: (String, String))
    ensures
        bundle.prekeys@.len() > 0 ==> r.0@ == bundle.prekeys@[0].id@ && r.1@ == bundle.prekeys@[0].public_b64@,
        bundle.prekeys@.len() == 0 ==> r.0@ == "identity"@ && r.1@ == bundle.kem_public_b64@,
{
    if bundle.prekeys.len() > 0 {
        (bundle.prekeys[0].id.clone(), bundle.prekeys[0].public_b64.clone())
    } else {
        ("identity".to_string(), bundle.kem_public_b64.clone())
    }
}

/// Whether an envelope was encapsulated to a prekey rather than the identity key.
pub fn uses_prekey(kem_key_id: &str) -> (r: bool)
    ensures
        r == starts_with(kem_key_id@, "prekey-"@),
{
    str_starts_with(kem_key_id, "prekey-")
}

/// The 32 bytes HKDF-SHA256 expands to, with the salt and info given as text.
pub uninterp spec fn hkdf_sha256_of(salt: Seq<char>, ikm: Seq<u8>, info: Seq<char>) -> Seq<u8>;

/// `hkdf::Hkdf::<Sha256>::new(Some(salt), ikm)` then `expand(info)` into 32
/// bytes. `expand` fails only for outputs longer than 255 hash lengths, so it
/// does not fail here.
#[verifier::external_body]
fn hkdf_sha256_32(salt: &str, ikm: &[u8], info: &str) -> (r: Vec<u8>)
    ensures
        r@ == hkdf_sha256_of(salt@, ikm@, info@),
        r@.len() == 32,
{
    let hk = hkdf::Hkdf::<sha2::Sha256>::new(Some(salt.as_bytes()), ikm);
    let mut out = [0u8; 32];
    match hk.expand(info.as_bytes(), &mut out) {
        Ok(()) => out.to_vec(),
        Err(_) => Vec::new(),
    }
}

/// The message key: HKDF-SHA256 of the shared secret, salted with the thread
/// id, expanded with the message id.
pub fn derive_key(shared: &[u8], thread_id: &str, message_id: &str) -> (r: Vec<u8>)
    ensures
        r@ == hkdf_sha256_of(thread_id@, shared@, message_id@),
        r@.len() == 32,
{
    hkdf_sha256_32(thread_id, shared, message_id)
}

/// The AES-256-GCM ciphertext (with its tag) of `pt`, when it can be sealed.
pub uninterp spec fn aes_gcm_seal_of(key: Seq<u8>, nonce: Seq<u8>, pt: Seq<u8>) -> Option<Seq<u8>>;

/// The plaintext that an AES-256-GCM ciphertext authenticates to, if any.
pub uninterp spec fn aes_gcm_open_of(key: Seq<u8>, nonce: Seq<u8>, ct: Seq<u8>) -> Option<Seq<u8>>;

/// `Aes256Gcm::new_from_slice(key)` then `encrypt(nonce, pt)`: the ciphertext
/// with its tag, which `decrypt` with the same key and nonce turns back into
/// `pt`; `None` when the plaintext is too long for the cipher.
#[verifier::external_body]
pub(crate) fn aes256gcm_seal(key: &[u8], nonce: &[u8], pt: &[u8]) -> (r: Option<Vec<u8>>)
    requires
        key@.len() == 32,
        nonce@.len() == 12,
    ensures
        match r {
            Some(c) => aes_gcm_seal_of(key@, nonce@, pt@) == Some(c@) && aes_gcm_open_of(key@, nonce@, c@) == Some(pt@),
            None => aes_gcm_seal_of(key@, nonce@, pt@) is None,
        },
{
    let cipher = match aes_gcm::Aes256Gcm::new_from_slice(key) {
        Ok(c) => c,
        Err(_) => return None,
    };
    cipher.encrypt(aes_gcm::Nonce::from_slice(nonce), pt).ok()
}

/// `Aes256Gcm::new_from_slice(key)` then `decrypt(nonce, ct)`: the plaintext,
/// or `None` when the ciphertext does not authenticate.
#[verifier::external_body]
pub(crate) fn aes256gcm_open(key: &[u8], nonce: &[u8], ct: &[u8]) -> (r: Option<Vec<u8>>)
    requires
        key@.len() == 32,
        nonce@.len() == 12,
    ensures
        match r {
            Some(p) => aes_gcm_open_of(key@, nonce@, ct@) == Some(p@),
            None => aes_gcm_open_of(key@, nonce@, ct@) is None,
        },
{
    let cipher = match aes_gcm::Aes256Gcm::new_from_slice(key) {
        Ok(c) => c,
        Err(_) => return None,
    };
    cipher.decrypt(aes_gcm::Nonce::from_slice(nonce), ct).ok()
}

/// What decrypting an envelope's payload gives, from the message key and the
/// envelope's base64 nonce and ciphertext.
pub open spec fn spec_open_payload(key: Seq<u8>, nonce_b64: Seq<char>, ct_b64: Seq<char>) -> Result<Seq<u8>, ChatError> {
    if key.len() != 32 {
        Err(ChatError::InvalidKey)
    } else {
        match b64_decode_of(vstd::utf8::encode_utf8(nonce_b64)) {
            None => Err(ChatError::InvalidBase64),
            Some(nonce) => if nonce.len() != 12 {
                Err(ChatError::InvalidNonceLength)
            } else {
                match b64_decode_of(vstd::utf8::encode_utf8(ct_b64)) {
                    None => Err(ChatError::InvalidBase64),
                    Some(ct) => match aes_gcm_open_of(key, nonce, ct) {
                        None => Err(ChatError::DecryptFailed),
                        Some(p) => Ok(p),
                    },
                }
            },
        }
    }
}

/// Decrypts a payload: decodes the nonce (which must be 12 bytes) and the
/// ciphertext, then opens it under the message key.
pub fn open_payload(key: &[u8], nonce_b64: &str, ciphertext_b64: &str) -> (r: Result<Vec<u8>, ChatError>)
    ensures
        match r {
            Ok(p) => spec_open_payload(key@, nonce_b64@, ciphertext_b64@) == Ok::<Seq<u8>, ChatError>(p@),
            Err(e) => spec_open_payload(key@, nonce_b64@, ciphertext_b64@) == Err::<Seq<u8>, ChatError>(e),
        },
{
    if key.len() != 32 {
        return Err(ChatError::InvalidKey);
    }
    let nonce = match b64_decode(nonce_b64.as_bytes()) {
        Some(n) => n,
        None => return Err(ChatError::InvalidBase64),
    };
    if nonce.len() != 12 {
        return Err(ChatError::InvalidNonceLength);
    }
    let ct = match b64_decode(ciphertext_b64.as_bytes()) {
        Some(c) => c,
        None => return Err(ChatError::InvalidBase64),
    };
    match aes256gcm_open(key, nonce.as_slice(), ct.as_slice()) {
        Some(p) => Ok(p),
        None => Err(ChatError::DecryptFailed),
    }
}

/// Encrypts a payload under the message key and a 12-byte nonce, giving the
/// base64 nonce and ciphertext of an envelope; `open_payload` gives the
/// payload back from them.
pub fn seal_payload(key: &[u8], nonce: &[u8], plaintext: &[u8]) -> (r: Result<(String, String), ChatError>)
    requires
        nonce@.len() == 12,
    ensures
        match r {
            Ok((n, c)) => key@.len() == 32
                && n@ == b64_encode_of(nonce@)
                && aes_gcm_seal_of(key@, nonce@, plaintext@) is Some
                && c@ == b64_encode_of(aes_gcm_seal_of(key@, nonce@, plaintext@)->Some_0)
                && spec_open_payload(key@, n@, c@) == Ok::<Seq<u8>, ChatError>(plaintext@),
            Err(e) => (key@.len() != 32 && e == ChatError::InvalidKey)
                || (key@.len() == 32 && aes_gcm_seal_of(key@, nonce@, plaintext@) is None && e == ChatError::EncryptFailed),
        },
{
    if key.len() != 32 {
        return Err(ChatError::InvalidKey);
    }
    let ct = match aes256gcm_seal(key, nonce, plaintext) {
        Some(c) => c,
        None => return Err(ChatError::EncryptFailed),
    };
    let n = b64_encode(nonce);
    let c = b64_encode(ct.as_slice());
    Ok((n, c))
}

/// A change to the local chat store that a received payload calls for.
#[derive(Clone, Debug)]
pub enum ChatStoreOp {
    /// Create the thread if it does not exist.
    CreateThread { thread_id: String, kind: String, title: Option<String> },
    /// Add an actor to a thread, or change its role.
    UpsertMember { thread_id: String, actor: String, role: String },
    /// Replace the members of a thread.
    SetMembers { thread_id: String, members: Vec<String> },
    /// Remove an actor from a thread.
    RemoveMember { thread_id: String, actor: String },
    /// Delete a thread.
    DeleteThread { thread_id: String },
    /// Set or clear a thread's title.
    RenameThread { thread_id: String, title: Option<String> },
    /// Store the envelope's message, with the payload as its body.
    InsertMessage { thread_id: String, message_id: String, sender_actor: String, sender_device: String, created_at_ms: i64 },
    /// Mark a thread as active now.
    TouchThread { thread_id: String },
    /// Replace a message's body with the payload.
    EditMessage { message_id: String },
    /// Mark a message deleted.
    DeleteMessage { message_id: String },
    /// Record a delivery or read status of a message for an actor.
    SetStatus { message_id: String, actor: String, status: String },
    /// Add an actor's reaction to a message.
    AddReaction { message_id: String, actor: String, reaction: String },
    /// Remove an actor's reaction from a message.
    RemoveReaction { message_id: String, actor: String, reaction: String },
    /// Mark the thread holding a message as active now.
    TouchThreadOfMessage { message_id: String },
}

/// One store change, and whether its failure fails the whole payload
/// (otherwise it is ignored).
#[derive(Clone, Debug)]
pub struct ChatStoreStep {
    pub op: ChatStoreOp,
    pub required: bool,
}

/// A store change as values.
pub enum ChatOpV {
    CreateThread { thread_id: Seq<char>, kind: Seq<char>, title: Option<Seq<char>> },
    UpsertMember { thread_id: Seq<char>, actor: Seq<char>, role: Seq<char> },
    SetMembers { thread_id: Seq<char>, members: Seq<Seq<char>> },
    RemoveMember { thread_id: Seq<char>, actor: Seq<char> },
    DeleteThread { thread_id: Seq<char> },
    RenameThread { thread_id: Seq<char>, title: Option<Seq<char>> },
    InsertMessage { thread_id: Seq<char>, message_id: Seq<char>, sender_actor: Seq<char>, sender_device: Seq<char>, created_at_ms: i64 },
    TouchThread { thread_id: Seq<char> },
    EditMessage { message_id: Seq<char> },
    DeleteMessage { message_id: Seq<char> },
    SetStatus { message_id: Seq<char>, actor: Seq<char>, status: Seq<char> },
    AddReaction { message_id: Seq<char>, actor: Seq<char>, reaction: Seq<char> },
    RemoveReaction { message_id: Seq<char>, actor: Seq<char>, reaction: Seq<char> },
    TouchThreadOfMessage { message_id: Seq<char> },
}

pub open spec fn ostr(o: Option<String>) -> Option<Seq<char>> {
    match o {
        Some(s) => Some(s@),
        None => None,
    }
}

impl View for ChatStoreOp {
    type V = ChatOpV;

    open spec fn view(&self) -> ChatOpV {
        match self {
            ChatStoreOp::CreateThread { thread_id, kind, title } => ChatOpV::CreateThread { thread_id: thread_id@, kind: kind@, title: ostr(*title) },
            ChatStoreOp::UpsertMember { thread_id, actor, role } => ChatOpV::UpsertMember { thread_id: thread_id@, actor: actor@, role: role@ },
            ChatStoreOp::SetMembers { thread_id, members } => ChatOpV::SetMembers { thread_id: thread_id@, members: views_of(*members) },
            ChatStoreOp::RemoveMember { thread_id, actor } => ChatOpV::RemoveMember { thread_id: thread_id@, actor: actor@ },
            ChatStoreOp::DeleteThread { thread_id } => ChatOpV::DeleteThread { thread_id: thread_id@ },
            ChatStoreOp::RenameThread { thread_id, title } => ChatOpV::RenameThread { thread_id: thread_id@, title: ostr(*title) },
            ChatStoreOp::InsertMessage { thread_id, message_id, sender_actor, sender_device, created_at_ms } => ChatOpV::InsertMessage {
                thread_id: thread_id@,
                message_id: message_id@,
                sender_actor: sender_actor@,
                sender_device: sender_device@,
                created_at_ms: *created_at_ms,
            },
            ChatStoreOp::TouchThread { thread_id } => ChatOpV::TouchThread { thread_id: thread_id@ },
            ChatStoreOp::EditMessage { message_id } => ChatOpV::EditMessage { message_id: message_id@ },
            ChatStoreOp::DeleteMessage { message_id } => ChatOpV::DeleteMessage { message_id: message_id@ },
            ChatStoreOp::SetStatus { message_id, actor, status } => ChatOpV::SetStatus { message_id: message_id@, actor: actor@, status: status@ },
            ChatStoreOp::AddReaction { message_id, actor, reaction } => ChatOpV::AddReaction { message_id: message_id@, actor: actor@, reaction: reaction@ },
            ChatStoreOp::RemoveReaction { message_id, actor, reaction } => ChatOpV::RemoveReaction { message_id: message_id@, actor: actor@, reaction: reaction@ },
            ChatStoreOp::TouchThreadOfMessage { message_id } => ChatOpV::TouchThreadOfMessage { message_id: message_id@ },
        }
    }
}

/// The steps as values.
pub open spec fn steps_view(v: Seq<ChatStoreStep>) -> Seq<(ChatOpV, bool)> {
    v.map_values(|s: ChatStoreStep| (s.op@, s.required))
}

/// Storing the envelope's message in thread `t`.
pub open spec fn insert_step(t: Seq<char>, env: ChatEnvelope) -> (ChatOpV, bool) {
    (ChatOpV::InsertMessage {
        thread_id: t,
        message_id: env.message_id@,
        sender_actor: env.sender_actor@,
        sender_device: env.sender_device@,
        created_at_ms: env.created_at_ms,
    }, true)
}

/// One ignored-on-failure step per target: added as members, or removed.
pub open spec fn target_steps(t: Seq<char>, targets: Seq<Seq<char>>, add: bool) -> Seq<(ChatOpV, bool)> {
    targets.map_values(|a: Seq<char>|
        if add {
            (ChatOpV::UpsertMember { thread_id: t, actor: a, role: "member"@ }, false)
        } else {
            (ChatOpV::RemoveMember { thread_id: t, actor: a }, false)
        })
}

/// The targets of a payload, none when it has none.
pub open spec fn targets_of(p: ChatPayload) -> Seq<Seq<char>> {
    match p.targets {
        Some(ts) => views_of(ts),
        None => Seq::empty(),
    }
}

/// The steps of a group-management (`system`) payload in thread `t`.
pub open spec fn system_steps(t: Seq<char>, env: ChatEnvelope, p: ChatPayload) -> Seq<(ChatOpV, bool)> {
    let head = seq![(ChatOpV::CreateThread { thread_id: t, kind: "group"@, title: ostr(p.title) }, true)];
    let head = match p.members {
        Some(ms) => head.push((ChatOpV::SetMembers { thread_id: t, members: views_of(ms) }, true)),
        None => head,
    };
    let tail = seq![insert_step(t, env), (ChatOpV::TouchThread { thread_id: t }, true)];
    match p.action {
        Some(a) => if a@ == "delete_thread"@ {
            head.push((ChatOpV::DeleteThread { thread_id: t }, false))
        } else if a@ == "create_thread"@ {
            head.push((ChatOpV::UpsertMember { thread_id: t, actor: env.sender_actor@, role: "owner"@ }, false))
        } else if a@ == "add_member"@ {
            head + target_steps(t, targets_of(p), true) + tail
        } else if a@ == "remove_member"@ {
            head + target_steps(t, targets_of(p), false) + tail
        } else if a@ == "rename"@ {
            head.push((ChatOpV::RenameThread { thread_id: t, title: ostr(p.title) }, false)) + tail
        } else {
            head + tail
        },
        None => head + tail,
    }
}

/// What the local store does with a received payload: nothing is stored
/// without a thread id; a message creates the direct thread with both
/// parties as members and stores it; edits, deletions, receipts and
/// reactions name their message; group changes update the thread and are
/// stored as messages, except deleting or creating the thread.
pub open spec fn spec_chat_plan(env: ChatEnvelope, p: ChatPayload, self_actor: Seq<char>) -> Result<Seq<(ChatOpV, bool)>, ChatError> {
    let t = trim(env.thread_id@);
    if t.len() == 0 {
        Err(ChatError::MissingThreadId)
    } else if p.op@ == "message"@ {
        Ok(seq![
            (ChatOpV::CreateThread { thread_id: t, kind: "dm"@, title: None }, true),
            (ChatOpV::UpsertMember { thread_id: t, actor: env.sender_actor@, role: "member"@ }, true),
            (ChatOpV::UpsertMember { thread_id: t, actor: self_actor, role: "member"@ }, true),
            insert_step(t, env),
            (ChatOpV::TouchThread { thread_id: t }, true),
        ])
    } else if p.op@ == "edit"@ {
        Ok(match p.message_id {
            Some(m) => seq![(ChatOpV::EditMessage { message_id: m@ }, true)],
            None => Seq::empty(),
        })
    } else if p.op@ == "delete"@ {
        Ok(match p.message_id {
            Some(m) => seq![(ChatOpV::DeleteMessage { message_id: m@ }, true)],
            None => Seq::empty(),
        })
    } else if p.op@ == "system"@ {
        Ok(system_steps(t, env, p))
    } else if p.op@ == "receipt"@ {
        Ok(match (p.message_id, p.status) {
            (Some(m), Some(st)) => seq![(ChatOpV::SetStatus { message_id: m@, actor: env.sender_actor@, status: st@ }, true)],
            _ => Seq::empty(),
        })
    } else if p.op@ == "react"@ {
        Ok(match (p.message_id, p.reaction) {
            (Some(m), Some(re)) => {
                let remove = match p.action {
                    Some(a) => a@ == "remove"@,
                    None => false,
                };
                seq![
                    if remove {
                        (ChatOpV::RemoveReaction { message_id: m@, actor: env.sender_actor@, reaction: re@ }, false)
                    } else {
                        (ChatOpV::AddReaction { message_id: m@, actor: env.sender_actor@, reaction: re@ }, false)
                    },
                    (ChatOpV::TouchThreadOfMessage { message_id: m@ }, false),
                ]
            },
            _ => Seq::empty(),
        })
    } else {
        Ok(Seq::empty())
    }
}

fn clone_opt(o: &Option<String>) -> (r: Option<String>)
    ensures
        ostr(r) == ostr(*o),
{
    match o {
        Some(s) => Some(s.clone()),
        None => None,
    }
}

fn push_step(out: &mut Vec<ChatStoreStep>, op: ChatStoreOp, required: bool)
    ensures
        steps_view(final(out)@) == steps_view(old(out)@).push((op@, required)),
{
    let ghost before = out@;
    out.push(ChatStoreStep { op, required });
    proof {
        assert(steps_view(out@) =~= steps_view(before).push((op@, required)));
    }
}

fn push_target_steps(out: &mut Vec<ChatStoreStep>, t: &String, targets: &Vec<String>, add: bool)
    ensures
        steps_view(final(out)@) == steps_view(old(out)@) + target_steps(t@, views_of(*targets), add),
{
    let ghost start = steps_view(out@);
    let mut i: usize = 0;
    while i < targets.len()
        invariant
            i <= targets.len(),
            steps_view(out@) == start + target_steps(t@, views_of(*targets), add).take(i as int),
        decreases targets.len() - i,
    {
        let op = if add {
            ChatStoreOp::UpsertMember { thread_id: t.clone(), actor: targets[i].clone(), role: "member".to_string() }
        } else {
            ChatStoreOp::RemoveMember { thread_id: t.clone(), actor: targets[i].clone() }
        };
        push_step(out, op, false);
        proof {
            let ts = target_steps(t@, views_of(*targets), add);
            assert(views_of(*targets)[i as int] == targets@[i as int]@);
            assert(ts.take(i + 1) =~= ts.take(i as int).push(ts[i as int]));
        }
        i += 1;
    }
    proof {
        let ts = target_steps(t@, views_of(*targets), add);
        assert(ts.take(i as int) =~= ts);
    }
}

fn insert_op(t: &String, env: &ChatEnvelope) -> (r: ChatStoreOp)
    ensures
        (r@, true) == insert_step(t@, *env),
{
    ChatStoreOp::InsertMessage {
        thread_id: t.clone(),
        message_id: env.message_id.clone(),
        sender_actor: env.sender_actor.clone(),
        sender_device: env.sender_device.clone(),
        created_at_ms: env.created_at_ms,
    }
}

fn system_plan(t: &String, env: &ChatEnvelope, p: &ChatPayload) -> (r: Vec<ChatStoreStep>)
    ensures
        steps_view(r@) == system_steps(t@, *env, *p),
{
    let mut out: Vec<ChatStoreStep> = Vec::new();
    push_step(&mut out, ChatStoreOp::CreateThread { thread_id: t.clone(), kind: "group".to_string(), title: clone_opt(&p.title) }, true);
    match &p.members {
        Some(ms) => {
            push_step(&mut out, ChatStoreOp::SetMembers { thread_id: t.clone(), members: clone_strings(ms) }, true);
        },
        None => {},
    }
    let ghost head = steps_view(out@);
    let mut with_tail = true;
    match &p.action {
        Some(a) => {
            if str_eq(a.as_str(), "delete_thread") {
                push_step(&mut out, ChatStoreOp::DeleteThread { thread_id: t.clone() }, false);
                with_tail = false;
            } else if str_eq(a.as_str(), "create_thread") {
                push_step(&mut out, ChatStoreOp::UpsertMember { thread_id: t.clone(), actor: env.sender_actor.clone(), role: "owner".to_string() }, false);
                with_tail = false;
            } else if str_eq(a.as_str(), "add_member") {
                match &p.targets {
                    Some(ts) => push_target_steps(&mut out, t, ts, true),
                    None => {},
                }
                proof {
                    assert(steps_view(out@) =~= head + target_steps(t@, targets_of(*p), true));
                }
            } else if str_eq(a.as_str(), "remove_member") {
                match &p.targets {
                    Some(ts) => push_target_steps(&mut out, t, ts, false),
                    None => {},
                }
                proof {
                    assert(steps_view(out@) =~= head + target_steps(t@, targets_of(*p), false));
                }
            } else if str_eq(a.as_str(), "rename") {
                push_step(&mut out, ChatStoreOp::RenameThread { thread_id: t.clone(), title: clone_opt(&p.title) }, false);
            }
        },
        None => {},
    }
    if with_tail {
        let ghost mid = steps_view(out@);
        push_step(&mut out, insert_op(t, env), true);
        push_step(&mut out, ChatStoreOp::TouchThread { thread_id: t.clone() }, true);
        proof {
            let tail = seq![insert_step(t@, *env), (ChatOpV::TouchThread { thread_id: t@ }, true)];
            assert(steps_view(out@) =~= mid + tail);
        }
    }
    out
}

/// What the local store does with a received payload (see `spec_chat_plan`):
/// the steps in order, or `MissingThreadId` for a blank thread id.
pub fn chat_store_plan(env: &ChatEnvelope, payload: &ChatPayload, self_actor: &str) -> (r: Result<Vec<ChatStoreStep>, ChatError>)
    ensures
        match r {
            Ok(v) => spec_chat_plan(*env, *payload, self_actor@) == Ok::<Seq<(ChatOpV, bool)>, ChatError>(steps_view(v@)),
            Err(e) => spec_chat_plan(*env, *payload, self_actor@) == Err::<Seq<(ChatOpV, bool)>, ChatError>(e),
        },
{
    let tc = trim_chars(&str_chars(env.thread_id.as_str()));
    if tc.len() == 0 {
        return Err(ChatError::MissingThreadId);
    }
    let t = string_from_chars(&tc);
    let op = payload.op.as_str();
    let mut out: Vec<ChatStoreStep> = Vec::new();
    assert(t@ == trim(env.thread_id@));
    assert(steps_view(out@) =~= Seq::<(ChatOpV, bool)>::empty());
    if str_eq(op, "message") {
        push_step(&mut out, ChatStoreOp::CreateThread { thread_id: t.clone(), kind: "dm".to_string(), title: None }, true);
        push_step(&mut out, ChatStoreOp::UpsertMember { thread_id: t.clone(), actor: env.sender_actor.clone(), role: "member".to_string() }, true);
        push_step(&mut out, ChatStoreOp::UpsertMember { thread_id: t.clone(), actor: self_actor.to_string(), role: "member".to_string() }, true);
        push_step(&mut out, insert_op(&t, env), true);
        push_step(&mut out, ChatStoreOp::TouchThread { thread_id: t.clone() }, true);
        proof {
            let tv = t@;
            assert(steps_view(out@) =~= seq![
                (ChatOpV::CreateThread { thread_id: tv, kind: "dm"@, title: None }, true),
                (ChatOpV::UpsertMember { thread_id: tv, actor: env.sender_actor@, role: "member"@ }, true),
                (ChatOpV::UpsertMember { thread_id: tv, actor: self_actor@, role: "member"@ }, true),
                insert_step(tv, *env),
                (ChatOpV::TouchThread { thread_id: tv }, true),
            ]);
        }
    } else if str_eq(op, "edit") {
        match &payload.message_id {
            Some(m) => {
                push_step(&mut out, ChatStoreOp::EditMessage { message_id: m.clone() }, true);
                assert(steps_view(out@) =~= seq![(ChatOpV::EditMessage { message_id: m@ }, true)]);
            },
            None => {},
        }
    } else if str_eq(op, "delete") {
        match &payload.message_id {
            Some(m) => {
                push_step(&mut out, ChatStoreOp::DeleteMessage { message_id: m.clone() }, true);
                assert(steps_view(out@) =~= seq![(ChatOpV::DeleteMessage { message_id: m@ }, true)]);
            },
            None => {},
        }
    } else if str_eq(op, "system") {
        out = system_plan(&t, env, payload);
    } else if str_eq(op, "receipt") {
        match (&payload.message_id, &payload.status) {
            (Some(m), Some(st)) => {
                push_step(&mut out, ChatStoreOp::SetStatus { message_id: m.clone(), actor: env.sender_actor.clone(), status: st.clone() }, true);
                assert(steps_view(out@) =~= seq![(ChatOpV::SetStatus { message_id: m@, actor: env.sender_actor@, status: st@ }, true)]);
            },
            _ => {},
        }
    } else if str_eq(op, "react") {
        match (&payload.message_id, &payload.reaction) {
            (Some(m), Some(re)) => {
                let remove = match &payload.action {
                    Some(a) => str_eq(a.as_str(), "remove"),
                    None => false,
                };
                if remove {
                    push_step(&mut out, ChatStoreOp::RemoveReaction { message_id: m.clone(), actor: env.sender_actor.clone(), reaction: re.clone() }, false);
                } else {
                    push_step(&mut out, ChatStoreOp::AddReaction { message_id: m.clone(), actor: env.sender_actor.clone(), reaction: re.clone() }, false);
                }
                push_step(&mut out, ChatStoreOp::TouchThreadOfMessage { message_id: m.clone() }, false);
                proof {
                    let first = if remove {
                        (ChatOpV::RemoveReaction { message_id: m@, actor: env.sender_actor@, reaction: re@ }, false)
                    } else {
                        (ChatOpV::AddReaction { message_id: m@, actor: env.sender_actor@, reaction: re@ }, false)
                    };
                    assert(steps_view(out@) =~= seq![first, (ChatOpV::TouchThreadOfMessage { message_id: m@ }, false)]);
                }
            },
            _ => {},
        }
    }
    Ok(out)
}

/// Why a chat message cannot be sent.
#[derive(Clone, Copy, Debug, PartialEq, Eq, Structural)]
pub enum ChatSendError {
    /// The text is blank.
    EmptyText,
    /// Neither the thread nor the request names anyone.
    MissingRecipients,
}

/// Where a new message goes.
#[derive(Clone, Debug)]
pub struct ChatSendPlan {
    pub thread_id: String,
    /// `dm` or `group`.
    pub kind: String,
    /// Everyone in the thread, the sender included, sorted, each once.
    pub members: Vec<String>,
    /// Whether the thread is created (no thread was named).
    pub new_thread: bool,
}

/// The people a message is for: the members of the named thread, or the
/// request's recipients when no thread is named.
pub open spec fn send_base(thread_id: Option<&str>, thread_members: Seq<String>, recipients: Seq<String>) -> Seq<Seq<char>> {
    if thread_id is Some { views(thread_members) } else { views(recipients) }
}

/// Plans sending a message: the text must not be blank and someone must be
/// named; the sender joins the members, which are sorted and deduplicated;
/// a named thread is a group, two members make a direct thread with an id
/// derived from them, more make a new group `urn:fedi3:chat:<fresh_id>`.
pub fn chat_send_plan(text: &str, thread_id: Option<&str>, thread_members: Vec<String>, recipients: Vec<String>, self_actor: &str, fresh_id: &str) -> (r: Result<ChatSendPlan, ChatSendError>)
    ensures
        match r {
            Err(e) => (trim(text@).len() == 0 && e == ChatSendError::EmptyText)
                || (trim(text@).len() > 0 && send_base(thread_id, thread_members@, recipients@).len() == 0 && e == ChatSendError::MissingRecipients),
            Ok(p) => trim(text@).len() > 0
                && send_base(thread_id, thread_members@, recipients@).len() > 0
                && sorted_strict(views(p.members@))
                && views(p.members@).to_set() == send_base(thread_id, thread_members@, recipients@).to_set().insert(self_actor@)
                && p.new_thread == (thread_id is None)
                && match thread_id {
                    Some(t) => p.thread_id@ == t@ && p.kind@ == "group"@,
                    None => if p.members@.len() == 2 {
                        p.thread_id@ == spec_chat_dm_thread_id(member_bytes(p.members@)) && p.kind@ == "dm"@
                    } else {
                        p.thread_id@ == "urn:fedi3:chat:"@ + fresh_id@ && p.kind@ == "group"@
                    },
                },
        },
{
    let tc = trim_chars(&str_chars(text));
    if tc.len() == 0 {
        return Err(ChatSendError::EmptyText);
    }
    let mut members = match thread_id {
        Some(_) => thread_members,
        None => recipients,
    };
    if members.len() == 0 {
        return Err(ChatSendError::MissingRecipients);
    }
    let ghost base = views(members@);
    let ghost before = members@;
    members.push(self_actor.to_string());
    proof {
        assert(views(members@) =~= base.push(self_actor@));
        let pb = base.push(self_actor@);
        assert forall|x: Seq<char>| pb.contains(x) <==> (base.contains(x) || x == self_actor@) by {
            if pb.contains(x) {
                let i = choose|i: int| 0 <= i < pb.len() && pb[i] == x;
                if i < base.len() {
                    assert(base[i] == x);
                }
            }
            if base.contains(x) {
                let i = choose|i: int| 0 <= i < base.len() && base[i] == x;
                assert(pb[i] == x);
            }
            if x == self_actor@ {
                assert(pb[base.len() as int] == x);
            }
        }
        assert(pb.to_set() =~= base.to_set().insert(self_actor@));
    }
    let members = sort_dedup(members);
    let (tid, kind) = match thread_id {
        Some(t) => (t.to_string(), "group".to_string()),
        None => if members.len() == 2 {
            (chat_dm_thread_id(members.as_slice()), "dm".to_string())
        } else {
            let mut v = str_chars("urn:fedi3:chat:");
            crate::text::append_str(&mut v, fresh_id);
            (string_from_chars(&v), "group".to_string())
        },
    };
    Ok(ChatSendPlan { thread_id: tid, kind, members, new_thread: thread_id.is_none() })
}

/// Plans sending a message (see `chat_send_plan`), with a fresh random id
/// for a new group thread.
pub fn chat_send(text: &str, thread_id: Option<&str>, thread_members: Vec<String>, recipients: Vec<String>, self_actor: &str) -> (r: Result<ChatSendPlan, ChatSendError>)
    ensures
        match r {
            Err(e) => (trim(text@).len() == 0 && e == ChatSendError::EmptyText)
                || (trim(text@).len() > 0 && send_base(thread_id, thread_members@, recipients@).len() == 0 && e == ChatSendError::MissingRecipients),
            Ok(p) => trim(text@).len() > 0
                && send_base(thread_id, thread_members@, recipients@).len() > 0
                && sorted_strict(views(p.members@))
                && views(p.members@).to_set() == send_base(thread_id, thread_members@, recipients@).to_set().insert(self_actor@)
                && p.new_thread == (thread_id is None)
                && match thread_id {
                    Some(t) => p.thread_id@ == t@ && p.kind@ == "group"@,
                    None => if p.members@.len() == 2 {
                        p.thread_id@ == spec_chat_dm_thread_id(member_bytes(p.members@)) && p.kind@ == "dm"@
                    } else {
                        exists|b: Seq<u8>| b.len() == 12 && p.thread_id@ == "urn:fedi3:chat:"@ + #[trigger] hex_lower(b) && p.kind@ == "group"@
                    },
                },
        },
{
    let fresh = random_id();
    chat_send_plan(text, thread_id, thread_members, recipients, self_actor, fresh.as_str())
}

/// The role a member of a new thread gets: `owner` for the sender.
pub fn chat_member_role(actor: &str, self_actor: &str) -> (r: &'static str)
    ensures
        r@ == if actor@ == self_actor@ { "owner"@ } else { "member"@ },
{
    if str_eq(actor, self_actor) { "owner" } else { "member" }
}

/// The JSON text of a prekey, as it is signed: `{"id":..,"public_b64":..}`.
pub open spec fn prekey_text(k: ChatPreKey) -> Seq<char> {
    "{\"id\":"@ + json_quoted(k.id@) + ",\"public_b64\":"@ + json_quoted(k.public_b64@) + "}"@
}

/// The prekeys' texts joined with commas.
pub open spec fn prekeys_text(ks: Seq<ChatPreKey>) -> Seq<char>
    decreases ks.len(),
{
    if ks.len() == 0 {
        Seq::empty()
    } else if ks.len() == 1 {
        prekey_text(ks[0])
    } else {
        prekeys_text(ks.drop_last()) + ","@ + prekey_text(ks.last())
    }
}

/// The JSON text a bundle is signed over: its fields in order, with no
/// signature.
pub open spec fn bundle_text(b: ChatBundle) -> Seq<char> {
    "{\"v\":"@ + dec(b.v as nat) + ",\"actor\":"@ + json_quoted(b.actor@) + ",\"peer_id\":"@ + json_quoted(b.peer_id@)
        + ",\"did\":"@ + (match b.did { Some(d) => json_quoted(d@), None => "null"@ })
        + ",\"device_id\":"@ + json_quoted(b.device_id@) + ",\"kem_public_b64\":"@ + json_quoted(b.kem_public_b64@)
        + ",\"prekeys\":["@ + prekeys_text(b.prekeys@) + "],\"created_at_ms\":"@ + dec_signed(b.created_at_ms as int)
        + ",\"signature_b64\":null}"@
}

/// The JSON text an envelope is signed over: its fields in order, with no
/// signature.
pub open spec fn envelope_text(e: ChatEnvelope) -> Seq<char> {
    "{\"v\":"@ + dec(e.v as nat) + ",\"thread_id\":"@ + json_quoted(e.thread_id@) + ",\"message_id\":"@ + json_quoted(e.message_id@)
        + ",\"sender_actor\":"@ + json_quoted(e.sender_actor@) + ",\"sender_device\":"@ + json_quoted(e.sender_device@)
        + ",\"sender_peer_id\":"@ + json_quoted(e.sender_peer_id@) + ",\"created_at_ms\":"@ + dec_signed(e.created_at_ms as int)
        + ",\"kem_alg\":"@ + json_quoted(e.kem_alg@) + ",\"kem_ciphertext_b64\":"@ + json_quoted(e.kem_ciphertext_b64@)
        + ",\"kem_key_id\":"@ + json_quoted(e.kem_key_id@) + ",\"nonce_b64\":"@ + json_quoted(e.nonce_b64@)
        + ",\"ciphertext_b64\":"@ + json_quoted(e.ciphertext_b64@) + ",\"signature_b64\":null}"@
}

fn push_quoted(out: &mut Vec<char>, s: &str)
    ensures
        final(out)@ == old(out)@ + json_quoted(s@),
{
    let q = json_quote(s);
    append_str(out, q.as_str());
}

/// The text a bundle is signed over (see `bundle_text`).
pub fn bundle_signing_text(b: &ChatBundle) -> (r: String)
    ensures
        r@ == bundle_text(*b),
{
    let mut v = str_chars("{\"v\":");
    push_dec(&mut v, b.v as u64);
    append_str(&mut v, ",\"actor\":");
    push_quoted(&mut v, b.actor.as_str());
    append_str(&mut v, ",\"peer_id\":");
    push_quoted(&mut v, b.peer_id.as_str());
    append_str(&mut v, ",\"did\":");
    match &b.did {
        Some(d) => push_quoted(&mut v, d.as_str()),
        None => append_str(&mut v, "null"),
    }
    append_str(&mut v, ",\"device_id\":");
    push_quoted(&mut v, b.device_id.as_str());
    append_str(&mut v, ",\"kem_public_b64\":");
    push_quoted(&mut v, b.kem_public_b64.as_str());
    append_str(&mut v, ",\"prekeys\":[");
    let ghost head = v@;
    let mut i: usize = 0;
    while i < b.prekeys.len()
        invariant
            i <= b.prekeys.len(),
            v@ == head + prekeys_text(b.prekeys@.take(i as int)),
        decreases b.prekeys.len() - i,
    {
        let ghost ks = b.prekeys@;
        proof {
            assert(ks.take(i + 1).drop_last() =~= ks.take(i as int));
            assert(ks.take(i + 1).last() == ks[i as int]);
            if i == 0 {
                assert(ks.take(1) =~= seq![ks[0]]);
                assert(ks.take(0) =~= Seq::<ChatPreKey>::empty());
            }
        }
        if i > 0 {
            append_str(&mut v, ",");
        }
        append_str(&mut v, "{\"id\":");
        push_quoted(&mut v, b.prekeys[i].id.as_str());
        append_str(&mut v, ",\"public_b64\":");
        push_quoted(&mut v, b.prekeys[i].public_b64.as_str());
        append_str(&mut v, "}");
        i += 1;
    }
    assert(b.prekeys@.take(i as int) =~= b.prekeys@);
    append_str(&mut v, "],\"created_at_ms\":");
    push_dec_signed(&mut v, b.created_at_ms);
    append_str(&mut v, ",\"signature_b64\":null}");
    string_from_chars(&v)
}

/// The text an envelope is signed over (see `envelope_text`).
pub fn envelope_signing_text(e: &ChatEnvelope) -> (r: String)
    ensures
        r@ == envelope_text(*e),
{
    let mut v = str_chars("{\"v\":");
    push_dec(&mut v, e.v as u64);
    append_str(&mut v, ",\"thread_id\":");
    push_quoted(&mut v, e.thread_id.as_str());
    append_str(&mut v, ",\"message_id\":");
    push_quoted(&mut v, e.message_id.as_str());
    append_str(&mut v, ",\"sender_actor\":");
    push_quoted(&mut v, e.sender_actor.as_str());
    append_str(&mut v, ",\"sender_device\":");
    push_quoted(&mut v, e.sender_device.as_str());
    append_str(&mut v, ",\"sender_peer_id\":");
    push_quoted(&mut v, e.sender_peer_id.as_str());
    append_str(&mut v, ",\"created_at_ms\":");
    push_dec_signed(&mut v, e.created_at_ms);
    append_str(&mut v, ",\"kem_alg\":");
    push_quoted(&mut v, e.kem_alg.as_str());
    append_str(&mut v, ",\"kem_ciphertext_b64\":");
    push_quoted(&mut v, e.kem_ciphertext_b64.as_str());
    append_str(&mut v, ",\"kem_key_id\":");
    push_quoted(&mut v, e.kem_key_id.as_str());
    append_str(&mut v, ",\"nonce_b64\":");
    push_quoted(&mut v, e.nonce_b64.as_str());
    append_str(&mut v, ",\"ciphertext_b64\":");
    push_quoted(&mut v, e.ciphertext_b64.as_str());
    append_str(&mut v, ",\"signature_b64\":null}");
    string_from_chars(&v)
}

/// The outcome of checking a signature given in base64 over `text`: none
/// given, not base64, not verifying under the key, or good.
pub open spec fn spec_check_signature(sig_b64: Option<Seq<char>>, text: Seq<char>, public_pem: Seq<char>) -> Result<(), ChatError> {
    match sig_b64 {
        None => Err(ChatError::MissingSignature),
        Some(s) => match b64_decode_of(vstd::utf8::encode_utf8(s)) {
            None => Err(ChatError::InvalidBase64),
            Some(sig) => if rsa_sha256_verifies(public_pem, vstd::utf8::encode_utf8(text), sig) {
                Ok(())
            } else {
                Err(ChatError::BadSignature)
            },
        },
    }
}

pub open spec fn opt_string_view(o: Option<String>) -> Option<Seq<char>> {
    match o {
        Some(s) => Some(s@),
        None => None,
    }
}

fn check_signature(sig_b64: &Option<String>, text: &str, public_key_pem: &str) -> (r: Result<(), ChatError>)
    ensures
        r == spec_check_signature(opt_string_view(*sig_b64), text@, public_key_pem@),
{
    let s = match sig_b64 {
        Some(s) => s,
        None => return Err(ChatError::MissingSignature),
    };
    let sig = match b64_decode(s.as_str().as_bytes()) {
        Some(x) => x,
        None => return Err(ChatError::InvalidBase64),
    };
    if verify_bytes_rsa_sha256(public_key_pem, text.as_bytes(), sig.as_slice()) {
        Ok(())
    } else {
        Err(ChatError::BadSignature)
    }
}

/// Checks a bundle's signature under its actor's public key: the signature
/// must be present, base64, and verify over the bundle's text.
pub fn verify_bundle_signature(bundle: &ChatBundle, public_key_pem: &str) -> (r: Result<(), ChatError>)
    ensures
        r == spec_check_signature(opt_string_view(bundle.signature_b64), bundle_text(*bundle), public_key_pem@),
{
    let text = bundle_signing_text(bundle);
    check_signature(&bundle.signature_b64, text.as_str(), public_key_pem)
}

/// Checks an envelope's signature under its sender's public key.
pub fn verify_envelope_signature(envelope: &ChatEnvelope, public_key_pem: &str) -> (r: Result<(), ChatError>)
    ensures
        r == spec_check_signature(opt_string_view(envelope.signature_b64), envelope_text(*envelope), public_key_pem@),
{
    let text = envelope_signing_text(envelope);
    check_signature(&envelope.signature_b64, text.as_str(), public_key_pem)
}

/// The signature of a text under the private key, in base64; fails when
/// the key cannot sign. Whoever holds a public key that the private key's
/// signatures verify under accepts it.
fn sign_text_b64(private_key_pem: &str, text: &str) -> (r: Result<String, ChatError>)
    ensures
        match r {
            Ok(s) => exists|sig: Seq<u8>| rsa_sha256_signature_of(private_key_pem@, vstd::utf8::encode_utf8(text@)) == Some(sig)
                && s@ == b64_encode_of(sig) && #[trigger] b64_decode_of(vstd::utf8::encode_utf8(s@)) == Some(sig),
            Err(e) => e == ChatError::SigningFailed
                && rsa_sha256_signature_of(private_key_pem@, vstd::utf8::encode_utf8(text@)) is None,
        },
{
    match sign_bytes_rsa_sha256(private_key_pem, text.as_bytes()) {
        Some(sig) => {
            let s = b64_encode(sig.as_slice());
            assert(b64_decode_of(vstd::utf8::encode_utf8(s@)) == Some(sig@));
            Ok(s)
        },
        None => Err(ChatError::SigningFailed),
    }
}

/// A bundle signed with the device's private key: the same fields, with the
/// base64 signature of its text. Its signature then checks out under any
/// public key that the private key's signatures verify under.
pub fn sign_bundle(private_key_pem: &str, bundle: ChatBundle) -> (r: Result<ChatBundle, ChatError>)
    ensures
        match r {
            Ok(sb) => bundle_text(sb) == bundle_text(bundle)
                && sb.v == bundle.v && sb.actor == bundle.actor && sb.peer_id == bundle.peer_id && sb.did == bundle.did
                && sb.device_id == bundle.device_id && sb.kem_public_b64 == bundle.kem_public_b64
                && sb.prekeys == bundle.prekeys && sb.created_at_ms == bundle.created_at_ms
                && sb.signature_b64 is Some
                && (exists|sig: Seq<u8>| #[trigger] rsa_sha256_signature_of(private_key_pem@, vstd::utf8::encode_utf8(bundle_text(bundle))) == Some(sig)
                    && sb.signature_b64->Some_0@ == b64_encode_of(sig))
                && forall|public_pem: Seq<char>| #[trigger] signs_verify(private_key_pem@, public_pem)
                    ==> spec_check_signature(opt_string_view(sb.signature_b64), bundle_text(sb), public_pem) == Ok::<(), ChatError>(()),
            Err(e) => e == ChatError::SigningFailed
                && rsa_sha256_signature_of(private_key_pem@, vstd::utf8::encode_utf8(bundle_text(bundle))) is None,
        },
{
    let text = bundle_signing_text(&bundle);
    let s = sign_text_b64(private_key_pem, text.as_str())?;
    let ChatBundle { v, actor, peer_id, did, device_id, kem_public_b64, prekeys, created_at_ms, signature_b64: _ } = bundle;
    let sb = ChatBundle { v, actor, peer_id, did, device_id, kem_public_b64, prekeys, created_at_ms, signature_b64: Some(s) };
    assert(bundle_text(sb) == bundle_text(bundle));
    Ok(sb)
}

/// An envelope signed with the device's private key (see `sign_bundle`).
pub fn sign_envelope(private_key_pem: &str, envelope: ChatEnvelope) -> (r: Result<ChatEnvelope, ChatError>)
    ensures
        match r {
            Ok(se) => envelope_text(se) == envelope_text(envelope)
                && se.v == envelope.v && se.thread_id == envelope.thread_id && se.message_id == envelope.message_id
                && se.sender_actor == envelope.sender_actor && se.sender_device == envelope.sender_device
                && se.sender_peer_id == envelope.sender_peer_id && se.created_at_ms == envelope.created_at_ms
                && se.kem_alg == envelope.kem_alg && se.kem_ciphertext_b64 == envelope.kem_ciphertext_b64
                && se.kem_key_id == envelope.kem_key_id && se.nonce_b64 == envelope.nonce_b64
                && se.ciphertext_b64 == envelope.ciphertext_b64
                && se.signature_b64 is Some
                && (exists|sig: Seq<u8>| #[trigger] rsa_sha256_signature_of(private_key_pem@, vstd::utf8::encode_utf8(envelope_text(envelope))) == Some(sig)
                    && se.signature_b64->Some_0@ == b64_encode_of(sig))
                && forall|public_pem: Seq<char>| #[trigger] signs_verify(private_key_pem@, public_pem)
                    ==> spec_check_signature(opt_string_view(se.signature_b64), envelope_text(se), public_pem) == Ok::<(), ChatError>(()),
            Err(e) => e == ChatError::SigningFailed
                && rsa_sha256_signature_of(private_key_pem@, vstd::utf8::encode_utf8(envelope_text(envelope))) is None,
        },
{
    let text = envelope_signing_text(&envelope);
    let s = sign_text_b64(private_key_pem, text.as_str())?;
    let ChatEnvelope { v, thread_id, message_id, sender_actor, sender_device, sender_peer_id, created_at_ms, kem_alg,
        kem_ciphertext_b64, kem_key_id, nonce_b64, ciphertext_b64, signature_b64: _ } = envelope;
    let se = ChatEnvelope { v, thread_id, message_id, sender_actor, sender_device, sender_peer_id, created_at_ms, kem_alg,
        kem_ciphertext_b64, kem_key_id, nonce_b64, ciphertext_b64, signature_b64: Some(s) };
    assert(envelope_text(se) == envelope_text(envelope));
    Ok(se)
}

} // verus!
