//! The node's identity: its RSA key pair, kept as PEM text, and the
//! decentralized id derived from the public half.
use vstd::prelude::*;
use rsa::pkcs8::{DecodePrivateKey, EncodePublicKey};
use crate::digest::{did_from_public_key_pem, spec_did_from_public_key_pem};

verus! {

/// The SPKI PEM (LF line endings) of the public half of a private key given
/// in PKCS#8 PEM; `None` when the private key does not parse.
pub uninterp spec fn rsa_public_pem_of(private_pem: Seq<char>) -> Option<Seq<char>>;

/// `RsaPrivateKey::from_pkcs8_pem`, then `RsaPublicKey::from` and
/// `to_public_key_pem(LineEnding::LF)`.
#[verifier::external_body]
fn public_key_pem_of(private_key_pem: &str) -> (r: Option<String>)
    ensures
        match r {
            Some(p) => rsa_public_pem_of(private_key_pem@) == Some(p@),
            None => rsa_public_pem_of(private_key_pem@) is None,
        },
{
    let key = rsa::RsaPrivateKey::from_pkcs8_pem(private_key_pem).ok()?;
    let public = rsa::RsaPublicKey::from(&key);
    public.to_public_key_pem(rsa::pkcs8::LineEnding::LF).ok()
}

/// The node's key pair as PEM text, with the id derived from it.
pub struct Identity {
    pub private_key_pem: String,
    pub public_key_pem: String,
    pub did: String,
}

/// Why an identity cannot be read.
#[derive(PartialEq, Eq, Structural, Clone, Copy, Debug)]
pub enum IdentityError {
    /// The stored private key is not an RSA key in PKCS#8 PEM.
    BadPrivateKey,
}

/// The identity of a stored private key: the key itself, its public half,
/// and the DID of that public half.
pub fn identity_from_private_pem(private_key_pem: String) -> (r: Result<Identity, IdentityError>)
    ensures
        match r {
            Ok(id) => id.private_key_pem@ == private_key_pem@
                && rsa_public_pem_of(private_key_pem@) == Some(id.public_key_pem@)
                && id.did@ == spec_did_from_public_key_pem(vstd::utf8::encode_utf8(id.public_key_pem@)),
            Err(e) => e == IdentityError::BadPrivateKey && rsa_public_pem_of(private_key_pem@) is None,
        },
{
    match public_key_pem_of(private_key_pem.as_str()) {
        Some(public_key_pem) => {
            let did = did_from_public_key_pem(public_key_pem.as_str());
            Ok(Identity { private_key_pem, public_key_pem, did })
        },
        None => Err(IdentityError::BadPrivateKey),
    }
}

} // verus!
