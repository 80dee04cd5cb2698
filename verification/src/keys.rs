//! Ed25519 keys and signatures, held as plain bytes.
//!
//! The curve arithmetic is done by `ed25519_dalek`; this module holds the
//! byte-level types that the ledger stores and the few facts about signing
//! and verifying that the ledger relies on.

use crate::error::LedgerError;
use ed25519_dalek::Signer;
use ed25519_dalek::Verifier;
use vstd::prelude::*;
use vstd::slice::slice_subrange;
use vstd::slice::slice_to_vec;

verus! {

/// Number of bytes in a public key.
pub const PUBLIC_KEY_LENGTH: usize = 32;

/// Number of bytes in a secret key.
pub const SECRET_KEY_LENGTH: usize = 32;

/// Number of bytes in a signature.
pub const SIGNATURE_LENGTH: usize = 64;

/// Whether `bytes` decode as an Ed25519 public key.
pub uninterp spec fn is_public_key(bytes: Seq<u8>) -> bool;

/// The public key that belongs to the secret key `secret`.
pub uninterp spec fn public_key_of(secret: Seq<u8>) -> Seq<u8>;

/// The signature that the signing pair with the 64 bytes `keypair`, secret
/// key then public key, gives on `message`.
pub uninterp spec fn signature_of(keypair: Seq<u8>, message: Seq<u8>) -> Seq<u8>;

/// Whether `signature` verifies as a signature on `message` under the public
/// key `public`. False when either byte string does not decode.
pub uninterp spec fn signature_checks(public: Seq<u8>, message: Seq<u8>, signature: Seq<u8>) -> bool;

/// Calls `ed25519_dalek::PublicKey::from_bytes` and reports whether it
/// succeeded. That function refuses every input whose length is not 32.
#[verifier::external_body]
fn decodes_as_public_key(bytes: &[u8]) -> (ok: bool)
    ensures
        ok == is_public_key(bytes@),
        ok ==> bytes@.len() == PUBLIC_KEY_LENGTH,
{
    ed25519_dalek::PublicKey::from_bytes(bytes).is_ok()
}

/// Calls `ed25519_dalek::PublicKey::from` on the secret key made of the 32
/// bytes given. The result is the 32-byte compressed form of a curve point,
/// so it decodes as a public key again.
#[verifier::external_body]
fn derive_public_key(secret: &[u8]) -> (public: Vec<u8>)
    requires
        secret@.len() == SECRET_KEY_LENGTH,
    ensures
        public@ == public_key_of(secret@),
        public@.len() == PUBLIC_KEY_LENGTH,
        is_public_key(public@),
{
    let secret_key = ed25519_dalek::SecretKey::from_bytes(secret).unwrap();
    ed25519_dalek::PublicKey::from(&secret_key).to_bytes().to_vec()
}

/// Calls `ed25519_dalek::Keypair::generate` with the operating system's
/// random source and returns the pair's 64 bytes: the secret key, then the
/// public key. Which pair comes back is not determined; its public half is
/// always the one derived from its secret half.
#[verifier::external_body]
fn generate_keypair_bytes() -> (bytes: Vec<u8>)
    ensures
        bytes@.len() == SECRET_KEY_LENGTH + PUBLIC_KEY_LENGTH,
        bytes@.subrange(32, 64) == public_key_of(bytes@.subrange(0, 32)),
        is_public_key(bytes@.subrange(32, 64)),
{
    ed25519_dalek::Keypair::generate(&mut rand::rngs::OsRng).to_bytes().to_vec()
}

/// Makes the pair of its 64 bytes with `ed25519_dalek::Keypair::from_bytes`,
/// which succeeds where the public half decodes, and calls
/// `ed25519_dalek::Keypair::sign` (through the `Signer` trait). Signing is
/// deterministic and gives 64 bytes. The last clause is the correctness of
/// the signature scheme: what a pair signs verifies under the pair's public
/// key, provided that this key is the one that belongs to the secret key.
#[verifier::external_body]
fn sign_message(keypair: &[u8], message: &[u8]) -> (signature: Vec<u8>)
    requires
        keypair@.len() == SECRET_KEY_LENGTH + PUBLIC_KEY_LENGTH,
        is_public_key(keypair@.subrange(32, 64)),
    ensures
        signature@ == signature_of(keypair@, message@),
        signature@.len() == SIGNATURE_LENGTH,
        keypair@.subrange(32, 64) == public_key_of(keypair@.subrange(0, 32)) ==> signature_checks(
            keypair@.subrange(32, 64),
            message@,
            signature@,
        ),
{
    ed25519_dalek::Keypair::from_bytes(keypair).unwrap().sign(message).to_bytes().to_vec()
}

/// Decodes the key with `ed25519_dalek::PublicKey::from_bytes` and the
/// signature with `ed25519_dalek::Signature::from_bytes`, then calls
/// `ed25519_dalek::PublicKey::verify` (through the `Verifier` trait). The
/// answer is false when either decoding fails, which is the case for every
/// key that is not 32 bytes and every signature that is not 64 bytes long.
#[verifier::external_body]
pub(crate) fn verify_signature(public: &[u8], message: &[u8], signature: &[u8]) -> (ok: bool)
    ensures
        ok == signature_checks(public@, message@, signature@),
        ok ==> is_public_key(public@) && public@.len() == PUBLIC_KEY_LENGTH,
        ok ==> signature@.len() == SIGNATURE_LENGTH,
{
    match (
        ed25519_dalek::PublicKey::from_bytes(public),
        ed25519_dalek::Signature::from_bytes(signature),
    ) {
        (Ok(key), Ok(sig)) => key.verify(message, &sig).is_ok(),
        _ => false,
    }
}

/// A public key: 32 bytes that decode as a point of the curve.
#[derive(Debug, PartialEq, Eq)]
pub struct PublicKey {
    bytes: Vec<u8>,
}

impl View for PublicKey {
    type V = Seq<u8>;

    closed spec fn view(&self) -> Seq<u8> {
        self.bytes@
    }
}

impl PublicKey {
    #[verifier::type_invariant]
    spec fn decodes(&self) -> bool {
        &&& self.bytes@.len() == PUBLIC_KEY_LENGTH
        &&& is_public_key(self.bytes@)
    }

    /// Takes `bytes` as a public key if they decode as one.
    pub fn from_bytes(bytes: &[u8]) -> (result: Result<PublicKey, LedgerError>)
        ensures
            result is Ok <==> is_public_key(bytes@),
            result is Ok ==> result->Ok_0@ == bytes@,
            result is Err ==> result->Err_0 == LedgerError::MalformedKeyOrSignature,
    {
        if decodes_as_public_key(bytes) {
            Ok(PublicKey { bytes: slice_to_vec(bytes) })
        } else {
            Err(LedgerError::MalformedKeyOrSignature)
        }
    }

    /// A copy of the key's bytes.
    pub fn to_bytes(&self) -> (bytes: Vec<u8>)
        ensures
            bytes@ == self@,
            is_public_key(bytes@),
            bytes@.len() == PUBLIC_KEY_LENGTH,
    {
        proof {
            use_type_invariant(self);
        }
        slice_to_vec(self.bytes.as_slice())
    }

    /// The key's bytes.
    pub fn as_bytes(&self) -> (bytes: &Vec<u8>)
        ensures
            bytes@ == self@,
            is_public_key(bytes@),
            bytes@.len() == PUBLIC_KEY_LENGTH,
    {
        proof {
            use_type_invariant(self);
        }
        &self.bytes
    }

    /// The key's bytes, without a copy.
    pub fn into_bytes(self) -> (bytes: Vec<u8>)
        ensures
            bytes@ == self@,
            is_public_key(bytes@),
            bytes@.len() == PUBLIC_KEY_LENGTH,
    {
        proof {
            use_type_invariant(&self);
        }
        self.bytes
    }
}

impl Clone for PublicKey {
    fn clone(&self) -> (copy: Self)
        ensures
            copy@ == self@,
    {
        proof {
            use_type_invariant(self);
        }
        PublicKey { bytes: slice_to_vec(self.bytes.as_slice()) }
    }
}

/// A signing pair: a 32-byte secret key followed by the public key that
/// belongs to it.
#[derive(Debug)]
pub struct Keypair {
    bytes: Vec<u8>,
}

impl View for Keypair {
    type V = Seq<u8>;

    closed spec fn view(&self) -> Seq<u8> {
        self.bytes@
    }
}

impl Keypair {
    #[verifier::type_invariant]
    spec fn halves_match(&self) -> bool {
        self.wf()
    }

    /// The secret key's bytes.
    pub open spec fn secret_key(&self) -> Seq<u8> {
        self@.subrange(0, 32)
    }

    /// The public key's bytes.
    pub open spec fn public_key(&self) -> Seq<u8> {
        self@.subrange(32, 64)
    }

    /// The pair is 64 bytes long, and its public key decodes and is the one
    /// that belongs to its secret key. Holds of every pair that this module
    /// hands out.
    pub open spec fn wf(&self) -> bool {
        &&& self@.len() == SECRET_KEY_LENGTH + PUBLIC_KEY_LENGTH
        &&& is_public_key(self.public_key())
        &&& self.public_key() == public_key_of(self.secret_key())
    }

    /// A fresh pair from the operating system's random source.
    pub fn generate() -> (pair: Keypair)
        ensures
            pair.wf(),
    {
        Keypair { bytes: generate_keypair_bytes() }
    }

    /// The pair that belongs to a secret key. The key must be 32 bytes long.
    pub fn from_secret_bytes(secret: &[u8]) -> (result: Result<Keypair, LedgerError>)
        ensures
            result is Ok <==> secret@.len() == SECRET_KEY_LENGTH,
            result is Ok ==> result->Ok_0.wf() && result->Ok_0.secret_key() == secret@,
            result is Err ==> result->Err_0 == LedgerError::MalformedKeyOrSignature,
    {
        if secret.len() != SECRET_KEY_LENGTH {
            return Err(LedgerError::MalformedKeyOrSignature);
        }
        let mut bytes = slice_to_vec(secret);
        let mut public = derive_public_key(secret);
        bytes.append(&mut public);
        assert(bytes@.subrange(0, 32) =~= secret@);
        assert(bytes@.subrange(32, 64) =~= public_key_of(secret@));
        Ok(Keypair { bytes })
    }

    /// The public half.
    pub fn get_public_key(&self) -> (public: PublicKey)
        ensures
            public@ == self.public_key(),
            self.wf(),
    {
        proof {
            use_type_invariant(self);
        }
        PublicKey { bytes: slice_to_vec(slice_subrange(self.bytes.as_slice(), 32, 64)) }
    }

    /// Signs `message`. The signature is a function of the pair and the
    /// message, and it verifies under the pair's public key.
    pub fn sign(&self, message: &[u8]) -> (signature: Vec<u8>)
        ensures
            self.wf(),
            signature@ == signature_of(self@, message@),
            signature@.len() == SIGNATURE_LENGTH,
            signature_checks(self.public_key(), message@, signature@),
    {
        proof {
            use_type_invariant(self);
        }
        sign_message(self.bytes.as_slice(), message)
    }
}

} // verus!
