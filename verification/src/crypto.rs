//! Ed25519 keys and signatures, SHA3-256, child-key derivation and batch verification.
use vstd::prelude::*;
use sha3::Digest;
use ed25519_dalek::Signer;
use ed25519_dalek::Verifier;
use crate::bytes::{extend_bytes, push_u32_be, u32_be};
use crate::error::{RelyoError, Result};

verus! {

// ─── Outside functions ─────────────────────────────────────────────────────

/// The SHA3-256 digest of a byte string (`sha3::Sha3_256`).
pub uninterp spec fn sha3_digest(data: Seq<u8>) -> Seq<u8>;

/// The Ed25519 public key (compressed point) of a 32-byte signing seed.
pub uninterp spec fn ed25519_public_of(seed: Seq<u8>) -> Seq<u8>;

/// The Ed25519 signature of a message under a 32-byte signing seed (RFC 8032 signing is deterministic).
pub uninterp spec fn ed25519_signature_of(seed: Seq<u8>, msg: Seq<u8>) -> Seq<u8>;

/// Whether 32 bytes decode to an Ed25519 verifying key (`VerifyingKey::from_bytes` succeeds).
pub uninterp spec fn ed25519_key_decodes(pk: Seq<u8>) -> bool;

/// Whether `VerifyingKey::verify` accepts a signature on a message under a decodable key.
pub uninterp spec fn ed25519_accepts(pk: Seq<u8>, msg: Seq<u8>, sig: Seq<u8>) -> bool;

/// `sha3::Sha3_256::digest`: the result is `sha3_digest` of the input.
#[verifier::external_body]
pub fn sha3_256(data: &[u8]) -> (out: [u8; 32])
    ensures
        out@ == sha3_digest(data@),
{
    sha3::Sha3_256::digest(data).into()
}

/// `SigningKey::from_bytes(seed).verifying_key().to_bytes()`: the result is
/// `ed25519_public_of(seed)`, and it decodes back to a verifying key.
#[verifier::external_body]
fn ed25519_derive_public(seed: &[u8; 32]) -> (pk: [u8; 32])
    ensures
        pk@ == ed25519_public_of(seed@),
        ed25519_key_decodes(pk@),
{
    ed25519_dalek::SigningKey::from_bytes(seed).verifying_key().to_bytes()
}

/// `SigningKey::from_bytes(seed).sign(msg).to_bytes()`: the result is
/// `ed25519_signature_of(seed, msg)`, and the seed's public key accepts it on `msg`.
#[verifier::external_body]
fn ed25519_sign(seed: &[u8; 32], msg: &[u8]) -> (sig: [u8; 64])
    ensures
        sig@ == ed25519_signature_of(seed@, msg@),
        ed25519_accepts(ed25519_public_of(seed@), msg@, sig@),
{
    ed25519_dalek::SigningKey::from_bytes(seed).sign(msg).to_bytes()
}

/// `VerifyingKey::from_bytes`: `Ok` exactly when `ed25519_key_decodes`; the error's
/// text is not stated.
#[verifier::external_body]
fn ed25519_decode_key(pk: &[u8; 32]) -> (res: core::result::Result<(), String>)
    ensures
        res is Ok <==> ed25519_key_decodes(pk@),
{
    ed25519_dalek::VerifyingKey::from_bytes(pk).map(|_| ()).map_err(|e| e.to_string())
}

/// `VerifyingKey::verify` on a key that decodes: the result is `ed25519_accepts`.
#[verifier::external_body]
fn ed25519_verify(pk: &[u8; 32], msg: &[u8], sig: &[u8; 64]) -> (ok: bool)
    requires
        ed25519_key_decodes(pk@),
    ensures
        ok == ed25519_accepts(pk@, msg@, sig@),
{
    match ed25519_dalek::VerifyingKey::from_bytes(pk) {
        Ok(vk) => vk.verify(msg, &ed25519_dalek::Signature::from_bytes(sig)).is_ok(),
        Err(_) => false,
    }
}

/// `SigningKey::generate(&mut OsRng).to_bytes()`: a fresh random seed; nothing is stated of it.
#[verifier::external_body]
fn ed25519_random_seed() -> (seed: [u8; 32]) {
    ed25519_dalek::SigningKey::generate(&mut rand::rngs::OsRng).to_bytes()
}

// ─── Keys ──────────────────────────────────────────────────────────────────

/// Ed25519 public key (32 bytes).
#[derive(Debug, Clone, Copy, PartialEq, Eq, Hash)]
pub struct PublicKey(pub(crate) [u8; 32]);

/// Ed25519 signing seed (32 bytes).
#[derive(Clone)]
pub struct SecretKey(pub(crate) [u8; 32]);

/// Ed25519 signature (64 bytes).
#[derive(Debug, Clone, Copy, PartialEq, Eq)]
pub struct Signature(pub(crate) [u8; 64]);

impl View for PublicKey {
    type V = Seq<u8>;

    closed spec fn view(&self) -> Seq<u8> {
        self.0@
    }
}

/// A public key is 32 bytes.
pub proof fn lemma_public_key_len(pk: PublicKey)
    ensures
        pk@.len() == 32,
{
}

impl View for SecretKey {
    type V = Seq<u8>;

    closed spec fn view(&self) -> Seq<u8> {
        self.0@
    }
}

impl View for Signature {
    type V = Seq<u8>;

    closed spec fn view(&self) -> Seq<u8> {
        self.0@
    }
}

/// Whether `sig` is a valid signature of `msg` under the public key `pk`.
pub open spec fn signature_valid(pk: Seq<u8>, msg: Seq<u8>, sig: Seq<u8>) -> bool {
    ed25519_key_decodes(pk) && ed25519_accepts(pk, msg, sig)
}

/// A complete Ed25519 keypair: the signing seed and its public key.
pub struct KeyPair {
    pub seed: SecretKey,
    pub public_key: PublicKey,
}

impl KeyPair {
    /// The keypair is consistent: its public key is the one of its seed, and it decodes.
    pub open spec fn wf(&self) -> bool {
        &&& self.public_key@ == ed25519_public_of(self.seed@)
        &&& ed25519_key_decodes(self.public_key@)
    }

    /// Generate a new random keypair from the operating system's CSPRNG.
    pub fn generate() -> (kp: Self)
        ensures
            kp.wf(),
    {
        let seed = ed25519_random_seed();
        let pk = ed25519_derive_public(&seed);
        KeyPair { seed: SecretKey(seed), public_key: PublicKey(pk) }
    }

    /// Restore a keypair from a 32-byte secret seed.
    pub fn from_secret(secret: &SecretKey) -> (kp: Self)
        ensures
            kp.wf(),
            kp.seed@ == secret@,
    {
        let pk = ed25519_derive_public(&secret.0);
        KeyPair { seed: SecretKey(secret.0), public_key: PublicKey(pk) }
    }

    /// Export the 32-byte secret seed.
    pub fn secret(&self) -> (s: SecretKey)
        ensures
            s@ == self.seed@,
    {
        SecretKey(self.seed.0)
    }

    /// Sign arbitrary data; the keypair's public key accepts the signature.
    pub fn sign(&self, message: &[u8]) -> (sig: Signature)
        requires
            self.wf(),
        ensures
            sig@ == ed25519_signature_of(self.seed@, message@),
            signature_valid(self.public_key@, message@, sig@),
    {
        Signature(ed25519_sign(&self.seed.0, message))
    }

    /// Derive the child keypair at `index` (its seed is `derive_child_key` of this seed).
    pub fn derive_child(&self, index: u32) -> (kp: Self)
        ensures
            kp.wf(),
            kp.seed@ == sha3_digest(child_key_material(self.seed@, index)),
    {
        let secret = self.secret();
        let child_seed = derive_child_key(&secret, index);
        KeyPair::from_secret(&child_seed)
    }
}

/// Restoring a keypair from the secret it exports gives back the same public key.
pub proof fn law_keypair_restore(kp: KeyPair, restored: KeyPair)
    requires
        kp.wf(),
        restored.wf(),
        restored.seed@ == kp.seed@,
    ensures
        restored.public_key@ == kp.public_key@,
{
}

impl PublicKey {
    /// Verify a signature against this public key.
    pub fn verify(&self, message: &[u8], signature: &Signature) -> (res: Result<()>)
        ensures
            res is Ok <==> signature_valid(self@, message@, signature@),
            !ed25519_key_decodes(self@) ==> res matches Err(RelyoError::Crypto(_)),
            ed25519_key_decodes(self@) && !ed25519_accepts(self@, message@, signature@)
                ==> res == Err::<(), RelyoError>(RelyoError::InvalidSignature),
    {
        match ed25519_decode_key(&self.0) {
            Err(e) => Err(RelyoError::Crypto(e)),
            Ok(()) => {
                if ed25519_verify(&self.0, message, &signature.0) {
                    Ok(())
                } else {
                    Err(RelyoError::InvalidSignature)
                }
            },
        }
    }

    pub fn as_bytes(&self) -> (b: &[u8; 32])
        ensures
            b@ == self@,
    {
        &self.0
    }

    pub fn from_bytes(bytes: [u8; 32]) -> (pk: Self)
        ensures
            pk@ == bytes@,
    {
        PublicKey(bytes)
    }

    /// Lowercase hex text of the key.
    pub fn to_hex(&self) -> (s: String)
        ensures
            s@ == crate::codec::hex_text(self@),
    {
        crate::codec::hex_encode(&self.0)
    }
}

impl SecretKey {
    pub fn as_bytes(&self) -> (b: &[u8; 32])
        ensures
            b@ == self@,
    {
        &self.0
    }

    pub fn from_bytes(bytes: [u8; 32]) -> (sk: Self)
        ensures
            sk@ == bytes@,
    {
        SecretKey(bytes)
    }
}

impl Signature {
    pub fn as_bytes(&self) -> (b: &[u8; 64])
        ensures
            b@ == self@,
    {
        &self.0
    }

    pub fn from_bytes(bytes: [u8; 64]) -> (sig: Self)
        ensures
            sig@ == bytes@,
    {
        Signature(bytes)
    }

    /// Lowercase hex text of the signature.
    pub fn to_hex(&self) -> (s: String)
        ensures
            s@ == crate::codec::hex_text(self@),
    {
        crate::codec::hex_encode(&self.0)
    }
}

// ─── Key derivation ────────────────────────────────────────────────────────

/// The bytes of the ASCII tag `relyo-derive`.
pub open spec fn derive_tag() -> Seq<u8> {
    seq![114u8, 101, 108, 121, 111, 45, 100, 101, 114, 105, 118, 101]
}

/// What is hashed to derive a child seed: `parent || index (big-endian) || "relyo-derive"`.
pub open spec fn child_key_material(parent: Seq<u8>, index: u32) -> Seq<u8> {
    parent + u32_be(index) + derive_tag()
}

/// Derive a child secret key: `SHA3-256(parent_secret || index_be_bytes || "relyo-derive")`.
pub fn derive_child_key(parent: &SecretKey, index: u32) -> (child: SecretKey)
    ensures
        child@ == sha3_digest(child_key_material(parent@, index)),
{
    let mut data: Vec<u8> = Vec::with_capacity(68);
    extend_bytes(&mut data, parent.as_bytes());
    push_u32_be(&mut data, index);
    let tag: [u8; 12] = [114u8, 101, 108, 121, 111, 45, 100, 101, 114, 105, 118, 101];
    extend_bytes(&mut data, &tag);
    assert(tag@ =~= derive_tag());
    SecretKey(sha3_256(data.as_slice()))
}

/// The concatenation of a sequence of byte strings.
pub open spec fn concat_parts(parts: Seq<Seq<u8>>) -> Seq<u8>
    decreases parts.len(),
{
    if parts.len() == 0 {
        Seq::empty()
    } else {
        concat_parts(parts.drop_last()) + parts.last()
    }
}

/// SHA3-256 of the concatenation of several byte strings.
pub fn sha3_256_multi(parts: &[&[u8]]) -> (out: [u8; 32])
    ensures
        out@ == sha3_digest(concat_parts(parts@.map_values(|p: &[u8]| p@))),
{
    let ghost views = parts@.map_values(|p: &[u8]| p@);
    let mut data: Vec<u8> = Vec::new();
    let mut i: usize = 0;
    while i < parts.len()
        invariant
            i <= parts@.len(),
            views == parts@.map_values(|p: &[u8]| p@),
            data@ == concat_parts(views.take(i as int)),
        decreases parts@.len() - i,
    {
        extend_bytes(&mut data, parts[i]);
        assert(views.take(i + 1).drop_last() =~= views.take(i as int));
        i = i + 1;
    }
    assert(views.take(parts@.len() as int) =~= views);
    sha3_256(data.as_slice())
}

// ─── Batch verification ────────────────────────────────────────────────────

/// Number of positions `i < n` whose signature does not verify.
pub open spec fn invalid_count(
    messages: Seq<&[u8]>,
    signatures: Seq<&Signature>,
    public_keys: Seq<&PublicKey>,
    n: int,
) -> nat
    decreases n,
{
    if n <= 0 {
        0
    } else {
        invalid_count(messages, signatures, public_keys, n - 1) + if signature_valid(
            public_keys[n - 1]@,
            messages[n - 1]@,
            signatures[n - 1]@,
        ) {
            0nat
        } else {
            1nat
        }
    }
}

/// Verify several signatures; `Ok` exactly when all verify.
pub fn batch_verify(
    messages: &[&[u8]],
    signatures: &[&Signature],
    public_keys: &[&PublicKey],
) -> (res: Result<()>)
    ensures
        messages@.len() != signatures@.len() || messages@.len() != public_keys@.len() ==> res
            == Err::<(), RelyoError>(RelyoError::BatchVerifyError { count: 0, total: messages@.len() as usize }),
        messages@.len() == signatures@.len() && messages@.len() == public_keys@.len() ==> {
            let c = invalid_count(messages@, signatures@, public_keys@, messages@.len() as int);
            &&& c == 0 ==> res is Ok
            &&& c > 0 ==> res == Err::<(), RelyoError>(
                RelyoError::BatchVerifyError { count: c as usize, total: messages@.len() as usize },
            )
        },
{
    if messages.len() != signatures.len() || messages.len() != public_keys.len() {
        return Err(RelyoError::BatchVerifyError { count: 0, total: messages.len() });
    }
    let mut invalid: usize = 0;
    let mut i: usize = 0;
    while i < messages.len()
        invariant
            i <= messages@.len(),
            messages@.len() == signatures@.len(),
            messages@.len() == public_keys@.len(),
            invalid == invalid_count(messages@, signatures@, public_keys@, i as int),
            invalid <= i,
        decreases messages@.len() - i,
    {
        if public_keys[i].verify(messages[i], signatures[i]).is_err() {
            invalid = invalid + 1;
        }
        i = i + 1;
    }
    if invalid > 0 {
        Err(RelyoError::BatchVerifyError { count: invalid, total: messages.len() })
    } else {
        Ok(())
    }
}

} // verus!
