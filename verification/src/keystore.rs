//! The encrypted keystore that holds a wallet's secret key: Argon2id derives a
//! key from the passphrase, AES-256-GCM seals the secret, and a SHA3-256
//! checksum of the public key confirms what was opened. Version 1 stores, sealed
//! by an older XOR scheme, can still be opened.
use vstd::prelude::*;
use aes_gcm::aead::{Aead, KeyInit};
use aes_gcm::{Aes256Gcm, Nonce};
use rand::RngCore;
use vstd::string::StringSliceAdditionalSpecFns;
use zeroize::Zeroize;
use crate::bytes::extend_bytes;
use crate::crypto::{ed25519_public_of, sha3_256, sha3_digest, KeyPair, SecretKey};
use crate::error::{RelyoError, Result};
use crate::token::{decimal, decimal_string};

verus! {

/// Argon2id (default parameters) of a password and salt, 32 bytes.
pub uninterp spec fn argon2id_key(pwd: Seq<u8>, salt: Seq<u8>) -> Seq<u8>;

/// AES-256-GCM encryption of a plaintext under a key and nonce (tag appended).
pub uninterp spec fn aes256_gcm_seal(key: Seq<u8>, nonce: Seq<u8>, plaintext: Seq<u8>) -> Seq<u8>;

/// AES-256-GCM decryption: the plaintext when the ciphertext authenticates under
/// the key and nonce, nothing otherwise.
pub uninterp spec fn aes256_gcm_open(key: Seq<u8>, nonce: Seq<u8>, ciphertext: Seq<u8>) -> Option<Seq<u8>>;

/// `Argon2::default().hash_password_into` into a 32-byte buffer: the derived key,
/// or the error's text. The crate refuses a password longer than `u32::MAX`
/// bytes, a salt shorter than 8 bytes or an unusable output length, so with a
/// 32-byte salt and output it succeeds on every shorter password.
#[verifier::external_body]
fn argon2_derive(pwd: &[u8], salt: &[u8; 32]) -> (r: core::result::Result<[u8; 32], String>)
    ensures
        r matches Ok(k) ==> k@ == argon2id_key(pwd@, salt@),
        pwd@.len() <= 0xFFFF_FFFF ==> r is Ok,
{
    let mut out = [0u8; 32];
    match argon2::Argon2::default().hash_password_into(pwd, salt, &mut out) {
        Ok(()) => Ok(out),
        Err(e) => Err(e.to_string()),
    }
}

/// `Aes256Gcm::encrypt`: the ciphertext with its tag, which `decrypt` under the
/// same key and nonce turns back into the plaintext. The crate refuses only a
/// plaintext longer than 2^36 bytes.
#[verifier::external_body]
fn aes_gcm_encrypt(key: &[u8; 32], nonce: &[u8; 12], plaintext: &[u8]) -> (r: Option<Vec<u8>>)
    ensures
        r matches Some(ct) ==> ct@ == aes256_gcm_seal(key@, nonce@, plaintext@) && aes256_gcm_open(
            key@,
            nonce@,
            ct@,
        ) == Some(plaintext@),
        plaintext@.len() <= 0x10_0000_0000 ==> r is Some,
{
    let cipher = Aes256Gcm::new(key.into());
    cipher.encrypt(Nonce::from_slice(nonce), plaintext).ok()
}

/// `Aes256Gcm::decrypt`: the plaintext when the ciphertext authenticates.
#[verifier::external_body]
fn aes_gcm_decrypt(key: &[u8; 32], nonce: &[u8; 12], ciphertext: &[u8]) -> (r: Option<Vec<u8>>)
    ensures
        r is Some <==> aes256_gcm_open(key@, nonce@, ciphertext@) is Some,
        r matches Some(pt) ==> aes256_gcm_open(key@, nonce@, ciphertext@) == Some(pt@),
{
    let cipher = Aes256Gcm::new(key.into());
    cipher.decrypt(Nonce::from_slice(nonce), ciphertext).ok()
}

/// `Zeroize::zeroize` on a 32-byte array: every byte is zero afterwards.
#[verifier::external_body]
fn wipe(key: &mut [u8; 32])
    ensures
        final(key)@ == Seq::new(32, |i: int| 0u8),
{
    key.zeroize();
}

/// `rand::thread_rng().fill_bytes` on a 32-byte array: random bytes. Nothing is
/// promised of them.
#[verifier::external_body]
fn random_salt() -> [u8; 32] {
    let mut salt = [0u8; 32];
    rand::thread_rng().fill_bytes(&mut salt);
    salt
}

/// `rand::thread_rng().fill_bytes` on a 12-byte array: random bytes. Nothing is
/// promised of them.
#[verifier::external_body]
fn random_nonce() -> [u8; 12] {
    let mut nonce = [0u8; 12];
    rand::thread_rng().fill_bytes(&mut nonce);
    nonce
}

/// Rounds of SHA3-256 in the version 1 key derivation.
pub const V1_ROUNDS: u32 = 10_000;

/// `k` hashed with SHA3-256 `n` times over.
pub open spec fn sha3_rounds(k: Seq<u8>, n: nat) -> Seq<u8>
    decreases n,
{
    if n == 0 {
        k
    } else {
        sha3_digest(sha3_rounds(k, (n - 1) as nat))
    }
}

/// The version 1 key: SHA3-256 of passphrase and salt, hashed `V1_ROUNDS` more times.
pub open spec fn v1_key(pass: Seq<u8>, salt: Seq<u8>) -> Seq<u8> {
    sha3_rounds(sha3_digest(pass + salt), V1_ROUNDS as nat)
}

/// `data` XORed with `key` repeated.
pub open spec fn xor_cycle(data: Seq<u8>, key: Seq<u8>) -> Seq<u8> {
    Seq::new(data.len(), |i: int| data[i] ^ key[i % (key.len() as int)])
}

/// The version 1 derivation of a passphrase and salt.
fn derive_key_v1(passphrase: &str, salt: &[u8; 32]) -> (key: [u8; 32])
    ensures
        key@ == v1_key(passphrase.spec_bytes(), salt@),
{
    let mut input: Vec<u8> = Vec::new();
    extend_bytes(&mut input, passphrase.as_bytes());
    extend_bytes(&mut input, salt);
    let mut key = sha3_256(input.as_slice());
    let mut round: u32 = 0;
    while round < V1_ROUNDS
        invariant
            round <= V1_ROUNDS,
            key@ == sha3_rounds(sha3_digest(passphrase.spec_bytes() + salt@), round as nat),
        decreases V1_ROUNDS - round,
    {
        key = sha3_256(&key);
        round = round + 1;
    }
    key
}

/// `data` XORed with the 32-byte `key` repeated.
fn xor_with_key(data: &Vec<u8>, key: &[u8; 32]) -> (out: Vec<u8>)
    ensures
        out@ == xor_cycle(data@, key@),
{
    let mut out: Vec<u8> = Vec::new();
    let mut i: usize = 0;
    while i < data.len()
        invariant
            i <= data@.len(),
            out@.len() == i,
            forall|j: int| 0 <= j < i ==> out@[j] == data@[j] ^ key@[j % 32],
        decreases data@.len() - i,
    {
        out.push(data[i] ^ key[i % 32]);
        i = i + 1;
    }
    proof {
        assert(out@ =~= xor_cycle(data@, key@));
    }
    out
}

/// Copy a 32-byte plaintext into an array.
fn to_key_bytes(v: &Vec<u8>) -> (a: [u8; 32])
    requires
        v@.len() == 32,
    ensures
        a@ == v@,
{
    let mut a = [0u8; 32];
    let mut i: usize = 0;
    while i < 32
        invariant
            i <= 32,
            v@.len() == 32,
            a@.len() == 32,
            forall|j: int| 0 <= j < i ==> a@[j] == v@[j],
        decreases 32 - i,
    {
        a.set(i, v[i]);
        i = i + 1;
    }
    proof {
        assert(a@ =~= v@);
    }
    a
}

/// Whether two 32-byte arrays hold the same bytes.
fn same_bytes(a: &[u8; 32], b: &[u8; 32]) -> (eq: bool)
    ensures
        eq == (a@ == b@),
{
    let mut i: usize = 0;
    while i < 32
        invariant
            i <= 32,
            a@.len() == 32,
            b@.len() == 32,
            forall|j: int| 0 <= j < i ==> a@[j] == b@[j],
        decreases 32 - i,
    {
        if a[i] != b[i] {
            return false;
        }
        i = i + 1;
    }
    proof {
        assert(a@ =~= b@);
    }
    true
}

/// Encrypted keystore format for persisting wallet keys.
pub struct KeyStore {
    /// AES-256-GCM encrypted secret key bytes (with auth tag appended).
    pub ciphertext: Vec<u8>,
    /// Argon2id salt for key derivation (32 bytes).
    pub salt: [u8; 32],
    /// AES-256-GCM nonce (12 bytes).
    pub nonce: [u8; 12],
    /// SHA3-256 checksum of the public key for verification after decryption.
    pub pubkey_checksum: [u8; 32],
    /// Version of the keystore format.
    pub version: u8,
}

/// The plaintext a version 2 store opens to under a passphrase, if it authenticates.
pub open spec fn v2_plaintext(s: KeyStore, pass: Seq<u8>) -> Option<Seq<u8>> {
    aes256_gcm_open(argon2id_key(pass, s.salt@), s.nonce@, s.ciphertext@)
}

/// The plaintext a version 1 store decrypts to under a passphrase.
pub open spec fn v1_plaintext(s: KeyStore, pass: Seq<u8>) -> Seq<u8> {
    xor_cycle(s.ciphertext@, v1_key(pass, s.salt@))
}

/// The seed a store opens to under a passphrase: version 2 when the ciphertext
/// authenticates to 32 bytes whose public key matches the checksum, version 1
/// when the decrypted bytes are 32 and match the checksum, nothing otherwise.
pub open spec fn opened_seed(s: KeyStore, pass: Seq<u8>) -> Option<Seq<u8>> {
    if s.version == 2 {
        match v2_plaintext(s, pass) {
            Some(p) => if p.len() == 32 && sha3_digest(ed25519_public_of(p)) == s.pubkey_checksum@ {
                Some(p)
            } else {
                None
            },
            None => None,
        }
    } else if s.version == 1 {
        let p = v1_plaintext(s, pass);
        if sha3_digest(p) == s.pubkey_checksum@ && p.len() == 32 {
            Some(p)
        } else {
            None
        }
    } else {
        None
    }
}

/// Whether `s` is a version 2 store of `seed` sealed under `pass` with the
/// given salt and nonce.
pub open spec fn sealed(s: KeyStore, seed: Seq<u8>, pass: Seq<u8>, salt: Seq<u8>, nonce: Seq<u8>) -> bool {
    &&& s.version == 2
    &&& s.salt@ == salt
    &&& s.nonce@ == nonce
    &&& s.ciphertext@ == aes256_gcm_seal(argon2id_key(pass, salt), nonce, seed)
    &&& aes256_gcm_open(argon2id_key(pass, salt), nonce, s.ciphertext@) == Some(seed)
    &&& s.pubkey_checksum@ == sha3_digest(ed25519_public_of(seed))
}

impl KeyStore {
    /// Seal a secret key under a passphrase with the given salt and nonce: the key
    /// Argon2id derives from passphrase and salt encrypts the secret, and the
    /// store records the checksum of its public key.
    pub fn seal_with(secret: &SecretKey, passphrase: &str, salt: [u8; 32], nonce: [u8; 12]) -> (res: Result<
        KeyStore,
    >)
        ensures
            passphrase.spec_bytes().len() <= 0xFFFF_FFFF ==> res is Ok,
            res matches Ok(s) ==> sealed(s, secret@, passphrase.spec_bytes(), salt@, nonce@),
            res matches Err(e) ==> e is Wallet,
    {
        let mut derived_key = match argon2_derive(passphrase.as_bytes(), &salt) {
            Ok(k) => k,
            Err(msg) => {
                let mut text = String::from_str("key derivation failed: ");
                text.append(msg.as_str());
                return Err(RelyoError::Wallet(text));
            },
        };
        let plaintext = secret.as_bytes();
        let ciphertext = match aes_gcm_encrypt(&derived_key, &nonce, plaintext) {
            Some(ct) => ct,
            None => {
                return Err(RelyoError::Wallet(String::from_str("encryption failed: aead::Error")));
            },
        };
        wipe(&mut derived_key);
        let kp = KeyPair::from_secret(secret);
        let pubkey_checksum = sha3_256(kp.public_key.as_bytes());
        Ok(KeyStore { ciphertext, salt, nonce, pubkey_checksum, version: 2 })
    }

    /// Seal a secret key under a passphrase with a fresh random salt and nonce
    /// (see `seal_with`).
    pub fn seal(secret: &SecretKey, passphrase: &str) -> (res: Result<KeyStore>)
        ensures
            passphrase.spec_bytes().len() <= 0xFFFF_FFFF ==> res is Ok,
            res matches Ok(s) ==> sealed(s, secret@, passphrase.spec_bytes(), s.salt@, s.nonce@),
            res matches Err(e) ==> e is Wallet,
    {
        let salt = random_salt();
        let nonce = random_nonce();
        Self::seal_with(secret, passphrase, salt, nonce)
    }

    /// Open a version 2 store (AES-256-GCM under an Argon2id key).
    fn open_v2(&self, passphrase: &str) -> (res: Result<KeyPair>)
        requires
            self.version == 2,
        ensures
            res matches Ok(kp) ==> kp.wf() && opened_seed(*self, passphrase.spec_bytes()) == Some(kp.seed@),
            passphrase.spec_bytes().len() <= 0xFFFF_FFFF && opened_seed(*self, passphrase.spec_bytes()) is Some
                ==> res is Ok,
            res matches Err(e) ==> e is Wallet,
            passphrase.spec_bytes().len() <= 0xFFFF_FFFF && v2_plaintext(*self, passphrase.spec_bytes()) is None
                ==> (res matches Err(RelyoError::Wallet(m)) && m@ == "incorrect passphrase or corrupted keystore"@),
    {
        let mut derived_key = match argon2_derive(passphrase.as_bytes(), &self.salt) {
            Ok(k) => k,
            Err(msg) => {
                let mut text = String::from_str("key derivation failed: ");
                text.append(msg.as_str());
                return Err(RelyoError::Wallet(text));
            },
        };
        let plaintext = match aes_gcm_decrypt(&derived_key, &self.nonce, self.ciphertext.as_slice()) {
            Some(p) => p,
            None => {
                return Err(RelyoError::Wallet(String::from_str("incorrect passphrase or corrupted keystore")));
            },
        };
        wipe(&mut derived_key);
        if plaintext.len() != 32 {
            return Err(RelyoError::Wallet(String::from_str("invalid key length")));
        }
        let secret = SecretKey::from_bytes(to_key_bytes(&plaintext));
        let kp = KeyPair::from_secret(&secret);
        let checksum = sha3_256(kp.public_key.as_bytes());
        if !same_bytes(&checksum, &self.pubkey_checksum) {
            return Err(
                RelyoError::Wallet(
                    String::from_str(
                        "key integrity check failed: decrypted key does not match expected public key",
                    ),
                ),
            );
        }
        Ok(kp)
    }

    /// Open a version 1 store (XOR with an iterated SHA3-256 key).
    fn open_v1_legacy(&self, passphrase: &str) -> (res: Result<KeyPair>)
        requires
            self.version == 1,
        ensures
            res is Ok <==> opened_seed(*self, passphrase.spec_bytes()) is Some,
            res matches Ok(kp) ==> kp.wf() && opened_seed(*self, passphrase.spec_bytes()) == Some(kp.seed@),
            res matches Err(e) ==> e is Wallet,
    {
        let derived = derive_key_v1(passphrase, &self.salt);
        let decrypted = xor_with_key(&self.ciphertext, &derived);
        let checksum = sha3_256(decrypted.as_slice());
        if !same_bytes(&checksum, &self.pubkey_checksum) {
            return Err(RelyoError::Wallet(String::from_str("incorrect passphrase or corrupted keystore")));
        }
        if decrypted.len() != 32 {
            return Err(RelyoError::Wallet(String::from_str("invalid key length")));
        }
        let secret = SecretKey::from_bytes(to_key_bytes(&decrypted));
        Ok(KeyPair::from_secret(&secret))
    }

    /// Open the store with a passphrase: the keypair of the secret it holds, or
    /// a wallet error when the passphrase is wrong, the store is corrupted, or
    /// its version is unknown.
    pub fn open(&self, passphrase: &str) -> (res: Result<KeyPair>)
        ensures
            res matches Ok(kp) ==> kp.wf() && opened_seed(*self, passphrase.spec_bytes()) == Some(kp.seed@),
            passphrase.spec_bytes().len() <= 0xFFFF_FFFF && opened_seed(*self, passphrase.spec_bytes()) is Some
                ==> res is Ok,
            res matches Err(e) ==> e is Wallet,
            self.version != 1 && self.version != 2 ==> (res matches Err(RelyoError::Wallet(m)) && m@
                == "unsupported keystore version: "@ + decimal(self.version as nat)),
            self.version == 2 && passphrase.spec_bytes().len() <= 0xFFFF_FFFF && v2_plaintext(
                *self,
                passphrase.spec_bytes(),
            ) is None ==> (res matches Err(RelyoError::Wallet(m)) && m@
                == "incorrect passphrase or corrupted keystore"@),
    {
        if self.version == 1 {
            self.open_v1_legacy(passphrase)
        } else if self.version == 2 {
            self.open_v2(passphrase)
        } else {
            let mut text = String::from_str("unsupported keystore version: ");
            text.append(decimal_string(self.version as u64).as_str());
            Err(RelyoError::Wallet(text))
        }
    }
}

/// A store sealed from a secret under a passphrase opens under that passphrase
/// to the same secret.
pub proof fn law_keystore_roundtrip(s: KeyStore, seed: Seq<u8>, pass: Seq<u8>, salt: Seq<u8>, nonce: Seq<u8>)
    requires
        seed.len() == 32,
        sealed(s, seed, pass, salt, nonce),
    ensures
        opened_seed(s, pass) == Some(seed),
{
}

} // verus!
