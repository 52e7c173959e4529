//! Authenticated encryption with a prefixed random nonce: AES-256-GCM
//! (through `ring`) and ChaCha20-Poly1305 (through `chacha20poly1305`).

use vstd::prelude::*;
use ring::aead::{Aad, LessSafeKey, Nonce as RingNonce, UnboundKey, AES_256_GCM};
use ring::rand::{SecureRandom, SystemRandom};
use chacha20poly1305::aead::{Aead, AeadCore, KeyInit, OsRng};
use chacha20poly1305::{ChaCha20Poly1305, Key as ChaChaKey, Nonce as ChaChaNonce};
use crate::algs::{EncryptionAlgorithm, NONCE_SIZE, TAG_SIZE};
use crate::errors::SecureArcError;
use crate::le::copy_range;
use crate::rng::fill_random;

verus! {

/// Largest plaintext the encryption wrappers accept; both ciphers take more,
/// but nothing here needs it.
pub const MAX_PLAINTEXT_LEN: u64 = 0x100000000;

/// What ring's AES-256-GCM `open_in_place` returns for a key, nonce and
/// ciphertext-with-tag: a function of its arguments alone; `None` for any
/// rejected input.
pub uninterp spec fn aes_gcm_open(key: Seq<u8>, nonce: Seq<u8>, ct: Seq<u8>) -> Option<Seq<u8>>;

/// What ChaCha20Poly1305::decrypt returns for a key, nonce and
/// ciphertext-with-tag: a function of its arguments alone; `None` for any
/// rejected input.
pub uninterp spec fn chacha_open(key: Seq<u8>, nonce: Seq<u8>, ct: Seq<u8>) -> Option<Seq<u8>>;

/// Relies on ring's AES-256-GCM seal_in_place_append_tag with a fresh random
/// 12-byte nonce from ring's SystemRandom, prefixed to the result: the output
/// is nonce, ciphertext, then a 16-byte tag, and ring's open_in_place gives
/// the plaintext back under the same key and nonce.
#[verifier::external_body]
fn aes_gcm_encrypt(key: &Vec<u8>, data: &Vec<u8>) -> (r: Result<Vec<u8>, ()>)
    requires
        key@.len() == 32,
        data@.len() < MAX_PLAINTEXT_LEN,
    ensures
        r is Ok ==> ({
            let out = r->Ok_0@;
            &&& out.len() == data@.len() + NONCE_SIZE + TAG_SIZE
            &&& aes_gcm_open(key@, out.subrange(0, 12), out.subrange(12, out.len() as int))
                == Some(data@)
        }),
{
    let unbound = UnboundKey::new(&AES_256_GCM, key.as_slice()).map_err(|_| ())?;
    let mut nonce_bytes = [0u8; 12];
    SystemRandom::new().fill(&mut nonce_bytes).map_err(|_| ())?;
    let mut in_out = data.clone();
    let nonce = RingNonce::assume_unique_for_key(nonce_bytes);
    LessSafeKey::new(unbound).seal_in_place_append_tag(nonce, Aad::empty(), &mut in_out).map_err(|_| ())?;
    let mut result = nonce_bytes.to_vec();
    result.extend_from_slice(&in_out);
    Ok(result)
}

/// Relies on ring's AES-256-GCM open_in_place: authenticated decryption, a
/// function of key, nonce and ciphertext alone; it rejects any tampering.
#[verifier::external_body]
fn aes_gcm_decrypt(key: &Vec<u8>, nonce: &Vec<u8>, ct: &Vec<u8>) -> (r: Result<Vec<u8>, ()>)
    requires
        key@.len() == 32,
        nonce@.len() == 12,
    ensures
        r is Ok <==> aes_gcm_open(key@, nonce@, ct@) is Some,
        r is Ok ==> r->Ok_0@ == aes_gcm_open(key@, nonce@, ct@)->0,
{
    let unbound = UnboundKey::new(&AES_256_GCM, key.as_slice()).map_err(|_| ())?;
    let nonce_bytes: [u8; 12] = nonce.as_slice().try_into().map_err(|_| ())?;
    let mut in_out = ct.clone();
    let nonce = RingNonce::assume_unique_for_key(nonce_bytes);
    let plaintext = LessSafeKey::new(unbound).open_in_place(nonce, Aad::empty(), &mut in_out).map_err(|_| ())?;
    Ok(plaintext.to_vec())
}

/// Relies on ChaCha20Poly1305::encrypt with a fresh random 12-byte nonce from
/// the operating system, prefixed to the result: the output is nonce,
/// ciphertext, then a 16-byte tag, and ChaCha20Poly1305::decrypt gives the
/// plaintext back under the same key and nonce.
#[verifier::external_body]
fn chacha_encrypt(key: &Vec<u8>, data: &Vec<u8>) -> (r: Result<Vec<u8>, ()>)
    requires
        key@.len() == 32,
        data@.len() < MAX_PLAINTEXT_LEN,
    ensures
        r is Ok ==> ({
            let out = r->Ok_0@;
            &&& out.len() == data@.len() + NONCE_SIZE + TAG_SIZE
            &&& chacha_open(key@, out.subrange(0, 12), out.subrange(12, out.len() as int))
                == Some(data@)
        }),
{
    let cipher = ChaCha20Poly1305::new(ChaChaKey::from_slice(key.as_slice()));
    let nonce = ChaCha20Poly1305::generate_nonce(&mut OsRng);
    match cipher.encrypt(&nonce, data.as_slice()) {
        Ok(ciphertext) => {
            let mut result = nonce.to_vec();
            result.extend_from_slice(&ciphertext);
            Ok(result)
        },
        Err(_) => Err(()),
    }
}

/// Relies on ChaCha20Poly1305::decrypt: authenticated decryption, a function
/// of key, nonce and ciphertext alone; it rejects any tampering.
#[verifier::external_body]
fn chacha_decrypt(key: &Vec<u8>, nonce: &Vec<u8>, ct: &Vec<u8>) -> (r: Result<Vec<u8>, ()>)
    requires
        key@.len() == 32,
        nonce@.len() == 12,
    ensures
        r is Ok <==> chacha_open(key@, nonce@, ct@) is Some,
        r is Ok ==> r->Ok_0@ == chacha_open(key@, nonce@, ct@)->0,
{
    let cipher = ChaCha20Poly1305::new(ChaChaKey::from_slice(key.as_slice()));
    let nonce = ChaChaNonce::from_slice(nonce.as_slice());
    match cipher.decrypt(nonce, ct.as_slice()) {
        Ok(plaintext) => Ok(plaintext),
        Err(_) => Err(()),
    }
}

/// What decrypting a nonce-prefixed blob under a key yields, per algorithm:
/// the blob must hold at least a nonce and a tag, and the cipher must accept
/// the ciphertext.
pub open spec fn aead_open_spec(
    algorithm: EncryptionAlgorithm,
    key: Seq<u8>,
    blob: Seq<u8>,
) -> Option<Seq<u8>> {
    if blob.len() < NONCE_SIZE + TAG_SIZE {
        None
    } else {
        match algorithm {
            EncryptionAlgorithm::Aes256Gcm => aes_gcm_open(
                key,
                blob.subrange(0, 12),
                blob.subrange(12, blob.len() as int),
            ),
            EncryptionAlgorithm::ChaCha20Poly1305 => chacha_open(
                key,
                blob.subrange(0, 12),
                blob.subrange(12, blob.len() as int),
            ),
        }
    }
}

/// Encryption key wrapper: exactly 32 key bytes.
pub struct EncryptionKey {
    key: Vec<u8>,
}

impl View for EncryptionKey {
    type V = Seq<u8>;

    closed spec fn view(&self) -> Seq<u8> {
        self.key@
    }
}

impl EncryptionKey {
    /// Creates an encryption key from exactly 32 bytes.
    pub fn from_bytes(bytes: &Vec<u8>) -> (r: Result<Self, SecureArcError>)
        ensures
            r is Ok <==> bytes@.len() == 32,
            r is Ok ==> r->Ok_0@ == bytes@,
            r is Err ==> r->Err_0 is InvalidConfiguration,
    {
        if bytes.len() != 32 {
            return Err(
                SecureArcError::InvalidConfiguration(
                    String::from_str("encryption key must be 32 bytes"),
                ),
            );
        }
        let key = copy_range(bytes, 0, bytes.len());
        proof {
            assert(key@ =~= bytes@);
        }
        Ok(EncryptionKey { key })
    }

    /// The key bytes.
    pub fn as_bytes(&self) -> (r: &Vec<u8>)
        ensures
            r@ == self@,
    {
        &self.key
    }
}

/// Generates a fresh random 32-byte master key.
pub fn generate_master_key() -> (r: Vec<u8>)
    ensures
        r@.len() == 32,
{
    fill_random(32)
}

/// Encrypts data under the given key and algorithm. The result is a fresh
/// random 12-byte nonce, the ciphertext, and a 16-byte tag; decrypting it
/// under the same key and algorithm gives the plaintext back. A plaintext at
/// or over the length bound is rejected outright.
pub fn encrypt_data(data: &Vec<u8>, key: &EncryptionKey, algorithm: EncryptionAlgorithm) -> (r:
    Result<Vec<u8>, SecureArcError>)
    requires
        key@.len() == 32,
    ensures
        r is Ok ==> ({
            let out = r->Ok_0@;
            &&& out.len() == data@.len() + NONCE_SIZE + TAG_SIZE
            &&& aead_open_spec(algorithm, key@, out) == Some(data@)
        }),
        r is Err ==> r->Err_0 is EncryptionError,
        data@.len() >= MAX_PLAINTEXT_LEN ==> r is Err,
{
    if (data.len() as u64) >= MAX_PLAINTEXT_LEN {
        return Err(SecureArcError::EncryptionError(String::from_str("plaintext too long")));
    }
    let blob = match algorithm {
        EncryptionAlgorithm::Aes256Gcm => aes_gcm_encrypt(key.as_bytes(), data),
        EncryptionAlgorithm::ChaCha20Poly1305 => chacha_encrypt(key.as_bytes(), data),
    };
    match blob {
        Ok(out) => Ok(out),
        Err(()) => Err(SecureArcError::EncryptionError(String::from_str("encryption failed"))),
    }
}

/// Decrypts a nonce-prefixed blob under the given key and algorithm: succeeds
/// exactly when the cipher accepts it, and then returns the plaintext it
/// denotes.
pub fn decrypt_data(
    encrypted_data: &Vec<u8>,
    key: &EncryptionKey,
    algorithm: EncryptionAlgorithm,
) -> (r: Result<Vec<u8>, SecureArcError>)
    requires
        key@.len() == 32,
    ensures
        r is Ok <==> aead_open_spec(algorithm, key@, encrypted_data@) is Some,
        r is Ok ==> r->Ok_0@ == aead_open_spec(algorithm, key@, encrypted_data@)->0,
        r is Err ==> r->Err_0 is EncryptionError,
{
    let n = encrypted_data.len();
    if n < NONCE_SIZE + TAG_SIZE {
        return Err(SecureArcError::EncryptionError(String::from_str("encrypted data too short")));
    }
    let nonce = copy_range(encrypted_data, 0, NONCE_SIZE);
    let ct = copy_range(encrypted_data, NONCE_SIZE, n - NONCE_SIZE);
    let out = match algorithm {
        EncryptionAlgorithm::Aes256Gcm => aes_gcm_decrypt(key.as_bytes(), &nonce, &ct),
        EncryptionAlgorithm::ChaCha20Poly1305 => chacha_decrypt(key.as_bytes(), &nonce, &ct),
    };
    match out {
        Ok(plaintext) => Ok(plaintext),
        Err(()) => Err(SecureArcError::EncryptionError(String::from_str("decryption failed"))),
    }
}

} // verus!
