//! HMAC-SHA256 integrity checking.

use vstd::prelude::*;
use hmac::Mac;
use crate::directory::eq_bytes;
use crate::errors::SecureArcError;

verus! {

/// HMAC-SHA256 of a message under a key. Stands for what
/// `hmac::Hmac<sha2::Sha256>` computes: a function of key and message alone.
pub uninterp spec fn hmac_sha256_of(key: Seq<u8>, data: Seq<u8>) -> Seq<u8>;

/// Relies on hmac::Hmac<sha2::Sha256>: HMAC-SHA256, a 32-byte tag that is a
/// function of key and message alone. `new_from_slice` accepts keys of any
/// length.
#[verifier::external_body]
fn hmac_sha256(key: &Vec<u8>, data: &Vec<u8>) -> (r: Vec<u8>)
    ensures
        r@ == hmac_sha256_of(key@, data@),
        r@.len() == 32,
{
    let mut mac = <hmac::Hmac<sha2::Sha256> as Mac>::new_from_slice(key.as_slice())
        .expect("HMAC accepts keys of any length");
    mac.update(data.as_slice());
    mac.finalize().into_bytes().to_vec()
}

/// Integrity key wrapper: exactly 32 key bytes.
pub struct IntegrityKey {
    key: Vec<u8>,
}

impl View for IntegrityKey {
    type V = Seq<u8>;

    closed spec fn view(&self) -> Seq<u8> {
        self.key@
    }
}

impl IntegrityKey {
    /// Creates an integrity key from exactly 32 bytes.
    pub fn from_bytes(bytes: &Vec<u8>) -> (r: Result<Self, SecureArcError>)
        ensures
            r is Ok <==> bytes@.len() == 32,
            r is Ok ==> r->Ok_0@ == bytes@,
            r is Err ==> r->Err_0 is InvalidConfiguration,
    {
        if bytes.len() != 32 {
            return Err(
                SecureArcError::InvalidConfiguration(
                    String::from_str("integrity key must be 32 bytes"),
                ),
            );
        }
        let key = crate::le::copy_range(bytes, 0, bytes.len());
        proof {
            assert(key@ =~= bytes@);
        }
        Ok(IntegrityKey { key })
    }

    /// The key bytes.
    pub fn as_bytes(&self) -> (r: &Vec<u8>)
        ensures
            r@ == self@,
    {
        &self.key
    }
}

/// Computes the HMAC-SHA256 checksum of `data` under `key`.
pub fn compute_checksum(data: &Vec<u8>, key: &IntegrityKey) -> (r: Vec<u8>)
    ensures
        r@ == hmac_sha256_of(key@, data@),
        r@.len() == 32,
{
    hmac_sha256(key.as_bytes(), data)
}

/// Verifies an HMAC-SHA256 checksum: succeeds exactly when `expected` is the
/// checksum of `data` under `key`.
pub fn verify_checksum(data: &Vec<u8>, key: &IntegrityKey, expected: &Vec<u8>) -> (r: Result<
    (),
    SecureArcError,
>)
    ensures
        r is Ok <==> expected@ == hmac_sha256_of(key@, data@),
        r is Err ==> r->Err_0 is IntegrityCheckFailed,
{
    let computed = compute_checksum(data, key);
    if expected.len() != 32 {
        return Err(
            SecureArcError::IntegrityCheckFailed(String::from_str("invalid checksum length")),
        );
    }
    if !eq_bytes(&computed, expected) {
        return Err(SecureArcError::IntegrityCheckFailed(String::from_str("checksum mismatch")));
    }
    Ok(())
}

} // verus!
