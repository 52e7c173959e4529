//! Algorithm identifiers stored in the security header, and the format's
//! global constants.

use vstd::prelude::*;

verus! {

/// Format version.
pub const FORMAT_VERSION: u16 = 1;

/// Maximum number of key slots the format reserves room for.
pub const MAX_KEY_SLOTS: usize = 8;

/// Smallest allowed `max_attempts`.
pub const MIN_MAX_ATTEMPTS: u32 = 3;

/// Largest allowed `max_attempts`.
pub const MAX_MAX_ATTEMPTS: u32 = 99;

/// Salt length in bytes.
pub const SALT_SIZE: usize = 32;

/// HMAC-SHA256 checksum length in bytes.
pub const CHECKSUM_SIZE: usize = 32;

/// Master key length in bytes.
pub const MASTER_KEY_SIZE: usize = 32;

/// Nonce length of both AEAD ciphers, in bytes.
pub const NONCE_SIZE: usize = 12;

/// Authentication tag length of both AEAD ciphers, in bytes.
pub const TAG_SIZE: usize = 16;

/// The 8-byte magic tag `SECARC01`.
pub open spec fn magic_bytes() -> Seq<u8> {
    seq![0x53u8, 0x45u8, 0x43u8, 0x41u8, 0x52u8, 0x43u8, 0x30u8, 0x31u8]
}

/// Returns the magic tag as a vector.
pub fn magic_vec() -> (r: Vec<u8>)
    ensures
        r@ == magic_bytes(),
{
    let mut v: Vec<u8> = Vec::new();
    v.push(0x53);
    v.push(0x45);
    v.push(0x43);
    v.push(0x41);
    v.push(0x52);
    v.push(0x43);
    v.push(0x30);
    v.push(0x31);
    proof {
        assert(v@ =~= magic_bytes());
    }
    v
}

/// Key derivation function algorithms.
#[derive(Debug, Clone, Copy, PartialEq, Eq, Structural)]
pub enum KdfAlgorithm {
    /// Argon2id (the default).
    Argon2id,
    /// PBKDF2-HMAC-SHA256 (legacy support).
    Pbkdf2Sha256,
}

/// Encryption algorithms.
#[derive(Debug, Clone, Copy, PartialEq, Eq, Structural)]
pub enum EncryptionAlgorithm {
    /// AES-256-GCM.
    Aes256Gcm,
    /// ChaCha20-Poly1305.
    ChaCha20Poly1305,
}

/// Compression algorithms.
#[derive(Debug, Clone, Copy, PartialEq, Eq, Structural)]
pub enum CompressionAlgorithm {
    /// No compression.
    NoCompression,
    /// LZMA.
    Lzma2,
    /// Zstandard, level 3.
    Zstd,
    /// Brotli, quality 6.
    Brotli,
}

/// Stored identifier of a KDF algorithm.
pub open spec fn kdf_alg_id(a: KdfAlgorithm) -> u8 {
    match a {
        KdfAlgorithm::Argon2id => 1,
        KdfAlgorithm::Pbkdf2Sha256 => 2,
    }
}

/// Stored identifier of an encryption algorithm.
pub open spec fn enc_alg_id(a: EncryptionAlgorithm) -> u8 {
    match a {
        EncryptionAlgorithm::Aes256Gcm => 1,
        EncryptionAlgorithm::ChaCha20Poly1305 => 2,
    }
}

/// Stored identifier of a compression algorithm.
pub open spec fn comp_alg_id(a: CompressionAlgorithm) -> u8 {
    match a {
        CompressionAlgorithm::NoCompression => 0,
        CompressionAlgorithm::Lzma2 => 1,
        CompressionAlgorithm::Zstd => 2,
        CompressionAlgorithm::Brotli => 3,
    }
}

/// The KDF algorithm a stored identifier denotes, if any.
pub open spec fn kdf_alg_of_id(id: u8) -> Option<KdfAlgorithm> {
    if id == 1 {
        Some(KdfAlgorithm::Argon2id)
    } else if id == 2 {
        Some(KdfAlgorithm::Pbkdf2Sha256)
    } else {
        None
    }
}

/// The encryption algorithm a stored identifier denotes, if any.
pub open spec fn enc_alg_of_id(id: u8) -> Option<EncryptionAlgorithm> {
    if id == 1 {
        Some(EncryptionAlgorithm::Aes256Gcm)
    } else if id == 2 {
        Some(EncryptionAlgorithm::ChaCha20Poly1305)
    } else {
        None
    }
}

/// The compression algorithm a stored identifier denotes, if any.
pub open spec fn comp_alg_of_id(id: u8) -> Option<CompressionAlgorithm> {
    if id == 0 {
        Some(CompressionAlgorithm::NoCompression)
    } else if id == 1 {
        Some(CompressionAlgorithm::Lzma2)
    } else if id == 2 {
        Some(CompressionAlgorithm::Zstd)
    } else if id == 3 {
        Some(CompressionAlgorithm::Brotli)
    } else {
        None
    }
}

/// Returns the stored identifier of a KDF algorithm.
pub fn kdf_alg_to_id(a: KdfAlgorithm) -> (r: u8)
    ensures
        r == kdf_alg_id(a),
        kdf_alg_of_id(r) == Some(a),
{
    match a {
        KdfAlgorithm::Argon2id => 1,
        KdfAlgorithm::Pbkdf2Sha256 => 2,
    }
}

/// Returns the stored identifier of an encryption algorithm.
pub fn enc_alg_to_id(a: EncryptionAlgorithm) -> (r: u8)
    ensures
        r == enc_alg_id(a),
        enc_alg_of_id(r) == Some(a),
{
    match a {
        EncryptionAlgorithm::Aes256Gcm => 1,
        EncryptionAlgorithm::ChaCha20Poly1305 => 2,
    }
}

/// Returns the stored identifier of a compression algorithm.
pub fn comp_alg_to_id(a: CompressionAlgorithm) -> (r: u8)
    ensures
        r == comp_alg_id(a),
        comp_alg_of_id(r) == Some(a),
{
    match a {
        CompressionAlgorithm::NoCompression => 0,
        CompressionAlgorithm::Lzma2 => 1,
        CompressionAlgorithm::Zstd => 2,
        CompressionAlgorithm::Brotli => 3,
    }
}

/// Decodes a stored KDF algorithm identifier.
pub fn kdf_alg_from_id(id: u8) -> (r: Option<KdfAlgorithm>)
    ensures
        r == kdf_alg_of_id(id),
{
    if id == 1 {
        Some(KdfAlgorithm::Argon2id)
    } else if id == 2 {
        Some(KdfAlgorithm::Pbkdf2Sha256)
    } else {
        None
    }
}

/// Decodes a stored encryption algorithm identifier.
pub fn enc_alg_from_id(id: u8) -> (r: Option<EncryptionAlgorithm>)
    ensures
        r == enc_alg_of_id(id),
{
    if id == 1 {
        Some(EncryptionAlgorithm::Aes256Gcm)
    } else if id == 2 {
        Some(EncryptionAlgorithm::ChaCha20Poly1305)
    } else {
        None
    }
}

/// Decodes a stored compression algorithm identifier.
pub fn comp_alg_from_id(id: u8) -> (r: Option<CompressionAlgorithm>)
    ensures
        r == comp_alg_of_id(id),
{
    if id == 0 {
        Some(CompressionAlgorithm::NoCompression)
    } else if id == 1 {
        Some(CompressionAlgorithm::Lzma2)
    } else if id == 2 {
        Some(CompressionAlgorithm::Zstd)
    } else if id == 3 {
        Some(CompressionAlgorithm::Brotli)
    } else {
        None
    }
}

} // verus!
