//! Error kinds of archive operations.

use vstd::prelude::*;

verus! {

/// Errors that can occur when working with archives.
#[derive(Debug, Clone, PartialEq, Eq)]
pub enum SecureArcError {
    /// Unlock failed: wrong password, tampered header, or corrupt primary slot.
    InvalidPassword,
    /// The failed attempt that triggered destruction; destruction has completed.
    MaxAttemptsExceeded,
    /// The archive has been destroyed and is no longer accessible.
    ArchiveDestroyed,
    /// The security header is corrupted or invalid.
    HeaderCorrupted(String),
    /// An authenticated-decryption check failed on the directory or a payload.
    IntegrityCheckFailed(String),
    /// Bad magic, wrong version, or another structural fault.
    FormatError(String),
    /// Encryption or decryption error.
    EncryptionError(String),
    /// Compression or decompression error.
    CompressionError(String),
    /// Key derivation error.
    KeyDerivationError(String),
    /// Invalid configuration parameter.
    InvalidConfiguration(String),
    /// Attempt counter manipulation detected (internal; surfaced as `InvalidPassword`).
    CounterTamperingDetected,
    /// Key slot error.
    KeySlotError(String),
    /// File not found in archive.
    FileNotFound,
    /// Archive is empty.
    EmptyArchive,
}

impl SecureArcError {
    /// A short description of the error kind.
    pub fn message(&self) -> (r: &'static str) {
        match self {
            SecureArcError::InvalidPassword => "invalid password",
            SecureArcError::MaxAttemptsExceeded => "maximum password attempts exceeded; archive destroyed",
            SecureArcError::ArchiveDestroyed => "archive has been destroyed",
            SecureArcError::HeaderCorrupted(_) => "security header corrupted or invalid",
            SecureArcError::IntegrityCheckFailed(_) => "integrity check failed",
            SecureArcError::FormatError(_) => "file format error",
            SecureArcError::EncryptionError(_) => "encryption error",
            SecureArcError::CompressionError(_) => "compression error",
            SecureArcError::KeyDerivationError(_) => "key derivation error",
            SecureArcError::InvalidConfiguration(_) => "invalid configuration",
            SecureArcError::CounterTamperingDetected => "attempt counter manipulation detected",
            SecureArcError::KeySlotError(_) => "key slot error",
            SecureArcError::FileNotFound => "file not found in archive",
            SecureArcError::EmptyArchive => "archive is empty",
        }
    }
}

} // verus!
