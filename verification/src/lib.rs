//! Core of a self-destructing encrypted archive format: a single-file
//! container holding files encrypted under a password-derived key, which
//! destroys its own key material after a bounded number of failed unlock
//! attempts.

pub mod algs;
pub mod le;
pub mod errors;
pub mod rng;
pub mod header;
pub mod keyslot;
pub mod directory;
pub mod integrity;
pub mod kdf;
pub mod aead;
pub mod compress;
pub mod counter;
pub mod destruct;
pub mod format;
pub mod writer;
pub mod reader;
pub mod laws;

pub use algs::{CompressionAlgorithm, EncryptionAlgorithm, KdfAlgorithm};
pub use errors::SecureArcError;
pub use reader::{ArchiveInfo, ArchiveReader};
pub use writer::{ArchiveConfig, ArchiveWriter};
