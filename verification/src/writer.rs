//! The archive writer: collects compressed, encrypted files in memory and
//! assembles a complete archive image under a password.

use vstd::prelude::*;
use crate::aead::{aead_open_spec, encrypt_data, generate_master_key, EncryptionKey};
use crate::algs::{
    CompressionAlgorithm, EncryptionAlgorithm, MAX_MAX_ATTEMPTS, MIN_MAX_ATTEMPTS, NONCE_SIZE,
    TAG_SIZE,
};
use crate::compress::{compress_data, compressed_spec, decompressed_spec};
use crate::counter::AttemptCounter;
use crate::directory::{directory_bytes, entries_wf, CentralDirectory, FileEntry, FileEntryV};
use crate::errors::SecureArcError;
use crate::format::{
    header_hmac_ok, integrity_salt_vec, parse_archive_spec, serialize_archive, slot_master_key_of,
    SecureArcFile,
};
use crate::header::SecurityHeader;
use crate::integrity::IntegrityKey;
use crate::kdf::{derive_key, kdf_params_ok, KdfParams};
use crate::keyslot::KeySlot;
use crate::le::copy_range;

verus! {

/// Configuration for creating a new archive.
#[derive(Debug, Clone, Copy, PartialEq, Eq, Structural)]
pub struct ArchiveConfig {
    /// Maximum password attempts before destruction.
    pub max_attempts: u32,
    /// Encryption algorithm to use.
    pub encryption_algorithm: EncryptionAlgorithm,
    /// Compression algorithm to use.
    pub compression_algorithm: CompressionAlgorithm,
    /// KDF parameters.
    pub kdf_params: KdfParams,
}

impl Default for ArchiveConfig {
    /// The default configuration: five attempts, AES-256-GCM, LZMA, and the
    /// default KDF parameters.
    fn default() -> (r: Self)
        ensures
            r == (ArchiveConfig {
                max_attempts: 5u32,
                encryption_algorithm: EncryptionAlgorithm::Aes256Gcm,
                compression_algorithm: CompressionAlgorithm::Lzma2,
                kdf_params: KdfParams {
                    algorithm: crate::algs::KdfAlgorithm::Argon2id,
                    memory: 65536u32,
                    iterations: 3u32,
                    parallelism: 4u32,
                },
            }),
    {
        ArchiveConfig {
            max_attempts: 5,
            encryption_algorithm: EncryptionAlgorithm::Aes256Gcm,
            compression_algorithm: CompressionAlgorithm::Lzma2,
            kdf_params: KdfParams {
                algorithm: crate::algs::KdfAlgorithm::Argon2id,
                memory: 65536,
                iterations: 3,
                parallelism: 4,
            },
        }
    }
}

/// A directory entry extracts to `file` from `payload`: its slice lies in
/// bounds, decrypts under the master key to a buffer of its compressed size,
/// and decompresses to `file`, whose length it records.
pub open spec fn entry_extracts(
    enc_alg: EncryptionAlgorithm,
    master_key: Seq<u8>,
    comp_alg: CompressionAlgorithm,
    payload: Seq<u8>,
    e: FileEntryV,
    file: Seq<u8>,
) -> bool {
    &&& e.data_offset + e.encrypted_size <= payload.len()
    &&& match aead_open_spec(
        enc_alg,
        master_key,
        payload.subrange(e.data_offset as int, e.data_offset + e.encrypted_size),
    ) {
        Option::Some(comp) => {
            &&& comp.len() == e.compressed_size
            &&& decompressed_spec(comp_alg, comp) == Some(file)
            &&& file.len() == e.original_size
        },
        Option::None => false,
    }
}

/// Archive writer: accumulates entries and payload, then emits the archive
/// image.
pub struct ArchiveWriter {
    /// Creation configuration.
    pub config: ArchiveConfig,
    /// The fresh random 32-byte master key of this archive.
    pub master_key: Vec<u8>,
    /// Directory of the files added so far.
    pub directory: CentralDirectory,
    /// Concatenated per-file ciphertexts.
    pub payload: Vec<u8>,
    /// The added files' plaintexts, kept for specification only.
    pub files: Ghost<Seq<Seq<u8>>>,
}

impl ArchiveWriter {
    /// The master key has its fixed size and every entry fits the format.
    pub open spec fn wf(self) -> bool {
        &&& self.master_key@.len() == 32
        &&& entries_wf(self.directory@)
    }

    /// Every recorded entry extracts from the payload to the file it was
    /// added for.
    pub open spec fn consistent(self) -> bool {
        &&& self.files@.len() == self.directory@.len()
        &&& forall|i: int|
            0 <= i < self.directory@.len() ==> entry_extracts(
                self.config.encryption_algorithm,
                self.master_key@,
                self.config.compression_algorithm,
                self.payload@,
                #[trigger] self.directory@[i],
                self.files@[i],
            )
    }

    /// Creates a writer with a fresh random master key and no files.
    pub fn new(config: ArchiveConfig) -> (r: Self)
        ensures
            r.wf(),
            r.consistent(),
            r.config == config,
            r.directory@ == Seq::<FileEntryV>::empty(),
            r.payload@ == Seq::<u8>::empty(),
            r.files@ == Seq::<Seq<u8>>::empty(),
    {
        let r = ArchiveWriter {
            config,
            master_key: generate_master_key(),
            directory: CentralDirectory::new(),
            payload: Vec::new(),
            files: Ghost(Seq::empty()),
        };
        proof {
            assert(r.payload@ =~= Seq::<u8>::empty());
        }
        r
    }

    /// Adds a file: compresses it, encrypts it under the master key, appends
    /// the ciphertext to the payload, and records its directory entry.
    pub fn add_file(&mut self, file_data: &Vec<u8>, archive_path: Vec<u8>, modified_time: u64) -> (r:
        Result<(), SecureArcError>)
        requires
            old(self).wf(),
            old(self).consistent(),
        ensures
            final(self).wf(),
            final(self).consistent(),
            final(self).config == old(self).config,
            final(self).master_key@ == old(self).master_key@,
            r is Ok ==> final(self).files@ == old(self).files@ + seq![file_data@],
            r is Ok ==> ({
                let comp = compressed_spec(old(self).config.compression_algorithm, file_data@);
                let old_len = old(self).payload@.len() as int;
                let ct = final(self).payload@.subrange(old_len, final(self).payload@.len() as int);
                &&& final(self).payload@.len() == old(self).payload@.len() + comp.len() + NONCE_SIZE
                    + TAG_SIZE
                &&& final(self).payload@.subrange(0, old_len) == old(self).payload@
                &&& aead_open_spec(old(self).config.encryption_algorithm, old(self).master_key@, ct)
                    == Some(comp)
                &&& decompressed_spec(old(self).config.compression_algorithm, comp) == Some(
                    file_data@,
                )
                &&& final(self).directory@ == old(self).directory@ + seq![
                    FileEntryV {
                        path: archive_path@,
                        original_size: file_data@.len() as u64,
                        compressed_size: comp.len() as u64,
                        encrypted_size: (comp.len() + NONCE_SIZE + TAG_SIZE) as u64,
                        modified_time: modified_time,
                        attributes: 0u32,
                        data_offset: old(self).payload@.len() as u64,
                    },
                ]
            }),
            r is Err ==> final(self).payload@ == old(self).payload@ && final(self).directory@
                == old(self).directory@ && final(self).files@ == old(self).files@ && (
            r->Err_0 is CompressionError || r->Err_0 is EncryptionError
                || r->Err_0 is FormatError),
            (archive_path@.len() > 0xFFFFFFFF || old(self).directory@.len() >= 0xFFFFFFFF) <==> (
            r is Err && r->Err_0 is FormatError),
    {
        if (archive_path.len() as u64) > 0xFFFFFFFFu64 || (self.directory.entries.len() as u64)
            >= 0xFFFFFFFFu64 {
            return Err(SecureArcError::FormatError(String::from_str("directory limits exceeded")));
        }
        let compressed = match compress_data(file_data, self.config.compression_algorithm) {
            Ok(c) => c,
            Err(e) => {
                return Err(e);
            },
        };
        let encryption_key = match EncryptionKey::from_bytes(&self.master_key) {
            Ok(k) => k,
            Err(_) => {
                return Err(
                    SecureArcError::EncryptionError(String::from_str("bad master key")),
                );
            },
        };
        let encrypted = match encrypt_data(
            &compressed,
            &encryption_key,
            self.config.encryption_algorithm,
        ) {
            Ok(c) => c,
            Err(e) => {
                return Err(e);
            },
        };
        let data_offset = self.payload.len() as u64;
        let entry = FileEntry {
            path: archive_path,
            original_size: file_data.len() as u64,
            compressed_size: compressed.len() as u64,
            encrypted_size: encrypted.len() as u64,
            modified_time,
            attributes: 0,
            data_offset,
        };
        self.payload.extend_from_slice(encrypted.as_slice());
        self.directory.add_entry(entry);
        self.files = Ghost(self.files@.push(file_data@));
        proof {
            assert(self.files@ =~= old(self).files@ + seq![file_data@]);
            let old_len = old(self).payload@.len() as int;
            assert(self.payload@.subrange(old_len, self.payload@.len() as int) =~= encrypted@);
            assert(self.payload@.subrange(0, old_len) =~= old(self).payload@);
            assert forall|i: int| 0 <= i < self.directory@.len() implies entry_extracts(
                self.config.encryption_algorithm,
                self.master_key@,
                self.config.compression_algorithm,
                self.payload@,
                #[trigger] self.directory@[i],
                self.files@[i],
            ) by {
                if i < old(self).directory@.len() {
                    let e = old(self).directory@[i];
                    assert(entry_extracts(
                        self.config.encryption_algorithm,
                        self.master_key@,
                        self.config.compression_algorithm,
                        old(self).payload@,
                        e,
                        old(self).files@[i],
                    ));
                    assert(self.payload@.subrange(
                        e.data_offset as int,
                        e.data_offset + e.encrypted_size,
                    ) =~= old(self).payload@.subrange(
                        e.data_offset as int,
                        e.data_offset + e.encrypted_size,
                    ));
                } else {
                    assert(self.directory@[i] == entry@);
                    assert(self.payload@.subrange(old_len, self.payload@.len() as int)
                        =~= encrypted@);
                }
            }
        }
        Ok(())
    }

    /// Assembles the archive image under a password: builds a fresh header,
    /// derives the wrapping and integrity keys, wraps the master key into the
    /// primary slot, checksums the header, and encrypts the directory under
    /// the master key. The image parses back to an archive whose header is
    /// bound to the password and whose primary slot yields the master key.
    pub fn write_to_bytes(&self, password: &Vec<u8>) -> (r: Result<Vec<u8>, SecureArcError>)
        requires
            self.wf(),
            self.consistent(),
            password@.len() < 0x100000000,
        ensures
            r is Ok ==> parse_archive_spec(r->Ok_0@) is Some,
            r is Ok ==> ({
                let a = parse_archive_spec(r->Ok_0@)->0;
                &&& a.wf()
                &&& a.header.wf()
                &&& a.header.max_attempts == self.config.max_attempts
                &&& a.header.attempt_counter == 0
                &&& !a.header.destroyed
                &&& a.header.kdf_algorithm == self.config.kdf_params.algorithm
                &&& a.header.kdf_memory == self.config.kdf_params.memory
                &&& a.header.kdf_iterations == self.config.kdf_params.iterations
                &&& a.header.kdf_parallelism == self.config.kdf_params.parallelism
                &&& a.header.encryption_algorithm == self.config.encryption_algorithm
                &&& a.header.compression_algorithm == self.config.compression_algorithm
                &&& header_hmac_ok(a.header, password@)
                &&& a.slots.len() == 1
                &&& a.slots[0].active
                &&& a.slots[0].slot_id == 0
                &&& slot_master_key_of(a.header, a.slots[0], password@) == Some(self.master_key@)
                &&& aead_open_spec(self.config.encryption_algorithm, self.master_key@, a.directory_ct)
                    == Some(directory_bytes(self.directory@))
                &&& a.payload == self.payload@
            }),
            !(MIN_MAX_ATTEMPTS <= self.config.max_attempts <= MAX_MAX_ATTEMPTS) || !kdf_params_ok(
                self.config.kdf_params,
            ) ==> r is Err && r->Err_0 is InvalidConfiguration,
            r is Err ==> (r->Err_0 is InvalidConfiguration || r->Err_0 is KeyDerivationError
                || r->Err_0 is EncryptionError),
            (r is Err && MIN_MAX_ATTEMPTS <= self.config.max_attempts <= MAX_MAX_ATTEMPTS
                && kdf_params_ok(self.config.kdf_params)) ==> r->Err_0 is EncryptionError,
    {
        let mut header = match SecurityHeader::new(self.config.max_attempts) {
            Ok(h) => h,
            Err(e) => {
                return Err(e);
            },
        };
        header.kdf_algorithm = self.config.kdf_params.algorithm;
        header.kdf_memory = self.config.kdf_params.memory;
        header.kdf_iterations = self.config.kdf_params.iterations;
        header.kdf_parallelism = self.config.kdf_params.parallelism;
        header.encryption_algorithm = self.config.encryption_algorithm;
        header.compression_algorithm = self.config.compression_algorithm;
        let derived = match derive_key(password, &header.salt, &self.config.kdf_params) {
            Ok(k) => k,
            Err(e) => {
                return Err(e);
            },
        };
        let integrity_salt = integrity_salt_vec(&header.salt);
        let integrity_bytes = match derive_key(password, &integrity_salt, &self.config.kdf_params) {
            Ok(k) => k,
            Err(e) => {
                return Err(e);
            },
        };
        let integrity_key = match IntegrityKey::from_bytes(&integrity_bytes) {
            Ok(k) => k,
            Err(_) => {
                return Err(SecureArcError::KeyDerivationError(String::from_str("bad key size")));
            },
        };
        let wrap_key = match EncryptionKey::from_bytes(&derived) {
            Ok(k) => k,
            Err(_) => {
                return Err(SecureArcError::KeyDerivationError(String::from_str("bad key size")));
            },
        };
        let slot_ct = match encrypt_data(&self.master_key, &wrap_key, self.config.encryption_algorithm) {
            Ok(c) => c,
            Err(e) => {
                return Err(e);
            },
        };
        let primary = KeySlot { encrypted_key: slot_ct, slot_id: 0, active: true };
        let counter = AttemptCounter::new(integrity_key);
        let ghost pre_header = header@;
        match counter.update_checksum(&mut header) {
            Ok(()) => (),
            Err(_) => {
                return Err(SecureArcError::KeyDerivationError(String::from_str("checksum failed")));
            },
        };
        proof {
            crate::header::lemma_hmac_input_ignores_checksum(header@, pre_header);
        }
        let dir_plain = self.directory.serialize();
        let master_enc_key = match EncryptionKey::from_bytes(&self.master_key) {
            Ok(k) => k,
            Err(_) => {
                return Err(SecureArcError::KeyDerivationError(String::from_str("bad key size")));
            },
        };
        let directory_ct = match encrypt_data(&dir_plain, &master_enc_key, self.config.encryption_algorithm) {
            Ok(c) => c,
            Err(e) => {
                return Err(e);
            },
        };
        let mut slots: Vec<KeySlot> = Vec::new();
        slots.push(primary);
        let file = SecureArcFile {
            header,
            key_slots: slots,
            directory_ct,
            payload: copy_range(&self.payload, 0, self.payload.len()),
        };
        let dir_ct_len = file.directory_ct.len();
        let payload_len = file.payload.len();
        proof {
            assert(file@.slots =~= seq![file.key_slots@[0]@]);
            assert(file@.slots[0].encrypted_key.len() + 6 <= u32::MAX);
            assert(forall|i: int|
                0 <= i < file@.slots.len() ==> (#[trigger] file@.slots[i]).encrypted_key.len() + 6
                    <= u32::MAX);
            assert(file@.directory_ct.len() == dir_ct_len <= u64::MAX);
            assert(file@.payload.len() == payload_len <= u64::MAX);
            assert(file@.wf());
            crate::format::lemma_archive_roundtrip(file@);
        }
        Ok(serialize_archive(&file))
    }
}

} // verus!
