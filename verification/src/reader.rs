//! The archive reader: parse, unlock, list and extract, with the mandatory
//! counter-commit on every failed unlock.

use vstd::prelude::*;
use crate::aead::{aead_open_spec, decrypt_data, EncryptionKey};
use crate::algs::{CompressionAlgorithm, EncryptionAlgorithm};
use crate::compress::{decompress_data, decompressed_spec};
use crate::counter::{incremented_header, AttemptCounter};
use crate::destruct::SelfDestruct;
use crate::directory::{
    entries_wf, find_entry_spec, parse_directory, parse_directory_spec, CentralDirectory,
    FileEntryV,
};
use crate::errors::SecureArcError;
use crate::format::{
    archive_bytes, header_kdf_params, integrity_key_of, integrity_salt_vec, parse_archive,
    parse_archive_spec, password_accepted, serialize_archive, slot_master_key_of, ArchiveV,
    SecureArcFile,
};
use crate::header::SecurityHeader;
use crate::integrity::IntegrityKey;
use crate::kdf::{derive_key, kdf_params_ok, KdfParams};
use crate::keyslot::KeySlot;
use crate::le::copy_range;

verus! {

/// Nothing observable about the reader changed: header, slots, master key
/// and directory are as they were.
pub open spec fn state_unchanged(a: ArchiveReader, b: ArchiveReader) -> bool {
    &&& a.header@ == b.header@
    &&& a.key_slots@ == b.key_slots@
    &&& opt_key_view(a.master_key) == opt_key_view(b.master_key)
    &&& a.directory@ == b.directory@
}

/// The view of an optional key.
pub open spec fn opt_key_view(k: Option<Vec<u8>>) -> Option<Seq<u8>> {
    match k {
        Option::Some(v) => Some(v@),
        Option::None => None,
    }
}

/// Archive reader over a parsed in-memory archive image. A failed unlock
/// mutates the header (and on destruction, the slots) in place; the caller
/// persists the image from `to_bytes` before reporting the failure.
pub struct ArchiveReader {
    /// The archive's security header.
    pub header: SecurityHeader,
    /// The archive's key slots; slot 0 is the primary.
    pub key_slots: Vec<KeySlot>,
    /// The encrypted central directory.
    pub directory_ct: Vec<u8>,
    /// The payload region.
    pub payload: Vec<u8>,
    /// The decrypted directory; empty until a successful unlock.
    pub directory: CentralDirectory,
    /// The master key; present only after a successful unlock.
    pub master_key: Option<Vec<u8>>,
    /// Copy of the header's encryption algorithm.
    pub encryption_algorithm: EncryptionAlgorithm,
    /// Copy of the header's compression algorithm.
    pub compression_algorithm: CompressionAlgorithm,
}

impl ArchiveReader {
    /// The archive parts this reader holds, as a container model.
    pub open spec fn arch(self) -> ArchiveV {
        ArchiveV {
            header: self.header@,
            slots: self.key_slots@.map_values(|s: KeySlot| s@),
            directory_ct: self.directory_ct@,
            payload: self.payload@,
        }
    }

    /// Structural well-formedness: the container parts fit the format, a
    /// primary slot exists, the algorithm copies agree with the header, and a
    /// present master key has its fixed size.
    pub open spec fn wf(self) -> bool {
        &&& self.arch().wf()
        &&& self.key_slots@.len() >= 1
        &&& self.encryption_algorithm == self.header@.encryption_algorithm
        &&& self.compression_algorithm == self.header@.compression_algorithm
        &&& (opt_key_view(self.master_key) matches Some(k) ==> k.len() == 32)
        &&& entries_wf(self.directory@)
    }

    /// Opens an archive image: parses it, validates the header, and rejects a
    /// destroyed archive or one with no primary slot.
    pub fn open(data: &Vec<u8>) -> (r: Result<Self, SecureArcError>)
        ensures
            r is Ok <==> (parse_archive_spec(data@) matches Some(a) && a.header.max_attempts_ok()
                && a.header.attempt_counter < a.header.max_attempts && !a.header.destroyed
                && a.slots.len() >= 1),
            r is Ok ==> ({
                let a = parse_archive_spec(data@)->0;
                let reader = r->Ok_0;
                &&& reader.wf()
                &&& reader.header@ == a.header
                &&& reader.key_slots@.map_values(|s: KeySlot| s@) == a.slots
                &&& reader.directory_ct@ == a.directory_ct
                &&& reader.payload@ == a.payload
                &&& reader.master_key is None
                &&& reader.directory@ == Seq::<FileEntryV>::empty()
            }),
            r is Err ==> (r->Err_0 is FormatError || r->Err_0 is HeaderCorrupted
                || r->Err_0 is KeySlotError || r->Err_0 is InvalidConfiguration
                || r->Err_0 is ArchiveDestroyed),
            parse_archive_spec(data@) matches Some(a) ==> ((r is Err && a.header.max_attempts_ok()
                && a.slots.len() >= 1) ==> r->Err_0 is ArchiveDestroyed),
    {
        let file = match parse_archive(data) {
            Ok(f) => f,
            Err(e) => {
                return Err(e);
            },
        };
        match file.header.validate() {
            Ok(()) => (),
            Err(e) => {
                return Err(e);
            },
        };
        if SelfDestruct::is_destroyed(&file.header) {
            return Err(SecureArcError::ArchiveDestroyed);
        }
        if file.key_slots.len() == 0 {
            return Err(SecureArcError::KeySlotError(String::from_str("missing primary slot")));
        }
        let encryption_algorithm = file.header.encryption_algorithm;
        let compression_algorithm = file.header.compression_algorithm;
        let reader = ArchiveReader {
            header: file.header,
            key_slots: file.key_slots,
            directory_ct: file.directory_ct,
            payload: file.payload,
            directory: CentralDirectory::new(),
            master_key: None,
            encryption_algorithm,
            compression_algorithm,
        };
        proof {
            assert(reader.directory@ =~= Seq::<FileEntryV>::empty());
        }
        Ok(reader)
    }

    /// Records one failed unlock attempt: increments the counter and
    /// refreshes the checksum under the attempted integrity key; if the
    /// counter reaches its bound, executes destruction. Returns the error the
    /// caller must surface.
    fn record_failed_attempt(&mut self, counter: &AttemptCounter) -> (e: SecureArcError)
        requires
            old(self).wf(),
            !old(self).header@.destroyed,
            old(self).header@.attempt_counter < old(self).header@.max_attempts,
        ensures
            final(self).wf(),
            final(self).payload@ == old(self).payload@,
            final(self).directory_ct@ == old(self).directory_ct@,
            final(self).master_key == old(self).master_key,
            final(self).directory@ == old(self).directory@,
            final(self).encryption_algorithm == old(self).encryption_algorithm,
            final(self).compression_algorithm == old(self).compression_algorithm,
            ({
                let h = old(self).header@;
                if h.attempt_counter + 1 < h.max_attempts {
                    &&& final(self).header@ == incremented_header(h, counter@)
                    &&& !final(self).header@.destroyed
                    &&& final(self).key_slots@ == old(self).key_slots@
                    &&& e == SecureArcError::InvalidPassword
                } else {
                    &&& final(self).header@.destroyed
                    &&& final(self).header@.attempt_counter == h.attempt_counter + 1
                    &&& final(self).header@.max_attempts == h.max_attempts
                    &&& final(self).key_slots@.len() == old(self).key_slots@.len()
                    &&& (forall|i: int|
                        0 <= i < old(self).key_slots@.len() ==> !(#[trigger] final(self).key_slots@[i]).active && final(self).key_slots@[i]@.encrypted_key.len()
                            == old(self).key_slots@[i]@.encrypted_key.len())
                    &&& e == SecureArcError::MaxAttemptsExceeded
                }
            }),
    {
        match counter.increment(&mut self.header) {
            Ok(()) => (),
            Err(_) => {
                return SecureArcError::ArchiveDestroyed;
            },
        };
        if counter.should_destroy(&self.header) {
            match SelfDestruct::execute_destruction(&mut self.header, &mut self.key_slots) {
                Ok(()) => (),
                Err(_) => (),
            };
            proof {
                assert forall|i: int| 0 <= i < self.key_slots@.len() implies (#[trigger] self.arch().slots[i]).encrypted_key.len() + 6 <= u32::MAX by {
                    assert(self.arch().slots[i] == self.key_slots@[i]@);
                    assert(old(self).arch().slots[i] == old(self).key_slots@[i]@);
                    assert(old(self).arch().slots[i].encrypted_key.len() + 6 <= u32::MAX);
                }
            }
            return SecureArcError::MaxAttemptsExceeded;
        }
        SecureArcError::InvalidPassword
    }

    /// Verifies the password and unlocks the archive. The order is fixed:
    /// destroyed check, integrity-key derivation, header checksum
    /// verification, wrapping-key derivation, primary-slot decryption,
    /// directory decryption. A checksum or slot failure counts one attempt
    /// (and destroys the archive when the counter reaches its bound); a
    /// directory failure after the password was accepted does not touch the
    /// counter.
    pub fn unlock(&mut self, password: &Vec<u8>) -> (r: Result<(), SecureArcError>)
        requires
            old(self).wf(),
            password@.len() < 0x100000000,
        ensures
            final(self).wf(),
            final(self).payload@ == old(self).payload@,
            final(self).directory_ct@ == old(self).directory_ct@,
            final(self).encryption_algorithm == old(self).encryption_algorithm,
            final(self).compression_algorithm == old(self).compression_algorithm,
            ({
                let h = old(self).header@;
                let slot0 = old(self).key_slots@[0]@;
                let pw = password@;
                let ikey = integrity_key_of(h, pw);
                &&& ((h.destroyed || h.attempt_counter >= h.max_attempts) ==> r == Err::<
                    (),
                    SecureArcError,
                >(SecureArcError::ArchiveDestroyed) && state_unchanged(*final(self), *old(self)))
                &&& (!(h.destroyed || h.attempt_counter >= h.max_attempts) && !kdf_params_ok(
                    header_kdf_params(h),
                ) ==> r is Err && r->Err_0 is InvalidConfiguration && state_unchanged(
                    *final(self),
                    *old(self),
                ))
                &&& (!(h.destroyed || h.attempt_counter >= h.max_attempts) && kdf_params_ok(
                    header_kdf_params(h),
                ) && !password_accepted(h, slot0, pw) ==> ({
                    &&& final(self).master_key == old(self).master_key
                    &&& final(self).directory@ == old(self).directory@
                    &&& (h.attempt_counter + 1 < h.max_attempts ==> final(self).header@
                        == incremented_header(h, ikey) && !final(self).header@.destroyed && final(self).key_slots@ == old(self).key_slots@ && r == Err::<(), SecureArcError>(
                        SecureArcError::InvalidPassword,
                    ))
                    &&& (h.attempt_counter + 1 >= h.max_attempts ==> final(self).header@.destroyed
                        && final(self).header@.attempt_counter == h.attempt_counter + 1 && final(self).header@.max_attempts == h.max_attempts && r == Err::<(), SecureArcError>(
                        SecureArcError::MaxAttemptsExceeded,
                    ) && final(self).key_slots@.len() == old(self).key_slots@.len() && (forall|i: int|
                        0 <= i < old(self).key_slots@.len() ==> !(#[trigger] final(self).key_slots@[i]).active))
                }))
                &&& (!(h.destroyed || h.attempt_counter >= h.max_attempts) && kdf_params_ok(
                    header_kdf_params(h),
                ) && password_accepted(h, slot0, pw) ==> ({
                    let mk = slot_master_key_of(h, slot0, pw)->0;
                    let dopen = aead_open_spec(h.encryption_algorithm, mk, old(self).directory_ct@);
                    &&& final(self).header@ == h
                    &&& final(self).key_slots@ == old(self).key_slots@
                    &&& opt_key_view(final(self).master_key) == Some(mk)
                    &&& (dopen is None ==> r is Err && r->Err_0 is IntegrityCheckFailed && final(self).directory@ == old(self).directory@)
                    &&& (dopen matches Some(pt) ==> ({
                        &&& (parse_directory_spec(pt) is None ==> r is Err
                            && r->Err_0 is FormatError)
                        &&& (parse_directory_spec(pt) matches Some(d) ==> r is Ok && final(self).directory@ == d)
                    }))
                }))
            }),
    {
        if self.header.should_destroy() {
            return Err(SecureArcError::ArchiveDestroyed);
        }
        let params = KdfParams {
            algorithm: self.header.kdf_algorithm,
            memory: self.header.kdf_memory,
            iterations: self.header.kdf_iterations,
            parallelism: self.header.kdf_parallelism,
        };
        let integrity_salt = integrity_salt_vec(&self.header.salt);
        let ikey_bytes = match derive_key(password, &integrity_salt, &params) {
            Ok(k) => k,
            Err(e) => {
                return Err(e);
            },
        };
        let integrity_key = match IntegrityKey::from_bytes(&ikey_bytes) {
            Ok(k) => k,
            Err(e) => {
                return Err(e);
            },
        };
        let counter = AttemptCounter::new(integrity_key);
        let hmac_ok = match counter.verify_checksum(&self.header) {
            Ok(()) => true,
            Err(_) => false,
        };
        if !hmac_ok {
            return Err(self.record_failed_attempt(&counter));
        }
        let derived = match derive_key(password, &self.header.salt, &params) {
            Ok(k) => k,
            Err(e) => {
                return Err(e);
            },
        };
        let wrap_key = match EncryptionKey::from_bytes(&derived) {
            Ok(k) => k,
            Err(e) => {
                return Err(e);
            },
        };
        let master = match decrypt_data(
            &self.key_slots[0].encrypted_key,
            &wrap_key,
            self.encryption_algorithm,
        ) {
            Ok(mk) => mk,
            Err(_) => {
                return Err(self.record_failed_attempt(&counter));
            },
        };
        if master.len() != 32 {
            return Err(self.record_failed_attempt(&counter));
        }
        let master_enc = match EncryptionKey::from_bytes(&master) {
            Ok(k) => k,
            Err(e) => {
                return Err(e);
            },
        };
        self.master_key = Some(master);
        let dir_plain = match decrypt_data(&self.directory_ct, &master_enc, self.encryption_algorithm) {
            Ok(pt) => pt,
            Err(_) => {
                return Err(
                    SecureArcError::IntegrityCheckFailed(
                        String::from_str("directory decryption failed"),
                    ),
                );
            },
        };
        match parse_directory(&dir_plain) {
            Some(d) => {
                self.directory = d;
                Ok(())
            },
            Option::None => Err(
                SecureArcError::FormatError(String::from_str("malformed directory")),
            ),
        }
    }

    /// Lists the archive paths in stored order; the archive must be unlocked.
    pub fn list_files(&self) -> (r: Result<Vec<Vec<u8>>, SecureArcError>)
        requires
            self.wf(),
        ensures
            r is Ok <==> self.master_key is Some,
            r is Ok ==> r->Ok_0@.len() == self.directory@.len() && (forall|i: int|
                0 <= i < self.directory@.len() ==> (#[trigger] r->Ok_0@[i])@
                    == self.directory@[i].path),
            r is Err ==> r->Err_0 is InvalidConfiguration,
    {
        if self.master_key.is_none() {
            return Err(
                SecureArcError::InvalidConfiguration(
                    String::from_str("archive must be unlocked first"),
                ),
            );
        }
        let n = self.directory.entries.len();
        let mut paths: Vec<Vec<u8>> = Vec::new();
        let mut i: usize = 0;
        while i < n
            invariant
                n == self.directory.entries@.len(),
                n == self.directory@.len(),
                i <= n,
                paths@.len() == i,
                forall|j: int|
                    0 <= j < i ==> (#[trigger] paths@[j])@ == self.directory@[j].path,
            decreases n - i,
        {
            let p = copy_range(&self.directory.entries[i].path, 0, self.directory.entries[i].path.len());
            proof {
                assert(p@ =~= self.directory@[i as int].path);
            }
            paths.push(p);
            i = i + 1;
        }
        Ok(paths)
    }

    /// Extracts one file by its archive path: reads its payload slice,
    /// decrypts it under the master key, and decompresses it. Failures here
    /// never touch the counter.
    pub fn extract_file(&self, archive_path: &Vec<u8>) -> (r: Result<Vec<u8>, SecureArcError>)
        requires
            self.wf(),
        ensures
            self.master_key is None ==> r is Err && r->Err_0 is InvalidConfiguration,
            self.master_key is Some ==> ({
                let mk = opt_key_view(self.master_key)->0;
                match find_entry_spec(self.directory@, archive_path@) {
                    Option::None => r == Err::<Vec<u8>, SecureArcError>(
                        SecureArcError::FileNotFound,
                    ),
                    Option::Some(e) => {
                        if e.data_offset + e.encrypted_size > self.payload@.len() {
                            r is Err && r->Err_0 is FormatError
                        } else {
                            let ct = self.payload@.subrange(
                                e.data_offset as int,
                                e.data_offset + e.encrypted_size,
                            );
                            match aead_open_spec(self.encryption_algorithm, mk, ct) {
                                Option::None => r is Err && r->Err_0 is IntegrityCheckFailed,
                                Option::Some(comp) => match decompressed_spec(
                                    self.compression_algorithm,
                                    comp,
                                ) {
                                    Option::None => r is Err && r->Err_0 is CompressionError,
                                    Option::Some(f) => r is Ok && r->Ok_0@ == f,
                                },
                            }
                        }
                    },
                }
            }),
    {
        let mk = match &self.master_key {
            Some(k) => k,
            Option::None => {
                return Err(
                    SecureArcError::InvalidConfiguration(
                        String::from_str("archive must be unlocked first"),
                    ),
                );
            },
        };
        let entry = match self.directory.find_entry(archive_path) {
            Some(e) => e,
            Option::None => {
                return Err(SecureArcError::FileNotFound);
            },
        };
        let payload_len = self.payload.len();
        if entry.data_offset > payload_len as u64 || entry.encrypted_size > (payload_len as u64)
            - entry.data_offset {
            return Err(SecureArcError::FormatError(String::from_str("entry out of bounds")));
        }
        let ct = copy_range(&self.payload, entry.data_offset as usize, entry.encrypted_size as usize);
        let ekey = match EncryptionKey::from_bytes(mk) {
            Ok(k) => k,
            Err(e) => {
                return Err(e);
            },
        };
        let compressed = match decrypt_data(&ct, &ekey, self.encryption_algorithm) {
            Ok(c) => c,
            Err(_) => {
                return Err(
                    SecureArcError::IntegrityCheckFailed(
                        String::from_str("file data decryption failed"),
                    ),
                );
            },
        };
        decompress_data(&compressed, self.compression_algorithm)
    }

    /// Archive information, available before unlock; the file count is zero
    /// until the directory has been decrypted.
    pub fn get_info(&self) -> (r: ArchiveInfo)
        ensures
            r.max_attempts == self.header.max_attempts,
            r.current_attempts == self.header.attempt_counter,
            self.header.attempt_counter < self.header.max_attempts ==> r.remaining_attempts
                == self.header.max_attempts - self.header.attempt_counter,
            self.header.attempt_counter >= self.header.max_attempts ==> r.remaining_attempts == 0,
            r.destroyed == self.header.destroyed,
            r.file_count == self.directory@.len(),
    {
        let remaining = if self.header.attempt_counter < self.header.max_attempts {
            self.header.max_attempts - self.header.attempt_counter
        } else {
            0
        };
        ArchiveInfo {
            max_attempts: self.header.max_attempts,
            current_attempts: self.header.attempt_counter,
            remaining_attempts: remaining,
            destroyed: self.header.destroyed,
            file_count: self.directory.entries.len(),
        }
    }

    /// The current archive image: what the caller persists after an unlock
    /// attempt, so a counter update reaches disk before the result is
    /// reported.
    pub fn to_bytes(&self) -> (r: Vec<u8>)
        requires
            self.wf(),
        ensures
            r@ == archive_bytes(self.arch()),
            parse_archive_spec(r@) == Some(self.arch()),
    {
        let file = SecureArcFile {
            header: clone_header(&self.header),
            key_slots: clone_slots(&self.key_slots),
            directory_ct: copy_range(&self.directory_ct, 0, self.directory_ct.len()),
            payload: copy_range(&self.payload, 0, self.payload.len()),
        };
        proof {
            assert(file@.header =~= self.arch().header);
            assert(file@.directory_ct =~= self.arch().directory_ct);
            assert(file@.payload =~= self.arch().payload);
            assert(file@ =~= self.arch());
            crate::format::lemma_archive_roundtrip(self.arch());
        }
        serialize_archive(&file)
    }
}

/// Copies a security header.
fn clone_header(h: &SecurityHeader) -> (r: SecurityHeader)
    ensures
        r@ == h@,
{
    let r = SecurityHeader {
        kdf_algorithm: h.kdf_algorithm,
        kdf_memory: h.kdf_memory,
        kdf_iterations: h.kdf_iterations,
        kdf_parallelism: h.kdf_parallelism,
        encryption_algorithm: h.encryption_algorithm,
        compression_algorithm: h.compression_algorithm,
        salt: copy_range(&h.salt, 0, h.salt.len()),
        attempt_counter: h.attempt_counter,
        max_attempts: h.max_attempts,
        checksum: copy_range(&h.checksum, 0, h.checksum.len()),
        destroyed: h.destroyed,
    };
    proof {
        assert(r.salt@ =~= h.salt@);
        assert(r.checksum@ =~= h.checksum@);
    }
    r
}

/// Copies a slot table.
fn clone_slots(slots: &Vec<KeySlot>) -> (r: Vec<KeySlot>)
    ensures
        r@.map_values(|s: KeySlot| s@) == slots@.map_values(|s: KeySlot| s@),
{
    let n = slots.len();
    let mut r: Vec<KeySlot> = Vec::new();
    let mut i: usize = 0;
    while i < n
        invariant
            n == slots@.len(),
            i <= n,
            r@.len() == i,
            forall|j: int| 0 <= j < i ==> (#[trigger] r@[j])@ == slots@[j]@,
        decreases n - i,
    {
        let s = KeySlot {
            encrypted_key: copy_range(&slots[i].encrypted_key, 0, slots[i].encrypted_key.len()),
            slot_id: slots[i].slot_id,
            active: slots[i].active,
        };
        proof {
            assert(s@.encrypted_key =~= slots@[i as int]@.encrypted_key);
            assert(s@ == slots@[i as int]@);
        }
        r.push(s);
        i = i + 1;
    }
    proof {
        assert(r@.map_values(|s: KeySlot| s@) =~= slots@.map_values(|s: KeySlot| s@));
    }
    r
}

/// Archive information.
#[derive(Debug, Clone, Copy, PartialEq, Eq, Structural)]
pub struct ArchiveInfo {
    /// Maximum allowed attempts.
    pub max_attempts: u32,
    /// Failed attempts so far.
    pub current_attempts: u32,
    /// Attempts left before destruction.
    pub remaining_attempts: u32,
    /// Whether the archive is destroyed.
    pub destroyed: bool,
    /// Number of directory entries (zero before unlock).
    pub file_count: usize,
}

} // verus!
