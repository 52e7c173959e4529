//! End-to-end archive tests over in-memory archive images.

use securearc::algs::{CompressionAlgorithm, EncryptionAlgorithm, KdfAlgorithm};
use securearc::errors::SecureArcError;
use securearc::kdf::KdfParams;
use securearc::reader::ArchiveReader;
use securearc::writer::{ArchiveConfig, ArchiveWriter};

// A configuration with a cheap KDF, so scenario tests stay fast.
fn fast_config() -> ArchiveConfig {
    ArchiveConfig {
        max_attempts: 5,
        encryption_algorithm: EncryptionAlgorithm::Aes256Gcm,
        compression_algorithm: CompressionAlgorithm::Zstd,
        kdf_params: KdfParams {
            algorithm: KdfAlgorithm::Pbkdf2Sha256,
            memory: 0,
            iterations: 1000,
            parallelism: 1,
        },
    }
}

#[test]
fn test_create_and_extract_archive() {
    let config = ArchiveConfig::default();
    let mut writer = ArchiveWriter::new(config);
    writer.add_file(&b"Hello, SecureArc!".to_vec(), b"test.txt".to_vec(), 0).unwrap();
    let image = writer.write_to_bytes(&b"password123".to_vec()).unwrap();

    let mut reader = ArchiveReader::open(&image).unwrap();
    reader.unlock(&b"password123".to_vec()).unwrap();

    let files = reader.list_files().unwrap();
    assert_eq!(files.len(), 1);
    assert_eq!(files[0], b"test.txt".to_vec());

    let content = reader.extract_file(&files[0]).unwrap();
    assert_eq!(content, b"Hello, SecureArc!".to_vec());
}

#[test]
fn test_self_destruct_mechanism() {
    let mut config = fast_config();
    config.max_attempts = 3;
    let mut writer = ArchiveWriter::new(config);
    writer.add_file(&b"Test data".to_vec(), b"test.txt".to_vec(), 0).unwrap();
    let image = writer.write_to_bytes(&b"correct_password".to_vec()).unwrap();

    // First wrong attempt; persist the counter update.
    let mut reader = ArchiveReader::open(&image).unwrap();
    assert!(reader.unlock(&b"wrong1".to_vec()).is_err());
    let image = reader.to_bytes();

    // Second wrong attempt.
    let mut reader = ArchiveReader::open(&image).unwrap();
    assert!(reader.unlock(&b"wrong2".to_vec()).is_err());
    let image = reader.to_bytes();

    // Third wrong attempt destroys the archive.
    let mut reader = ArchiveReader::open(&image).unwrap();
    assert!(reader.unlock(&b"wrong3".to_vec()).is_err());
    let image = reader.to_bytes();

    // The destroyed archive no longer opens.
    assert!(ArchiveReader::open(&image).is_err());
}

#[test]
fn test_multiple_files() {
    let config = ArchiveConfig::default();
    let mut writer = ArchiveWriter::new(config);
    writer.add_file(&b"File 1 content".to_vec(), b"file1.txt".to_vec(), 0).unwrap();
    writer.add_file(&b"File 2 content".to_vec(), b"file2.txt".to_vec(), 0).unwrap();
    let image = writer.write_to_bytes(&b"password".to_vec()).unwrap();

    let mut reader = ArchiveReader::open(&image).unwrap();
    reader.unlock(&b"password".to_vec()).unwrap();

    let files = reader.list_files().unwrap();
    assert_eq!(files.len(), 2);
}

#[test]
fn test_different_encryption_algorithms() {
    let mut config = fast_config();
    config.encryption_algorithm = EncryptionAlgorithm::Aes256Gcm;
    let mut writer = ArchiveWriter::new(config);
    writer.add_file(&b"Test data".to_vec(), b"test.txt".to_vec(), 0).unwrap();
    let image = writer.write_to_bytes(&b"password".to_vec()).unwrap();
    let mut reader = ArchiveReader::open(&image).unwrap();
    assert!(reader.unlock(&b"password".to_vec()).is_ok());

    let mut config = fast_config();
    config.encryption_algorithm = EncryptionAlgorithm::ChaCha20Poly1305;
    let mut writer = ArchiveWriter::new(config);
    writer.add_file(&b"Test data".to_vec(), b"test.txt".to_vec(), 0).unwrap();
    let image = writer.write_to_bytes(&b"password".to_vec()).unwrap();
    let mut reader = ArchiveReader::open(&image).unwrap();
    assert!(reader.unlock(&b"password".to_vec()).is_ok());
}

#[test]
fn test_different_compression_algorithms() {
    for algo in [
        CompressionAlgorithm::Lzma2,
        CompressionAlgorithm::Zstd,
        CompressionAlgorithm::Brotli,
    ] {
        let mut config = fast_config();
        config.compression_algorithm = algo;
        let mut writer = ArchiveWriter::new(config);
        writer
            .add_file(&b"Test data for compression testing".to_vec(), b"test.txt".to_vec(), 0)
            .unwrap();
        let image = writer.write_to_bytes(&b"password".to_vec()).unwrap();

        let mut reader = ArchiveReader::open(&image).unwrap();
        assert!(reader.unlock(&b"password".to_vec()).is_ok());
    }
}

#[test]
fn test_aes_zstd_round_trip_exact_bytes() {
    let mut config = fast_config();
    config.max_attempts = 3;
    let mut writer = ArchiveWriter::new(config);
    writer.add_file(&vec![0x48, 0x69, 0x0A], b"greet.txt".to_vec(), 0).unwrap();
    let image = writer.write_to_bytes(&b"hunter2".to_vec()).unwrap();

    let mut reader = ArchiveReader::open(&image).unwrap();
    reader.unlock(&b"hunter2".to_vec()).unwrap();
    let content = reader.extract_file(&b"greet.txt".to_vec()).unwrap();
    assert_eq!(content, vec![0x48, 0x69, 0x0A]);
}

#[test]
fn test_chacha_brotli_round_trip_exact_bytes() {
    let mut config = fast_config();
    config.encryption_algorithm = EncryptionAlgorithm::ChaCha20Poly1305;
    config.compression_algorithm = CompressionAlgorithm::Brotli;
    let mut writer = ArchiveWriter::new(config);
    writer.add_file(&vec![0x48, 0x69, 0x0A], b"greet.txt".to_vec(), 0).unwrap();
    let image = writer.write_to_bytes(&b"hunter2".to_vec()).unwrap();

    let mut reader = ArchiveReader::open(&image).unwrap();
    reader.unlock(&b"hunter2".to_vec()).unwrap();
    let content = reader.extract_file(&b"greet.txt".to_vec()).unwrap();
    assert_eq!(content, vec![0x48, 0x69, 0x0A]);
}

#[test]
fn test_destruction_error_sequence() {
    let mut config = fast_config();
    config.max_attempts = 3;
    let mut writer = ArchiveWriter::new(config);
    writer.add_file(&b"payload".to_vec(), b"f".to_vec(), 0).unwrap();
    let image = writer.write_to_bytes(&b"right".to_vec()).unwrap();

    let mut reader = ArchiveReader::open(&image).unwrap();
    assert!(matches!(reader.unlock(&b"wrong1".to_vec()), Err(SecureArcError::InvalidPassword)));
    assert_eq!(reader.get_info().current_attempts, 1);
    let image = reader.to_bytes();

    let mut reader = ArchiveReader::open(&image).unwrap();
    assert!(matches!(reader.unlock(&b"wrong2".to_vec()), Err(SecureArcError::InvalidPassword)));
    assert_eq!(reader.get_info().current_attempts, 2);
    let image = reader.to_bytes();

    let mut reader = ArchiveReader::open(&image).unwrap();
    assert!(matches!(
        reader.unlock(&b"wrong3".to_vec()),
        Err(SecureArcError::MaxAttemptsExceeded)
    ));
    let info = reader.get_info();
    assert!(info.destroyed);
    assert_eq!(info.current_attempts, 3);
    let image = reader.to_bytes();

    assert!(matches!(ArchiveReader::open(&image), Err(SecureArcError::ArchiveDestroyed)));
}

#[test]
fn test_destruction_randomizes_slot_key_material() {
    let mut config = fast_config();
    config.max_attempts = 3;
    let writer = {
        let mut w = ArchiveWriter::new(config);
        w.add_file(&b"secret".to_vec(), b"s".to_vec(), 0).unwrap();
        w
    };
    let image = writer.write_to_bytes(&b"pw".to_vec()).unwrap();

    let reader = ArchiveReader::open(&image).unwrap();
    let slot_before = reader.key_slots[0].encrypted_key.clone();

    let mut reader = ArchiveReader::open(&image).unwrap();
    assert!(reader.unlock(&b"x1".to_vec()).is_err());
    assert!(reader.unlock(&b"x2".to_vec()).is_err());
    assert!(matches!(reader.unlock(&b"x3".to_vec()), Err(SecureArcError::MaxAttemptsExceeded)));

    assert!(reader.header.destroyed);
    assert_eq!(reader.key_slots[0].encrypted_key.len(), slot_before.len());
    assert_ne!(reader.key_slots[0].encrypted_key, slot_before);
    // Even the correct password is now refused.
    assert!(matches!(reader.unlock(&b"pw".to_vec()), Err(SecureArcError::ArchiveDestroyed)));
}

#[test]
fn test_header_byte_flip_takes_wrong_password_branch() {
    let mut config = fast_config();
    config.max_attempts = 3;
    let mut writer = ArchiveWriter::new(config);
    writer.add_file(&vec![0x48, 0x69, 0x0A], b"greet.txt".to_vec(), 0).unwrap();
    let mut image = writer.write_to_bytes(&b"hunter2".to_vec()).unwrap();

    // Flip one salt byte inside the header (header starts at offset 12, the
    // salt at header offset 15). The structural parse still succeeds, but the
    // checksum no longer verifies under any key this password derives.
    image[12 + 16] ^= 0xFF;

    let mut reader = ArchiveReader::open(&image).unwrap();
    assert!(matches!(reader.unlock(&b"hunter2".to_vec()), Err(SecureArcError::InvalidPassword)));
    assert_eq!(reader.get_info().current_attempts, 1);
    // The counter update reaches the persisted image.
    let persisted = reader.to_bytes();
    let reopened = ArchiveReader::open(&persisted).unwrap();
    assert_eq!(reopened.get_info().current_attempts, 1);
}

#[test]
fn test_payload_byte_flip_fails_integrity_not_counter() {
    let mut writer = ArchiveWriter::new(fast_config());
    writer.add_file(&b"precious data".to_vec(), b"f.txt".to_vec(), 0).unwrap();
    let mut image = writer.write_to_bytes(&b"pw".to_vec()).unwrap();

    // Flip the last payload byte.
    let last = image.len() - 1;
    image[last] ^= 0x01;

    let mut reader = ArchiveReader::open(&image).unwrap();
    reader.unlock(&b"pw".to_vec()).unwrap();
    assert!(matches!(
        reader.extract_file(&b"f.txt".to_vec()),
        Err(SecureArcError::IntegrityCheckFailed(_))
    ));
    // Extraction failures never count as attempts.
    assert_eq!(reader.get_info().current_attempts, 0);
}

#[test]
fn test_rollback_needs_the_password() {
    let mut writer = ArchiveWriter::new(fast_config());
    writer.add_file(&b"data".to_vec(), b"d".to_vec(), 0).unwrap();
    let snapshot = writer.write_to_bytes(&b"right".to_vec()).unwrap();

    // One failed attempt is persisted.
    let mut reader = ArchiveReader::open(&snapshot).unwrap();
    assert!(reader.unlock(&b"guess1".to_vec()).is_err());
    let after_failure = reader.to_bytes();
    assert_eq!(ArchiveReader::open(&after_failure).unwrap().get_info().current_attempts, 1);

    // An attacker rolls the file back to the snapshot. With the password the
    // snapshot unlocks; without it, verification fails and the attempt counts
    // again: the rollback bought the attacker nothing.
    let mut reader = ArchiveReader::open(&snapshot).unwrap();
    assert!(reader.unlock(&b"right".to_vec()).is_ok());

    let mut reader = ArchiveReader::open(&snapshot).unwrap();
    assert!(matches!(reader.unlock(&b"guess2".to_vec()), Err(SecureArcError::InvalidPassword)));
    assert_eq!(reader.get_info().current_attempts, 1);
}

#[test]
fn test_successful_unlock_does_not_reset_counter() {
    let mut writer = ArchiveWriter::new(fast_config());
    writer.add_file(&b"data".to_vec(), b"d".to_vec(), 0).unwrap();
    let image = writer.write_to_bytes(&b"p".to_vec()).unwrap();

    // Two failed attempts (the second reuses the first wrong password, so it
    // fails at the key slot rather than at the checksum), then one more under
    // the correct password, whose integrity key cannot verify a checksum that
    // a wrong password wrote.
    let mut reader = ArchiveReader::open(&image).unwrap();
    assert!(reader.unlock(&b"wrong".to_vec()).is_err());
    let image = reader.to_bytes();
    let mut reader = ArchiveReader::open(&image).unwrap();
    assert!(reader.unlock(&b"wrong".to_vec()).is_err());
    assert_eq!(reader.get_info().current_attempts, 2);
    let image = reader.to_bytes();

    let mut reader = ArchiveReader::open(&image).unwrap();
    assert!(reader.unlock(&b"p".to_vec()).is_err());
    assert_eq!(reader.get_info().current_attempts, 3);
    let image = reader.to_bytes();

    // Now the checksum is bound to the correct password again: the unlock
    // succeeds, and the counter stays where it was.
    let mut reader = ArchiveReader::open(&image).unwrap();
    assert!(reader.unlock(&b"p".to_vec()).is_ok());
    assert_eq!(reader.get_info().current_attempts, 3);
}

#[test]
fn test_two_files_list_order_and_selective_extract() {
    let mut writer = ArchiveWriter::new(fast_config());
    writer.add_file(&b"A".to_vec(), b"a.txt".to_vec(), 0).unwrap();
    writer.add_file(&b"BB".to_vec(), b"b.txt".to_vec(), 0).unwrap();
    let image = writer.write_to_bytes(&b"pw".to_vec()).unwrap();

    let mut reader = ArchiveReader::open(&image).unwrap();
    reader.unlock(&b"pw".to_vec()).unwrap();
    let files = reader.list_files().unwrap();
    assert_eq!(files, vec![b"a.txt".to_vec(), b"b.txt".to_vec()]);

    let content = reader.extract_file(&b"b.txt".to_vec()).unwrap();
    assert_eq!(content, b"BB".to_vec());
}

#[test]
fn test_get_info_before_unlock_and_errors() {
    let mut writer = ArchiveWriter::new(fast_config());
    writer.add_file(&b"x".to_vec(), b"x".to_vec(), 0).unwrap();
    let image = writer.write_to_bytes(&b"pw".to_vec()).unwrap();

    let reader = ArchiveReader::open(&image).unwrap();
    let info = reader.get_info();
    assert_eq!(info.max_attempts, 5);
    assert_eq!(info.current_attempts, 0);
    assert_eq!(info.remaining_attempts, 5);
    assert!(!info.destroyed);
    assert_eq!(info.file_count, 0);

    // Listing and extracting before unlock are refused.
    assert!(matches!(reader.list_files(), Err(SecureArcError::InvalidConfiguration(_))));
    assert!(matches!(
        reader.extract_file(&b"x".to_vec()),
        Err(SecureArcError::InvalidConfiguration(_))
    ));

    let mut reader = ArchiveReader::open(&image).unwrap();
    reader.unlock(&b"pw".to_vec()).unwrap();
    assert_eq!(reader.get_info().file_count, 1);
    assert!(matches!(
        reader.extract_file(&b"missing".to_vec()),
        Err(SecureArcError::FileNotFound)
    ));
}

#[test]
fn test_open_rejects_malformed_images() {
    let mut writer = ArchiveWriter::new(fast_config());
    writer.add_file(&b"x".to_vec(), b"x".to_vec(), 0).unwrap();
    let image = writer.write_to_bytes(&b"pw".to_vec()).unwrap();

    // Bad magic.
    let mut bad_magic = image.clone();
    bad_magic[0] = b'X';
    assert!(matches!(ArchiveReader::open(&bad_magic), Err(SecureArcError::FormatError(_))));

    // Truncated image.
    let truncated = image[..image.len() - 1].to_vec();
    assert!(ArchiveReader::open(&truncated).is_err());

    // Empty image.
    assert!(matches!(
        ArchiveReader::open(&Vec::new()),
        Err(SecureArcError::FormatError(_))
    ));

    // Malformed header bytes (destroyed flag outside {0, 1}).
    let mut bad_header = image;
    bad_header[12 + 87] = 2;
    assert!(matches!(
        ArchiveReader::open(&bad_header),
        Err(SecureArcError::HeaderCorrupted(_))
    ));
}

#[test]
fn test_writer_rejects_bad_configuration() {
    let mut config = fast_config();
    config.max_attempts = 2;
    let writer = ArchiveWriter::new(config);
    assert!(matches!(
        writer.write_to_bytes(&b"pw".to_vec()),
        Err(SecureArcError::InvalidConfiguration(_))
    ));

    let mut config = fast_config();
    config.kdf_params.iterations = 1;
    let writer = ArchiveWriter::new(config);
    assert!(matches!(
        writer.write_to_bytes(&b"pw".to_vec()),
        Err(SecureArcError::InvalidConfiguration(_))
    ));
}

#[test]
fn test_empty_file_and_empty_archive() {
    // An archive with one empty file round-trips.
    let mut writer = ArchiveWriter::new(fast_config());
    writer.add_file(&Vec::new(), b"empty".to_vec(), 0).unwrap();
    let image = writer.write_to_bytes(&b"pw".to_vec()).unwrap();
    let mut reader = ArchiveReader::open(&image).unwrap();
    reader.unlock(&b"pw".to_vec()).unwrap();
    assert_eq!(reader.extract_file(&b"empty".to_vec()).unwrap(), Vec::<u8>::new());

    // An archive with no files still opens and unlocks.
    let writer = ArchiveWriter::new(fast_config());
    let image = writer.write_to_bytes(&b"pw".to_vec()).unwrap();
    let mut reader = ArchiveReader::open(&image).unwrap();
    reader.unlock(&b"pw".to_vec()).unwrap();
    assert_eq!(reader.list_files().unwrap().len(), 0);
}

#[test]
fn test_file_entry_metadata_round_trip() {
    let mut writer = ArchiveWriter::new(fast_config());
    writer.add_file(&b"0123456789".to_vec(), b"m.txt".to_vec(), 1234567890).unwrap();
    let image = writer.write_to_bytes(&b"pw".to_vec()).unwrap();
    let mut reader = ArchiveReader::open(&image).unwrap();
    reader.unlock(&b"pw".to_vec()).unwrap();
    let entries = reader.directory.entries();
    assert_eq!(entries.len(), 1);
    assert_eq!(entries[0].original_size, 10);
    assert_eq!(entries[0].modified_time, 1234567890);
    assert_eq!(entries[0].data_offset, 0);
    assert_eq!(entries[0].encrypted_size, entries[0].compressed_size + 28);
}

#[test]
fn test_archive_image_layout() {
    let mut writer = ArchiveWriter::new(fast_config());
    writer.add_file(&b"abc".to_vec(), b"f".to_vec(), 0).unwrap();
    let image = writer.write_to_bytes(&b"pw".to_vec()).unwrap();

    // Magic tag, then the 32-bit header length, then the 88-byte header.
    assert_eq!(&image[0..8], b"SECARC01");
    assert_eq!(&image[8..12], &[88, 0, 0, 0]);
    // One key slot: 32 wrapped key bytes plus nonce and tag, an id and a flag.
    assert_eq!(&image[100..104], &[1, 0, 0, 0]);
    let slot_len = 4 + (32 + 12 + 16) + 1 + 1;
    assert_eq!(&image[104..108], &[slot_len as u8, 0, 0, 0]);
    // Directory ciphertext with its 64-bit length, then the payload region.
    let dir_pos = 108 + slot_len;
    let dir_len = securearc::le::read_u64_le(&image, dir_pos) as usize;
    let payload_pos = dir_pos + 8 + dir_len;
    let payload_len = securearc::le::read_u64_le(&image, payload_pos) as usize;
    assert_eq!(image.len(), payload_pos + 8 + payload_len);
    // The payload holds one encrypted file: compressed size plus overhead.
    let entry = {
        let mut reader = ArchiveReader::open(&image).unwrap();
        reader.unlock(&b"pw".to_vec()).unwrap();
        reader.directory.entries()[0].encrypted_size
    };
    assert_eq!(payload_len as u64, entry);
}

#[test]
fn test_corrupt_key_slot_is_reported() {
    let mut writer = ArchiveWriter::new(fast_config());
    writer.add_file(&b"x".to_vec(), b"x".to_vec(), 0).unwrap();
    let mut image = writer.write_to_bytes(&b"pw".to_vec()).unwrap();

    // Inflate the length prefix of the primary slot so its encoding no longer
    // describes a well-formed slot.
    image[104] = 200;
    assert!(matches!(
        ArchiveReader::open(&image),
        Err(SecureArcError::KeySlotError(_))
    ));
}
