//! File format tests.

use securearc::directory::{parse_directory, CentralDirectory, FileEntry};
use securearc::header::{parse_header, serialize_header, serialize_header_hmac_input, SecurityHeader};
use securearc::keyslot::{parse_slot, serialize_slot, KeySlot};

#[test]
fn test_header_creation() {
    let header = SecurityHeader::new(5).unwrap();
    assert_eq!(header.max_attempts, 5);
    assert_eq!(header.attempt_counter, 0);
    assert!(!header.destroyed);
}

#[test]
fn test_header_serialization() {
    let header = SecurityHeader::new(10).unwrap();
    let buffer = serialize_header(&header);
    let deserialized = parse_header(&buffer).unwrap();
    assert_eq!(header.max_attempts, deserialized.max_attempts);
}

#[test]
fn test_key_slot_zeroization() {
    let mut slot = KeySlot::new(0);
    slot.encrypted_key = vec![1, 2, 3, 4, 5];
    slot.active = true;

    assert!(!slot.is_zeroized());
    slot.zeroize();
    assert!(slot.is_zeroized());
    assert!(!slot.active);
}

#[test]
fn test_directory_operations() {
    let mut directory = CentralDirectory::new();

    let entry = FileEntry {
        path: b"test.txt".to_vec(),
        original_size: 100,
        compressed_size: 50,
        encrypted_size: 60,
        modified_time: 1234567890,
        attributes: 0,
        data_offset: 0,
    };

    directory.add_entry(entry);
    assert_eq!(directory.entries().len(), 1);

    let found = directory.find_entry(&b"test.txt".to_vec());
    assert!(found.is_some());
    assert_eq!(found.unwrap().original_size, 100);
}

#[test]
fn test_header_round_trip_preserves_every_field() {
    let mut header = SecurityHeader::new(7).unwrap();
    header.kdf_memory = 8192;
    header.kdf_iterations = 2;
    header.kdf_parallelism = 3;
    header.attempt_counter = 4;
    header.checksum = (0u8..32).collect();
    let buffer = serialize_header(&header);
    assert_eq!(buffer.len(), 88);
    let parsed = parse_header(&buffer).unwrap();
    assert_eq!(parsed.kdf_algorithm, header.kdf_algorithm);
    assert_eq!(parsed.kdf_memory, 8192);
    assert_eq!(parsed.kdf_iterations, 2);
    assert_eq!(parsed.kdf_parallelism, 3);
    assert_eq!(parsed.encryption_algorithm, header.encryption_algorithm);
    assert_eq!(parsed.compression_algorithm, header.compression_algorithm);
    assert_eq!(parsed.salt, header.salt);
    assert_eq!(parsed.attempt_counter, 4);
    assert_eq!(parsed.max_attempts, 7);
    assert_eq!(parsed.checksum, header.checksum);
    assert_eq!(parsed.destroyed, false);
}

#[test]
fn test_hmac_input_is_deterministic_and_ignores_checksum() {
    let mut header = SecurityHeader::new(5).unwrap();
    let input1 = serialize_header_hmac_input(&header);
    let input2 = serialize_header_hmac_input(&header);
    assert_eq!(input1, input2);

    // Changing the checksum leaves the HMAC input unchanged.
    header.checksum = vec![0xAB; 32];
    let input3 = serialize_header_hmac_input(&header);
    assert_eq!(input1, input3);

    // Changing any other field changes the HMAC input.
    header.attempt_counter = 1;
    let input4 = serialize_header_hmac_input(&header);
    assert_ne!(input1, input4);
}

#[test]
fn test_key_slot_serialization_round_trip() {
    let slot = KeySlot { encrypted_key: vec![9u8; 60], slot_id: 0, active: true };
    let bytes = serialize_slot(&slot);
    assert_eq!(bytes.len(), 4 + 60 + 2);
    let parsed = parse_slot(&bytes).unwrap();
    assert_eq!(parsed.encrypted_key, slot.encrypted_key);
    assert_eq!(parsed.slot_id, 0);
    assert!(parsed.active);
}

#[test]
fn test_directory_serialization_round_trip() {
    let mut directory = CentralDirectory::new();
    directory.add_entry(FileEntry {
        path: b"a.txt".to_vec(),
        original_size: 1,
        compressed_size: 2,
        encrypted_size: 30,
        modified_time: 99,
        attributes: 0,
        data_offset: 0,
    });
    directory.add_entry(FileEntry {
        path: b"dir/b.bin".to_vec(),
        original_size: 1000,
        compressed_size: 500,
        encrypted_size: 528,
        modified_time: 100,
        attributes: 7,
        data_offset: 30,
    });
    let bytes = directory.serialize();
    let parsed = parse_directory(&bytes).unwrap();
    assert_eq!(parsed.entries().len(), 2);
    assert_eq!(parsed.entries()[0].path, b"a.txt".to_vec());
    assert_eq!(parsed.entries()[1].path, b"dir/b.bin".to_vec());
    assert_eq!(parsed.entries()[1].data_offset, 30);
    assert_eq!(parsed.entries()[1].compressed_size, 500);
}

#[test]
fn test_header_parse_rejects_wrong_length_or_ids() {
    let header = SecurityHeader::new(5).unwrap();
    let buffer = serialize_header(&header);

    let mut short = buffer.clone();
    short.pop();
    assert!(parse_header(&short).is_none());

    // An unknown KDF algorithm identifier is rejected.
    let mut bad_alg = buffer.clone();
    bad_alg[0] = 9;
    assert!(parse_header(&bad_alg).is_none());

    // A destroyed flag outside {0, 1} is rejected.
    let mut bad_flag = buffer;
    bad_flag[87] = 2;
    assert!(parse_header(&bad_flag).is_none());
}

#[test]
fn test_little_endian_encoding_exact_bytes() {
    let mut v: Vec<u8> = Vec::new();
    securearc::le::push_u32_le(&mut v, 0x01020304);
    assert_eq!(v, vec![0x04, 0x03, 0x02, 0x01]);
    assert_eq!(securearc::le::read_u32_le(&v, 0), 0x01020304);

    let mut w: Vec<u8> = Vec::new();
    securearc::le::push_u64_le(&mut w, 0x1122334455667788);
    assert_eq!(w, vec![0x88, 0x77, 0x66, 0x55, 0x44, 0x33, 0x22, 0x11]);
    assert_eq!(securearc::le::read_u64_le(&w, 0), 0x1122334455667788);
}
