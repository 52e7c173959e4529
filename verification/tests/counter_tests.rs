//! Attempt counter and self-destruct tests.

use securearc::counter::AttemptCounter;
use securearc::errors::SecureArcError;
use securearc::destruct::SelfDestruct;
use securearc::header::SecurityHeader;
use securearc::integrity::IntegrityKey;
use securearc::keyslot::KeySlot;

#[test]
fn test_counter_increment() {
    let integrity_key = IntegrityKey::from_bytes(&vec![0u8; 32]).unwrap();
    let counter = AttemptCounter::new(integrity_key);
    let mut header = SecurityHeader::new(5).unwrap();

    assert_eq!(counter.get_attempts(&header), 0);
    assert_eq!(counter.get_remaining_attempts(&header), 5);

    counter.increment(&mut header).unwrap();
    assert_eq!(counter.get_attempts(&header), 1);
    assert_eq!(counter.get_remaining_attempts(&header), 4);

    assert!(counter.verify_checksum(&header).is_ok());
}

#[test]
fn test_counter_tampering_detection() {
    let integrity_key = IntegrityKey::from_bytes(&vec![0u8; 32]).unwrap();
    let counter = AttemptCounter::new(integrity_key);
    let mut header = SecurityHeader::new(5).unwrap();

    counter.increment(&mut header).unwrap();
    assert_eq!(header.attempt_counter, 1);
    assert!(counter.verify_checksum(&header).is_ok());

    header.attempt_counter = 0;
    assert!(counter.verify_checksum(&header).is_err());
}

#[test]
fn test_destruction_execution() {
    let mut header = SecurityHeader::new(5).unwrap();
    let mut key_slots = vec![KeySlot::new(0), KeySlot::new(1)];

    key_slots[0].encrypted_key = vec![1, 2, 3, 4, 5];
    key_slots[0].active = true;
    key_slots[1].encrypted_key = vec![6, 7, 8, 9, 10];
    key_slots[1].active = true;

    SelfDestruct::execute_destruction(&mut header, &mut key_slots).unwrap();

    assert!(SelfDestruct::is_destroyed(&header));
    assert!(SelfDestruct::are_key_slots_destroyed(&key_slots));
    assert!(header.destroyed);
}

#[test]
fn test_counter_stops_at_limit() {
    let integrity_key = IntegrityKey::from_bytes(&vec![1u8; 32]).unwrap();
    let counter = AttemptCounter::new(integrity_key);
    let mut header = SecurityHeader::new(3).unwrap();

    counter.increment(&mut header).unwrap();
    counter.increment(&mut header).unwrap();
    counter.increment(&mut header).unwrap();
    assert_eq!(header.attempt_counter, 3);
    assert!(counter.should_destroy(&header));
    assert_eq!(counter.get_remaining_attempts(&header), 0);
    // A further increment is refused: the archive counts as destroyed.
    assert!(counter.increment(&mut header).is_err());
    assert_eq!(header.attempt_counter, 3);
}

#[test]
fn test_checksum_binds_every_header_field() {
    let integrity_key = IntegrityKey::from_bytes(&vec![2u8; 32]).unwrap();
    let counter = AttemptCounter::new(integrity_key);
    let mut header = SecurityHeader::new(5).unwrap();
    counter.update_checksum(&mut header).unwrap();
    assert!(counter.verify_checksum(&header).is_ok());

    // Tampering with the KDF cost invalidates the checksum.
    let saved = header.kdf_memory;
    header.kdf_memory = 9999;
    assert!(counter.verify_checksum(&header).is_err());
    header.kdf_memory = saved;
    assert!(counter.verify_checksum(&header).is_ok());

    // Tampering with the salt invalidates the checksum.
    header.salt[0] ^= 0x80;
    assert!(counter.verify_checksum(&header).is_err());
    header.salt[0] ^= 0x80;
    assert!(counter.verify_checksum(&header).is_ok());

    // A different key does not verify.
    let other = AttemptCounter::new(IntegrityKey::from_bytes(&vec![3u8; 32]).unwrap());
    assert!(other.verify_checksum(&header).is_err());
}

#[test]
fn test_destruction_is_idempotent_and_sticky() {
    let mut header = SecurityHeader::new(5).unwrap();
    let mut key_slots = vec![KeySlot::new(0)];
    key_slots[0].encrypted_key = vec![42u8; 60];
    key_slots[0].active = true;
    let before = key_slots[0].encrypted_key.clone();

    SelfDestruct::execute_destruction(&mut header, &mut key_slots).unwrap();
    assert!(header.destroyed);
    // Key material is overwritten, not merely flagged: same length, new bytes.
    assert_eq!(key_slots[0].encrypted_key.len(), before.len());
    assert_ne!(key_slots[0].encrypted_key, before);

    SelfDestruct::execute_destruction(&mut header, &mut key_slots).unwrap();
    assert!(header.destroyed);
    assert!(SelfDestruct::are_key_slots_destroyed(&key_slots));
}

#[test]
fn test_tampering_reports_counter_tampering() {
    let integrity_key = IntegrityKey::from_bytes(&vec![0u8; 32]).unwrap();
    let counter = AttemptCounter::new(integrity_key);
    let mut header = SecurityHeader::new(5).unwrap();
    counter.update_checksum(&mut header).unwrap();
    header.attempt_counter = 4;
    assert!(matches!(
        counter.verify_checksum(&header),
        Err(SecureArcError::CounterTamperingDetected)
    ));
}
