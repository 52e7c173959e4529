//! Cryptographic component tests.

use securearc::aead::{decrypt_data, encrypt_data, generate_master_key, EncryptionKey};
use securearc::algs::{EncryptionAlgorithm, KdfAlgorithm};
use securearc::errors::SecureArcError;
use securearc::integrity::{compute_checksum, verify_checksum, IntegrityKey};
use securearc::kdf::{derive_key, KdfParams};

#[test]
fn test_encryption_round_trip() {
    let key = generate_master_key();
    let encryption_key = EncryptionKey::from_bytes(&key).unwrap();
    let data = b"Test data for encryption".to_vec();

    let encrypted = encrypt_data(&data, &encryption_key, EncryptionAlgorithm::Aes256Gcm).unwrap();
    let decrypted = decrypt_data(&encrypted, &encryption_key, EncryptionAlgorithm::Aes256Gcm).unwrap();
    assert_eq!(data, decrypted);

    let encrypted = encrypt_data(&data, &encryption_key, EncryptionAlgorithm::ChaCha20Poly1305).unwrap();
    let decrypted = decrypt_data(&encrypted, &encryption_key, EncryptionAlgorithm::ChaCha20Poly1305).unwrap();
    assert_eq!(data, decrypted);
}

#[test]
fn test_kdf_consistency() {
    let password = b"test_password".to_vec();
    let salt = b"test_salt_12345678901234567890".to_vec();
    let params = KdfParams::default();

    let key1 = derive_key(&password, &salt, &params).unwrap();
    let key2 = derive_key(&password, &salt, &params).unwrap();
    assert_eq!(key1, key2);

    let key3 = derive_key(&b"different".to_vec(), &salt, &params).unwrap();
    assert_ne!(key1, key3);

    let key4 = derive_key(&password, &b"different_salt_1234567890123456".to_vec(), &params).unwrap();
    assert_ne!(key1, key4);
}

#[test]
fn test_hmac_integrity() {
    let key = IntegrityKey::from_bytes(&vec![0u8; 32]).unwrap();
    let data = b"Test data for HMAC".to_vec();

    let checksum = compute_checksum(&data, &key);
    assert!(verify_checksum(&data, &key, &checksum).is_ok());

    assert!(verify_checksum(&b"Tampered data".to_vec(), &key, &checksum).is_err());

    let wrong_checksum = vec![0u8; 32];
    assert!(verify_checksum(&data, &key, &wrong_checksum).is_err());
}

#[test]
fn test_pbkdf2_kdf() {
    let password = b"test_password".to_vec();
    let salt = b"test_salt_12345678901234567890".to_vec();
    let params = KdfParams {
        algorithm: KdfAlgorithm::Pbkdf2Sha256,
        memory: 0,
        iterations: 10000,
        parallelism: 1,
    };

    let key1 = derive_key(&password, &salt, &params).unwrap();
    let key2 = derive_key(&password, &salt, &params).unwrap();
    assert_eq!(key1, key2);
}

#[test]
fn test_aes256_gcm_encryption() {
    let key = generate_master_key();
    let encryption_key = EncryptionKey::from_bytes(&key).unwrap();
    let data = b"Hello, SecureArc!".to_vec();

    let encrypted = encrypt_data(&data, &encryption_key, EncryptionAlgorithm::Aes256Gcm).unwrap();
    let decrypted = decrypt_data(&encrypted, &encryption_key, EncryptionAlgorithm::Aes256Gcm).unwrap();

    assert_eq!(data, decrypted);
}

#[test]
fn test_chacha20_encryption() {
    let key = generate_master_key();
    let encryption_key = EncryptionKey::from_bytes(&key).unwrap();
    let data = b"Hello, SecureArc!".to_vec();

    let encrypted = encrypt_data(&data, &encryption_key, EncryptionAlgorithm::ChaCha20Poly1305).unwrap();
    let decrypted = decrypt_data(&encrypted, &encryption_key, EncryptionAlgorithm::ChaCha20Poly1305).unwrap();

    assert_eq!(data, decrypted);
}

#[test]
fn test_hmac_computation() {
    let key = IntegrityKey::from_bytes(&vec![0u8; 32]).unwrap();
    let data = b"test data".to_vec();

    let checksum1 = compute_checksum(&data, &key);
    let checksum2 = compute_checksum(&data, &key);

    assert_eq!(checksum1, checksum2);

    let checksum3 = compute_checksum(&b"different data".to_vec(), &key);
    assert_ne!(checksum1, checksum3);
}

#[test]
fn test_hmac_verification() {
    let key = IntegrityKey::from_bytes(&vec![0u8; 32]).unwrap();
    let data = b"test data".to_vec();

    let checksum = compute_checksum(&data, &key);
    assert!(verify_checksum(&data, &key, &checksum).is_ok());

    let wrong_checksum = vec![0u8; 32];
    assert!(verify_checksum(&data, &key, &wrong_checksum).is_err());
}

#[test]
fn test_argon2id_key_derivation() {
    let password = b"test_password".to_vec();
    let salt = b"test_salt_12345678901234567890".to_vec();
    let params = KdfParams::default();

    let key1 = derive_key(&password, &salt, &params).unwrap();
    let key2 = derive_key(&password, &salt, &params).unwrap();

    assert_eq!(key1, key2);

    let key3 = derive_key(&b"different_password".to_vec(), &salt, &params).unwrap();
    assert_ne!(key1, key3);

    let key4 = derive_key(&password, &b"different_salt_1234567890123456".to_vec(), &params).unwrap();
    assert_ne!(key1, key4);
}

#[test]
fn test_pbkdf2_key_derivation() {
    let password = b"test_password".to_vec();
    let salt = b"test_salt_12345678901234567890".to_vec();
    let params = KdfParams {
        algorithm: KdfAlgorithm::Pbkdf2Sha256,
        memory: 0,
        iterations: 10000,
        parallelism: 1,
    };

    let key1 = derive_key(&password, &salt, &params).unwrap();
    let key2 = derive_key(&password, &salt, &params).unwrap();

    assert_eq!(key1, key2);
}

#[test]
fn test_kdf_output_is_not_the_password() {
    let password = b"a-password-of-32-characters-long".to_vec();
    let salt = b"some_salt_value_16".to_vec();
    let params = KdfParams {
        algorithm: KdfAlgorithm::Pbkdf2Sha256,
        memory: 0,
        iterations: 1000,
        parallelism: 1,
    };
    let key = derive_key(&password, &salt, &params).unwrap();
    assert_eq!(key.len(), 32);
    assert_ne!(key, password);
}

#[test]
fn test_kdf_rejects_bad_parameters() {
    let password = b"pw".to_vec();
    let salt = b"salt_that_is_long_enough".to_vec();
    let weak_argon = KdfParams {
        algorithm: KdfAlgorithm::Argon2id,
        memory: 1024,
        iterations: 3,
        parallelism: 4,
    };
    assert!(matches!(
        derive_key(&password, &salt, &weak_argon),
        Err(SecureArcError::InvalidConfiguration(_))
    ));
    let weak_pbkdf2 = KdfParams {
        algorithm: KdfAlgorithm::Pbkdf2Sha256,
        memory: 0,
        iterations: 999,
        parallelism: 1,
    };
    assert!(matches!(
        derive_key(&password, &salt, &weak_pbkdf2),
        Err(SecureArcError::InvalidConfiguration(_))
    ));
    let short_salt = b"short".to_vec();
    let good_argon = KdfParams {
        algorithm: KdfAlgorithm::Argon2id,
        memory: 8192,
        iterations: 1,
        parallelism: 1,
    };
    assert!(matches!(
        derive_key(&password, &short_salt, &good_argon),
        Err(SecureArcError::KeyDerivationError(_))
    ));
}

#[test]
fn test_encryption_output_layout_and_tamper_rejection() {
    let key = generate_master_key();
    let encryption_key = EncryptionKey::from_bytes(&key).unwrap();
    let data = b"layout check".to_vec();

    let encrypted = encrypt_data(&data, &encryption_key, EncryptionAlgorithm::Aes256Gcm).unwrap();
    assert_eq!(encrypted.len(), data.len() + 12 + 16);
    assert_ne!(encrypted, data);

    let mut tampered = encrypted.clone();
    let last = tampered.len() - 1;
    tampered[last] ^= 0x01;
    assert!(matches!(
        decrypt_data(&tampered, &encryption_key, EncryptionAlgorithm::Aes256Gcm),
        Err(SecureArcError::EncryptionError(_))
    ));

    // A mismatched algorithm must also fail.
    assert!(decrypt_data(&encrypted, &encryption_key, EncryptionAlgorithm::ChaCha20Poly1305).is_err());
}

#[test]
fn test_decrypt_rejects_short_input() {
    let key = generate_master_key();
    let encryption_key = EncryptionKey::from_bytes(&key).unwrap();
    let short = vec![0u8; 27];
    assert!(decrypt_data(&short, &encryption_key, EncryptionAlgorithm::Aes256Gcm).is_err());
}

#[test]
fn test_key_wrappers_reject_wrong_sizes() {
    assert!(matches!(
        EncryptionKey::from_bytes(&vec![0u8; 31]),
        Err(SecureArcError::InvalidConfiguration(_))
    ));
    assert!(matches!(
        IntegrityKey::from_bytes(&vec![0u8; 33]),
        Err(SecureArcError::InvalidConfiguration(_))
    ));
    let key = EncryptionKey::from_bytes(&vec![7u8; 32]).unwrap();
    assert_eq!(key.as_bytes(), &vec![7u8; 32]);
}

#[test]
fn test_wrapping_and_integrity_keys_are_domain_separated() {
    // The two keys derive from the same password through salts that differ
    // in their first byte; they must come out different.
    let password = b"shared password".to_vec();
    let salt = b"0123456789abcdef0123456789abcdef".to_vec();
    let integrity_salt = securearc::format::integrity_salt_vec(&salt);
    assert_ne!(salt, integrity_salt);
    assert_eq!(salt[1..], integrity_salt[1..]);

    let params = KdfParams {
        algorithm: KdfAlgorithm::Pbkdf2Sha256,
        memory: 0,
        iterations: 1000,
        parallelism: 1,
    };
    let wrap_key = derive_key(&password, &salt, &params).unwrap();
    let integrity_key = derive_key(&password, &integrity_salt, &params).unwrap();
    assert_ne!(wrap_key, integrity_key);
}
