//! Compression codec tests.

use securearc::algs::CompressionAlgorithm;
use securearc::compress::{compress_data, decompress_data};

#[test]
fn test_lzma2_compression() {
    let data = b"Hello, SecureArc! This is a test string for compression.".to_vec();
    let compressed = compress_data(&data, CompressionAlgorithm::Lzma2).unwrap();
    let decompressed = decompress_data(&compressed, CompressionAlgorithm::Lzma2).unwrap();
    assert_eq!(data, decompressed);
}

#[test]
fn test_zstd_compression() {
    let data = b"Hello, SecureArc! This is a test string for compression.".to_vec();
    let compressed = compress_data(&data, CompressionAlgorithm::Zstd).unwrap();
    let decompressed = decompress_data(&compressed, CompressionAlgorithm::Zstd).unwrap();
    assert_eq!(data, decompressed);
}

#[test]
fn test_brotli_compression() {
    let data = b"Hello, SecureArc! This is a test string for compression.".to_vec();
    let compressed = compress_data(&data, CompressionAlgorithm::Brotli).unwrap();
    let decompressed = decompress_data(&compressed, CompressionAlgorithm::Brotli).unwrap();
    assert_eq!(data, decompressed);
}

#[test]
fn test_stored_compression_is_identity() {
    let data = b"raw bytes \x00\x01\x02".to_vec();
    let compressed = compress_data(&data, CompressionAlgorithm::NoCompression).unwrap();
    assert_eq!(compressed, data);
    let decompressed = decompress_data(&compressed, CompressionAlgorithm::NoCompression).unwrap();
    assert_eq!(decompressed, data);
}

#[test]
fn test_compression_actually_transforms() {
    // A compressible input must round-trip through a representation that is
    // not the input itself.
    let data = vec![b'a'; 4096];
    for algo in [
        CompressionAlgorithm::Lzma2,
        CompressionAlgorithm::Zstd,
        CompressionAlgorithm::Brotli,
    ] {
        let compressed = compress_data(&data, algo).unwrap();
        assert_ne!(compressed, data);
        assert!(compressed.len() < data.len());
        let decompressed = decompress_data(&compressed, algo).unwrap();
        assert_eq!(decompressed, data);
    }
}

#[test]
fn test_decompression_rejects_garbage() {
    let garbage = vec![0xFFu8; 64];
    assert!(decompress_data(&garbage, CompressionAlgorithm::Zstd).is_err());
    assert!(decompress_data(&garbage, CompressionAlgorithm::Lzma2).is_err());
}

#[test]
fn test_compression_round_trip_large_input() {
    // A mixed, megabyte-sized input round-trips under every algorithm.
    let mut data: Vec<u8> = Vec::with_capacity(1 << 20);
    let mut x: u32 = 0x12345678;
    while data.len() < (1 << 20) {
        x = x.wrapping_mul(1664525).wrapping_add(1013904223);
        data.push((x >> 24) as u8);
        data.push((data.len() % 251) as u8);
    }
    for algo in [
        CompressionAlgorithm::NoCompression,
        CompressionAlgorithm::Lzma2,
        CompressionAlgorithm::Zstd,
        CompressionAlgorithm::Brotli,
    ] {
        let compressed = compress_data(&data, algo).unwrap();
        let decompressed = decompress_data(&compressed, algo).unwrap();
        assert_eq!(data, decompressed);
    }
}
