//! Compression codecs: LZMA, Zstandard and Brotli, plus stored (uncompressed)
//! data.

use vstd::prelude::*;
use std::io::{Read, Write};
use brotli::enc::BrotliEncoderParams;
use crate::algs::CompressionAlgorithm;
use crate::errors::SecureArcError;
use crate::le::copy_range;

verus! {

/// Compression error kinds.
#[derive(Debug, Clone, PartialEq, Eq)]
pub enum CompressionError {
    /// Compression failed.
    CompressionFailed(String),
    /// Decompression failed.
    DecompressionFailed(String),
}

/// What lzma_rs::lzma_compress writes for an input: a function of the input
/// alone.
pub uninterp spec fn lzma_compressed(data: Seq<u8>) -> Seq<u8>;

/// What lzma_rs::lzma_decompress writes for an input: a function of the input
/// alone; `None` for any rejected input.
pub uninterp spec fn lzma_decompressed(data: Seq<u8>) -> Option<Seq<u8>>;

/// What zstd::encode_all writes at level 3 for an input: a function of the
/// input alone.
pub uninterp spec fn zstd_compressed(data: Seq<u8>) -> Seq<u8>;

/// What zstd::decode_all writes for an input: a function of the input alone;
/// `None` for any rejected input.
pub uninterp spec fn zstd_decompressed(data: Seq<u8>) -> Option<Seq<u8>>;

/// What brotli's CompressorWriter writes at quality 6 for an input: a
/// function of the input alone.
pub uninterp spec fn brotli_compressed(data: Seq<u8>) -> Seq<u8>;

/// What brotli's Decompressor reads from an input: a function of the input
/// alone; `None` for any rejected input.
pub uninterp spec fn brotli_decompressed(data: Seq<u8>) -> Option<Seq<u8>>;

/// Relies on lzma_rs::lzma_compress: deterministic in the input, infallible
/// with an in-memory writer, and inverted by lzma_rs::lzma_decompress.
#[verifier::external_body]
fn lzma_compress_raw(data: &Vec<u8>) -> (r: Result<Vec<u8>, ()>)
    ensures
        r is Ok,
        r is Ok ==> r->Ok_0@ == lzma_compressed(data@) && lzma_decompressed(lzma_compressed(data@))
            == Some(data@),
{
    let mut output = Vec::new();
    match lzma_rs::lzma_compress(&mut std::io::Cursor::new(data.as_slice()), &mut output) {
        Ok(()) => Ok(output),
        Err(_) => Err(()),
    }
}

/// Relies on lzma_rs::lzma_decompress: deterministic in the input; fails
/// exactly on inputs it rejects as malformed.
#[verifier::external_body]
fn lzma_decompress_raw(data: &Vec<u8>) -> (r: Result<Vec<u8>, ()>)
    ensures
        r is Ok <==> lzma_decompressed(data@) is Some,
        r is Ok ==> r->Ok_0@ == lzma_decompressed(data@)->0,
{
    let mut output = Vec::new();
    match lzma_rs::lzma_decompress(&mut std::io::Cursor::new(data.as_slice()), &mut output) {
        Ok(()) => Ok(output),
        Err(_) => Err(()),
    }
}

/// Relies on zstd::encode_all at level 3: deterministic in the input and
/// inverted by zstd::decode_all.
#[verifier::external_body]
fn zstd_compress_raw(data: &Vec<u8>) -> (r: Result<Vec<u8>, ()>)
    ensures
        r is Ok ==> r->Ok_0@ == zstd_compressed(data@) && zstd_decompressed(zstd_compressed(data@))
            == Some(data@),
{
    match zstd::encode_all(data.as_slice(), 3) {
        Ok(output) => Ok(output),
        Err(_) => Err(()),
    }
}

/// Relies on zstd::decode_all: deterministic in the input; fails exactly on
/// inputs it rejects as malformed.
#[verifier::external_body]
fn zstd_decompress_raw(data: &Vec<u8>) -> (r: Result<Vec<u8>, ()>)
    ensures
        r is Ok <==> zstd_decompressed(data@) is Some,
        r is Ok ==> r->Ok_0@ == zstd_decompressed(data@)->0,
{
    match zstd::decode_all(data.as_slice()) {
        Ok(output) => Ok(output),
        Err(_) => Err(()),
    }
}

/// Relies on brotli::CompressorWriter at quality 6: deterministic in the
/// input and inverted by brotli::Decompressor.
#[verifier::external_body]
fn brotli_compress_raw(data: &Vec<u8>) -> (r: Result<Vec<u8>, ()>)
    ensures
        r is Ok ==> r->Ok_0@ == brotli_compressed(data@) && brotli_decompressed(
            brotli_compressed(data@),
        ) == Some(data@),
{
    let params = BrotliEncoderParams { quality: 6, ..Default::default() };
    let mut output = Vec::new();
    {
        let mut writer = brotli::CompressorWriter::with_params(&mut output, 4096, &params);
        if writer.write_all(data.as_slice()).is_err() {
            return Err(());
        }
        if writer.flush().is_err() {
            return Err(());
        }
    }
    Ok(output)
}

/// Relies on brotli::Decompressor: deterministic in the input; fails exactly
/// on inputs it rejects as malformed.
#[verifier::external_body]
fn brotli_decompress_raw(data: &Vec<u8>) -> (r: Result<Vec<u8>, ()>)
    ensures
        r is Ok <==> brotli_decompressed(data@) is Some,
        r is Ok ==> r->Ok_0@ == brotli_decompressed(data@)->0,
{
    let mut output = Vec::new();
    match brotli::Decompressor::new(std::io::Cursor::new(data.as_slice()), 4096).read_to_end(
        &mut output,
    ) {
        Ok(_) => Ok(output),
        Err(_) => Err(()),
    }
}

/// What compressing an input yields, per algorithm.
pub open spec fn compressed_spec(algorithm: CompressionAlgorithm, data: Seq<u8>) -> Seq<u8> {
    match algorithm {
        CompressionAlgorithm::NoCompression => data,
        CompressionAlgorithm::Lzma2 => lzma_compressed(data),
        CompressionAlgorithm::Zstd => zstd_compressed(data),
        CompressionAlgorithm::Brotli => brotli_compressed(data),
    }
}

/// What decompressing an input yields, per algorithm, if it is accepted.
pub open spec fn decompressed_spec(algorithm: CompressionAlgorithm, data: Seq<u8>) -> Option<
    Seq<u8>,
> {
    match algorithm {
        CompressionAlgorithm::NoCompression => Some(data),
        CompressionAlgorithm::Lzma2 => lzma_decompressed(data),
        CompressionAlgorithm::Zstd => zstd_decompressed(data),
        CompressionAlgorithm::Brotli => brotli_decompressed(data),
    }
}

/// Compresses data under the chosen algorithm. What it returns, the matching
/// decompression gives back unchanged.
pub fn compress_data(data: &Vec<u8>, algorithm: CompressionAlgorithm) -> (r: Result<
    Vec<u8>,
    SecureArcError,
>)
    ensures
        r is Ok ==> r->Ok_0@ == compressed_spec(algorithm, data@) && decompressed_spec(
            algorithm,
            r->Ok_0@,
        ) == Some(data@),
        algorithm == CompressionAlgorithm::NoCompression || algorithm
            == CompressionAlgorithm::Lzma2 ==> r is Ok,
        r is Err ==> r->Err_0 is CompressionError,
{
    let out = match algorithm {
        CompressionAlgorithm::NoCompression => Ok(copy_range(data, 0, data.len())),
        CompressionAlgorithm::Lzma2 => lzma_compress_raw(data),
        CompressionAlgorithm::Zstd => zstd_compress_raw(data),
        CompressionAlgorithm::Brotli => brotli_compress_raw(data),
    };
    match out {
        Ok(bytes) => {
            proof {
                if algorithm is NoCompression {
                    assert(bytes@ =~= data@);
                }
            }
            Ok(bytes)
        },
        Err(()) => Err(SecureArcError::CompressionError(String::from_str("compression failed"))),
    }
}

/// Decompresses data under the chosen algorithm: succeeds exactly when the
/// codec accepts the input, and then returns what it denotes.
pub fn decompress_data(compressed_data: &Vec<u8>, algorithm: CompressionAlgorithm) -> (r: Result<
    Vec<u8>,
    SecureArcError,
>)
    ensures
        r is Ok <==> decompressed_spec(algorithm, compressed_data@) is Some,
        r is Ok ==> r->Ok_0@ == decompressed_spec(algorithm, compressed_data@)->0,
        r is Err ==> r->Err_0 is CompressionError,
{
    let out = match algorithm {
        CompressionAlgorithm::NoCompression => Ok(copy_range(compressed_data, 0, compressed_data.len())),
        CompressionAlgorithm::Lzma2 => lzma_decompress_raw(compressed_data),
        CompressionAlgorithm::Zstd => zstd_decompress_raw(compressed_data),
        CompressionAlgorithm::Brotli => brotli_decompress_raw(compressed_data),
    };
    match out {
        Ok(bytes) => {
            proof {
                if algorithm is NoCompression {
                    assert(bytes@ =~= compressed_data@);
                }
            }
            Ok(bytes)
        },
        Err(()) => Err(
            SecureArcError::CompressionError(String::from_str("decompression failed")),
        ),
    }
}

} // verus!
