//! The security header: KDF parameters, attempt counter, checksum and
//! destruction flag, with its deterministic binary encoding.

use vstd::prelude::*;
use crate::algs::{
    CompressionAlgorithm, EncryptionAlgorithm, KdfAlgorithm, comp_alg_from_id, comp_alg_id,
    comp_alg_of_id, enc_alg_from_id, enc_alg_id, enc_alg_of_id, kdf_alg_from_id, kdf_alg_id,
    kdf_alg_of_id, CHECKSUM_SIZE, MAX_MAX_ATTEMPTS, MIN_MAX_ATTEMPTS, SALT_SIZE,
};
use crate::errors::SecureArcError;
use crate::le::{
    copy_range, push_u32_le, read_u32_le, u32_from_le_bytes, u32_le_bytes, lemma_u32_le_roundtrip,
};
use crate::rng::fill_random;

verus! {

/// Encoded header length in bytes.
pub const HEADER_SIZE: usize = 88;

/// Mathematical model of a security header.
#[verifier::ext_equal]
pub ghost struct HeaderV {
    pub kdf_algorithm: KdfAlgorithm,
    pub kdf_memory: u32,
    pub kdf_iterations: u32,
    pub kdf_parallelism: u32,
    pub encryption_algorithm: EncryptionAlgorithm,
    pub compression_algorithm: CompressionAlgorithm,
    pub salt: Seq<u8>,
    pub attempt_counter: u32,
    pub max_attempts: u32,
    pub checksum: Seq<u8>,
    pub destroyed: bool,
}

impl HeaderV {
    /// Salt and checksum have their fixed sizes.
    pub open spec fn wf(self) -> bool {
        &&& self.salt.len() == SALT_SIZE
        &&& self.checksum.len() == CHECKSUM_SIZE
    }

    /// `max_attempts` lies in its allowed range.
    pub open spec fn max_attempts_ok(self) -> bool {
        MIN_MAX_ATTEMPTS <= self.max_attempts <= MAX_MAX_ATTEMPTS
    }
}

/// Security header containing KDF parameters, attempt counter, and integrity
/// checksum.
pub struct SecurityHeader {
    /// KDF algorithm.
    pub kdf_algorithm: KdfAlgorithm,
    /// KDF memory cost (for Argon2, in KB).
    pub kdf_memory: u32,
    /// KDF iterations.
    pub kdf_iterations: u32,
    /// KDF parallelism (threads).
    pub kdf_parallelism: u32,
    /// Encryption algorithm.
    pub encryption_algorithm: EncryptionAlgorithm,
    /// Compression algorithm.
    pub compression_algorithm: CompressionAlgorithm,
    /// Salt for key derivation (32 bytes).
    pub salt: Vec<u8>,
    /// Current failed attempt counter.
    pub attempt_counter: u32,
    /// Maximum allowed attempts before destruction.
    pub max_attempts: u32,
    /// Header checksum (HMAC-SHA256, 32 bytes).
    pub checksum: Vec<u8>,
    /// Destruction flag.
    pub destroyed: bool,
}

impl View for SecurityHeader {
    type V = HeaderV;

    open spec fn view(&self) -> HeaderV {
        HeaderV {
            kdf_algorithm: self.kdf_algorithm,
            kdf_memory: self.kdf_memory,
            kdf_iterations: self.kdf_iterations,
            kdf_parallelism: self.kdf_parallelism,
            encryption_algorithm: self.encryption_algorithm,
            compression_algorithm: self.compression_algorithm,
            salt: self.salt@,
            attempt_counter: self.attempt_counter,
            max_attempts: self.max_attempts,
            checksum: self.checksum@,
            destroyed: self.destroyed,
        }
    }
}

/// A sequence of `n` zero bytes.
pub open spec fn zero_bytes(n: nat) -> Seq<u8> {
    Seq::new(n, |i: int| 0u8)
}

/// The byte a boolean is stored as.
pub open spec fn bool_byte(b: bool) -> u8 {
    if b {
        1
    } else {
        0
    }
}

/// Encoding of a header with `cs` in place of its checksum field.
pub open spec fn header_bytes_with(h: HeaderV, cs: Seq<u8>) -> Seq<u8> {
    seq![kdf_alg_id(h.kdf_algorithm)] + u32_le_bytes(h.kdf_memory) + u32_le_bytes(h.kdf_iterations)
        + u32_le_bytes(h.kdf_parallelism) + seq![
        enc_alg_id(h.encryption_algorithm),
        comp_alg_id(h.compression_algorithm),
    ] + h.salt + u32_le_bytes(h.attempt_counter) + u32_le_bytes(h.max_attempts) + cs + seq![
        bool_byte(h.destroyed),
    ]
}

/// The deterministic encoding of a header.
pub open spec fn header_bytes(h: HeaderV) -> Seq<u8> {
    header_bytes_with(h, h.checksum)
}

/// The bytes the header checksum is computed over: the encoding with the
/// checksum field zeroed.
pub open spec fn header_hmac_input(h: HeaderV) -> Seq<u8> {
    header_bytes_with(h, zero_bytes(CHECKSUM_SIZE as nat))
}

/// The header denoted by an 88-byte encoding, if well-formed.
pub open spec fn parse_header_spec(b: Seq<u8>) -> Option<HeaderV> {
    if b.len() != HEADER_SIZE {
        None
    } else {
        match kdf_alg_of_id(b[0]) {
            Option::None => None,
            Option::Some(kdf) => match enc_alg_of_id(b[13]) {
                Option::None => None,
                Option::Some(enc) => match comp_alg_of_id(b[14]) {
                    Option::None => None,
                    Option::Some(comp) => if b[87] == 0 || b[87] == 1 {
                        Some(
                            HeaderV {
                                kdf_algorithm: kdf,
                                kdf_memory: u32_from_le_bytes(b.subrange(1, 5)),
                                kdf_iterations: u32_from_le_bytes(b.subrange(5, 9)),
                                kdf_parallelism: u32_from_le_bytes(b.subrange(9, 13)),
                                encryption_algorithm: enc,
                                compression_algorithm: comp,
                                salt: b.subrange(15, 47),
                                attempt_counter: u32_from_le_bytes(b.subrange(47, 51)),
                                max_attempts: u32_from_le_bytes(b.subrange(51, 55)),
                                checksum: b.subrange(55, 87),
                                destroyed: b[87] == 1,
                            },
                        )
                    } else {
                        None
                    },
                },
            },
        }
    }
}

/// Field-by-field description of a header encoding.
pub proof fn lemma_header_bytes_fields(h: HeaderV, cs: Seq<u8>)
    requires
        h.salt.len() == SALT_SIZE,
        cs.len() == CHECKSUM_SIZE,
    ensures
        header_bytes_with(h, cs).len() == HEADER_SIZE,
        header_bytes_with(h, cs)[0] == kdf_alg_id(h.kdf_algorithm),
        header_bytes_with(h, cs).subrange(1, 5) == u32_le_bytes(h.kdf_memory),
        header_bytes_with(h, cs).subrange(5, 9) == u32_le_bytes(h.kdf_iterations),
        header_bytes_with(h, cs).subrange(9, 13) == u32_le_bytes(h.kdf_parallelism),
        header_bytes_with(h, cs)[13] == enc_alg_id(h.encryption_algorithm),
        header_bytes_with(h, cs)[14] == comp_alg_id(h.compression_algorithm),
        header_bytes_with(h, cs).subrange(15, 47) == h.salt,
        header_bytes_with(h, cs).subrange(47, 51) == u32_le_bytes(h.attempt_counter),
        header_bytes_with(h, cs).subrange(51, 55) == u32_le_bytes(h.max_attempts),
        header_bytes_with(h, cs).subrange(55, 87) == cs,
        header_bytes_with(h, cs)[87] == bool_byte(h.destroyed),
{
    let b = header_bytes_with(h, cs);
    assert(b.len() == HEADER_SIZE);
    assert(b.subrange(1, 5) =~= u32_le_bytes(h.kdf_memory));
    assert(b.subrange(5, 9) =~= u32_le_bytes(h.kdf_iterations));
    assert(b.subrange(9, 13) =~= u32_le_bytes(h.kdf_parallelism));
    assert(b.subrange(15, 47) =~= h.salt);
    assert(b.subrange(47, 51) =~= u32_le_bytes(h.attempt_counter));
    assert(b.subrange(51, 55) =~= u32_le_bytes(h.max_attempts));
    assert(b.subrange(55, 87) =~= cs);
}

/// Parsing the encoding of a well-formed header gives the header back.
pub proof fn lemma_header_roundtrip(h: HeaderV)
    requires
        h.wf(),
    ensures
        parse_header_spec(header_bytes(h)) == Some(h),
{
    let b = header_bytes(h);
    lemma_header_bytes_fields(h, h.checksum);
    lemma_u32_le_roundtrip(h.kdf_memory);
    lemma_u32_le_roundtrip(h.kdf_iterations);
    lemma_u32_le_roundtrip(h.kdf_parallelism);
    lemma_u32_le_roundtrip(h.attempt_counter);
    lemma_u32_le_roundtrip(h.max_attempts);
    assert(parse_header_spec(b) is Some);
    assert(parse_header_spec(b)->0 =~= h);
}

/// The checksum input does not depend on the checksum field: two headers that
/// agree on everything else have the same checksum input.
pub proof fn lemma_hmac_input_ignores_checksum(h1: HeaderV, h2: HeaderV)
    requires
        h1 == (HeaderV { checksum: h1.checksum, ..h2 }),
    ensures
        header_hmac_input(h1) == header_hmac_input(h2),
{
}

/// The checksum input depends on every other header field: two well-formed
/// headers with the same checksum input agree on every field but the checksum.
pub proof fn lemma_hmac_input_injective(h1: HeaderV, h2: HeaderV)
    requires
        h1.wf(),
        h2.wf(),
        header_hmac_input(h1) == header_hmac_input(h2),
    ensures
        h1 == (HeaderV { checksum: h1.checksum, ..h2 }),
{
    let z = zero_bytes(CHECKSUM_SIZE as nat);
    let b1 = header_hmac_input(h1);
    let b2 = header_hmac_input(h2);
    lemma_header_bytes_fields(h1, z);
    lemma_header_bytes_fields(h2, z);
    lemma_u32_le_roundtrip(h1.kdf_memory);
    lemma_u32_le_roundtrip(h2.kdf_memory);
    lemma_u32_le_roundtrip(h1.kdf_iterations);
    lemma_u32_le_roundtrip(h2.kdf_iterations);
    lemma_u32_le_roundtrip(h1.kdf_parallelism);
    lemma_u32_le_roundtrip(h2.kdf_parallelism);
    lemma_u32_le_roundtrip(h1.attempt_counter);
    lemma_u32_le_roundtrip(h2.attempt_counter);
    lemma_u32_le_roundtrip(h1.max_attempts);
    lemma_u32_le_roundtrip(h2.max_attempts);
    assert(kdf_alg_id(h1.kdf_algorithm) == kdf_alg_id(h2.kdf_algorithm));
    assert(h1.kdf_algorithm == h2.kdf_algorithm);
    assert(h1.encryption_algorithm == h2.encryption_algorithm);
    assert(h1.compression_algorithm == h2.compression_algorithm);
    assert(h1.salt =~= h2.salt);
    assert(bool_byte(h1.destroyed) == bool_byte(h2.destroyed));
    assert(h1.destroyed == h2.destroyed);
}

/// Returns a vector of `n` zero bytes.
pub fn zero_vec(n: usize) -> (r: Vec<u8>)
    ensures
        r@ == zero_bytes(n as nat),
{
    let mut v: Vec<u8> = Vec::new();
    let mut i: usize = 0;
    while i < n
        invariant
            i <= n,
            v@ == zero_bytes(i as nat),
        decreases n - i,
    {
        v.push(0);
        proof {
            assert(v@ =~= zero_bytes(i as nat + 1));
        }
        i = i + 1;
    }
    v
}

/// Serializes a header with `cs` in place of the checksum field.
fn serialize_header_with(h: &SecurityHeader, cs: &Vec<u8>) -> (r: Vec<u8>)
    requires
        h@.wf(),
        cs@.len() == CHECKSUM_SIZE,
    ensures
        r@ == header_bytes_with(h@, cs@),
{
    let mut out: Vec<u8> = Vec::new();
    out.push(crate::algs::kdf_alg_to_id(h.kdf_algorithm));
    push_u32_le(&mut out, h.kdf_memory);
    push_u32_le(&mut out, h.kdf_iterations);
    push_u32_le(&mut out, h.kdf_parallelism);
    out.push(crate::algs::enc_alg_to_id(h.encryption_algorithm));
    out.push(crate::algs::comp_alg_to_id(h.compression_algorithm));
    let mut i: usize = 0;
    while i < h.salt.len()
        invariant
            i <= h.salt@.len(),
            out@ == seq![kdf_alg_id(h@.kdf_algorithm)] + u32_le_bytes(h@.kdf_memory) + u32_le_bytes(
                h@.kdf_iterations,
            ) + u32_le_bytes(h@.kdf_parallelism) + seq![
                enc_alg_id(h@.encryption_algorithm),
                comp_alg_id(h@.compression_algorithm),
            ] + h@.salt.subrange(0, i as int),
        decreases h.salt@.len() - i,
    {
        out.push(h.salt[i]);
        proof {
            assert(out@ =~= seq![kdf_alg_id(h@.kdf_algorithm)] + u32_le_bytes(h@.kdf_memory)
                + u32_le_bytes(h@.kdf_iterations) + u32_le_bytes(h@.kdf_parallelism) + seq![
                enc_alg_id(h@.encryption_algorithm),
                comp_alg_id(h@.compression_algorithm),
            ] + h@.salt.subrange(0, i as int + 1));
        }
        i = i + 1;
    }
    proof {
        assert(h@.salt.subrange(0, h@.salt.len() as int) =~= h@.salt);
    }
    push_u32_le(&mut out, h.attempt_counter);
    push_u32_le(&mut out, h.max_attempts);
    let mut j: usize = 0;
    let ghost prefix = out@;
    while j < cs.len()
        invariant
            j <= cs@.len(),
            out@ == prefix + cs@.subrange(0, j as int),
        decreases cs@.len() - j,
    {
        out.push(cs[j]);
        proof {
            assert(out@ =~= prefix + cs@.subrange(0, j as int + 1));
        }
        j = j + 1;
    }
    proof {
        assert(cs@.subrange(0, cs@.len() as int) =~= cs@);
    }
    if h.destroyed {
        out.push(1);
    } else {
        out.push(0);
    }
    proof {
        assert(out@ =~= header_bytes_with(h@, cs@));
    }
    out
}

/// Serializes a header into its deterministic 88-byte encoding.
pub fn serialize_header(h: &SecurityHeader) -> (r: Vec<u8>)
    requires
        h@.wf(),
    ensures
        r@ == header_bytes(h@),
{
    let cs = copy_range(&h.checksum, 0, h.checksum.len());
    proof {
        assert(cs@ =~= h@.checksum);
    }
    serialize_header_with(h, &cs)
}

/// Serializes a header with the checksum field zeroed: the input bytes of the
/// header checksum.
pub fn serialize_header_hmac_input(h: &SecurityHeader) -> (r: Vec<u8>)
    requires
        h@.wf(),
    ensures
        r@ == header_hmac_input(h@),
{
    let z = zero_vec(CHECKSUM_SIZE);
    serialize_header_with(h, &z)
}

/// Parses an 88-byte header encoding.
pub fn parse_header(data: &Vec<u8>) -> (r: Option<SecurityHeader>)
    ensures
        r is Some <==> parse_header_spec(data@) is Some,
        r is Some ==> r->0@ == parse_header_spec(data@)->0 && r->0@.wf(),
{
    let n = data.len();
    if n != HEADER_SIZE {
        return None;
    }
    let kdf = match kdf_alg_from_id(data[0]) {
        Some(k) => k,
        Option::None => {
            return None;
        },
    };
    let enc = match enc_alg_from_id(data[13]) {
        Some(e) => e,
        Option::None => {
            return None;
        },
    };
    let comp = match comp_alg_from_id(data[14]) {
        Some(c) => c,
        Option::None => {
            return None;
        },
    };
    let flag = data[87];
    if flag != 0 && flag != 1 {
        return None;
    }
    let h = SecurityHeader {
        kdf_algorithm: kdf,
        kdf_memory: read_u32_le(data, 1),
        kdf_iterations: read_u32_le(data, 5),
        kdf_parallelism: read_u32_le(data, 9),
        encryption_algorithm: enc,
        compression_algorithm: comp,
        salt: copy_range(data, 15, 32),
        attempt_counter: read_u32_le(data, 47),
        max_attempts: read_u32_le(data, 51),
        checksum: copy_range(data, 55, 32),
        destroyed: flag == 1,
    };
    Some(h)
}

impl SecurityHeader {
    /// Creates a new security header with default Argon2id parameters and a
    /// fresh random salt. Rejects a `max_attempts` outside `[3, 99]`.
    pub fn new(max_attempts: u32) -> (r: Result<Self, SecureArcError>)
        ensures
            r is Ok <==> MIN_MAX_ATTEMPTS <= max_attempts <= MAX_MAX_ATTEMPTS,
            r is Ok ==> ({
                let h = r->Ok_0@;
                &&& h.wf()
                &&& h.kdf_algorithm == KdfAlgorithm::Argon2id
                &&& h.kdf_memory == 65536u32
                &&& h.kdf_iterations == 3u32
                &&& h.kdf_parallelism == 4u32
                &&& h.encryption_algorithm == EncryptionAlgorithm::Aes256Gcm
                &&& h.compression_algorithm == CompressionAlgorithm::Lzma2
                &&& h.attempt_counter == 0u32
                &&& h.max_attempts == max_attempts
                &&& h.checksum == zero_bytes(CHECKSUM_SIZE as nat)
                &&& !h.destroyed
            }),
            r is Err ==> r->Err_0 is InvalidConfiguration,
    {
        if max_attempts < MIN_MAX_ATTEMPTS || max_attempts > MAX_MAX_ATTEMPTS {
            return Err(
                SecureArcError::InvalidConfiguration(
                    String::from_str("max_attempts must be between 3 and 99"),
                ),
            );
        }
        let salt = fill_random(SALT_SIZE);
        Ok(
            SecurityHeader {
                kdf_algorithm: KdfAlgorithm::Argon2id,
                kdf_memory: 65536,
                kdf_iterations: 3,
                kdf_parallelism: 4,
                encryption_algorithm: EncryptionAlgorithm::Aes256Gcm,
                compression_algorithm: CompressionAlgorithm::Lzma2,
                salt,
                attempt_counter: 0,
                max_attempts,
                checksum: zero_vec(CHECKSUM_SIZE),
                destroyed: false,
            },
        )
    }

    /// Validates header parameters: rejects an out-of-range `max_attempts`
    /// with `InvalidConfiguration`, and a counter past its bound or a set
    /// destruction flag with `ArchiveDestroyed`.
    pub fn validate(&self) -> (r: Result<(), SecureArcError>)
        ensures
            r is Ok <==> (self@.max_attempts_ok() && self.attempt_counter <= self.max_attempts
                && !self.destroyed),
            r is Err ==> (r->Err_0 is InvalidConfiguration <==> !self@.max_attempts_ok()),
            r is Err && self@.max_attempts_ok() ==> r->Err_0 is ArchiveDestroyed,
    {
        if self.max_attempts < MIN_MAX_ATTEMPTS || self.max_attempts > MAX_MAX_ATTEMPTS {
            return Err(
                SecureArcError::InvalidConfiguration(
                    String::from_str("max_attempts out of range"),
                ),
            );
        }
        if self.attempt_counter > self.max_attempts {
            return Err(SecureArcError::ArchiveDestroyed);
        }
        if self.destroyed {
            return Err(SecureArcError::ArchiveDestroyed);
        }
        Ok(())
    }

    /// True when the archive must be treated as destroyed: the counter has
    /// reached its bound or the flag is set.
    pub fn should_destroy(&self) -> (r: bool)
        ensures
            r == (self.attempt_counter >= self.max_attempts || self.destroyed),
    {
        self.attempt_counter >= self.max_attempts || self.destroyed
    }
}

} // verus!
