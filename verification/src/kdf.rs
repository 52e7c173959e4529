//! Password-based key derivation: Argon2id and PBKDF2-HMAC-SHA256.

use vstd::prelude::*;
use crate::algs::KdfAlgorithm;
use crate::errors::SecureArcError;

verus! {

/// The 32-byte Argon2id (v0x13) key derived from a password, salt and cost
/// parameters. Stands for what `argon2::Argon2::hash_password_into` computes:
/// a function of its arguments alone.
pub uninterp spec fn argon2id_key_of(
    password: Seq<u8>,
    salt: Seq<u8>,
    memory: u32,
    iterations: u32,
    parallelism: u32,
) -> Seq<u8>;

/// The 32-byte PBKDF2-HMAC-SHA256 key derived from a password, salt and
/// iteration count. Stands for what `pbkdf2::pbkdf2_hmac` computes: a
/// function of its arguments alone.
pub uninterp spec fn pbkdf2_key_of(password: Seq<u8>, salt: Seq<u8>, iterations: u32) -> Seq<u8>;

/// Relies on argon2::Argon2::hash_password_into with Algorithm::Argon2id,
/// Version::V0x13 and a 32-byte output: deterministic in password, salt and
/// cost parameters, and total for the admitted ranges (the crate rejects only
/// a salt outside [8, 2^32) bytes, a password of 2^32 bytes or more, memory
/// below 8 blocks or below 8 * parallelism, zero iterations, or parallelism
/// outside [1, 2^24)).
#[verifier::external_body]
fn argon2id_derive(
    password: &Vec<u8>,
    salt: &Vec<u8>,
    memory: u32,
    iterations: u32,
    parallelism: u32,
) -> (r: Result<Vec<u8>, ()>)
    requires
        password@.len() < 0x100000000,
        8 <= salt@.len() < 0x100000000,
        memory >= 8,
        memory >= 8 * parallelism,
        iterations >= 1,
        1 <= parallelism < 0x1000000,
    ensures
        r is Ok,
        r is Ok ==> r->Ok_0@ == argon2id_key_of(password@, salt@, memory, iterations, parallelism)
            && r->Ok_0@.len() == 32,
{
    let params = match argon2::Params::new(memory, iterations, parallelism, Some(32)) {
        Ok(p) => p,
        Err(_) => {
            return Err(());
        },
    };
    let ctx = argon2::Argon2::new(argon2::Algorithm::Argon2id, argon2::Version::V0x13, params);
    let mut key = [0u8; 32];
    match ctx.hash_password_into(password.as_slice(), salt.as_slice(), &mut key) {
        Ok(()) => Ok(key.to_vec()),
        Err(_) => Err(()),
    }
}

/// Relies on pbkdf2::pbkdf2_hmac::<sha2::Sha256>: deterministic in password,
/// salt and rounds; fills the 32-byte output buffer and cannot fail.
#[verifier::external_body]
fn pbkdf2_derive(password: &Vec<u8>, salt: &Vec<u8>, iterations: u32) -> (r: Vec<u8>)
    requires
        iterations >= 1,
    ensures
        r@ == pbkdf2_key_of(password@, salt@, iterations),
        r@.len() == 32,
{
    let mut key = [0u8; 32];
    pbkdf2::pbkdf2_hmac::<sha2::Sha256>(
        password.as_slice(),
        salt.as_slice(),
        iterations,
        &mut key,
    );
    key.to_vec()
}

/// Key derivation parameters.
#[derive(Debug, Clone, Copy, PartialEq, Eq, Structural)]
pub struct KdfParams {
    /// Algorithm to use.
    pub algorithm: KdfAlgorithm,
    /// Memory cost (for Argon2, in KB).
    pub memory: u32,
    /// Iterations.
    pub iterations: u32,
    /// Parallelism (threads).
    pub parallelism: u32,
}

impl Default for KdfParams {
    /// The default parameters: Argon2id with 64 MB of memory, 3 iterations
    /// and parallelism 4.
    fn default() -> (r: Self)
        ensures
            r == (KdfParams {
                algorithm: KdfAlgorithm::Argon2id,
                memory: 65536u32,
                iterations: 3u32,
                parallelism: 4u32,
            }),
    {
        KdfParams {
            algorithm: KdfAlgorithm::Argon2id,
            memory: 65536,
            iterations: 3,
            parallelism: 4,
        }
    }
}

/// The cost parameters this format accepts, per algorithm: for Argon2id, at
/// least 8192 KB of memory, at least one iteration and parallelism in
/// [1, 16]; for PBKDF2, at least 1000 iterations.
pub open spec fn kdf_params_ok(params: KdfParams) -> bool {
    match params.algorithm {
        KdfAlgorithm::Argon2id => params.memory >= 8192 && params.iterations >= 1 && 1
            <= params.parallelism <= 16,
        KdfAlgorithm::Pbkdf2Sha256 => params.iterations >= 1000,
    }
}

/// The machine-size limits the Argon2id implementation puts on its byte
/// inputs; PBKDF2 puts none.
pub open spec fn kdf_inputs_ok(params: KdfParams, password: Seq<u8>, salt: Seq<u8>) -> bool {
    match params.algorithm {
        KdfAlgorithm::Argon2id => password.len() < 0x100000000 && 8 <= salt.len() < 0x100000000,
        KdfAlgorithm::Pbkdf2Sha256 => true,
    }
}

/// The 32-byte key derived for the given algorithm, inputs and parameters.
pub open spec fn derived_key_of(params: KdfParams, password: Seq<u8>, salt: Seq<u8>) -> Seq<u8> {
    match params.algorithm {
        KdfAlgorithm::Argon2id => argon2id_key_of(
            password,
            salt,
            params.memory,
            params.iterations,
            params.parallelism,
        ),
        KdfAlgorithm::Pbkdf2Sha256 => pbkdf2_key_of(password, salt, params.iterations),
    }
}

/// Derives a 32-byte key from a password and salt. Rejects parameters outside
/// the accepted cost ranges with `InvalidConfiguration`, and byte inputs the
/// Argon2id implementation cannot take with `KeyDerivationError`.
pub fn derive_key(password: &Vec<u8>, salt: &Vec<u8>, params: &KdfParams) -> (r: Result<
    Vec<u8>,
    SecureArcError,
>)
    ensures
        r is Ok <==> (kdf_params_ok(*params) && kdf_inputs_ok(*params, password@, salt@)),
        r is Ok ==> r->Ok_0@ == derived_key_of(*params, password@, salt@) && r->Ok_0@.len() == 32,
        r is Err ==> (r->Err_0 is InvalidConfiguration <==> !kdf_params_ok(*params)),
        r is Err && kdf_params_ok(*params) ==> r->Err_0 is KeyDerivationError,
{
    match params.algorithm {
        KdfAlgorithm::Argon2id => {
            if params.memory < 8192 {
                return Err(
                    SecureArcError::InvalidConfiguration(
                        String::from_str("Argon2 memory must be at least 8 MB"),
                    ),
                );
            }
            if params.iterations < 1 {
                return Err(
                    SecureArcError::InvalidConfiguration(
                        String::from_str("Argon2 iterations must be at least 1"),
                    ),
                );
            }
            if params.parallelism < 1 || params.parallelism > 16 {
                return Err(
                    SecureArcError::InvalidConfiguration(
                        String::from_str("Argon2 parallelism must be between 1 and 16"),
                    ),
                );
            }
            if salt.len() < 8 || (salt.len() as u64) >= 0x100000000u64 || (password.len() as u64)
                >= 0x100000000u64 {
                return Err(
                    SecureArcError::KeyDerivationError(
                        String::from_str("salt or password length out of range"),
                    ),
                );
            }
            match argon2id_derive(password, salt, params.memory, params.iterations, params.parallelism) {
                Ok(key) => Ok(key),
                Err(()) => Err(
                    SecureArcError::KeyDerivationError(
                        String::from_str("Argon2 key derivation failed"),
                    ),
                ),
            }
        },
        KdfAlgorithm::Pbkdf2Sha256 => {
            if params.iterations < 1000 {
                return Err(
                    SecureArcError::InvalidConfiguration(
                        String::from_str("PBKDF2 iterations must be at least 1000"),
                    ),
                );
            }
            Ok(pbkdf2_derive(password, salt, params.iterations))
        },
    }
}

} // verus!
