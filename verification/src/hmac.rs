//! Data model of the HMAC task's API: algorithms, sizes and errors.

use vstd::prelude::*;

verus! {

/// Errors of the HMAC task.
#[derive(Clone, Copy, Debug, PartialEq, Eq, Structural)]
pub enum MacError {
    /// Invalid session ID provided.
    InvalidSession,
    /// No free sessions available.
    TooManySessions,
    /// Input data length is invalid.
    InvalidInputLength,
    /// Invalid key length provided.
    InvalidKeyLength,
    /// Hardware failure occurred.
    HardwareFailure,
    /// Unsupported algorithm requested.
    UnsupportedAlgorithm,
    /// Task was restarted.
    TaskRestarted,
    /// Memory lease error.
    BadLease,
    /// Session algorithm mismatch.
    AlgorithmMismatch,
}

/// Hash algorithms supported for HMAC operations.
#[derive(Clone, Copy, Debug, PartialEq, Eq, Structural)]
pub enum HmacAlgorithm {
    Sha256,
    Sha384,
    Sha512,
}

/// Maximum key length supported, in bytes.
pub const MAX_KEY_LENGTH: usize = 128;

/// Maximum data length per update operation, in bytes.
pub const MAX_DATA_LENGTH: usize = 1024;

/// HMAC-SHA256 output size, in bytes.
pub const HMAC_SHA256_SIZE: usize = 32;

/// HMAC-SHA384 output size, in bytes.
pub const HMAC_SHA384_SIZE: usize = 48;

/// HMAC-SHA512 output size, in bytes.
pub const HMAC_SHA512_SIZE: usize = 64;

impl HmacAlgorithm {
    /// The algorithm's output size in bytes.
    pub fn output_size(&self) -> (r: usize)
        ensures
            r == (match self {
                HmacAlgorithm::Sha256 => HMAC_SHA256_SIZE as int,
                HmacAlgorithm::Sha384 => HMAC_SHA384_SIZE as int,
                HmacAlgorithm::Sha512 => HMAC_SHA512_SIZE as int,
            }),
    {
        match self {
            HmacAlgorithm::Sha256 => HMAC_SHA256_SIZE,
            HmacAlgorithm::Sha384 => HMAC_SHA384_SIZE,
            HmacAlgorithm::Sha512 => HMAC_SHA512_SIZE,
        }
    }

    /// Whether a key of the given length may be used.
    pub fn key_length_ok(&self, len: usize) -> (r: bool)
        ensures
            r == (len <= MAX_KEY_LENGTH),
    {
        len <= MAX_KEY_LENGTH
    }
}

} // verus!
