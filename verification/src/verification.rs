//! The worker that checks an image against its expected hash.
use vstd::prelude::*;

verus! {

/// Makes verifier workers.
#[derive(Debug, PartialEq, Eq, Structural, Clone, Copy)]
pub struct VerifierFactory;

/// What a verifier checks.
#[derive(Debug, PartialEq, Eq, Clone)]
pub struct VerifierParams {
    /// File to verify
    pub file: String,
    /// How many bytes from the front of the file to digest for our calculation
    pub bytes_to_verify: u64,
    /// The expected hash at the end
    pub expected_sha256: Vec<u8>,
}

} // verus!
