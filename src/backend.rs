//! Proving backends and the judgement of a proof against the commitment the
//! caller expects (the target block's hash).
use vstd::prelude::*;
use crate::bytes::bytes_eq;

verus! {

/// A proving backend; each runs a separately built guest program.
#[derive(Debug, Clone, Copy, PartialEq, Eq, Structural)]
pub enum Backend {
    Sp1,
    Risc0,
}

/// Why a proof was not accepted.
#[derive(Debug, Clone, Copy, PartialEq, Eq, Structural)]
pub enum VerifyError {
    /// The backend's verifier rejected the proof itself.
    InvalidProof,
    /// A valid proof commits to something other than what was expected: a
    /// correctness fault, worse than an invalid proof.
    CommitmentMismatch,
}

/// The judgement on a proof whose validity the backend has reported.
pub open spec fn judgement(valid: bool, revealed: Seq<u8>, expected: Seq<u8>) -> Result<
    (),
    VerifyError,
> {
    if !valid {
        Err(VerifyError::InvalidProof)
    } else if revealed != expected {
        Err(VerifyError::CommitmentMismatch)
    } else {
        Ok(())
    }
}

/// Judges a proof: the backend's own validity check, then the revealed
/// commitment against the expected one.
pub fn check_proof(valid: bool, revealed: &[u8], expected: &[u8]) -> (r: Result<(), VerifyError>)
    ensures
        r == judgement(valid, revealed@, expected@),
{
    if !valid {
        Err(VerifyError::InvalidProof)
    } else if !bytes_eq(revealed, expected) {
        Err(VerifyError::CommitmentMismatch)
    } else {
        Ok(())
    }
}

/// Whether a proof that the backend found valid commits to `expected`.
pub fn verify(revealed: &[u8], expected: &[u8]) -> (r: bool)
    ensures
        r == (revealed@ == expected@),
        r == (judgement(true, revealed@, expected@) is Ok),
{
    check_proof(true, revealed, expected).is_ok()
}

/// Once a commitment verifies against `expected`, changing any one byte of
/// `expected` makes it fail, as a mismatch.
pub proof fn lemma_mutated_expectation_fails(revealed: Seq<u8>, expected: Seq<u8>, i: int, b: u8)
    requires
        judgement(true, revealed, expected) is Ok,
        0 <= i < expected.len(),
        b != expected[i],
    ensures
        judgement(true, revealed, expected.update(i, b)) == Err::<(), VerifyError>(
            VerifyError::CommitmentMismatch,
        ),
{
    assert(expected.update(i, b)[i] != revealed[i]);
}

} // verus!
