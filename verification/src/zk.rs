use vstd::prelude::*;

verus! {

/// Why a claim could not be checked at all.
#[derive(Clone, Copy, Debug, PartialEq, Eq, Structural)]
pub enum ZkError {
    /// The proof holds no bytes.
    EmptyProof,
    /// The claim holds no bytes.
    EmptyClaim,
}

/// The proof that is known to be invalid: the single byte 0x00.
pub open spec fn is_invalid_sentinel(proof: Seq<u8>) -> bool {
    proof.len() == 1 && proof[0] == 0u8
}

/// Checks `proof` against `claim`. Empty input is malformed; the single byte 0x00 is the
/// known-invalid proof, and every other proof of a non-empty claim is accepted.
pub fn verify_claim(proof: &[u8], claim: &[u8]) -> (r: Result<bool, ZkError>)
    ensures
        proof@.len() == 0 ==> r == Err::<bool, ZkError>(ZkError::EmptyProof),
        proof@.len() != 0 && claim@.len() == 0 ==> r == Err::<bool, ZkError>(ZkError::EmptyClaim),
        proof@.len() != 0 && claim@.len() != 0 ==> r == Ok::<bool, ZkError>(
            !is_invalid_sentinel(proof@),
        ),
{
    if proof.len() == 0 {
        return Err(ZkError::EmptyProof);
    }
    if claim.len() == 0 {
        return Err(ZkError::EmptyClaim);
    }
    Ok(!(proof.len() == 1 && proof[0] == 0u8))
}

} // verus!
