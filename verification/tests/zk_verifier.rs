use ttl_legacy::zk::{verify_claim, ZkError};

/// Valid proof and claim — must return true.
#[test]
fn test_valid_proof_returns_true() {
    let proof = [0xde, 0xad, 0xbe, 0xef];
    let claim = [0xca, 0xfe, 0xba, 0xbe];
    assert!(verify_claim(&proof, &claim).unwrap());
}

/// Invalid proof (0x00 sentinel) — must return false.
#[test]
fn test_invalid_proof_returns_false() {
    let proof = [0x00];
    let claim = [0xca, 0xfe, 0xba, 0xbe];
    assert!(!verify_claim(&proof, &claim).unwrap());
}

/// Malformed input: empty proof — refused with EmptyProof (#1).
#[test]
fn test_malformed_empty_proof_panics() {
    let proof: [u8; 0] = [];
    let claim = [0xca, 0xfe, 0xba, 0xbe];
    assert_eq!(verify_claim(&proof, &claim), Err(ZkError::EmptyProof));
}

/// Malformed input: empty claim — refused with EmptyClaim (#2).
#[test]
fn test_malformed_empty_claim_panics() {
    let proof = [0xde, 0xad, 0xbe, 0xef];
    let claim: [u8; 0] = [];
    assert_eq!(verify_claim(&proof, &claim), Err(ZkError::EmptyClaim));
}

#[test]
fn sentinel_only_rejects_the_single_zero_byte() {
    assert!(verify_claim(&[0x00, 0x00], &[1]).unwrap());
    assert!(verify_claim(&[0x01], &[1]).unwrap());
    assert_eq!(verify_claim(&[], &[]), Err(ZkError::EmptyProof));
}
