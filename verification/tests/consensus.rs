use iota_logic::consensus::{batch_for_verification, ConsensusTransactionKind};

#[test]
fn certificates_and_signatures_are_split_out_in_order() {
    let txs: Vec<ConsensusTransactionKind<&str, u64>> = vec![
        ConsensusTransactionKind::CheckpointSignature(7),
        ConsensusTransactionKind::UserTransaction("a"),
        ConsensusTransactionKind::EndOfPublish,
        ConsensusTransactionKind::UserTransaction("b"),
        ConsensusTransactionKind::RandomnessDkgMessage,
        ConsensusTransactionKind::CheckpointSignature(9),
        ConsensusTransactionKind::CapabilityNotification,
    ];
    let batch = batch_for_verification(txs);
    assert_eq!(batch.certificates, vec!["a", "b"]);
    assert_eq!(batch.checkpoint_signatures, vec![7, 9]);
}

#[test]
fn batch_without_payloads_verifies_nothing() {
    let txs: Vec<ConsensusTransactionKind<String, String>> = vec![
        ConsensusTransactionKind::NewJWKFetched,
        ConsensusTransactionKind::RandomnessStateUpdate,
        ConsensusTransactionKind::RandomnessDkgConfirmation,
    ];
    let batch = batch_for_verification(txs);
    assert!(batch.certificates.is_empty());
    assert!(batch.checkpoint_signatures.is_empty());
    let empty: Vec<ConsensusTransactionKind<u8, u8>> = vec![];
    assert!(batch_for_verification(empty).certificates.is_empty());
}
