//! Validating a batch of transactions sequenced by consensus: the user
//! certificates and checkpoint signatures in it are verified together, then
//! the checkpoint signatures are handed on to the checkpoint service.
use vstd::prelude::*;

verus! {

/// A transaction sequenced by consensus, by kind. The payloads that
/// validation reads are the type parameters: a user certificate, and a
/// checkpoint signature message.
#[derive(Debug, PartialEq, Eq)]
pub enum ConsensusTransactionKind<Cert, Sig> {
    UserTransaction(Cert),
    CheckpointSignature(Sig),
    EndOfPublish,
    CapabilityNotification,
    NewJWKFetched,
    RandomnessStateUpdate,
    RandomnessDkgMessage,
    RandomnessDkgConfirmation,
}

/// What a batch hands to verification: its user certificates and its
/// checkpoint signature messages, each in the order of the batch.
#[derive(Debug, PartialEq, Eq)]
pub struct VerificationBatch<Cert, Sig> {
    pub certificates: Vec<Cert>,
    pub checkpoint_signatures: Vec<Sig>,
}

/// The user certificates of the transactions, in order.
pub open spec fn user_certificates<Cert, Sig>(txs: Seq<ConsensusTransactionKind<Cert, Sig>>) -> Seq<
    Cert,
>
    decreases txs.len(),
{
    if txs.len() == 0 {
        Seq::empty()
    } else {
        let rest = user_certificates(txs.drop_last());
        match txs.last() {
            ConsensusTransactionKind::UserTransaction(c) => rest.push(c),
            _ => rest,
        }
    }
}

/// The checkpoint signature messages of the transactions, in order.
pub open spec fn checkpoint_signatures<Cert, Sig>(
    txs: Seq<ConsensusTransactionKind<Cert, Sig>>,
) -> Seq<Sig>
    decreases txs.len(),
{
    if txs.len() == 0 {
        Seq::empty()
    } else {
        let rest = checkpoint_signatures(txs.drop_last());
        match txs.last() {
            ConsensusTransactionKind::CheckpointSignature(s) => rest.push(s),
            _ => rest,
        }
    }
}

/// Splits a batch into what is verified: the user certificates and the
/// checkpoint signatures, in order; the other kinds need no verification.
pub fn batch_for_verification<Cert, Sig>(txs: Vec<ConsensusTransactionKind<Cert, Sig>>) -> (r:
    VerificationBatch<Cert, Sig>)
    ensures
        r.certificates@ == user_certificates(txs@),
        r.checkpoint_signatures@ == checkpoint_signatures(txs@),
{
    let ghost all = txs@;
    let mut pending = txs;
    let mut reversed: Vec<ConsensusTransactionKind<Cert, Sig>> = Vec::new();
    while pending.len() > 0
        invariant
            pending@.len() <= all.len(),
            pending@ == all.take(pending@.len() as int),
            reversed@ == all.skip(pending@.len() as int).reverse(),
        decreases pending@.len(),
    {
        let ghost n = pending@.len() as int;
        let tx = pending.pop().unwrap();
        reversed.push(tx);
        proof {
            assert(pending@ =~= all.take(n - 1));
            assert(reversed@ =~= all.skip(n - 1).reverse());
        }
    }
    let mut certificates: Vec<Cert> = Vec::new();
    let mut checkpoint_sigs: Vec<Sig> = Vec::new();
    let ghost mut k: int = 0;
    proof {
        assert(all.skip(0) =~= all);
    }
    while reversed.len() > 0
        invariant
            0 <= k <= all.len(),
            reversed@ == all.skip(k).reverse(),
            certificates@ == user_certificates(all.take(k)),
            checkpoint_sigs@ == checkpoint_signatures(all.take(k)),
        decreases reversed@.len(),
    {
        let tx = reversed.pop().unwrap();
        proof {
            assert(all.skip(k).reverse().last() == all[k]);
            assert(all.take(k + 1).drop_last() =~= all.take(k));
            assert(all.take(k + 1).last() == all[k]);
        }
        match tx {
            ConsensusTransactionKind::UserTransaction(c) => certificates.push(c),
            ConsensusTransactionKind::CheckpointSignature(s) => checkpoint_sigs.push(s),
            _ => {},
        }
        proof {
            k = k + 1;
            assert(reversed@ =~= all.skip(k).reverse());
        }
    }
    proof {
        assert(all.take(k) =~= all);
    }
    VerificationBatch { certificates, checkpoint_signatures: checkpoint_sigs }
}

} // verus!
