//! The ways in which the ledger turns a request down.

use vstd::prelude::*;

verus! {

/// Why a key, a transaction or a block was not accepted.
#[derive(Debug, PartialEq, Eq)]
pub enum LedgerError {
    /// A signature does not verify against the sender key that the
    /// transaction declares. Carries the digest of the transaction's encoding
    /// and the amount it declares.
    InvalidSignature { transaction_hash: Vec<u8>, amount: u64 },
    /// The sender's replayed balance is below the amount to be sent.
    InsufficientBalance,
    /// The block's digest has fewer leading zero bits than the difficulty asks.
    ProofOfWorkInvalid,
    /// The block does not name the digest of the chain's last block as its
    /// predecessor.
    ChainLinkMismatch,
    /// Bytes that should hold a key or a signature have the wrong length or
    /// do not decode.
    MalformedKeyOrSignature,
    /// Every nonce from the starting one up to the largest was tried and none
    /// gave a digest that meets the difficulty.
    NonceSpaceExhausted,
    /// The block would take the chain past the number of transfers whose
    /// balances are guaranteed to fit the balance type.
    LedgerFull,
}

/// What a [`LedgerError`] holds.
pub enum LedgerErrorView {
    InvalidSignature { transaction_hash: Seq<u8>, amount: u64 },
    InsufficientBalance,
    ProofOfWorkInvalid,
    ChainLinkMismatch,
    MalformedKeyOrSignature,
    NonceSpaceExhausted,
    LedgerFull,
}

impl View for LedgerError {
    type V = LedgerErrorView;

    open spec fn view(&self) -> LedgerErrorView {
        match self {
            LedgerError::InvalidSignature { transaction_hash, amount } => {
                LedgerErrorView::InvalidSignature {
                    transaction_hash: transaction_hash@,
                    amount: *amount,
                }
            },
            LedgerError::InsufficientBalance => LedgerErrorView::InsufficientBalance,
            LedgerError::ProofOfWorkInvalid => LedgerErrorView::ProofOfWorkInvalid,
            LedgerError::ChainLinkMismatch => LedgerErrorView::ChainLinkMismatch,
            LedgerError::MalformedKeyOrSignature => LedgerErrorView::MalformedKeyOrSignature,
            LedgerError::NonceSpaceExhausted => LedgerErrorView::NonceSpaceExhausted,
            LedgerError::LedgerFull => LedgerErrorView::LedgerFull,
        }
    }
}

} // verus!
