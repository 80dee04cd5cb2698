//! A node of the ledger: the chain it keeps, the difficulty it asks of
//! blocks, and the transactions it has collected for its next block.
//!
//! The node does no input or output. Whoever runs it hands it what arrived,
//! a block or a signed transaction, and sends out what it returns.

use crate::balance::balance_of;
use crate::balance::lemma_balance_bound;
use crate::balance::lemma_transfers_effect_bound;
use crate::balance::transfer_count;
use crate::blockchain::all_signed;
use crate::blockchain::block_hash;
use crate::blockchain::bytes_equal;
use crate::blockchain::can_be_mined;
use crate::blockchain::effect_of_first;
use crate::blockchain::first_nonce;
use crate::blockchain::invalid_signature_of;
use crate::blockchain::leading_signed;
use crate::blockchain::lemma_first_nonce_unique;
use crate::blockchain::meets_difficulty;
use crate::blockchain::transactions_view;
use crate::blockchain::with_nonce;
use crate::blockchain::Block;
use crate::blockchain::BlockChain;
use crate::blockchain::BlockView;
use crate::blockchain::RewardView;
use crate::blockchain::BLOCK_REWARD;
use crate::blockchain::MAX_TRANSFERS;
use crate::blockchain::ZEROES_NEEDED;
use crate::error::LedgerError;
use crate::error::LedgerErrorView;
use crate::keys::PublicKey;
use crate::transaction::signature_valid;
use crate::transaction::verify;
use crate::transaction::SignedTransaction;
use crate::transaction::SignedTransactionView;
use crate::validation::block_verdict;
use crate::validation::chain_valid;
use crate::validation::gives;
use crate::validation::lemma_broken_link_is_refused;
use crate::validation::lemma_forged_signature_is_refused;
use crate::validation::lemma_verdict_stays;
use crate::validation::transactions_verdict;
use vstd::prelude::*;

verus! {

/// Number of transactions that a node collects before it makes a block of
/// them.
pub const TRANSACTIONS_PER_BLOCK: usize = 1;

/// A signed transaction is taken into the node's collection: its signature
/// verifies, and its sender's balance on the chain covers the amount.
pub open spec fn admits(blocks: Seq<BlockView>, signed: SignedTransactionView) -> bool {
    &&& signature_valid(signed)
    &&& balance_of(blocks, signed.trans.sender_public_key) >= signed.trans.amount
}

/// The block that a miner with the key `miner` starts from: the collected
/// transactions, the digest of the chain's last block, the nonce zero.
pub open spec fn candidate(
    blocks: Seq<BlockView>,
    batch: Seq<SignedTransactionView>,
    miner: Seq<u8>,
) -> BlockView {
    BlockView {
        transactions: batch,
        prev_hash: block_hash(blocks.last()),
        nonce: 0,
        reward: RewardView { public: miner, amount: BLOCK_REWARD },
    }
}

/// What becomes of a full collection: the block that goes onto the chain, or
/// the reason why none does. The candidate is mined with the smallest nonce
/// that meets the difficulty and then has to pass the same rules as a block
/// from anywhere else.
pub open spec fn proposal(
    blocks: Seq<BlockView>,
    batch: Seq<SignedTransactionView>,
    miner: Seq<u8>,
    difficulty: u8,
) -> Result<BlockView, LedgerErrorView> {
    let start = candidate(blocks, batch, miner);
    if !all_signed(batch) {
        Err(invalid_signature_of(batch[leading_signed(batch) as int]))
    } else if !can_be_mined(start, difficulty) {
        Err(LedgerErrorView::NonceSpaceExhausted)
    } else {
        let mined = with_nonce(start, first_nonce(start, difficulty));
        match block_verdict(blocks, mined, difficulty) {
            Ok(_) => Ok(mined),
            Err(error) => Err(error),
        }
    }
}

/// A node's state.
#[derive(Debug)]
pub struct Network {
    pub blockchain: BlockChain,
    pub difficulty: u8,
    pub pending: Vec<SignedTransaction>,
}

impl Network {
    /// The node's chain is well formed.
    pub open spec fn wf(&self) -> bool {
        self.blockchain.wf()
    }

    /// What the collected transactions hold.
    pub open spec fn collected(&self) -> Seq<SignedTransactionView> {
        transactions_view(self.pending@)
    }

    /// A node that keeps `blockchain`, asks the default difficulty of blocks
    /// and has collected no transactions yet.
    pub fn new(blockchain: BlockChain) -> (network: Network)
        ensures
            network.blockchain == blockchain,
            network.difficulty == ZEROES_NEEDED,
            network.pending@.len() == 0,
    {
        Network { blockchain, difficulty: ZEROES_NEEDED, pending: Vec::new() }
    }

    /// A node that keeps `blockchain` and asks `difficulty` leading zero
    /// bits of a block's digest.
    pub fn with_difficulty(blockchain: BlockChain, difficulty: u8) -> (network: Network)
        ensures
            network.blockchain == blockchain,
            network.difficulty == difficulty,
            network.pending@.len() == 0,
    {
        Network { blockchain, difficulty, pending: Vec::new() }
    }

    /// Decides whether `block` may become the chain's next block, by the
    /// rules of [`block_verdict`]. Nothing is changed.
    pub fn verify_block(&self, block: &Block) -> (result: Result<(), LedgerError>)
        requires
            self.wf(),
        ensures
            gives(result, block_verdict(self.blockchain@.blocks, block@, self.difficulty)),
    {
        if !block.is_mined_at(self.difficulty) {
            return Err(LedgerError::ProofOfWorkInvalid);
        }
        let tip = self.blockchain.hash_of_last();
        if !bytes_equal(&block.prev_hash, &tip) {
            return Err(LedgerError::ChainLinkMismatch);
        }
        if !self.blockchain.has_room_for(block) {
            return Err(LedgerError::LedgerFull);
        }
        let ghost blocks = self.blockchain@.blocks;
        let ghost list = block@.transactions;
        let mut i: usize = 0;
        while i < block.transactions.len()
            invariant
                i <= block.transactions.len(),
                self.wf(),
                meets_difficulty(block@, self.difficulty),
                block.prev_hash@ == self.blockchain.tip(),
                self.blockchain.fits(block@),
                blocks == self.blockchain@.blocks,
                list == transactions_view(block.transactions@),
                transactions_verdict(blocks, list, i as nat) is Ok,
            decreases block.transactions.len() - i,
        {
            let signed = &block.transactions[i];
            assert(list[i as int] == signed@);
            if !verify(signed) {
                proof {
                    lemma_verdict_stays(blocks, list, (i + 1) as nat, list.len());
                }
                return Err(
                    LedgerError::InvalidSignature {
                        transaction_hash: signed.trans.hash_of(),
                        amount: signed.trans.amount,
                    },
                );
            }
            let sender = &signed.trans.sender_public_key;
            let on_chain = self.blockchain.get_balance_of(sender);
            let in_block = effect_of_first(&block.transactions, i, sender);
            proof {
                lemma_balance_bound(blocks, sender@);
                lemma_transfers_effect_bound(list.take(i as int), sender@);
                assert(transfer_count(blocks) * u64::MAX + i * u64::MAX <= MAX_TRANSFERS
                    * u64::MAX) by (nonlinear_arith)
                    requires
                        transfer_count(blocks) + i <= MAX_TRANSFERS,
                ;
            }
            if on_chain + in_block < signed.trans.amount as i128 {
                proof {
                    lemma_verdict_stays(blocks, list, (i + 1) as nat, list.len());
                }
                return Err(LedgerError::InsufficientBalance);
            }
            i += 1;
        }
        Ok(())
    }

    /// Puts `block` on the chain if [`Network::verify_block`] accepts it. A
    /// block that is turned down leaves the node as it was.
    pub fn accept_block(&mut self, block: Block) -> (result: Result<(), LedgerError>)
        requires
            old(self).wf(),
        ensures
            gives(result, block_verdict(old(self).blockchain@.blocks, block@, old(self).difficulty)),
            final(self).wf(),
            final(self).difficulty == old(self).difficulty,
            final(self).pending == old(self).pending,
            final(self).blockchain@.init_key == old(self).blockchain@.init_key,
            result is Ok ==> final(self).blockchain@.blocks == old(self).blockchain@.blocks.push(
                block@,
            ),
            result is Err ==> final(self).blockchain@ == old(self).blockchain@,
            chain_valid(old(self).blockchain@.blocks, old(self).difficulty) && result is Ok
                ==> chain_valid(final(self).blockchain@.blocks, old(self).difficulty),
            !all_signed(block@.transactions) ==> result is Err,
            block.prev_hash@ != old(self).blockchain.tip() ==> result is Err,
            block.prev_hash@ != old(self).blockchain.tip() && meets_difficulty(
                block@,
                old(self).difficulty,
            ) ==> result is Err && result->Err_0 == LedgerError::ChainLinkMismatch,
    {
        proof {
            if block.prev_hash@ != self.blockchain.tip() {
                lemma_broken_link_is_refused(self.blockchain@.blocks, block@, self.difficulty);
            }
            if !all_signed(block@.transactions) {
                let i = choose|i: int|
                    0 <= i < block@.transactions.len() && !signature_valid(
                        #[trigger] block@.transactions[i],
                    );
                lemma_forged_signature_is_refused(
                    self.blockchain@.blocks,
                    block@,
                    self.difficulty,
                    i,
                );
            }
        }
        match self.verify_block(&block) {
            Ok(()) => {
                self.blockchain.add_verified_block(block);
                assert(self.blockchain@.blocks.drop_last() =~= old(self).blockchain@.blocks);
                Ok(())
            },
            Err(error) => Err(error),
        }
    }

    /// Takes `incoming` into the collection if the node admits it, and hands
    /// the collection out once it holds a block's worth. A transaction that is
    /// not admitted is dropped without a word. The chain is not touched.
    pub fn collect(&mut self, incoming: SignedTransaction) -> (batch: Option<
        Vec<SignedTransaction>,
    >)
        requires
            old(self).wf(),
        ensures
            final(self).blockchain == old(self).blockchain,
            final(self).difficulty == old(self).difficulty,
            !admits(old(self).blockchain@.blocks, incoming@) ==> batch is None && final(self).collected() == old(self).collected(),
            admits(old(self).blockchain@.blocks, incoming@) && old(self).pending@.len() + 1
                < TRANSACTIONS_PER_BLOCK ==> batch is None && final(self).collected() == old(self).collected().push(incoming@),
            admits(old(self).blockchain@.blocks, incoming@) && old(self).pending@.len() + 1
                >= TRANSACTIONS_PER_BLOCK ==> batch is Some && final(self).collected().len() == 0
                && transactions_view(batch->Some_0@) == old(self).collected().push(incoming@),
    {
        if !verify(&incoming) {
            return None;
        }
        if self.blockchain.verify_transaction(&incoming.trans).is_err() {
            return None;
        }
        self.pending.push(incoming);
        assert(self.collected() =~= old(self).collected().push(incoming@));
        if self.pending.len() < TRANSACTIONS_PER_BLOCK {
            return None;
        }
        let mut batch: Vec<SignedTransaction> = Vec::new();
        core::mem::swap(&mut self.pending, &mut batch);
        Some(batch)
    }

    /// One step of block making, for one signed transaction that arrived.
    /// The transaction is collected as by [`Network::collect`]. Once the
    /// collection is full, a block is made of it on top of the chain's last
    /// block, mined from nonce zero at the node's difficulty, held against
    /// the rules and, if it passes, put on the chain; that block is returned
    /// for sending out. Whenever a block was attempted the collection is empty
    /// afterwards, and a failed attempt leaves the chain as it was.
    pub fn create_new_blocks(&mut self, incoming: SignedTransaction, miner_public: PublicKey) -> (result:
        Result<Option<Block>, LedgerError>)
        requires
            old(self).wf(),
        ensures
            final(self).wf(),
            final(self).difficulty == old(self).difficulty,
            final(self).blockchain@.init_key == old(self).blockchain@.init_key,
            chain_valid(old(self).blockchain@.blocks, old(self).difficulty) ==> chain_valid(
                final(self).blockchain@.blocks,
                old(self).difficulty,
            ),
            !admits(old(self).blockchain@.blocks, incoming@) ==> {
                &&& result is Ok && result->Ok_0 is None
                &&& final(self).blockchain@ == old(self).blockchain@
                &&& final(self).collected() == old(self).collected()
            },
            admits(old(self).blockchain@.blocks, incoming@) && old(self).pending@.len() + 1
                < TRANSACTIONS_PER_BLOCK ==> {
                &&& result is Ok && result->Ok_0 is None
                &&& final(self).blockchain@ == old(self).blockchain@
                &&& final(self).collected() == old(self).collected().push(incoming@)
            },
            admits(old(self).blockchain@.blocks, incoming@) && old(self).pending@.len() + 1
                >= TRANSACTIONS_PER_BLOCK ==> {
                &&& final(self).collected().len() == 0
                &&& match proposal(
                    old(self).blockchain@.blocks,
                    old(self).collected().push(incoming@),
                    miner_public@,
                    old(self).difficulty,
                ) {
                    Ok(mined) => {
                        &&& result is Ok && result->Ok_0 is Some
                        &&& result->Ok_0->Some_0@ == mined
                        &&& final(self).blockchain@.blocks == old(self).blockchain@.blocks.push(
                            mined,
                        )
                    },
                    Err(error) => {
                        &&& result is Err && result->Err_0@ == error
                        &&& final(self).blockchain@ == old(self).blockchain@
                    },
                }
            },
    {
        let ghost blocks = self.blockchain@.blocks;
        let ghost grown = self.collected().push(incoming@);
        let batch = match self.collect(incoming) {
            Some(batch) => batch,
            None => {
                return Ok(None);
            },
        };
        let tip = self.blockchain.hash_of_last();
        let mut block = match Block::new(batch, tip, miner_public) {
            Ok(block) => block,
            Err(error) => {
                return Err(error);
            },
        };
        let ghost start = block@;
        assert(start == candidate(blocks, grown, miner_public@));
        match block.mine_at(self.difficulty) {
            Err(error) => {
                proof {
                    assert forall|nonce: u32| !meets_difficulty(
                        #[trigger] with_nonce(start, nonce),
                        self.difficulty,
                    ) by {
                        if nonce == u32::MAX {
                            assert(with_nonce(start, nonce) == block@);
                        }
                    }
                }
                Err(error)
            },
            Ok((mined, _digest)) => {
                proof {
                    lemma_first_nonce_unique(start, self.difficulty, block.nonce);
                }
                match self.accept_block(block) {
                    Ok(()) => Ok(Some(mined)),
                    Err(error) => Err(error),
                }
            },
        }
    }
}

} // verus!
