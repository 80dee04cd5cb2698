//! Blocks, their proof of work, and the chain that balances are replayed
//! from.

use crate::balance::balance_of;
use crate::balance::lemma_balance_bound;
use crate::balance::lemma_balance_push;
use crate::balance::lemma_transfer_count_take;
use crate::balance::lemma_transfers_effect_bound;
use crate::balance::lemma_transfers_effect_push;
use crate::balance::transfer_count;
use crate::balance::transfers_effect;
use crate::encoding::encode_bytes;
use crate::encoding::encode_len;
use crate::error::LedgerError;
use crate::error::LedgerErrorView;
use crate::hashing::leading_zero_bits;
use crate::hashing::leading_zeroes_of;
use crate::hashing::sha256;
use crate::hashing::to_hash;
use crate::hashing::HASH_LENGTH;
use crate::keys::PublicKey;
use crate::transaction::encode_signed_transaction;
use crate::transaction::encode_transaction;
use crate::transaction::signature_valid;
use crate::transaction::verify;
use crate::transaction::SignedTransaction;
use crate::transaction::SignedTransactionView;
use crate::transaction::Transaction;
use vstd::bytes::spec_u32_to_le_bytes;
use vstd::bytes::spec_u64_to_le_bytes;
use vstd::prelude::*;
use vstd::slice::slice_to_vec;

verus! {

/// Leading zero bits that a block's digest must have for the block to count
/// as mined, where the caller names no other difficulty.
pub const ZEROES_NEEDED: u8 = 3;

/// Units of value that the miner of a block is promised.
pub const BLOCK_REWARD: u64 = 10;

/// Largest number of transfers that a chain may hold. Up to this number every
/// balance fits the balance type, whatever the amounts; no chain that a
/// machine can hold in memory comes near it.
pub const MAX_TRANSFERS: u64 = 0x4000_0000_0000_0000;

/// The claim of a block's miner to the block reward.
#[derive(Debug)]
pub struct RewardBlock {
    pub public: Vec<u8>,
    pub amount: u64,
}

/// What a [`RewardBlock`] holds.
pub struct RewardView {
    pub public: Seq<u8>,
    pub amount: u64,
}

impl View for RewardBlock {
    type V = RewardView;

    open spec fn view(&self) -> RewardView {
        RewardView { public: self.public@, amount: self.amount }
    }
}

impl RewardBlock {
    /// The reward claim of the miner with the key `public`.
    pub fn new(public: PublicKey) -> (reward: RewardBlock)
        ensures
            reward@ == (RewardView { public: public@, amount: BLOCK_REWARD }),
    {
        RewardBlock { public: public.into_bytes(), amount: BLOCK_REWARD }
    }

    /// The reward claim of the miner whose key bytes are `public`.
    pub fn new_from_bytes(public: Vec<u8>) -> (reward: RewardBlock)
        ensures
            reward@ == (RewardView { public: public@, amount: BLOCK_REWARD }),
    {
        RewardBlock { public, amount: BLOCK_REWARD }
    }
}

impl Clone for RewardBlock {
    fn clone(&self) -> (copy: Self)
        ensures
            copy@ == self@,
    {
        RewardBlock { public: slice_to_vec(self.public.as_slice()), amount: self.amount }
    }
}

/// An ordered list of signed transactions, linked to the block before it by
/// that block's digest.
#[derive(Debug)]
pub struct Block {
    pub transactions: Vec<SignedTransaction>,
    pub prev_hash: Vec<u8>,
    pub nonce: u32,
    pub reward: RewardBlock,
}

/// What a [`Block`] holds.
pub struct BlockView {
    pub transactions: Seq<SignedTransactionView>,
    pub prev_hash: Seq<u8>,
    pub nonce: u32,
    pub reward: RewardView,
}

/// What a list of signed transactions holds.
pub open spec fn transactions_view(list: Seq<SignedTransaction>) -> Seq<SignedTransactionView> {
    list.map_values(|signed: SignedTransaction| signed@)
}

impl View for Block {
    type V = BlockView;

    open spec fn view(&self) -> BlockView {
        BlockView {
            transactions: transactions_view(self.transactions@),
            prev_hash: self.prev_hash@,
            nonce: self.nonce,
            reward: self.reward@,
        }
    }
}

/// Encodings of the transactions of a list, one after the other.
pub open spec fn encode_signed_transactions(list: Seq<SignedTransactionView>) -> Seq<u8>
    decreases list.len(),
{
    if list.len() == 0 {
        Seq::empty()
    } else {
        encode_signed_transactions(list.drop_last()) + encode_signed_transaction(list.last())
    }
}

/// Canonical encoding of a reward claim: payee key, amount.
pub open spec fn encode_reward(reward: RewardView) -> Seq<u8> {
    encode_bytes(reward.public) + spec_u64_to_le_bytes(reward.amount)
}

/// Canonical encoding of a block: the list of transactions, the digest of
/// the previous block, the nonce, the reward claim.
pub open spec fn encode_block(block: BlockView) -> Seq<u8> {
    encode_len(block.transactions.len()) + encode_signed_transactions(block.transactions)
        + encode_bytes(block.prev_hash) + spec_u32_to_le_bytes(block.nonce) + encode_reward(
        block.reward,
    )
}

/// Digest of a block's canonical encoding.
pub open spec fn block_hash(block: BlockView) -> Seq<u8> {
    sha256(encode_block(block))
}

/// The block's digest has at least `difficulty` leading zero bits.
pub open spec fn meets_difficulty(block: BlockView, difficulty: u8) -> bool {
    leading_zero_bits(block_hash(block)) >= difficulty
}

/// The block with another nonce.
pub open spec fn with_nonce(block: BlockView, nonce: u32) -> BlockView {
    BlockView { nonce, ..block }
}

/// No nonce from `from` up to, but not including, `to` makes the block meet
/// the difficulty.
pub open spec fn no_nonce_between(block: BlockView, difficulty: u8, from: int, to: int) -> bool {
    forall|n: u32| from <= n < to ==> !meets_difficulty(#[trigger] with_nonce(block, n), difficulty)
}

/// `nonce` is the smallest nonce with which the block meets the difficulty.
pub open spec fn is_first_nonce(block: BlockView, difficulty: u8, nonce: u32) -> bool {
    &&& meets_difficulty(with_nonce(block, nonce), difficulty)
    &&& no_nonce_between(block, difficulty, 0, nonce as int)
}

/// Some nonce makes the block meet the difficulty.
pub open spec fn can_be_mined(block: BlockView, difficulty: u8) -> bool {
    exists|nonce: u32| meets_difficulty(#[trigger] with_nonce(block, nonce), difficulty)
}

/// The smallest nonce with which the block meets the difficulty, where there
/// is one.
pub open spec fn first_nonce(block: BlockView, difficulty: u8) -> u32 {
    choose|nonce: u32| is_first_nonce(block, difficulty, nonce)
}

/// There is at most one smallest nonce.
pub proof fn lemma_first_nonce_unique(block: BlockView, difficulty: u8, nonce: u32)
    requires
        is_first_nonce(block, difficulty, nonce),
    ensures
        can_be_mined(block, difficulty),
        first_nonce(block, difficulty) == nonce,
{
    let other = first_nonce(block, difficulty);
    assert(is_first_nonce(block, difficulty, other));
    if other < nonce {
        assert(!meets_difficulty(with_nonce(block, other), difficulty));
    }
    if nonce < other {
        assert(!meets_difficulty(with_nonce(block, nonce), difficulty));
    }
}

/// Every signature in the list verifies.
pub open spec fn all_signed(list: Seq<SignedTransactionView>) -> bool {
    forall|i: int| 0 <= i < list.len() ==> signature_valid(#[trigger] list[i])
}

/// Number of transactions at the front of the list whose signatures verify:
/// the position of the first one that does not, or the length of the list.
pub open spec fn leading_signed(list: Seq<SignedTransactionView>) -> nat
    decreases list.len(),
{
    if list.len() == 0 || !signature_valid(list[0]) {
        0
    } else {
        1 + leading_signed(list.drop_first())
    }
}

/// The error that names `signed` as a transaction whose signature does not
/// verify.
pub open spec fn invalid_signature_of(signed: SignedTransactionView) -> LedgerErrorView {
    LedgerErrorView::InvalidSignature {
        transaction_hash: sha256(encode_transaction(signed.trans)),
        amount: signed.trans.amount,
    }
}

/// Where the first `n` signatures verify, the count goes on behind them.
pub proof fn lemma_leading_signed_skip(list: Seq<SignedTransactionView>, n: int)
    requires
        0 <= n <= list.len(),
        forall|j: int| 0 <= j < n ==> signature_valid(#[trigger] list[j]),
    ensures
        leading_signed(list) == n + leading_signed(list.skip(n)),
    decreases n,
{
    if n == 0 {
        assert(list.skip(0) =~= list);
    } else {
        let rest = list.drop_first();
        assert(signature_valid(list[0]));
        assert forall|j: int| 0 <= j < n - 1 implies signature_valid(#[trigger] rest[j]) by {
            assert(rest[j] == list[j + 1]);
        }
        lemma_leading_signed_skip(rest, n - 1);
        assert(rest.skip(n - 1) =~= list.skip(n));
    }
}

/// A copy of a list of signed transactions.
fn clone_transactions(list: &Vec<SignedTransaction>) -> (copy: Vec<SignedTransaction>)
    ensures
        transactions_view(copy@) == transactions_view(list@),
{
    let mut copy: Vec<SignedTransaction> = Vec::new();
    let mut i: usize = 0;
    while i < list.len()
        invariant
            i <= list.len(),
            copy@.len() == i,
            forall|j: int| 0 <= j < i ==> copy@[j]@ == list@[j]@,
        decreases list.len() - i,
    {
        copy.push(list[i].clone());
        i += 1;
    }
    assert(transactions_view(copy@) =~= transactions_view(list@));
    copy
}

impl Block {
    /// A block that holds `transactions`, follows the block whose digest is
    /// `prev_hash`, and claims the reward for `miner_public`. The nonce starts
    /// at zero. A list in which a signature does not verify is refused, and
    /// the error names the first such transaction by the digest of its
    /// encoding and by its amount.
    pub fn new(
        transactions: Vec<SignedTransaction>,
        prev_hash: Vec<u8>,
        miner_public: PublicKey,
    ) -> (result: Result<Block, LedgerError>)
        ensures
            result is Ok <==> all_signed(transactions_view(transactions@)),
            result is Ok ==> result->Ok_0@ == (BlockView {
                transactions: transactions_view(transactions@),
                prev_hash: prev_hash@,
                nonce: 0,
                reward: RewardView { public: miner_public@, amount: BLOCK_REWARD },
            }),
            result is Err ==> ({
                let list = transactions_view(transactions@);
                let first = leading_signed(list) as int;
                &&& first < list.len()
                &&& !signature_valid(list[first])
                &&& forall|j: int| 0 <= j < first ==> signature_valid(#[trigger] list[j])
                &&& result->Err_0@ == invalid_signature_of(list[first])
            }),
    {
        let ghost list = transactions_view(transactions@);
        let mut i: usize = 0;
        while i < transactions.len()
            invariant
                i <= transactions.len(),
                list == transactions_view(transactions@),
                forall|j: int| 0 <= j < i ==> signature_valid(#[trigger] list[j]),
            decreases transactions.len() - i,
        {
            let st = &transactions[i];
            assert(list[i as int] == st@);
            if !verify(st) {
                proof {
                    lemma_leading_signed_skip(list, i as int);
                    assert(list.skip(i as int)[0] == list[i as int]);
                }
                return Err(
                    LedgerError::InvalidSignature {
                        transaction_hash: st.trans.hash_of(),
                        amount: st.trans.amount,
                    },
                );
            }
            i += 1;
        }
        Ok(Block { transactions, prev_hash, nonce: 0, reward: RewardBlock::new(miner_public) })
    }

    /// The first block of a chain: no transactions, the marker `GENESIS` in
    /// place of a predecessor's digest, and the reward claimed for the key
    /// bytes `init_key`.
    pub fn create_genesis(init_key: Vec<u8>) -> (block: Block)
        ensures
            block@ == genesis_block(init_key@),
    {
        let transactions: Vec<SignedTransaction> = Vec::new();
        let marker: [u8; 7] = [71, 69, 78, 69, 83, 73, 83];
        let prev_hash = slice_to_vec(marker.as_slice());
        assert(prev_hash@ =~= genesis_marker());
        assert(transactions_view(transactions@) =~= Seq::empty());
        Block { transactions, prev_hash, nonce: 0, reward: RewardBlock::new_from_bytes(init_key) }
    }

    /// Calls `bincode::serialize` on the block's fields, each transaction as
    /// the tuple of its fields and its signature. The crate's default
    /// configuration writes a list as its 64-bit little-endian length and its
    /// items in order, text and byte strings behind such a length, amounts as
    /// eight and the nonce as four little-endian bytes. Writing into memory
    /// without a size limit does not fail.
    #[verifier::external_body]
    fn to_bytes(&self) -> (bytes: Vec<u8>)
        ensures
            bytes@ == encode_block(self@),
    {
        let transactions: Vec<_> = self.transactions.iter().map(
            |s| (
                (
                    &s.trans.uuid,
                    s.trans.amount,
                    &s.trans.receiver_public_key,
                    &s.trans.sender_public_key,
                ),
                &s.signature,
            ),
        ).collect();
        let reward = (&self.reward.public, self.reward.amount);
        bincode::serialize(&(transactions, &self.prev_hash, self.nonce, reward)).unwrap()
    }

    /// Digest of the block's canonical encoding.
    pub fn hash_of(&self) -> (digest: Vec<u8>)
        ensures
            digest@ == block_hash(self@),
            digest@.len() == HASH_LENGTH,
    {
        let bytes = self.to_bytes();
        to_hash(bytes.as_slice())
    }

    /// Whether the block's digest has at least `difficulty` leading zero
    /// bits.
    pub fn is_mined_at(&self, difficulty: u8) -> (mined: bool)
        ensures
            mined == meets_difficulty(self@, difficulty),
    {
        let digest = self.hash_of();
        leading_zeroes_of(digest.as_slice()) >= difficulty
    }

    /// Whether the block's digest meets the default difficulty.
    pub fn is_mined(&self) -> (mined: bool)
        ensures
            mined == meets_difficulty(self@, ZEROES_NEEDED),
    {
        self.is_mined_at(ZEROES_NEEDED)
    }

    /// Searches the nonces upwards from the block's current one for the
    /// first that gives a digest with at least `difficulty` leading zero
    /// bits. On success the block holds that nonce, and a copy of the block
    /// is returned with its digest. Where no nonce up to the largest does, the
    /// search ends there with an error.
    pub fn mine_at(&mut self, difficulty: u8) -> (result: Result<(Block, Vec<u8>), LedgerError>)
        ensures
            final(self)@ == with_nonce(old(self)@, final(self).nonce),
            old(self).nonce <= final(self).nonce,
            no_nonce_between(
                old(self)@,
                difficulty,
                old(self).nonce as int,
                final(self).nonce as int,
            ),
            result is Ok <==> meets_difficulty(final(self)@, difficulty),
            result is Ok ==> result->Ok_0.0@ == final(self)@ && result->Ok_0.1@ == block_hash(
                final(self)@,
            ),
            result is Ok ==> leading_zero_bits(result->Ok_0.1@) >= difficulty,
            result is Err ==> final(self).nonce == u32::MAX && result->Err_0
                == LedgerError::NonceSpaceExhausted,
    {
        loop
            invariant
                self@ == with_nonce(old(self)@, self.nonce),
                old(self).nonce <= self.nonce,
                no_nonce_between(old(self)@, difficulty, old(self).nonce as int, self.nonce as int),
            decreases u32::MAX - self.nonce,
        {
            let digest = self.hash_of();
            if leading_zeroes_of(digest.as_slice()) >= difficulty {
                let mined = self.clone();
                return Ok((mined, digest));
            }
            if self.nonce == u32::MAX {
                return Err(LedgerError::NonceSpaceExhausted);
            }
            self.nonce = self.nonce + 1;
        }
    }

    /// Searches for a nonce that meets the default difficulty; see
    /// [`Block::mine_at`].
    pub fn mine(&mut self) -> (result: Result<(Block, Vec<u8>), LedgerError>)
        ensures
            final(self)@ == with_nonce(old(self)@, final(self).nonce),
            old(self).nonce <= final(self).nonce,
            no_nonce_between(
                old(self)@,
                ZEROES_NEEDED,
                old(self).nonce as int,
                final(self).nonce as int,
            ),
            result is Ok <==> meets_difficulty(final(self)@, ZEROES_NEEDED),
            result is Ok ==> result->Ok_0.0@ == final(self)@ && result->Ok_0.1@ == block_hash(
                final(self)@,
            ),
            result is Ok ==> leading_zero_bits(result->Ok_0.1@) >= ZEROES_NEEDED,
            result is Err ==> final(self).nonce == u32::MAX && result->Err_0
                == LedgerError::NonceSpaceExhausted,
    {
        self.mine_at(ZEROES_NEEDED)
    }
}

impl Clone for Block {
    fn clone(&self) -> (copy: Self)
        ensures
            copy@ == self@,
    {
        Block {
            transactions: clone_transactions(&self.transactions),
            prev_hash: slice_to_vec(self.prev_hash.as_slice()),
            nonce: self.nonce,
            reward: self.reward.clone(),
        }
    }
}

/// The bytes of the text `GENESIS`, which the first block holds in place of
/// a predecessor's digest.
pub open spec fn genesis_marker() -> Seq<u8> {
    seq![71u8, 69u8, 78u8, 69u8, 83u8, 73u8, 83u8]
}

/// The first block of the chain whose authority has the key `init_key`.
pub open spec fn genesis_block(init_key: Seq<u8>) -> BlockView {
    BlockView {
        transactions: Seq::empty(),
        prev_hash: genesis_marker(),
        nonce: 0,
        reward: RewardView { public: init_key, amount: BLOCK_REWARD },
    }
}

/// The blocks in order, the first of them the genesis block, and the key of
/// the authority that the genesis block names.
#[derive(Debug)]
pub struct BlockChain {
    pub blocks: Vec<Block>,
    pub init_key: Vec<u8>,
}

/// What a [`BlockChain`] holds.
pub struct BlockChainView {
    pub blocks: Seq<BlockView>,
    pub init_key: Seq<u8>,
}

/// What a list of blocks holds.
pub open spec fn blocks_view(list: Seq<Block>) -> Seq<BlockView> {
    list.map_values(|block: Block| block@)
}

impl View for BlockChain {
    type V = BlockChainView;

    open spec fn view(&self) -> BlockChainView {
        BlockChainView { blocks: blocks_view(self.blocks@), init_key: self.init_key@ }
    }
}

/// What the first `n` transfers of `list` add to the balance of `key`.
pub(crate) fn effect_of_first(list: &Vec<SignedTransaction>, n: usize, key: &Vec<u8>) -> (effect:
    i128)
    requires
        n <= list@.len(),
        n <= MAX_TRANSFERS,
    ensures
        effect == transfers_effect(transactions_view(list@).take(n as int), key@),
{
    let ghost all = transactions_view(list@);
    let mut effect: i128 = 0;
    let mut i: usize = 0;
    while i < n
        invariant
            i <= n <= list.len(),
            n <= MAX_TRANSFERS,
            all == transactions_view(list@),
            effect == transfers_effect(all.take(i as int), key@),
        decreases n - i,
    {
        let trans = &list[i].trans;
        proof {
            lemma_transfers_effect_bound(all.take(i as int), key@);
            lemma_transfers_effect_push(all.take(i as int), all[i as int], key@);
            assert(all.take(i as int).push(all[i as int]) =~= all.take(i + 1));
            assert(all[i as int].trans == trans@);
            assert(i * u64::MAX <= MAX_TRANSFERS * u64::MAX) by (nonlinear_arith)
                requires
                    i <= MAX_TRANSFERS,
            ;
        }
        if bytes_equal(&trans.receiver_public_key, key) {
            effect = effect + trans.amount as i128;
        }
        if bytes_equal(&trans.sender_public_key, key) {
            effect = effect - trans.amount as i128;
        }
        i += 1;
    }
    effect
}

/// Whether two byte strings hold the same bytes.
pub(crate) fn bytes_equal(left: &Vec<u8>, right: &Vec<u8>) -> (same: bool)
    ensures
        same == (left@ == right@),
{
    if left.len() != right.len() {
        return false;
    }
    let mut i: usize = 0;
    while i < left.len()
        invariant
            i <= left.len(),
            left.len() == right.len(),
            forall|j: int| 0 <= j < i ==> left@[j] == right@[j],
        decreases left.len() - i,
    {
        if left[i] != right[i] {
            return false;
        }
        i += 1;
    }
    assert(left@ =~= right@);
    true
}

impl BlockChain {
    /// The chain holds its genesis block, and no more transfers than
    /// [`MAX_TRANSFERS`].
    pub open spec fn wf(&self) -> bool {
        &&& self@.blocks.len() >= 1
        &&& transfer_count(self@.blocks) <= MAX_TRANSFERS
    }

    /// The chain has room for the transfers of `block`.
    pub open spec fn fits(&self, block: BlockView) -> bool {
        transfer_count(self@.blocks) + block.transactions.len() <= MAX_TRANSFERS
    }

    /// Digest of the chain's last block.
    pub open spec fn tip(&self) -> Seq<u8> {
        block_hash(self@.blocks.last())
    }

    /// A chain that holds the genesis block of the authority `init_key` and
    /// nothing else.
    pub fn new(init_key: PublicKey) -> (chain: BlockChain)
        ensures
            chain.wf(),
            chain@ == (BlockChainView {
                blocks: seq![genesis_block(init_key@)],
                init_key: init_key@,
            }),
    {
        let mut blocks: Vec<Block> = Vec::new();
        blocks.push(Block::create_genesis(init_key.to_bytes()));
        let chain = BlockChain { blocks, init_key: init_key.into_bytes() };
        proof {
            let genesis = genesis_block(init_key@);
            assert(chain@.blocks =~= seq![genesis]);
            assert(Seq::<BlockView>::empty().push(genesis) =~= seq![genesis]);
            lemma_balance_push(Seq::empty(), genesis, seq![]);
        }
        chain
    }

    /// Number of transfers on the chain.
    pub fn transfer_total(&self) -> (total: u64)
        requires
            self.wf(),
        ensures
            total == transfer_count(self@.blocks),
    {
        let ghost all = self@.blocks;
        let mut total: u64 = 0;
        let mut i: usize = 0;
        while i < self.blocks.len()
            invariant
                i <= self.blocks.len(),
                all == blocks_view(self.blocks@),
                transfer_count(all) <= MAX_TRANSFERS,
                total == transfer_count(all.take(i as int)),
            decreases self.blocks.len() - i,
        {
            proof {
                lemma_balance_push(all.take(i as int), all[i as int], seq![]);
                assert(all.take(i as int).push(all[i as int]) =~= all.take(i + 1));
                lemma_transfer_count_take(all, i + 1);
                assert(all[i as int] == self.blocks@[i as int]@);
            }
            total = total + self.blocks[i].transactions.len() as u64;
            i += 1;
        }
        assert(all.take(self.blocks.len() as int) =~= all);
        total
    }

    /// Whether the chain has room for the transfers of `block`.
    pub fn has_room_for(&self, block: &Block) -> (room: bool)
        requires
            self.wf(),
        ensures
            room == self.fits(block@),
    {
        let total = self.transfer_total();
        block.transactions.len() as u64 <= MAX_TRANSFERS - total
    }

    /// Balance of the account with the key `key`, from a replay of every
    /// transfer on the chain in order: each amount received is added, each
    /// amount sent is taken off. Signatures are not checked again, and the
    /// result is negative where the chain holds a spend that was not covered.
    pub fn get_balance_of(&self, key: &Vec<u8>) -> (balance: i128)
        requires
            self.wf(),
        ensures
            balance == balance_of(self@.blocks, key@),
    {
        let ghost all = self@.blocks;
        let mut balance: i128 = 0;
        let mut i: usize = 0;
        while i < self.blocks.len()
            invariant
                i <= self.blocks.len(),
                all == blocks_view(self.blocks@),
                transfer_count(all) <= MAX_TRANSFERS,
                balance == balance_of(all.take(i as int), key@),
            decreases self.blocks.len() - i,
        {
            let block = &self.blocks[i];
            proof {
                assert(all[i as int] == block@);
                assert(all.take(i as int).push(all[i as int]) =~= all.take(i + 1));
                lemma_balance_push(all.take(i as int), all[i as int], key@);
                lemma_transfer_count_take(all, i + 1);
                lemma_balance_bound(all.take(i as int), key@);
                lemma_balance_bound(all.take(i + 1), key@);
                assert(transfer_count(all.take(i + 1)) * u64::MAX <= MAX_TRANSFERS * u64::MAX)
                    by (nonlinear_arith)
                    requires
                        transfer_count(all.take(i + 1)) <= MAX_TRANSFERS,
                ;
            }
            let effect = effect_of_first(&block.transactions, block.transactions.len(), key);
            assert(block@.transactions.take(block.transactions.len() as int)
                =~= block@.transactions);
            balance = balance + effect;
            i += 1;
        }
        assert(all.take(self.blocks.len() as int) =~= all);
        balance
    }

    /// Whether the sender of `trans` can afford it: fails where the sender's
    /// replayed balance is below the amount. The signature is not looked at.
    pub fn verify_transaction(&self, trans: &Transaction) -> (result: Result<(), LedgerError>)
        requires
            self.wf(),
        ensures
            result is Ok <==> balance_of(self@.blocks, trans.sender_public_key@) >= trans.amount,
            result is Err ==> result->Err_0 == LedgerError::InsufficientBalance,
    {
        if self.get_balance_of(&trans.sender_public_key) < trans.amount as i128 {
            return Err(LedgerError::InsufficientBalance);
        }
        Ok(())
    }

    /// Appends `block` without looking at it. Whoever calls this has decided
    /// that the block belongs on the chain. The chain stays well formed where
    /// it had room for the block.
    pub fn add_verified_block(&mut self, block: Block)
        ensures
            final(self)@.blocks == old(self)@.blocks.push(block@),
            final(self)@.init_key == old(self)@.init_key,
            old(self).wf() && old(self).fits(block@) ==> final(self).wf(),
    {
        proof {
            lemma_balance_push(self@.blocks, block@, seq![]);
        }
        self.blocks.push(block);
        assert(self@.blocks =~= old(self)@.blocks.push(block@));
    }

    /// Digest of the last block, which the next block has to name as its
    /// predecessor.
    pub fn hash_of_last(&self) -> (digest: Vec<u8>)
        requires
            self.wf(),
        ensures
            digest@ == self.tip(),
            digest@.len() == HASH_LENGTH,
    {
        let last = &self.blocks[self.blocks.len() - 1];
        assert(self@.blocks.last() == last@);
        last.hash_of()
    }
}

impl Clone for BlockChain {
    fn clone(&self) -> (copy: Self)
        ensures
            copy@ == self@,
    {
        let mut blocks: Vec<Block> = Vec::new();
        let mut i: usize = 0;
        while i < self.blocks.len()
            invariant
                i <= self.blocks.len(),
                blocks@.len() == i,
                forall|j: int| 0 <= j < i ==> blocks@[j]@ == self.blocks@[j]@,
            decreases self.blocks.len() - i,
        {
            blocks.push(self.blocks[i].clone());
            i += 1;
        }
        assert(blocks_view(blocks@) =~= blocks_view(self.blocks@));
        BlockChain { blocks, init_key: slice_to_vec(self.init_key.as_slice()) }
    }
}

} // verus!
