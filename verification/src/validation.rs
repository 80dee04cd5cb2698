//! The rules by which a block is accepted onto a chain.
//!
//! A block is looked at in a fixed order and the first check that fails
//! decides the answer: the proof of work, the link to the chain's last
//! block, then each transaction in turn, its signature before its cover.
//! Cover is cumulative: a transaction is held against the sender's balance
//! on the chain together with the transactions that stand before it in the
//! same block.

use crate::balance::balance_of;
use crate::balance::transfer_count;
use crate::balance::lemma_balance_push;
use crate::balance::lemma_transfers_effect_push;
use crate::balance::transfers_effect;
use crate::blockchain::all_signed;
use crate::blockchain::block_hash;
use crate::blockchain::invalid_signature_of;
use crate::blockchain::meets_difficulty;
use crate::blockchain::BlockView;
use crate::blockchain::MAX_TRANSFERS;
use crate::error::LedgerError;
use crate::error::LedgerErrorView;
use crate::transaction::signature_valid;
use crate::transaction::SignedTransactionView;
use vstd::prelude::*;

verus! {

/// The answer of the rules, as a value that contracts can speak of.
pub type Verdict = Result<(), LedgerErrorView>;

/// Balance of `key` on the chain `blocks` once the transfers `done` of a
/// block under validation are applied as well.
pub open spec fn running_balance(
    blocks: Seq<BlockView>,
    done: Seq<SignedTransactionView>,
    key: Seq<u8>,
) -> int {
    balance_of(blocks, key) + transfers_effect(done, key)
}

/// The sender of the transaction at position `i` of `list` can afford it
/// after the chain's transfers and the transfers before it in `list`.
pub open spec fn covered(blocks: Seq<BlockView>, list: Seq<SignedTransactionView>, i: int) -> bool {
    running_balance(blocks, list.take(i), list[i].trans.sender_public_key)
        >= list[i].trans.amount
}

/// The answer for the transaction at position `i` of `list`.
pub open spec fn transaction_verdict(
    blocks: Seq<BlockView>,
    list: Seq<SignedTransactionView>,
    i: int,
) -> Verdict {
    if !signature_valid(list[i]) {
        Err(invalid_signature_of(list[i]))
    } else if !covered(blocks, list, i) {
        Err(LedgerErrorView::InsufficientBalance)
    } else {
        Ok(())
    }
}

/// The answer for the first `n` transactions of `list`: the error of the
/// first of them that fails, if one does.
pub open spec fn transactions_verdict(
    blocks: Seq<BlockView>,
    list: Seq<SignedTransactionView>,
    n: nat,
) -> Verdict
    decreases n,
{
    if n == 0 {
        Ok(())
    } else if transactions_verdict(blocks, list, (n - 1) as nat) is Err {
        transactions_verdict(blocks, list, (n - 1) as nat)
    } else {
        transaction_verdict(blocks, list, n - 1)
    }
}

/// The answer for `block` as the next block of the chain `blocks`, at the
/// difficulty given.
pub open spec fn block_verdict(blocks: Seq<BlockView>, block: BlockView, difficulty: u8) -> Verdict {
    if !meets_difficulty(block, difficulty) {
        Err(LedgerErrorView::ProofOfWorkInvalid)
    } else if block.prev_hash != block_hash(blocks.last()) {
        Err(LedgerErrorView::ChainLinkMismatch)
    } else if transfer_count(blocks) + block.transactions.len() > MAX_TRANSFERS {
        Err(LedgerErrorView::LedgerFull)
    } else {
        transactions_verdict(blocks, block.transactions, block.transactions.len())
    }
}

/// `result` is the answer `verdict`.
pub open spec fn gives(result: Result<(), LedgerError>, verdict: Verdict) -> bool {
    match result {
        Ok(_) => verdict is Ok,
        Err(error) => verdict == Err::<(), LedgerErrorView>(error@),
    }
}

/// An error among the first `n` transactions is the answer for every longer
/// stretch too.
pub proof fn lemma_verdict_stays(
    blocks: Seq<BlockView>,
    list: Seq<SignedTransactionView>,
    n: nat,
    m: nat,
)
    requires
        n <= m,
        transactions_verdict(blocks, list, n) is Err,
    ensures
        transactions_verdict(blocks, list, m) == transactions_verdict(blocks, list, n),
    decreases m,
{
    if n < m {
        lemma_verdict_stays(blocks, list, n, (m - 1) as nat);
    }
}

/// The first `n` transactions pass exactly when each of them does.
pub proof fn lemma_verdict_ok(blocks: Seq<BlockView>, list: Seq<SignedTransactionView>, n: nat)
    ensures
        transactions_verdict(blocks, list, n) is Ok <==> forall|i: int|
            0 <= i < n ==> #[trigger] transaction_verdict(blocks, list, i) is Ok,
    decreases n,
{
    if n > 0 {
        lemma_verdict_ok(blocks, list, (n - 1) as nat);
    }
}

/// A block that is accepted meets the difficulty, names the chain's last
/// block as its predecessor, and holds only transactions whose signatures
/// verify and whose senders can afford them.
pub proof fn lemma_accepted_block(blocks: Seq<BlockView>, block: BlockView, difficulty: u8)
    requires
        block_verdict(blocks, block, difficulty) is Ok,
    ensures
        meets_difficulty(block, difficulty),
        block.prev_hash == block_hash(blocks.last()),
        transfer_count(blocks) + block.transactions.len() <= MAX_TRANSFERS,
        forall|i: int|
            0 <= i < block.transactions.len() ==> signature_valid(#[trigger] block.transactions[i]),
        forall|i: int|
            0 <= i < block.transactions.len() ==> #[trigger] covered(blocks, block.transactions, i),
{
    lemma_verdict_ok(blocks, block.transactions, block.transactions.len());
    assert forall|i: int| 0 <= i < block.transactions.len() implies signature_valid(
        #[trigger] block.transactions[i],
    ) by {
        assert(transaction_verdict(blocks, block.transactions, i) is Ok);
    }
    assert forall|i: int| 0 <= i < block.transactions.len() implies #[trigger] covered(
        blocks,
        block.transactions,
        i,
    ) by {
        assert(transaction_verdict(blocks, block.transactions, i) is Ok);
    }
}

/// A block that does not name the digest of the chain's last block as its
/// predecessor is turned down, whatever else it holds. Where its proof of
/// work is in order the answer is `ChainLinkMismatch`.
pub proof fn lemma_broken_link_is_refused(blocks: Seq<BlockView>, block: BlockView, difficulty: u8)
    requires
        block.prev_hash != block_hash(blocks.last()),
    ensures
        block_verdict(blocks, block, difficulty) is Err,
        meets_difficulty(block, difficulty) ==> block_verdict(blocks, block, difficulty) == Err::<
            (),
            LedgerErrorView,
        >(LedgerErrorView::ChainLinkMismatch),
{
}

/// A block that holds a transaction whose signature does not verify is
/// turned down. Where the block is mined, linked and within the chain's
/// room, and every transaction before the one at position `i` passes, the
/// answer is `InvalidSignature` for the transaction at position `i`.
pub proof fn lemma_forged_signature_is_refused(
    blocks: Seq<BlockView>,
    block: BlockView,
    difficulty: u8,
    i: int,
)
    requires
        0 <= i < block.transactions.len(),
        !signature_valid(block.transactions[i]),
    ensures
        block_verdict(blocks, block, difficulty) is Err,
        ({
            &&& meets_difficulty(block, difficulty)
            &&& block.prev_hash == block_hash(blocks.last())
            &&& transfer_count(blocks) + block.transactions.len() <= MAX_TRANSFERS
            &&& forall|j: int| 0 <= j < i ==> #[trigger] transaction_verdict(
                blocks,
                block.transactions,
                j,
            ) is Ok
        }) ==> block_verdict(blocks, block, difficulty) == Err::<(), LedgerErrorView>(
            invalid_signature_of(block.transactions[i]),
        ),
{
    let list = block.transactions;
    assert(transaction_verdict(blocks, list, i) is Err);
    lemma_verdict_ok(blocks, list, list.len());
    if forall|j: int| 0 <= j < i ==> #[trigger] transaction_verdict(blocks, list, j) is Ok {
        lemma_verdict_ok(blocks, list, i as nat);
        assert(transactions_verdict(blocks, list, (i + 1) as nat) == transaction_verdict(
            blocks,
            list,
            i,
        ));
        lemma_verdict_stays(blocks, list, (i + 1) as nat, list.len());
    }
}

/// Every block after the first was accepted, at the difficulty given, onto
/// the blocks that stand before it.
pub open spec fn chain_valid(blocks: Seq<BlockView>, difficulty: u8) -> bool
    decreases blocks.len(),
{
    if blocks.len() <= 1 {
        true
    } else {
        &&& chain_valid(blocks.drop_last(), difficulty)
        &&& block_verdict(blocks.drop_last(), blocks.last(), difficulty) is Ok
    }
}

/// On a chain of accepted blocks every block after the first names the
/// digest of the block before it, meets the difficulty, and holds only
/// transactions whose signatures verify and whose senders could afford them
/// when they were taken in.
pub proof fn lemma_valid_chain(blocks: Seq<BlockView>, difficulty: u8, i: int)
    requires
        chain_valid(blocks, difficulty),
        1 <= i < blocks.len(),
    ensures
        blocks[i].prev_hash == block_hash(blocks[i - 1]),
        meets_difficulty(blocks[i], difficulty),
        all_signed(blocks[i].transactions),
        forall|j: int|
            0 <= j < blocks[i].transactions.len() ==> #[trigger] covered(
                blocks.take(i),
                blocks[i].transactions,
                j,
            ),
    decreases blocks.len(),
{
    if i == blocks.len() - 1 {
        assert(blocks.take(i) =~= blocks.drop_last());
        lemma_accepted_block(blocks.drop_last(), blocks.last(), difficulty);
    } else {
        lemma_valid_chain(blocks.drop_last(), difficulty, i);
        assert(blocks.drop_last().take(i) =~= blocks.take(i));
    }
}

/// No account is overdrawn on the chain `blocks`.
pub open spec fn all_covered(blocks: Seq<BlockView>) -> bool {
    forall|key: Seq<u8>| #[trigger] balance_of(blocks, key) >= 0
}

/// Where no account is overdrawn on the chain and each of the first `n`
/// transactions of `list` is covered, no account is overdrawn after them.
pub proof fn lemma_running_balance_covered(
    blocks: Seq<BlockView>,
    list: Seq<SignedTransactionView>,
    n: int,
    key: Seq<u8>,
)
    requires
        0 <= n <= list.len(),
        all_covered(blocks),
        forall|i: int| 0 <= i < n ==> #[trigger] covered(blocks, list, i),
    ensures
        running_balance(blocks, list.take(n), key) >= 0,
    decreases n,
{
    if n == 0 {
        assert(list.take(0) =~= Seq::<SignedTransactionView>::empty());
        assert(balance_of(blocks, key) >= 0);
    } else {
        lemma_running_balance_covered(blocks, list, n - 1, key);
        lemma_transfers_effect_push(list.take(n - 1), list[n - 1], key);
        assert(list.take(n - 1).push(list[n - 1]) =~= list.take(n));
        assert(covered(blocks, list, n - 1));
    }
}

/// Accepting a block overdraws no account: where every balance on the chain
/// is at least zero, so is every balance on the chain with the block added.
pub proof fn lemma_accepted_block_keeps_accounts_covered(
    blocks: Seq<BlockView>,
    block: BlockView,
    difficulty: u8,
)
    requires
        all_covered(blocks),
        block_verdict(blocks, block, difficulty) is Ok,
    ensures
        all_covered(blocks.push(block)),
{
    lemma_accepted_block(blocks, block, difficulty);
    let list = block.transactions;
    assert forall|key: Seq<u8>| #[trigger] balance_of(blocks.push(block), key) >= 0 by {
        lemma_running_balance_covered(blocks, list, list.len() as int, key);
        assert(list.take(list.len() as int) =~= list);
        lemma_balance_push(blocks, block, key);
    }
}

/// On a chain of accepted blocks that starts from a block without transfers
/// no account is overdrawn.
pub proof fn lemma_valid_chain_covered(blocks: Seq<BlockView>, difficulty: u8)
    requires
        blocks.len() >= 1,
        blocks[0].transactions.len() == 0,
        chain_valid(blocks, difficulty),
    ensures
        all_covered(blocks),
    decreases blocks.len(),
{
    if blocks.len() == 1 {
        assert(blocks.drop_last() =~= Seq::<BlockView>::empty());
        assert forall|key: Seq<u8>| #[trigger] balance_of(blocks, key) >= 0 by {
            lemma_balance_push(Seq::empty(), blocks[0], key);
            assert(Seq::<BlockView>::empty().push(blocks[0]) =~= blocks);
        }
    } else {
        lemma_valid_chain_covered(blocks.drop_last(), difficulty);
        lemma_accepted_block_keeps_accounts_covered(blocks.drop_last(), blocks.last(), difficulty);
        assert(blocks.drop_last().push(blocks.last()) =~= blocks);
    }
}

} // verus!
