//! What a chain of blocks says about an account: the balance obtained by
//! replaying every transfer in order.
//!
//! Only transfers count. The reward that a block claims for its miner is
//! recorded in the block and is no part of any balance.

use crate::blockchain::BlockView;
use crate::transaction::SignedTransactionView;
use crate::transaction::TransactionView;
use vstd::prelude::*;
use vstd::seq_lib::to_multiset_build;
use vstd::seq_lib::to_multiset_contains;
use vstd::seq_lib::to_multiset_len;
use vstd::seq_lib::to_multiset_remove;

verus! {

/// What one transfer adds to the balance of `key`: the amount where `key`
/// receives, minus the amount where `key` sends.
pub open spec fn transfer_effect(trans: TransactionView, key: Seq<u8>) -> int {
    (if trans.receiver_public_key == key {
        trans.amount as int
    } else {
        0
    }) - (if trans.sender_public_key == key {
        trans.amount as int
    } else {
        0
    })
}

/// What the transfers of a list add to the balance of `key`.
pub open spec fn transfers_effect(list: Seq<SignedTransactionView>, key: Seq<u8>) -> int
    decreases list.len(),
{
    if list.len() == 0 {
        0
    } else {
        transfers_effect(list.drop_last(), key) + transfer_effect(list.last().trans, key)
    }
}

/// Balance of `key` after the transfers of all `blocks`.
pub open spec fn balance_of(blocks: Seq<BlockView>, key: Seq<u8>) -> int
    decreases blocks.len(),
{
    if blocks.len() == 0 {
        0
    } else {
        balance_of(blocks.drop_last(), key) + transfers_effect(blocks.last().transactions, key)
    }
}

/// Number of transfers in all `blocks`.
pub open spec fn transfer_count(blocks: Seq<BlockView>) -> nat
    decreases blocks.len(),
{
    if blocks.len() == 0 {
        0
    } else {
        transfer_count(blocks.drop_last()) + blocks.last().transactions.len()
    }
}

/// One more transfer changes the effect of a list by that transfer's own
/// effect.
pub proof fn lemma_transfers_effect_push(
    list: Seq<SignedTransactionView>,
    signed: SignedTransactionView,
    key: Seq<u8>,
)
    ensures
        transfers_effect(list.push(signed), key) == transfers_effect(list, key) + transfer_effect(
            signed.trans,
            key,
        ),
{
    assert(list.push(signed).drop_last() =~= list);
}

/// One more block changes a balance by the effect of that block's transfers,
/// and the number of transfers by their number.
pub proof fn lemma_balance_push(blocks: Seq<BlockView>, block: BlockView, key: Seq<u8>)
    ensures
        balance_of(blocks.push(block), key) == balance_of(blocks, key) + transfers_effect(
            block.transactions,
            key,
        ),
        transfer_count(blocks.push(block)) == transfer_count(blocks) + block.transactions.len(),
{
    assert(blocks.push(block).drop_last() =~= blocks);
}

/// The effect of a list is at most one full amount per transfer, either way.
pub proof fn lemma_transfers_effect_bound(list: Seq<SignedTransactionView>, key: Seq<u8>)
    ensures
        -(list.len() * u64::MAX) <= transfers_effect(list, key) <= list.len() * u64::MAX,
    decreases list.len(),
{
    if list.len() > 0 {
        lemma_transfers_effect_bound(list.drop_last(), key);
        assert((list.len() - 1) * u64::MAX + u64::MAX == list.len() * u64::MAX) by (nonlinear_arith);
    }
}

/// A balance is at most one full amount per transfer on the chain, either
/// way.
pub proof fn lemma_balance_bound(blocks: Seq<BlockView>, key: Seq<u8>)
    ensures
        -(transfer_count(blocks) * u64::MAX) <= balance_of(blocks, key) <= transfer_count(blocks)
            * u64::MAX,
    decreases blocks.len(),
{
    if blocks.len() > 0 {
        lemma_balance_bound(blocks.drop_last(), key);
        lemma_transfers_effect_bound(blocks.last().transactions, key);
        assert(transfer_count(blocks.drop_last()) * u64::MAX + blocks.last().transactions.len()
            * u64::MAX == transfer_count(blocks) * u64::MAX) by (nonlinear_arith)
            requires
                transfer_count(blocks) == transfer_count(blocks.drop_last())
                    + blocks.last().transactions.len(),
        ;
    }
}

/// The first blocks of a chain hold no more transfers than the whole chain.
pub proof fn lemma_transfer_count_take(blocks: Seq<BlockView>, n: int)
    requires
        0 <= n <= blocks.len(),
    ensures
        transfer_count(blocks.take(n)) <= transfer_count(blocks),
    decreases blocks.len(),
{
    if n == blocks.len() {
        assert(blocks.take(n) =~= blocks);
    } else {
        lemma_transfer_count_take(blocks.drop_last(), n);
        assert(blocks.drop_last().take(n) =~= blocks.take(n));
    }
}

/// Sum of the amounts that `key` receives in a list of transfers.
pub open spec fn received_in(list: Seq<SignedTransactionView>, key: Seq<u8>) -> nat
    decreases list.len(),
{
    if list.len() == 0 {
        0
    } else if list.last().trans.receiver_public_key == key {
        received_in(list.drop_last(), key) + list.last().trans.amount as nat
    } else {
        received_in(list.drop_last(), key)
    }
}

/// Sum of the amounts that `key` sends in a list of transfers.
pub open spec fn sent_in(list: Seq<SignedTransactionView>, key: Seq<u8>) -> nat
    decreases list.len(),
{
    if list.len() == 0 {
        0
    } else if list.last().trans.sender_public_key == key {
        sent_in(list.drop_last(), key) + list.last().trans.amount as nat
    } else {
        sent_in(list.drop_last(), key)
    }
}

/// Sum of the amounts that `key` receives on a chain.
pub open spec fn received_on(blocks: Seq<BlockView>, key: Seq<u8>) -> nat
    decreases blocks.len(),
{
    if blocks.len() == 0 {
        0
    } else {
        received_on(blocks.drop_last(), key) + received_in(blocks.last().transactions, key)
    }
}

/// Sum of the amounts that `key` sends on a chain.
pub open spec fn sent_on(blocks: Seq<BlockView>, key: Seq<u8>) -> nat
    decreases blocks.len(),
{
    if blocks.len() == 0 {
        0
    } else {
        sent_on(blocks.drop_last(), key) + sent_in(blocks.last().transactions, key)
    }
}

/// Some transfer of the list has `key` as its sender or as its receiver.
pub open spec fn involves(list: Seq<SignedTransactionView>, key: Seq<u8>) -> bool {
    exists|i: int|
        0 <= i < list.len() && (#[trigger] list[i].trans.receiver_public_key == key
            || list[i].trans.sender_public_key == key)
}

/// The effect of a list of transfers on `key` is what `key` receives in it
/// less what `key` sends in it.
pub proof fn lemma_effect_is_received_less_sent(list: Seq<SignedTransactionView>, key: Seq<u8>)
    ensures
        transfers_effect(list, key) == received_in(list, key) - sent_in(list, key),
    decreases list.len(),
{
    if list.len() > 0 {
        lemma_effect_is_received_less_sent(list.drop_last(), key);
    }
}

/// A balance is the sum of every amount received less the sum of every
/// amount sent, over the whole chain: each transfer that names the key as
/// receiver counts its amount once to the good, each that names it as sender
/// once to the bad, and nothing else counts.
pub proof fn lemma_balance_is_received_less_sent(blocks: Seq<BlockView>, key: Seq<u8>)
    ensures
        balance_of(blocks, key) == received_on(blocks, key) - sent_on(blocks, key),
    decreases blocks.len(),
{
    if blocks.len() > 0 {
        lemma_balance_is_received_less_sent(blocks.drop_last(), key);
        lemma_effect_is_received_less_sent(blocks.last().transactions, key);
    }
}

/// Transfers that do not involve `key` leave its balance alone.
pub proof fn lemma_bystander_effect(list: Seq<SignedTransactionView>, key: Seq<u8>)
    requires
        !involves(list, key),
    ensures
        transfers_effect(list, key) == 0,
    decreases list.len(),
{
    if list.len() > 0 {
        let front = list.drop_last();
        assert(list[list.len() - 1].trans.receiver_public_key != key
            && list[list.len() - 1].trans.sender_public_key != key);
        assert forall|i: int| 0 <= i < front.len() implies !(
        #[trigger] front[i].trans.receiver_public_key == key || front[i].trans.sender_public_key
            == key) by {
            assert(front[i] == list[i]);
        }
        lemma_bystander_effect(front, key);
    }
}

/// Taking the block at position `i` off a chain changes a balance by the
/// effect of that block's transfers, wherever the block stood.
pub proof fn lemma_balance_remove(blocks: Seq<BlockView>, i: int, key: Seq<u8>)
    requires
        0 <= i < blocks.len(),
    ensures
        balance_of(blocks, key) == balance_of(blocks.remove(i), key) + transfers_effect(
            blocks[i].transactions,
            key,
        ),
    decreases blocks.len(),
{
    if i == blocks.len() - 1 {
        assert(blocks.remove(i) =~= blocks.drop_last());
    } else {
        lemma_balance_remove(blocks.drop_last(), i, key);
        assert(blocks.remove(i).drop_last() =~= blocks.drop_last().remove(i));
        assert(blocks.remove(i).last() == blocks.last());
    }
}

/// A block that does not involve `key` can be taken off the chain, or put
/// anywhere on it, without a change to the balance of `key`.
pub proof fn lemma_balance_without_bystander(blocks: Seq<BlockView>, i: int, key: Seq<u8>)
    requires
        0 <= i < blocks.len(),
        !involves(blocks[i].transactions, key),
    ensures
        balance_of(blocks.remove(i), key) == balance_of(blocks, key),
{
    lemma_balance_remove(blocks, i, key);
    lemma_bystander_effect(blocks[i].transactions, key);
}

/// A balance does not depend on the order of the blocks: two chains that
/// hold the same blocks, each as often as the other, give every account the
/// same balance. In particular a balance stays as it is when blocks that do
/// not involve the account change places.
pub proof fn lemma_balance_reorder(a: Seq<BlockView>, b: Seq<BlockView>, key: Seq<u8>)
    requires
        a.to_multiset() == b.to_multiset(),
    ensures
        balance_of(a, key) == balance_of(b, key),
    decreases a.len(),
{
    broadcast use vstd::multiset::group_multiset_axioms;

    to_multiset_len(a);
    to_multiset_len(b);
    if a.len() > 0 {
        let last = a.last();
        let front = a.drop_last();
        assert(a =~= front.push(last));
        to_multiset_build(front, last);
        to_multiset_contains(b, last);
        assert(b.to_multiset().count(last) > 0);
        let j = choose|j: int| 0 <= j < b.len() && b[j] == last;
        to_multiset_remove(b, j);
        assert(front.to_multiset() =~= b.remove(j).to_multiset());
        lemma_balance_reorder(front, b.remove(j), key);
        lemma_balance_remove(b, j, key);
    }
}

} // verus!
