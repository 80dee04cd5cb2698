use minichain::blockchain::Block;
use minichain::blockchain::BlockChain;
use minichain::blockchain::RewardBlock;
use minichain::error::LedgerError;
use minichain::keys::Keypair;
use minichain::network::Network;
use minichain::network::TRANSACTIONS_PER_BLOCK;
use minichain::transaction::verify;
use minichain::transaction::SignedTransaction;
use minichain::transaction::Transaction;

fn transfer(from: &Keypair, to: &Keypair, amount: u64) -> SignedTransaction {
    let trans = Transaction::new(amount, to.get_public_key(), from.get_public_key());
    SignedTransaction::sign(trans, from)
}

fn mined_block(network: &Network, transactions: Vec<SignedTransaction>) -> Block {
    let mut block = Block {
        transactions,
        prev_hash: network.blockchain.hash_of_last(),
        nonce: 0,
        reward: RewardBlock::new_from_bytes(vec![0; 32]),
    };
    block.mine_at(network.difficulty).unwrap();
    block
}

fn funded(authority: &Keypair, owner: &Keypair, amount: u64) -> Network {
    let mut chain = BlockChain::new(authority.get_public_key());
    let funding = Block {
        transactions: vec![transfer(authority, owner, amount)],
        prev_hash: chain.hash_of_last(),
        nonce: 0,
        reward: RewardBlock::new(authority.get_public_key()),
    };
    chain.add_verified_block(funding);
    Network::new(chain)
}

fn balance(network: &Network, pair: &Keypair) -> i128 {
    network.blockchain.get_balance_of(&pair.get_public_key().to_bytes())
}

#[test]
fn node_starts_with_the_default_difficulty() {
    let authority = Keypair::generate();
    let network = Network::new(BlockChain::new(authority.get_public_key()));
    assert_eq!(network.difficulty, 3);
    assert!(network.pending.is_empty());
    assert_eq!(network.blockchain.blocks.len(), 1);
    let strict = Network::with_difficulty(BlockChain::new(authority.get_public_key()), 7);
    assert_eq!(strict.difficulty, 7);
    assert!(strict.pending.is_empty());
}

#[test]
fn mined_and_linked_block_is_accepted() {
    let authority = Keypair::generate();
    let a = Keypair::generate();
    let b = Keypair::generate();
    let mut network = Network::new(BlockChain::new(authority.get_public_key()));
    let block = mined_block(&network, vec![transfer(&a, &b, 0)]);
    let digest = block.hash_of();
    assert_eq!(network.verify_block(&block), Ok(()));
    assert_eq!(network.blockchain.blocks.len(), 1);
    assert_eq!(network.accept_block(block), Ok(()));
    assert_eq!(network.blockchain.blocks.len(), 2);
    assert_eq!(network.blockchain.hash_of_last(), digest);
}

#[test]
fn block_with_broken_link_is_refused() {
    let authority = Keypair::generate();
    let mut network = Network::new(BlockChain::new(authority.get_public_key()));
    let tip = network.blockchain.hash_of_last();
    let mut block = Block::new(vec![], vec![0; 32], authority.get_public_key()).unwrap();
    block.mine().unwrap();
    assert_eq!(network.verify_block(&block), Err(LedgerError::ChainLinkMismatch));
    assert_eq!(network.accept_block(block), Err(LedgerError::ChainLinkMismatch));
    assert_eq!(network.blockchain.blocks.len(), 1);
    assert_eq!(network.blockchain.hash_of_last(), tip);
}

#[test]
fn block_on_a_stale_tip_is_refused() {
    let authority = Keypair::generate();
    let mut network = Network::new(BlockChain::new(authority.get_public_key()));
    let first = mined_block(&network, vec![]);
    let mut rival = first.clone();
    rival.reward = RewardBlock::new_from_bytes(vec![1; 32]);
    rival.nonce = 0;
    rival.mine().unwrap();
    assert_eq!(network.accept_block(first), Ok(()));
    assert_eq!(network.accept_block(rival.clone()), Err(LedgerError::ChainLinkMismatch));
    assert_eq!(network.blockchain.blocks.len(), 2);

    rival.prev_hash = network.blockchain.hash_of_last();
    rival.nonce = 0;
    rival.mine().unwrap();
    assert_eq!(network.accept_block(rival), Ok(()));
    assert_eq!(network.blockchain.blocks.len(), 3);
}

#[test]
fn block_without_proof_of_work_is_refused() {
    let authority = Keypair::generate();
    let mut network = Network::with_difficulty(BlockChain::new(authority.get_public_key()), 200);
    let block =
        Block::new(vec![], network.blockchain.hash_of_last(), authority.get_public_key()).unwrap();
    assert_eq!(network.verify_block(&block), Err(LedgerError::ProofOfWorkInvalid));
    assert_eq!(network.accept_block(block), Err(LedgerError::ProofOfWorkInvalid));
    assert_eq!(network.blockchain.blocks.len(), 1);
}

#[test]
fn proof_of_work_is_looked_at_before_the_link() {
    let authority = Keypair::generate();
    let mut network = Network::with_difficulty(BlockChain::new(authority.get_public_key()), 200);
    let block = Block::new(vec![], vec![0; 32], authority.get_public_key()).unwrap();
    assert_eq!(network.accept_block(block), Err(LedgerError::ProofOfWorkInvalid));
    assert_eq!(network.blockchain.blocks.len(), 1);
}

#[test]
fn block_with_forged_signature_is_refused() {
    let authority = Keypair::generate();
    let a = Keypair::generate();
    let b = Keypair::generate();
    let mut network = Network::new(BlockChain::new(authority.get_public_key()));
    let mut forged = transfer(&a, &b, 0);
    forged.signature[20] ^= 0x01;
    assert!(!verify(&forged));
    let block = mined_block(&network, vec![forged.clone()]);
    let expected = LedgerError::InvalidSignature {
        transaction_hash: forged.trans.hash_of(),
        amount: 0,
    };
    assert_eq!(network.verify_block(&block).err(), Some(expected));
    let expected = LedgerError::InvalidSignature {
        transaction_hash: forged.trans.hash_of(),
        amount: 0,
    };
    assert_eq!(network.accept_block(block).err(), Some(expected));
    assert_eq!(network.blockchain.blocks.len(), 1);
}

#[test]
fn signature_is_looked_at_before_the_cover() {
    let authority = Keypair::generate();
    let a = Keypair::generate();
    let b = Keypair::generate();
    let mut network = Network::new(BlockChain::new(authority.get_public_key()));
    let mut forged = transfer(&a, &b, 99);
    forged.signature[0] ^= 0x01;
    let block = mined_block(&network, vec![forged.clone()]);
    assert_eq!(
        network.accept_block(block).err(),
        Some(LedgerError::InvalidSignature {
            transaction_hash: forged.trans.hash_of(),
            amount: 99,
        })
    );
}

#[test]
fn first_failing_transaction_decides() {
    let authority = Keypair::generate();
    let a = Keypair::generate();
    let b = Keypair::generate();
    let mut network = Network::new(BlockChain::new(authority.get_public_key()));
    let mut forged = transfer(&a, &b, 0);
    forged.signature[0] ^= 0x01;
    let block = mined_block(&network, vec![transfer(&a, &b, 5), forged]);
    assert_eq!(network.accept_block(block), Err(LedgerError::InsufficientBalance));
    assert_eq!(network.blockchain.blocks.len(), 1);
}

#[test]
fn block_with_uncovered_spend_is_refused() {
    let authority = Keypair::generate();
    let a = Keypair::generate();
    let b = Keypair::generate();
    let mut network = funded(&authority, &a, 10);
    let block = mined_block(&network, vec![transfer(&a, &b, 11)]);
    assert_eq!(network.accept_block(block), Err(LedgerError::InsufficientBalance));
    assert_eq!(network.blockchain.blocks.len(), 2);
    assert_eq!(balance(&network, &a), 10);
    assert_eq!(balance(&network, &b), 0);
}

#[test]
fn cover_counts_earlier_transactions_of_the_same_block() {
    let authority = Keypair::generate();
    let a = Keypair::generate();
    let b = Keypair::generate();
    let c = Keypair::generate();
    let mut network = funded(&authority, &a, 10);
    let block = mined_block(&network, vec![transfer(&a, &b, 10), transfer(&b, &c, 10)]);
    assert_eq!(network.accept_block(block), Ok(()));
    assert_eq!(balance(&network, &a), 0);
    assert_eq!(balance(&network, &b), 0);
    assert_eq!(balance(&network, &c), 10);
}

#[test]
fn same_funds_cannot_be_spent_twice_in_one_block() {
    let authority = Keypair::generate();
    let a = Keypair::generate();
    let b = Keypair::generate();
    let c = Keypair::generate();
    let mut network = funded(&authority, &a, 10);
    let block = mined_block(&network, vec![transfer(&a, &b, 10), transfer(&a, &c, 10)]);
    assert_eq!(network.accept_block(block), Err(LedgerError::InsufficientBalance));
    assert_eq!(network.blockchain.blocks.len(), 2);
    assert_eq!(balance(&network, &a), 10);

    let block = mined_block(&network, vec![transfer(&a, &b, 6), transfer(&a, &c, 4)]);
    assert_eq!(network.accept_block(block), Ok(()));
    assert_eq!(balance(&network, &a), 0);
    assert_eq!(balance(&network, &b), 6);
    assert_eq!(balance(&network, &c), 4);
}

#[test]
fn transfer_needs_funds_then_moves_them() {
    let g = Keypair::generate();
    let a = Keypair::generate();
    let b = Keypair::generate();
    let mut network = Network::new(BlockChain::new(g.get_public_key()));
    let spend = transfer(&a, &b, 10);
    assert_eq!(balance(&network, &a), 0);
    assert_eq!(
        network.blockchain.verify_transaction(&spend.trans),
        Err(LedgerError::InsufficientBalance)
    );

    let credit = Block {
        transactions: vec![transfer(&g, &a, 10)],
        prev_hash: network.blockchain.hash_of_last(),
        nonce: 0,
        reward: RewardBlock::new(g.get_public_key()),
    };
    network.blockchain.add_verified_block(credit);
    assert_eq!(balance(&network, &a), 10);
    assert_eq!(network.blockchain.verify_transaction(&spend.trans), Ok(()));

    let mut block =
        Block::new(vec![spend], network.blockchain.hash_of_last(), g.get_public_key()).unwrap();
    let (mined, _) = block.mine().unwrap();
    assert_eq!(network.accept_block(mined), Ok(()));
    assert_eq!(balance(&network, &a), 0);
    assert_eq!(balance(&network, &b), 10);
}

#[test]
fn collection_takes_what_is_signed_and_covered() {
    let authority = Keypair::generate();
    let a = Keypair::generate();
    let b = Keypair::generate();
    let mut network = funded(&authority, &a, 10);
    assert_eq!(TRANSACTIONS_PER_BLOCK, 1);

    assert!(network.collect(transfer(&a, &b, 11)).is_none());
    assert!(network.pending.is_empty());

    let mut forged = transfer(&a, &b, 1);
    forged.signature[3] ^= 0x10;
    assert!(network.collect(forged).is_none());
    assert!(network.pending.is_empty());

    let good = transfer(&a, &b, 10);
    let batch = network.collect(good.clone()).unwrap();
    assert_eq!(batch.len(), 1);
    assert_eq!(batch[0].to_bytes(), good.to_bytes());
    assert!(network.pending.is_empty());
    assert_eq!(network.blockchain.blocks.len(), 2);
}

#[test]
fn block_is_made_of_an_admitted_transaction() {
    let authority = Keypair::generate();
    let miner = Keypair::generate();
    let a = Keypair::generate();
    let b = Keypair::generate();
    let mut network = funded(&authority, &a, 10);
    let tip = network.blockchain.hash_of_last();
    let spend = transfer(&a, &b, 4);
    let made = network.create_new_blocks(spend.clone(), miner.get_public_key()).unwrap().unwrap();
    assert_eq!(made.prev_hash, tip);
    assert_eq!(made.transactions.len(), 1);
    assert_eq!(made.transactions[0].to_bytes(), spend.to_bytes());
    assert_eq!(made.reward.public, miner.get_public_key().to_bytes());
    assert_eq!(made.reward.amount, 10);
    assert!(made.is_mined());
    let mut start = made.clone();
    for nonce in 0..made.nonce {
        start.nonce = nonce;
        assert!(!start.is_mined());
    }
    assert_eq!(network.blockchain.blocks.len(), 3);
    assert_eq!(network.blockchain.hash_of_last(), made.hash_of());
    assert!(network.pending.is_empty());
    assert_eq!(balance(&network, &a), 6);
    assert_eq!(balance(&network, &b), 4);
    assert_eq!(balance(&network, &miner), 0);
}

#[test]
fn no_block_is_made_of_a_dropped_transaction() {
    let authority = Keypair::generate();
    let miner = Keypair::generate();
    let a = Keypair::generate();
    let b = Keypair::generate();
    let mut network = funded(&authority, &a, 10);
    let made = network.create_new_blocks(transfer(&a, &b, 11), miner.get_public_key()).unwrap();
    assert!(made.is_none());
    let mut forged = transfer(&a, &b, 1);
    forged.trans.amount = 2;
    let made = network.create_new_blocks(forged, miner.get_public_key()).unwrap();
    assert!(made.is_none());
    assert_eq!(network.blockchain.blocks.len(), 2);
    assert!(network.pending.is_empty());
}

#[test]
fn block_at_difficulty_zero_needs_no_search() {
    let authority = Keypair::generate();
    let a = Keypair::generate();
    let b = Keypair::generate();
    let mut network = Network::with_difficulty(BlockChain::new(authority.get_public_key()), 0);
    let made = network.create_new_blocks(transfer(&a, &b, 0), a.get_public_key()).unwrap().unwrap();
    assert_eq!(made.nonce, 0);
    assert_eq!(network.blockchain.blocks.len(), 2);
}

#[test]
fn block_making_reports_a_forged_signature_in_the_collection() {
    let authority = Keypair::generate();
    let a = Keypair::generate();
    let b = Keypair::generate();
    let mut network = Network::new(BlockChain::new(authority.get_public_key()));
    let mut forged = transfer(&a, &b, 0);
    forged.signature[9] ^= 0x04;
    network.pending.push(forged.clone());
    let result = network.create_new_blocks(transfer(&a, &b, 0), a.get_public_key());
    assert_eq!(
        result.err(),
        Some(LedgerError::InvalidSignature {
            transaction_hash: forged.trans.hash_of(),
            amount: 0,
        })
    );
    assert_eq!(network.blockchain.blocks.len(), 1);
    assert!(network.pending.is_empty());
}

#[test]
fn made_block_has_to_pass_the_rules() {
    let authority = Keypair::generate();
    let a = Keypair::generate();
    let b = Keypair::generate();
    let c = Keypair::generate();
    let mut network = funded(&authority, &a, 10);
    network.pending.push(transfer(&a, &b, 10));
    let result = network.create_new_blocks(transfer(&a, &c, 10), a.get_public_key());
    assert_eq!(result.err(), Some(LedgerError::InsufficientBalance));
    assert_eq!(network.blockchain.blocks.len(), 2);
    assert!(network.pending.is_empty());
    assert_eq!(balance(&network, &a), 10);

    network.pending.push(transfer(&a, &b, 6));
    let made = network.create_new_blocks(transfer(&a, &c, 4), a.get_public_key()).unwrap().unwrap();
    assert_eq!(made.transactions.len(), 2);
    assert_eq!(network.blockchain.blocks.len(), 3);
    assert_eq!(balance(&network, &a), 0);
    assert_eq!(balance(&network, &b), 6);
    assert_eq!(balance(&network, &c), 4);
}
