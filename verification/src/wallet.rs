//! A wallet: a signing pair and the funds that its owner knows of.

use crate::error::LedgerError;
use crate::keys::Keypair;
use crate::keys::PublicKey;
use crate::transaction::signature_valid;
use crate::transaction::SignedTransaction;
use crate::transaction::Transaction;
use vstd::prelude::*;

verus! {

/// A signing pair together with the balance that the owner may still spend.
#[derive(Debug)]
pub struct Wallet {
    keypair: Keypair,
    pub balance: u64,
}

impl Wallet {
    /// What the wallet may still spend.
    pub closed spec fn funds(&self) -> u64 {
        self.balance
    }

    /// Bytes of the wallet's public key.
    pub closed spec fn public_key(&self) -> Seq<u8> {
        self.keypair.public_key()
    }

    /// A wallet with a fresh signing pair and nothing to spend.
    pub fn new() -> (wallet: Wallet)
        ensures
            wallet.funds() == 0,
    {
        Wallet { keypair: Keypair::generate(), balance: 0 }
    }

    /// The key under which the wallet sends and receives.
    pub fn get_public_key(&self) -> (public: PublicKey)
        ensures
            public@ == self.public_key(),
    {
        self.keypair.get_public_key()
    }

    /// Makes and signs a transfer of `amount` from this wallet to `receiver`
    /// and takes the amount off the wallet's balance. An amount above the
    /// balance is refused and leaves the wallet as it was. The signed
    /// transaction is handed back for sending to the network.
    pub fn make_transaction(&mut self, amount: u64, receiver: PublicKey) -> (result: Result<
        SignedTransaction,
        LedgerError,
    >)
        ensures
            final(self).public_key() == old(self).public_key(),
            result is Ok <==> amount <= old(self).funds(),
            result is Err ==> result->Err_0 == LedgerError::InsufficientBalance && final(self).funds()
                == old(self).funds(),
            result is Ok ==> {
                let signed = result->Ok_0;
                &&& final(self).funds() == old(self).funds() - amount
                &&& signed.trans.amount == amount
                &&& signed.trans.receiver_public_key@ == receiver@
                &&& signed.trans.sender_public_key@ == old(self).public_key()
                &&& signature_valid(signed@)
            },
    {
        if amount > self.balance {
            return Err(LedgerError::InsufficientBalance);
        }
        self.balance = self.balance - amount;
        let trans = Transaction::new(amount, receiver, self.keypair.get_public_key());
        let signed = SignedTransaction::sign(trans, &self.keypair);
        Ok(signed)
    }
}

} // verus!
