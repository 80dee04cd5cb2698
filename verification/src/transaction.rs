//! Transfers of value and the signatures that bind them to their senders.

use crate::encoding::encode_bytes;
use crate::encoding::encode_text;
use crate::error::LedgerError;
use crate::hashing::sha256;
use crate::hashing::to_hash;
use crate::hashing::HASH_LENGTH;
use crate::keys::is_public_key;
use crate::keys::signature_checks;
use crate::keys::signature_of;
use crate::keys::verify_signature;
use crate::keys::Keypair;
use crate::keys::PublicKey;
use crate::keys::PUBLIC_KEY_LENGTH;
use crate::keys::SIGNATURE_LENGTH;
use vstd::bytes::spec_u64_to_le_bytes;
use vstd::prelude::*;
use vstd::slice::slice_to_vec;
use vstd::std_specs::cmp::PartialEqSpecImpl;

verus! {

/// Number of characters in a transaction's identifier.
pub const UUID_LENGTH: usize = 36;

/// The number that an identifier text stands for, if it is the text of a
/// UUID.
pub uninterp spec fn uuid_value(text: Seq<char>) -> Option<u128>;

/// Calls `uuid::Uuid::new_v4` and formats the result with `to_string`, which
/// gives the hyphenated form of 36 characters. The identifier is random.
#[verifier::external_body]
fn fresh_uuid() -> (id: String)
    ensures
        id@.len() == UUID_LENGTH,
{
    uuid::Uuid::new_v4().to_string()
}

/// Calls `uuid::Uuid::parse_str` and, where it succeeds, `Uuid::as_u128`.
#[verifier::external_body]
fn parse_uuid(text: &str) -> (value: Option<u128>)
    ensures
        value == uuid_value(text@),
{
    match uuid::Uuid::parse_str(text) {
        Ok(id) => Some(id.as_u128()),
        Err(_) => None,
    }
}

/// An intent to move `amount` units from the sender's account to the
/// receiver's. Amounts are whole numbers of the smallest unit of value.
#[derive(Debug)]
pub struct Transaction {
    pub uuid: String,
    pub amount: u64,
    pub receiver_public_key: Vec<u8>,
    pub sender_public_key: Vec<u8>,
}

/// What a [`Transaction`] holds.
pub struct TransactionView {
    pub uuid: Seq<char>,
    pub amount: u64,
    pub receiver_public_key: Seq<u8>,
    pub sender_public_key: Seq<u8>,
}

impl View for Transaction {
    type V = TransactionView;

    open spec fn view(&self) -> TransactionView {
        TransactionView {
            uuid: self.uuid@,
            amount: self.amount,
            receiver_public_key: self.receiver_public_key@,
            sender_public_key: self.sender_public_key@,
        }
    }
}

/// Canonical encoding of a transaction: identifier, amount, receiver key,
/// sender key.
pub open spec fn encode_transaction(trans: TransactionView) -> Seq<u8> {
    encode_text(trans.uuid) + spec_u64_to_le_bytes(trans.amount) + encode_bytes(
        trans.receiver_public_key,
    ) + encode_bytes(trans.sender_public_key)
}

impl Transaction {
    /// A transaction with a fresh identifier. Nothing is checked here: whether
    /// the sender can afford the amount is decided when the transaction is to
    /// enter the ledger.
    pub fn new(amount: u64, receiver: PublicKey, sender: PublicKey) -> (trans: Transaction)
        ensures
            trans.amount == amount,
            trans.receiver_public_key@ == receiver@,
            trans.sender_public_key@ == sender@,
            trans.uuid@.len() == UUID_LENGTH,
    {
        Transaction {
            uuid: fresh_uuid(),
            amount,
            receiver_public_key: receiver.into_bytes(),
            sender_public_key: sender.into_bytes(),
        }
    }

    /// The receiver's key, if the bytes held decode as one.
    pub fn get_receiver_public_key(&self) -> (result: Result<PublicKey, LedgerError>)
        ensures
            result is Ok <==> is_public_key(self.receiver_public_key@),
            result is Ok ==> result->Ok_0@ == self.receiver_public_key@,
            result is Err ==> result->Err_0 == LedgerError::MalformedKeyOrSignature,
    {
        PublicKey::from_bytes(self.receiver_public_key.as_slice())
    }

    /// The sender's key, if the bytes held decode as one.
    pub fn get_sender_public_key(&self) -> (result: Result<PublicKey, LedgerError>)
        ensures
            result is Ok <==> is_public_key(self.sender_public_key@),
            result is Ok ==> result->Ok_0@ == self.sender_public_key@,
            result is Err ==> result->Err_0 == LedgerError::MalformedKeyOrSignature,
    {
        PublicKey::from_bytes(self.sender_public_key.as_slice())
    }

    /// The identifier as a 128-bit number, if the text held is that of a UUID.
    pub fn get_uuid(&self) -> (id: Option<u128>)
        ensures
            id == uuid_value(self.uuid@),
    {
        parse_uuid(self.uuid.as_str())
    }

    /// Calls `bincode::serialize` on the tuple of the four fields, which
    /// writes them in order in the crate's default configuration: text and
    /// byte strings behind a 64-bit little-endian length, the amount as eight
    /// little-endian bytes. Writing into memory without a size limit does not
    /// fail.
    #[verifier::external_body]
    pub fn to_bytes(&self) -> (bytes: Vec<u8>)
        ensures
            bytes@ == encode_transaction(self@),
    {
        bincode::serialize(
            &(&self.uuid, self.amount, &self.receiver_public_key, &self.sender_public_key),
        ).unwrap()
    }

    /// Digest of the canonical encoding.
    pub fn hash_of(&self) -> (digest: Vec<u8>)
        ensures
            digest@ == sha256(encode_transaction(self@)),
            digest@.len() == HASH_LENGTH,
    {
        let bytes = self.to_bytes();
        to_hash(bytes.as_slice())
    }
}

impl Clone for Transaction {
    fn clone(&self) -> (copy: Self)
        ensures
            copy@ == self@,
    {
        Transaction {
            uuid: self.uuid.clone(),
            amount: self.amount,
            receiver_public_key: slice_to_vec(self.receiver_public_key.as_slice()),
            sender_public_key: slice_to_vec(self.sender_public_key.as_slice()),
        }
    }
}

/// Two transactions are the same transaction when they have the same
/// identifier.
impl PartialEq for Transaction {
    fn eq(&self, other: &Self) -> (same: bool) {
        self.uuid == other.uuid
    }
}

impl PartialEqSpecImpl for Transaction {
    open spec fn obeys_eq_spec() -> bool {
        true
    }

    open spec fn eq_spec(&self, other: &Self) -> bool {
        self.uuid@ == other.uuid@
    }
}

/// A transaction together with a signature over its canonical encoding.
#[derive(Debug)]
pub struct SignedTransaction {
    pub trans: Transaction,
    pub signature: Vec<u8>,
}

/// What a [`SignedTransaction`] holds.
pub struct SignedTransactionView {
    pub trans: TransactionView,
    pub signature: Seq<u8>,
}

impl View for SignedTransaction {
    type V = SignedTransactionView;

    open spec fn view(&self) -> SignedTransactionView {
        SignedTransactionView { trans: self.trans@, signature: self.signature@ }
    }
}

/// Canonical encoding of a signed transaction: the transaction, then the
/// signature.
pub open spec fn encode_signed_transaction(signed: SignedTransactionView) -> Seq<u8> {
    encode_transaction(signed.trans) + encode_bytes(signed.signature)
}

/// The signature verifies over the transaction's encoding under the sender
/// key that the transaction declares.
pub open spec fn signature_valid(signed: SignedTransactionView) -> bool {
    signature_checks(
        signed.trans.sender_public_key,
        encode_transaction(signed.trans),
        signed.signature,
    )
}

impl SignedTransaction {
    /// Signs `trans` with `pair`. The signature is over the canonical
    /// encoding. It verifies against the sender key that the transaction
    /// declares whenever that key is the public half of `pair`; that the two
    /// agree is the caller's business and is not checked here.
    pub fn sign(trans: Transaction, pair: &Keypair) -> (signed: SignedTransaction)
        ensures
            pair.wf(),
            signed.trans == trans,
            signed.signature@ == signature_of(pair@, encode_transaction(trans@)),
            signed.signature@.len() == SIGNATURE_LENGTH,
            trans.sender_public_key@ == pair.public_key() ==> signature_valid(signed@),
    {
        let bytes = trans.to_bytes();
        let signature = pair.sign(bytes.as_slice());
        SignedTransaction { trans, signature }
    }

    /// Calls `bincode::serialize` on the transaction's four fields and the
    /// signature, which writes them in order in the crate's default
    /// configuration: text and byte strings behind a 64-bit little-endian
    /// length, the amount as eight little-endian bytes. Writing into memory
    /// without a size limit does not fail.
    #[verifier::external_body]
    pub fn to_bytes(&self) -> (bytes: Vec<u8>)
        ensures
            bytes@ == encode_signed_transaction(self@),
    {
        let trans = &self.trans;
        bincode::serialize(
            &(
                (&trans.uuid, trans.amount, &trans.receiver_public_key, &trans.sender_public_key),
                &self.signature,
            ),
        ).unwrap()
    }

    /// Digest of the canonical encoding.
    pub fn hash_of(&self) -> (digest: Vec<u8>)
        ensures
            digest@ == sha256(encode_signed_transaction(self@)),
            digest@.len() == HASH_LENGTH,
    {
        let bytes = self.to_bytes();
        to_hash(bytes.as_slice())
    }
}

impl Clone for SignedTransaction {
    fn clone(&self) -> (copy: Self)
        ensures
            copy@ == self@,
    {
        SignedTransaction {
            trans: self.trans.clone(),
            signature: slice_to_vec(self.signature.as_slice()),
        }
    }
}

/// Checks the signature against the sender key that the transaction
/// declares, over the transaction's canonical encoding. Key or signature
/// bytes that do not decode give `false`.
pub fn verify(sign: &SignedTransaction) -> (ok: bool)
    ensures
        ok == signature_valid(sign@),
        ok ==> sign.trans.sender_public_key@.len() == PUBLIC_KEY_LENGTH,
        ok ==> sign.signature@.len() == SIGNATURE_LENGTH,
        ok ==> is_public_key(sign.trans.sender_public_key@),
{
    let bytes = sign.trans.to_bytes();
    let ok = verify_signature(
        sign.trans.sender_public_key.as_slice(),
        bytes.as_slice(),
        sign.signature.as_slice(),
    );
    ok
}

} // verus!
