use minichain::error::LedgerError;
use minichain::hashing::to_hash;
use minichain::keys::Keypair;
use minichain::transaction::verify;
use minichain::transaction::SignedTransaction;
use minichain::transaction::Transaction;

fn hex(text: &str) -> Vec<u8> {
    (0..text.len() / 2)
        .map(|i| u8::from_str_radix(&text[2 * i..2 * i + 2], 16).unwrap())
        .collect()
}

fn sample() -> Transaction {
    Transaction {
        uuid: String::from("ab"),
        amount: 0x0102,
        receiver_public_key: vec![1, 2, 3],
        sender_public_key: vec![9],
    }
}

fn sample_bytes() -> Vec<u8> {
    vec![
        2, 0, 0, 0, 0, 0, 0, 0, b'a', b'b', // identifier
        2, 1, 0, 0, 0, 0, 0, 0, // amount
        3, 0, 0, 0, 0, 0, 0, 0, 1, 2, 3, // receiver
        1, 0, 0, 0, 0, 0, 0, 0, 9, // sender
    ]
}

#[test]
fn transaction_encoding_is_field_after_field() {
    assert_eq!(sample().to_bytes(), sample_bytes());
}

#[test]
fn transaction_encoding_is_what_bincode_gives_for_the_fields() {
    let trans = sample();
    let expected = bincode::serialize(&(
        &trans.uuid,
        trans.amount,
        &trans.receiver_public_key,
        &trans.sender_public_key,
    ))
    .unwrap();
    assert_eq!(trans.to_bytes(), expected);
}

#[test]
fn transaction_encoding_of_empty_fields() {
    let trans = Transaction {
        uuid: String::new(),
        amount: 0,
        receiver_public_key: vec![],
        sender_public_key: vec![],
    };
    assert_eq!(trans.to_bytes(), vec![0u8; 32]);
}

#[test]
fn transaction_encoding_writes_text_as_utf8() {
    let trans = Transaction {
        uuid: String::from("\u{e9}"),
        amount: u64::MAX,
        receiver_public_key: vec![],
        sender_public_key: vec![],
    };
    let mut expected = vec![2, 0, 0, 0, 0, 0, 0, 0, 0xc3, 0xa9];
    expected.extend_from_slice(&[0xff; 8]);
    expected.extend_from_slice(&[0; 16]);
    assert_eq!(trans.to_bytes(), expected);
}

#[test]
fn transaction_digest_is_digest_of_encoding() {
    assert_eq!(sample().hash_of(), to_hash(&sample_bytes()));
    assert_eq!(sample().hash_of().len(), 32);
}

#[test]
fn signed_transaction_encoding_appends_the_signature() {
    let signed = SignedTransaction { trans: sample(), signature: vec![7, 8] };
    let mut expected = sample_bytes();
    expected.extend_from_slice(&[2, 0, 0, 0, 0, 0, 0, 0, 7, 8]);
    assert_eq!(signed.to_bytes(), expected);
    assert_eq!(signed.hash_of(), to_hash(&expected));
}

#[test]
fn new_transaction_holds_what_it_was_given() {
    let sender = Keypair::generate().get_public_key();
    let receiver = Keypair::generate().get_public_key();
    let trans = Transaction::new(25, receiver.clone(), sender.clone());
    assert_eq!(trans.amount, 25);
    assert_eq!(trans.receiver_public_key, receiver.to_bytes());
    assert_eq!(trans.sender_public_key, sender.to_bytes());
    assert_eq!(trans.uuid.len(), 36);
    assert_eq!(trans.get_receiver_public_key().unwrap(), receiver);
    assert_eq!(trans.get_sender_public_key().unwrap(), sender);
}

#[test]
fn new_transactions_have_fresh_identifiers() {
    let sender = Keypair::generate().get_public_key();
    let receiver = Keypair::generate().get_public_key();
    let first = Transaction::new(1, receiver.clone(), sender.clone());
    let second = Transaction::new(1, receiver, sender);
    assert_ne!(first.uuid, second.uuid);
    assert!(first != second);
    assert!(first.get_uuid().is_some());
    assert_ne!(first.get_uuid(), second.get_uuid());
}

#[test]
fn transactions_are_equal_by_identifier() {
    let first = sample();
    let mut second = sample();
    second.amount = 77;
    second.sender_public_key = vec![];
    assert!(first == second);
    second.uuid = String::from("ac");
    assert!(first != second);
    assert!(first.clone() == first);
    assert_eq!(first.clone().to_bytes(), first.to_bytes());
}

#[test]
fn identifier_as_number() {
    let mut trans = sample();
    trans.uuid = String::from("a1a2a3a4-b1b2-c1c2-d1d2-d3d4d5d6d7d8");
    assert_eq!(trans.get_uuid(), Some(0xa1a2a3a4b1b2c1c2d1d2d3d4d5d6d7d8));
    trans.uuid = String::from("00000000-0000-0000-0000-000000000001");
    assert_eq!(trans.get_uuid(), Some(1));
    trans.uuid = String::from("not an identifier");
    assert_eq!(trans.get_uuid(), None);
    assert_eq!(sample().get_uuid(), None);
}

#[test]
fn malformed_keys_are_reported() {
    let trans = sample();
    assert_eq!(trans.get_sender_public_key().err(), Some(LedgerError::MalformedKeyOrSignature));
    assert_eq!(trans.get_receiver_public_key().err(), Some(LedgerError::MalformedKeyOrSignature));
}

#[test]
fn signed_transaction_verifies() {
    let pair = Keypair::generate();
    let receiver = Keypair::generate().get_public_key();
    let trans = Transaction::new(10, receiver, pair.get_public_key());
    let encoding = trans.to_bytes();
    let signed = SignedTransaction::sign(trans, &pair);
    assert_eq!(signed.signature.len(), 64);
    assert_eq!(signed.signature, pair.sign(&encoding));
    assert!(verify(&signed));
    assert!(verify(&signed.clone()));
}

#[test]
fn signature_is_over_the_encoding() {
    let pair = Keypair::from_secret_bytes(&hex(
        "9d61b19deffd5a60ba844af492ec2cc44449c5697b326919703bac031cae7f60",
    ))
    .unwrap();
    let trans = Transaction {
        uuid: String::from("a1a2a3a4-b1b2-c1c2-d1d2-d3d4d5d6d7d8"),
        amount: 3,
        receiver_public_key: vec![1; 32],
        sender_public_key: pair.get_public_key().to_bytes(),
    };
    let expected = pair.sign(&trans.to_bytes());
    let signed = SignedTransaction::sign(trans, &pair);
    assert_eq!(signed.signature, expected);
    assert!(verify(&signed));
}

#[test]
fn transaction_changed_after_signing_does_not_verify() {
    let pair = Keypair::generate();
    let receiver = Keypair::generate().get_public_key();
    let thief = Keypair::generate().get_public_key();
    let trans = Transaction::new(10, receiver, pair.get_public_key());
    let signed = SignedTransaction::sign(trans, &pair);
    assert!(verify(&signed));

    let mut more = signed.clone();
    more.trans.amount = 11;
    assert!(!verify(&more));

    let mut elsewhere = signed.clone();
    elsewhere.trans.receiver_public_key = thief.to_bytes();
    assert!(!verify(&elsewhere));

    let mut renamed = signed.clone();
    renamed.trans.uuid = String::from("00000000-0000-0000-0000-000000000000");
    assert!(!verify(&renamed));
}

#[test]
fn signature_by_another_pair_does_not_verify() {
    let pair = Keypair::generate();
    let other = Keypair::generate();
    let receiver = Keypair::generate().get_public_key();
    let trans = Transaction::new(10, receiver, pair.get_public_key());
    let signed = SignedTransaction::sign(trans, &other);
    assert!(!verify(&signed));
}

#[test]
fn forged_signature_does_not_verify() {
    let pair = Keypair::generate();
    let receiver = Keypair::generate().get_public_key();
    let trans = Transaction::new(10, receiver, pair.get_public_key());
    let signed = SignedTransaction::sign(trans, &pair);
    for position in [0usize, 17, 31, 32, 63] {
        let mut forged = signed.clone();
        forged.signature[position] ^= 0x01;
        assert!(!verify(&forged));
    }
}

#[test]
fn malformed_key_or_signature_does_not_verify() {
    let pair = Keypair::generate();
    let receiver = Keypair::generate().get_public_key();
    let trans = Transaction::new(10, receiver, pair.get_public_key());
    let signed = SignedTransaction::sign(trans, &pair);

    let mut short = signed.clone();
    short.signature.pop();
    assert!(!verify(&short));

    let mut empty = signed.clone();
    empty.signature.clear();
    assert!(!verify(&empty));

    let mut long = signed.clone();
    long.signature.push(0);
    assert!(!verify(&long));

    let mut high = signed.clone();
    high.signature[63] |= 0xe0;
    assert!(!verify(&high));

    let unsigned = SignedTransaction { trans: sample(), signature: vec![0; 64] };
    assert!(!verify(&unsigned));

    let mut keyless = signed.clone();
    keyless.trans.sender_public_key = vec![];
    let resigned = SignedTransaction::sign(keyless.trans, &pair);
    assert!(!verify(&resigned));
}
