use block_chain::common::Hashing;
use block_chain::transaction::Transaction;

#[test]
fn transaction_instantiated_with_correct_properties() {
    let sender = "1234";
    let receiver = "5678";
    let amount = 100;
    let transaction = Transaction::new(sender, receiver, amount);
    assert_eq!(transaction.get_sender(), sender);
    assert_eq!(transaction.get_receiver(), receiver);
    assert_eq!(transaction.get_amount(), amount);
    assert_eq!(transaction.get_hash().len(), 64);
}

#[test]
fn transaction_digest_is_the_hash_of_its_content() {
    let transaction = Transaction::at(1700000000, "1234", "5678", 100);
    assert_eq!(transaction.get_timestamp(), 1700000000);
    assert_eq!(
        transaction.get_hash(),
        "6e326a9fc45ca1344f19eb53250a32c76a51a0bf8e346b2cba012148f27e46ba"
    );
}

#[test]
fn transaction_digest_takes_a_negative_instant_with_its_sign() {
    let transaction = Transaction::at(-42, "a", "b", 0);
    assert_eq!(
        transaction.get_hash(),
        "a649f0fc924cc3278d2596ae646bd34bbe89f64caea9ae7ae952b99df0220038"
    );
}

#[test]
fn transaction_digest_encodes_text_as_utf8() {
    let transaction = Transaction::at(0, "é", "ü", 7);
    assert_eq!(
        transaction.get_hash(),
        "8e77a4cf0b594883d9031034904cab220d9a375378e3d16742bb0146a99effe5"
    );
}

#[test]
fn transaction_digest_is_deterministic() {
    let first = Transaction::at(1700000000, "alice", "bob", 5);
    let second = Transaction::at(1700000000, "alice", "bob", 5);
    assert_eq!(first.get_hash(), second.get_hash());
    let other = Transaction::at(1700000001, "alice", "bob", 5);
    assert_ne!(first.get_hash(), other.get_hash());
}

#[test]
fn transaction_created_now_has_the_digest_of_its_instant() {
    let made = Transaction::new("alice", "bob", 5);
    let again = Transaction::at(made.get_timestamp(), "alice", "bob", 5);
    assert_eq!(made.get_hash(), again.get_hash());
}

#[test]
fn transaction_hashing_strings_are_its_content_in_order() {
    let transaction = Transaction::at(12, "from", "to", 34);
    assert_eq!(
        transaction.get_hashing_strings(),
        vec!["12".to_string(), "from".to_string(), "to".to_string(), "34".to_string()]
    );
}

#[test]
fn transaction_generate_hash_gives_its_digest() {
    let mut transaction = Transaction::at(1700000000, "1234", "5678", 100);
    let digest = transaction.generate_hash();
    assert_eq!(digest, transaction.get_hash());
}

#[test]
fn transaction_clone_keeps_every_field() {
    let transaction = Transaction::at(9, "s", "r", 3);
    let copy = transaction.clone();
    assert_eq!(copy.get_timestamp(), 9);
    assert_eq!(copy.get_sender(), "s");
    assert_eq!(copy.get_receiver(), "r");
    assert_eq!(copy.get_amount(), 3);
    assert_eq!(copy.get_hash(), transaction.get_hash());
}

#[test]
fn transaction_digest_is_lower_case_hexadecimal() {
    let transaction = Transaction::new("1234", "5678", 100);
    assert!(transaction
        .get_hash()
        .chars()
        .all(|c| c.is_ascii_digit() || ('a'..='f').contains(&c)));
}
