use block_chain::block::Block;
use block_chain::common::Hashing;
use block_chain::transaction::Transaction;

#[test]
fn instantiates_block_with_the_correct_properties() {
    let transactions = vec![Transaction::new("1234", "5678", 100)];
    let first_transaction = transactions.first().unwrap().clone();
    let block = Block::new(transactions);
    let block_transaction = block.get_transactions().first().unwrap().clone();
    assert_eq!(block_transaction.get_sender(), first_transaction.get_sender());
    assert_eq!(block_transaction.get_receiver(), first_transaction.get_receiver());
    assert_eq!(block_transaction.get_amount(), first_transaction.get_amount());
    assert_eq!(block.get_hash().len(), 64);
    assert_eq!(block.get_nonce(), 0);
}

#[test]
fn mines_block() {
    let transactions = vec![Transaction::new("1234", "5678", 100)];
    let mut block = Block::new(transactions);
    let difficulty = 3;
    assert!(block.mine(difficulty));
    let hash = block.get_hash();
    assert_eq!(&hash[..difficulty], str::repeat("0", difficulty));
    assert_eq!(hash.len(), 64);
}

#[test]
fn updates_prev_block_hash() {
    let transactions = vec![Transaction::new("1234", "5678", 100)];
    let mut block = Block::new(transactions);
    block.set_prev_hash("prev hash");
    assert_eq!(block.get_prev_hash(), "prev hash".to_string());
}

#[test]
fn updates_next_block_hash() {
    let transactions = vec![Transaction::new("1234", "5678", 100)];
    let mut block = Block::new(transactions);
    block.set_next_hash("next hash");
    assert_eq!(block.get_next_hash(), "next hash".to_string());
}

#[test]
fn block_starts_unlinked_with_the_digest_of_its_fields() {
    let block = Block::at(1700000000, Vec::new());
    assert_eq!(block.get_timestamp(), 1700000000);
    assert_eq!(block.get_nonce(), 0);
    assert_eq!(block.get_prev_hash(), "");
    assert_eq!(block.get_next_hash(), "");
    assert!(block.get_transactions().is_empty());
    assert_eq!(
        block.get_hash(),
        "f6fd82c3e51943dbba8017780c12863b1a0e61ba94fbcdda6404ea24f42e274e"
    );
}

#[test]
fn block_digest_does_not_depend_on_its_transactions() {
    let empty = Block::at(1700000000, Vec::new());
    let full = Block::at(1700000000, vec![Transaction::at(1, "a", "b", 2)]);
    assert_eq!(empty.get_hash(), full.get_hash());
}

#[test]
fn block_keeps_its_transactions_in_order() {
    let block = Block::at(
        5,
        vec![
            Transaction::at(1, "a", "b", 10),
            Transaction::at(2, "c", "d", 20),
            Transaction::at(3, "e", "f", 30),
        ],
    );
    let transactions = block.get_transactions();
    assert_eq!(transactions.len(), 3);
    assert_eq!(transactions[0].get_amount(), 10);
    assert_eq!(transactions[1].get_amount(), 20);
    assert_eq!(transactions[2].get_amount(), 30);
    assert_eq!(transactions[1].get_sender(), "c");
}

#[test]
fn mining_at_difficulty_zero_changes_nothing() {
    let mut block = Block::at(1700000000, Vec::new());
    let digest = block.get_hash().to_string();
    assert!(block.mine(0));
    assert_eq!(block.get_nonce(), 0);
    assert_eq!(block.get_hash(), digest);
}

#[test]
fn mining_chains_each_attempt_to_the_one_before() {
    let mut block = Block::at(1700000000, Vec::new());
    assert!(block.mine(1));
    assert_eq!(block.get_nonce(), 9);
    assert_eq!(
        block.get_hash(),
        "05210a27234944ce299334368012631199465bf3b8ff183fc01d4455838f4c0a"
    );
    assert!(block.mine(2));
    assert_eq!(block.get_nonce(), 122);
    assert_eq!(
        block.get_hash(),
        "005fcffb5d5ea583a71b711dcd0c72747b69e23fd01cc37247a8162d9349af05"
    );
}

#[test]
fn mining_from_a_fresh_block_finds_the_first_digest_that_meets_the_target() {
    let mut block = Block::at(1700000000, vec![Transaction::at(1, "a", "b", 2)]);
    assert!(block.mine(3));
    assert_eq!(block.get_nonce(), 1785);
    assert_eq!(
        block.get_hash(),
        "000137c147dba98deae4ebbbf0da1b6c5f7e48349ceff5b5ce80fa1ee7d8e7ef"
    );
    assert_eq!(block.get_transactions().len(), 1);
    assert_eq!(block.get_timestamp(), 1700000000);
}

#[test]
fn mining_a_block_that_meets_the_target_changes_nothing() {
    let mut block = Block::at(1700000000, Vec::new());
    assert!(block.mine(2));
    let nonce = block.get_nonce();
    let digest = block.get_hash().to_string();
    assert!(block.mine(2));
    assert!(block.mine(1));
    assert_eq!(block.get_nonce(), nonce);
    assert_eq!(block.get_hash(), digest);
}

#[test]
fn mining_for_more_zeros_than_a_digest_holds_finds_nothing() {
    let mut block = Block::at(1700000000, Vec::new());
    let digest = block.get_hash().to_string();
    assert!(!block.mine(65));
    assert_eq!(block.get_nonce(), 0);
    assert_eq!(block.get_hash(), digest);
}

#[test]
fn block_hashing_strings_are_its_fields_in_order() {
    let mut block = Block::at(77, Vec::new());
    let digest = block.get_hash().to_string();
    block.set_prev_hash("before");
    block.set_next_hash("after");
    assert_eq!(
        block.get_hashing_strings(),
        vec![
            "77".to_string(),
            "0".to_string(),
            digest.clone(),
            "before".to_string(),
            "after".to_string()
        ]
    );
    assert_eq!(block.get_hash(), digest);
}

#[test]
fn block_generate_hash_folds_in_the_digest_it_carries() {
    let mut block = Block::at(1700000000, Vec::new());
    let carried = block.get_hash().to_string();
    let next = block.generate_hash();
    assert_ne!(next, carried);
    assert_eq!(next.len(), 64);
    assert_eq!(block.get_hash(), carried);
}

#[test]
fn links_change_the_links_only() {
    let mut block = Block::at(1700000000, vec![Transaction::at(1, "a", "b", 2)]);
    let digest = block.get_hash().to_string();
    block.set_prev_hash("p");
    block.set_next_hash("n");
    block.set_prev_hash("q");
    assert_eq!(block.get_prev_hash(), "q");
    assert_eq!(block.get_next_hash(), "n");
    assert_eq!(block.get_hash(), digest);
    assert_eq!(block.get_nonce(), 0);
    assert_eq!(block.get_transactions().len(), 1);
}

#[test]
fn block_clone_keeps_every_field() {
    let mut block = Block::at(1700000000, vec![Transaction::at(1, "a", "b", 2)]);
    block.set_prev_hash("p");
    block.set_next_hash("n");
    assert!(block.mine(1));
    let copy = block.clone();
    assert_eq!(copy.get_timestamp(), block.get_timestamp());
    assert_eq!(copy.get_nonce(), block.get_nonce());
    assert_eq!(copy.get_hash(), block.get_hash());
    assert_eq!(copy.get_prev_hash(), "p");
    assert_eq!(copy.get_next_hash(), "n");
    assert_eq!(copy.get_transactions()[0].get_hash(), block.get_transactions()[0].get_hash());
}
