use block_chain::common::hash_strings;
use block_chain::decimal::{append_decimal, signed_text, unsigned_text};

#[test]
fn unsigned_text_of_zero_is_one_digit() {
    assert_eq!(unsigned_text(0), "0");
}

#[test]
fn unsigned_text_matches_std() {
    for n in [1u64, 9, 10, 11, 99, 100, 101, 4294967295, 1700000000, u64::MAX] {
        assert_eq!(unsigned_text(n), n.to_string());
    }
    assert_eq!(unsigned_text(u64::MAX), "18446744073709551615");
}

#[test]
fn signed_text_matches_std() {
    for n in [0i64, 1, -1, 10, -10, 1700000000, -1700000000, i64::MAX, i64::MIN] {
        assert_eq!(signed_text(n), n.to_string());
    }
    assert_eq!(signed_text(i64::MIN), "-9223372036854775808");
    assert_eq!(signed_text(i64::MAX), "9223372036854775807");
}

#[test]
fn append_decimal_keeps_what_was_there() {
    let mut text = String::from("n=");
    append_decimal(&mut text, 120);
    assert_eq!(text, "n=120");
}

#[test]
fn hash_strings_of_nothing_is_the_hash_of_the_empty_text() {
    let expected = "e3b0c44298fc1c149afbf4c8996fb92427ae41e4649b934ca495991b7852b855";
    assert_eq!(hash_strings(&Vec::new()), expected);
    assert_eq!(hash_strings(&vec![String::new(), String::new()]), expected);
}

#[test]
fn hash_strings_concatenates_without_separators() {
    let expected = "ba7816bf8f01cfea414140de5dae2223b00361a396177a9cb410ff61f20015ad";
    assert_eq!(hash_strings(&vec!["a".to_string(), "bc".to_string()]), expected);
    assert_eq!(hash_strings(&vec!["abc".to_string()]), expected);
    assert_eq!(hash_strings(&vec!["ab".to_string(), String::new(), "c".to_string()]), expected);
}

#[test]
fn hash_strings_keeps_the_order() {
    let forward = hash_strings(&vec!["a".to_string(), "b".to_string()]);
    let backward = hash_strings(&vec!["b".to_string(), "a".to_string()]);
    assert_ne!(forward, backward);
}

#[test]
fn hash_strings_is_sha256_in_hexadecimal() {
    assert_eq!(
        hash_strings(&vec!["crypto-hash".to_string()]),
        "fd1afb6022cd4d47c890961c533928eacfe8219f1b2524f7fb2a61847ddf8c27"
    );
}
