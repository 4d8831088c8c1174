use search_registry::bytes::{bytes_eq, bytes_to_u64, copy_bytes};
use search_registry::ledger::{RewardBook, RewardLedger};
use search_registry::registry::same_root;
use search_registry::tags::{has_tag, is_in_tags};

fn tags(names: &[&str]) -> Vec<Vec<u8>> {
    names.iter().map(|t| t.as_bytes().to_vec()).collect()
}

#[test]
fn eight_bytes_are_read_big_endian() {
    assert_eq!(bytes_to_u64(&[0, 0, 0, 0, 0, 0, 0, 0]), 0);
    assert_eq!(bytes_to_u64(&[0, 0, 0, 0, 0, 0, 1, 2]), 258);
    assert_eq!(bytes_to_u64(&[1, 2, 3, 4, 5, 6, 7, 8]), 0x0102_0304_0506_0708);
    assert_eq!(bytes_to_u64(&[0x80, 0, 0, 0, 0, 0, 0, 0]), 1u64 << 63);
    assert_eq!(bytes_to_u64(&[255; 8]), u64::MAX);
    assert_eq!(bytes_to_u64(&12345678901234567u64.to_be_bytes()), 12345678901234567);
}

#[test]
fn byte_strings_compare_and_copy() {
    assert!(bytes_eq(&vec![], &vec![]));
    assert!(bytes_eq(&vec![1, 2, 3], &vec![1, 2, 3]));
    assert!(!bytes_eq(&vec![1, 2, 3], &vec![1, 2]));
    assert!(!bytes_eq(&vec![1, 2, 3], &vec![1, 2, 4]));
    assert_eq!(copy_bytes(&vec![9, 8, 7]), vec![9, 8, 7]);
    assert_eq!(copy_bytes(&vec![]), Vec::<u8>::new());
}

#[test]
fn root_hashes_compare() {
    assert!(same_root(&None, &None));
    assert!(same_root(&Some(vec![1]), &Some(vec![1])));
    assert!(!same_root(&Some(vec![1]), &Some(vec![2])));
    assert!(!same_root(&Some(vec![]), &None));
    assert!(!same_root(&None, &Some(vec![])));
}

#[test]
fn targets_must_all_be_in_the_range() {
    assert!(is_in_tags(&tags(&[]), &tags(&[])));
    assert!(is_in_tags(&tags(&[]), &tags(&["a"])));
    assert!(is_in_tags(&tags(&["a"]), &tags(&["a", "b"])));
    assert!(is_in_tags(&tags(&["b", "a"]), &tags(&["a", "b"])));
    assert!(is_in_tags(&tags(&["a", "a"]), &tags(&["a"])));
    assert!(!is_in_tags(&tags(&["a", "c"]), &tags(&["a", "b"])));
    assert!(!is_in_tags(&tags(&["a"]), &tags(&[])));
    assert!(!is_in_tags(&tags(&["ab"]), &tags(&["a", "b"])));
    assert!(has_tag(&tags(&["a", "b"]), &b"b".to_vec()));
    assert!(!has_tag(&tags(&["a", "b"]), &b"".to_vec()));
}

#[test]
fn book_keeps_credits_in_order_and_refuses_overflow() {
    let mut book = RewardBook::new();
    assert_eq!(book.len(), 0);
    assert_eq!(book.total_issued(), 0);
    assert!(book.credit(1, 10));
    assert!(book.credit(2, 20));
    assert!(book.credit(1, 30));
    assert_eq!(book.len(), 3);
    assert_eq!(book.entry(0), Some((1, 10)));
    assert_eq!(book.entry(1), Some((2, 20)));
    assert_eq!(book.entry(2), Some((1, 30)));
    assert_eq!(book.entry(3), None);
    assert_eq!(book.balance_of(1), 40);
    assert_eq!(book.balance_of(2), 20);
    assert_eq!(book.balance_of(3), 0);
    assert_eq!(book.total_issued(), 60);
    assert!(!book.credit(3, u64::MAX - 59));
    assert_eq!(book.len(), 3);
    assert_eq!(book.total_issued(), 60);
    assert!(book.credit(3, u64::MAX - 60));
    assert_eq!(book.total_issued(), u64::MAX);
    assert!(!book.credit(3, 1));
    assert!(book.credit(3, 0));
}
