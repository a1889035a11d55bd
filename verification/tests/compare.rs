use op_proofs_verify::compare::{
    compare_account_trie_nodes, compare_accounts, compare_storage_slots,
    compare_storage_trie_nodes, describe_difference, find_node_difference, Account, Finding,
};
use op_proofs_verify::primitives::{B256, U256};
use op_proofs_verify::report::{HashedAccountDiff, StorageDiff};
use op_proofs_verify::trie::{BranchNodeCompact, Nibbles};

fn word(byte: u8) -> B256 {
    B256 { bytes: [byte; 32] }
}

fn number(value: u64) -> U256 {
    U256 { limbs: [value, 0, 0, 0] }
}

fn path(nibbles: &[u8]) -> Nibbles {
    Nibbles::from_nibbles(nibbles.to_vec()).unwrap()
}

fn node(state_mask: u16) -> BranchNodeCompact {
    BranchNodeCompact {
        state_mask,
        tree_mask: 1,
        hash_mask: 2,
        hashes: vec![word(0xab)],
        root_hash: None,
    }
}

fn node_debug(state_mask: u16) -> String {
    format!(
        "BranchNodeCompact {{ state_mask: TrieMask({:016b}), \
         tree_mask: TrieMask(0000000000000001), hash_mask: TrieMask(0000000000000010), \
         hashes: [0x{}], root_hash: None }}",
        state_mask,
        "ab".repeat(32)
    )
}

fn account(nonce: u64, balance: u64, bytecode_hash: Option<B256>) -> Account {
    Account { nonce, balance: number(balance), bytecode_hash }
}

#[test]
fn path_is_made_of_nibbles_only() {
    assert!(Nibbles::from_nibbles(vec![]).is_some());
    assert!(Nibbles::from_nibbles(vec![0, 15]).is_some());
    assert!(Nibbles::from_nibbles(vec![0, 16]).is_none());
    assert!(Nibbles::from_nibbles(vec![7; 64]).is_some());
    assert!(Nibbles::from_nibbles(vec![7; 65]).is_none());
}

#[test]
fn paths_are_equal_by_nibbles() {
    assert!(path(&[1, 2]) == path(&[1, 2]));
    assert!(path(&[1, 2]) != path(&[1, 3]));
    assert!(path(&[1]) != path(&[1, 0]));
}

#[test]
fn nodes_are_equal_by_all_fields() {
    assert!(node(3) == node(3));
    assert!(node(3) != node(7));
    let mut other = node(3);
    other.tree_mask = 0;
    assert!(node(3) != other);
    let mut other = node(3);
    other.hash_mask = 1;
    assert!(node(3) != other);
    let mut other = node(3);
    other.hashes = vec![];
    assert!(node(3) != other);
    let mut other = node(3);
    other.hashes = vec![word(0xac)];
    assert!(node(3) != other);
    let mut other = node(3);
    other.root_hash = Some(word(0));
    assert!(node(3) != other);
}

#[test]
fn words_are_equal_by_bytes() {
    let mut bytes = [9; 32];
    assert_eq!(word(9), B256 { bytes });
    bytes[31] = 8;
    assert_ne!(word(9), B256 { bytes });
    assert_eq!(B256::zero(), word(0));
}

#[test]
fn numbers_are_equal_by_limbs() {
    assert_eq!(number(5), U256 { limbs: [5, 0, 0, 0] });
    assert_ne!(number(5), U256 { limbs: [5, 0, 0, 1] });
    assert_eq!(U256::zero(), number(0));
}

#[test]
fn equal_nodes_do_not_differ() {
    let difference =
        compare_account_trie_nodes(Some((path(&[1]), node(3))), Some((path(&[1]), node(3))));
    assert!(difference.is_none());
    assert!(compare_account_trie_nodes(None, None).is_none());
}

#[test]
fn different_paths_show_paths_and_nodes() {
    let (found, diff) =
        compare_account_trie_nodes(Some((path(&[1, 10]), node(3))), Some((path(&[]), node(7))))
            .unwrap();
    assert_eq!(found, Finding::KeyMismatch);
    assert!(diff.path == path(&[1, 10]));
    assert_eq!(diff.canonical_value, format!("Path: Nibbles(0x1a), Node: {}", node_debug(3)));
    assert_eq!(diff.proofs_value, format!("Path: Nibbles(0x), Node: {}", node_debug(7)));
}

#[test]
fn different_nodes_show_nodes() {
    let (found, diff) =
        compare_account_trie_nodes(Some((path(&[4]), node(3))), Some((path(&[4]), node(7))))
            .unwrap();
    assert_eq!(found, Finding::ValueMismatch);
    assert!(diff.path == path(&[4]));
    assert_eq!(diff.canonical_value, node_debug(3));
    assert_eq!(diff.proofs_value, node_debug(7));
}

#[test]
fn absent_nodes_are_missing() {
    let (found, diff) = compare_account_trie_nodes(Some((path(&[4]), node(3))), None).unwrap();
    assert_eq!(found, Finding::Missing);
    assert_eq!(diff.canonical_value, node_debug(3));
    assert_eq!(diff.proofs_value, "MISSING");
    let (found, diff) = compare_account_trie_nodes(None, Some((path(&[4]), node(3)))).unwrap();
    assert_eq!(found, Finding::Extra);
    assert!(diff.path == path(&[4]));
    assert_eq!(diff.canonical_value, "MISSING");
    assert_eq!(diff.proofs_value, node_debug(3));
}

#[test]
fn long_path_is_written_with_leading_zeros() {
    let mut nibbles = vec![0; 64];
    nibbles[63] = 15;
    let long = Nibbles::from_nibbles(nibbles).unwrap();
    let (_, diff) =
        compare_account_trie_nodes(Some((long, node(3))), Some((path(&[0, 0]), node(3)))).unwrap();
    assert_eq!(
        diff.canonical_value,
        format!("Path: Nibbles(0x{}f), Node: {}", "0".repeat(63), node_debug(3))
    );
    assert_eq!(diff.proofs_value, format!("Path: Nibbles(0x00), Node: {}", node_debug(3)));
}

#[test]
fn storage_trie_difference_names_the_account() {
    let (found, diff) = compare_storage_trie_nodes(
        word(1),
        Some((path(&[4]), node(3))),
        Some((path(&[4]), node(7))),
    )
    .unwrap();
    assert_eq!(found, Finding::ValueMismatch);
    assert_eq!(diff.hashed_address, word(1));
    assert!(diff.path == path(&[4]));
    assert_eq!(diff.canonical_value, node_debug(3));
    assert_eq!(diff.proofs_value, node_debug(7));
    assert!(compare_storage_trie_nodes(word(1), None, None).is_none());
}

#[test]
fn equal_accounts_do_not_differ() {
    let same = account(1, 2, Some(word(3)));
    assert!(compare_accounts(Some((word(1), same)), Some((word(1), same))).is_none());
    assert!(compare_accounts(None, None).is_none());
}

#[test]
fn account_difference_names_the_values_that_differ() {
    let difference = compare_accounts(
        Some((word(1), account(1, 2, Some(word(3))))),
        Some((word(1), account(1, 5, None))),
    );
    let expected = HashedAccountDiff {
        address: word(1),
        balance_diff: Some((number(2), number(5))),
        nonce_diff: None,
        code_hash_diff: Some((word(3), word(0))),
        storage_root_diff: None,
    };
    assert_eq!(difference, Some((Finding::ValueMismatch, expected)));
}

#[test]
fn absent_code_differs_from_zero_code_hash() {
    let difference = compare_accounts(
        Some((word(1), account(1, 2, None))),
        Some((word(1), account(1, 2, Some(word(0))))),
    );
    let expected = HashedAccountDiff {
        address: word(1),
        balance_diff: None,
        nonce_diff: None,
        code_hash_diff: Some((word(0), word(0))),
        storage_root_diff: None,
    };
    assert_eq!(difference, Some((Finding::ValueMismatch, expected)));
}

#[test]
fn absent_accounts_are_held_against_zero() {
    let here = account(7, 9, Some(word(3)));
    let canonical_only = HashedAccountDiff {
        address: word(1),
        balance_diff: Some((number(9), number(0))),
        nonce_diff: Some((7, 0)),
        code_hash_diff: None,
        storage_root_diff: None,
    };
    let proofs_only = HashedAccountDiff {
        address: word(1),
        balance_diff: Some((number(0), number(9))),
        nonce_diff: Some((0, 7)),
        code_hash_diff: None,
        storage_root_diff: None,
    };
    assert_eq!(
        compare_accounts(Some((word(1), here)), None),
        Some((Finding::Missing, canonical_only))
    );
    assert_eq!(
        compare_accounts(Some((word(1), here)), Some((word(2), here))),
        Some((Finding::KeyMismatch, canonical_only))
    );
    assert_eq!(compare_accounts(None, Some((word(1), here))), Some((Finding::Extra, proofs_only)));
}

#[test]
fn storage_slots_are_compared_by_slot_and_value() {
    let diff = |slot: u8, canonical: u64, proofs: u64| StorageDiff {
        hashed_address: word(1),
        slot: word(slot),
        canonical_value: number(canonical),
        proofs_value: number(proofs),
    };
    let compare = |canonical, proofs| compare_storage_slots(word(1), canonical, proofs);
    let slot = |slot: u8, value: u64| Some((word(slot), number(value)));
    assert_eq!(compare(None, None), None);
    assert_eq!(compare(slot(2, 5), slot(2, 5)), None);
    assert_eq!(compare(slot(2, 5), slot(2, 6)), Some((Finding::ValueMismatch, diff(2, 5, 6))));
    assert_eq!(compare(slot(2, 5), slot(3, 5)), Some((Finding::KeyMismatch, diff(2, 5, 0))));
    assert_eq!(compare(slot(2, 5), None), Some((Finding::Missing, diff(2, 5, 0))));
    assert_eq!(compare(None, slot(3, 5)), Some((Finding::Extra, diff(3, 0, 5))));
}

#[test]
fn node_differences_are_found() {
    let find = |canonical, proofs| find_node_difference(&canonical, &proofs);
    assert_eq!(find(None, None), None);
    assert_eq!(find(Some((path(&[1]), node(3))), Some((path(&[1]), node(3)))), None);
    assert_eq!(
        find(Some((path(&[1]), node(3))), Some((path(&[2]), node(3)))),
        Some(Finding::KeyMismatch)
    );
    assert_eq!(
        find(Some((path(&[1]), node(3))), Some((path(&[1]), node(4)))),
        Some(Finding::ValueMismatch)
    );
    assert_eq!(find(Some((path(&[1]), node(3))), None), Some(Finding::Missing));
    assert_eq!(find(None, Some((path(&[1]), node(3)))), Some(Finding::Extra));
}

#[test]
fn sides_of_a_difference_are_put_together() {
    let side = |nibbles: &[u8], text: &str| Some((path(nibbles), text.to_string()));
    assert!(describe_difference(None, None).is_none());
    let diff = describe_difference(side(&[1], "left"), side(&[2], "right")).unwrap();
    assert!(diff.path == path(&[1]));
    assert_eq!(diff.canonical_value, "Path: Nibbles(0x1), Node: left");
    assert_eq!(diff.proofs_value, "Path: Nibbles(0x2), Node: right");
    let diff = describe_difference(side(&[1], "left"), side(&[1], "right")).unwrap();
    assert_eq!((diff.canonical_value.as_str(), diff.proofs_value.as_str()), ("left", "right"));
    let diff = describe_difference(side(&[1], "left"), None).unwrap();
    assert_eq!((diff.canonical_value.as_str(), diff.proofs_value.as_str()), ("left", "MISSING"));
    let diff = describe_difference(None, side(&[2], "right")).unwrap();
    assert!(diff.path == path(&[2]));
    assert_eq!((diff.canonical_value.as_str(), diff.proofs_value.as_str()), ("MISSING", "right"));
}
