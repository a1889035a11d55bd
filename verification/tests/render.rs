use op_proofs_verify::primitives::{B256, U256};
use op_proofs_verify::report::{
    AccountTrieDiff, HashedAccountDiff, StorageDiff, StorageTrieDiff, VerificationReport,
};
use op_proofs_verify::trie::Nibbles;

const TITLE: &str = "
╔════════════════════════════════════════════════════════════════╗
║          Proofs Storage Verification Report                   ║
╚════════════════════════════════════════════════════════════════╝

Block Number: 17

─────────────────────────────────────────────────────────────────
";

fn word(byte: u8) -> B256 {
    B256 { bytes: [byte; 32] }
}

fn number(value: u64) -> U256 {
    U256 { limbs: [value, 0, 0, 0] }
}

fn path(nibbles: &[u8]) -> Nibbles {
    Nibbles::from_nibbles(nibbles.to_vec()).unwrap()
}

fn storage_diff(value: u64) -> StorageDiff {
    StorageDiff {
        hashed_address: word(1),
        slot: word(2),
        canonical_value: number(value),
        proofs_value: number(0),
    }
}

fn storage_entry(value: u64) -> String {
    format!(
        "  Hashed Address: 0x{}, Slot: 0x{}\n    Canonical: {}\n    Proofs:    0\n\n",
        "01".repeat(32),
        "02".repeat(32),
        value
    )
}

#[test]
fn new_report_is_empty() {
    let report = VerificationReport::new(17);
    assert_eq!(report.block_number, 17);
    assert!(!report.has_errors());
    assert!(report.is_countable());
    assert_eq!(report.total_differences(), 0);
    assert!(!report.account_trie_compared);
    assert!(!report.hashed_accounts_compared);
    assert!(!report.storage_trie_compared);
    assert!(!report.storage_compared);
}

#[test]
fn success_lists_the_checks() {
    let mut report = VerificationReport::new(17);
    let opening = format!("{TITLE}\n✓ SUCCESS: No differences found!\n\nChecks performed:\n");
    assert_eq!(report.render(false), opening);
    report.account_trie_compared = true;
    report.hashed_accounts_compared = true;
    report.storage_trie_compared = true;
    report.storage_compared = true;
    let expected = format!(
        "{opening}  ✓ Account trie nodes\n  ✓ Hashed account values\n  ✓ Storage trie nodes\n"
    );
    assert_eq!(report.render(false), expected);
    assert_eq!(report.render(true), expected);
}

#[test]
fn failure_lists_the_differences() {
    let mut report = VerificationReport::new(17);
    report.account_trie_diffs.push(AccountTrieDiff {
        path: path(&[10, 11]),
        canonical_value: "left".to_string(),
        proofs_value: "MISSING".to_string(),
    });
    report.hashed_account_diffs.push(HashedAccountDiff {
        address: word(0xcd),
        balance_diff: Some((number(5), U256 { limbs: [u64::MAX; 4] })),
        nonce_diff: Some((3, 4)),
        code_hash_diff: Some((word(0), word(0xff))),
        storage_root_diff: Some((word(1), word(2))),
    });
    report.hashed_account_diffs.push(HashedAccountDiff {
        address: word(0xce),
        balance_diff: None,
        nonce_diff: None,
        code_hash_diff: None,
        storage_root_diff: None,
    });
    report.storage_trie_diffs.push(StorageTrieDiff {
        hashed_address: word(1),
        path: path(&[]),
        canonical_value: "MISSING".to_string(),
        proofs_value: "right".to_string(),
    });
    report.storage_diffs.push(storage_diff(70));
    assert!(report.has_errors());
    assert_eq!(report.total_differences(), 5);
    let expected = format!(
        "{TITLE}
✗ FAILED: 5 differences found

┌─ Account Trie Differences (1) ─────────────────────────
  Path: Nibbles(0xab)
    Canonical: left
    Proofs:    MISSING

┌─ Hashed Account Differences (2) ───────────────────────
  Address: 0x{}
    Balance:      canonical=5, proofs=115792089237316195423570985008687907853269984665640564039457584007913129639935
    Nonce:        canonical=3, proofs=4
    Code Hash:    canonical=0x{}, proofs=0x{}
    Storage Root: canonical=0x{}, proofs=0x{}

  Address: 0x{}

┌─ Storage Trie Differences (1) ─────────────────────────
  Hashed Address: 0x{}, Path: Nibbles(0x)
    Canonical: MISSING
    Proofs:    right

┌─ Storage Differences (1) ──────────────────────────────
{}─────────────────────────────────────────────────────────────────

",
        "cd".repeat(32),
        "00".repeat(32),
        "ff".repeat(32),
        "01".repeat(32),
        "02".repeat(32),
        "ce".repeat(32),
        "01".repeat(32),
        storage_entry(70)
    );
    assert_eq!(report.render(false), expected);
    assert_eq!(report.render(true), expected);
}

#[test]
fn ten_differences_of_a_kind_are_listed() {
    let mut report = VerificationReport::new(17);
    let mut entries = String::new();
    for value in 0..10 {
        report.storage_diffs.push(storage_diff(value));
        entries.push_str(&storage_entry(value));
    }
    let rule = "─────────────────────────────────────────────────────────────────\n\n";
    let expected = |count: usize, entries: &str| {
        format!(
            "{TITLE}\n✗ FAILED: {count} differences found\n\n\
             ┌─ Storage Differences ({count}) ──────────────────────────────\n{entries}{rule}"
        )
    };
    assert_eq!(report.render(false), expected(10, &entries));
    report.storage_diffs.push(storage_diff(10));
    report.storage_diffs.push(storage_diff(11));
    assert_eq!(report.render(false), expected(12, &format!("{entries}  ... and 2 more\n")));
    entries.push_str(&storage_entry(10));
    entries.push_str(&storage_entry(11));
    assert_eq!(report.render(true), expected(12, &entries));
}

#[test]
fn large_numbers_are_written_in_full() {
    let mut report = VerificationReport::new(17);
    report.storage_diffs.push(StorageDiff {
        hashed_address: word(1),
        slot: word(2),
        canonical_value: U256 { limbs: [0, 1, 0, 0] },
        proofs_value: U256 { limbs: [0, 0, 1, 0] },
    });
    let text = report.render(false);
    assert!(text.contains("    Canonical: 18446744073709551616\n"));
    assert!(text.contains("    Proofs:    340282366920938463463374607431768211456\n"));
}
