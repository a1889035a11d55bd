use op_proofs_verify::command::{VerifyCommand, VerifyError};
use op_proofs_verify::compare::{Account, Finding};
use op_proofs_verify::primitives::{B256, U256};
use op_proofs_verify::trie::{BranchNodeCompact, Nibbles};
use op_proofs_verify::verification::{Cursors, Notice, Progress, Stage, Verification};

/// A store: nodes are given by path and state mask, accounts by address and nonce, slots by
/// slot and value.
#[derive(Clone, Default)]
struct Store {
    account_trie: Vec<(Vec<u8>, u16)>,
    accounts: Vec<(u8, u64)>,
    storage_trie: Vec<(u8, Vec<(Vec<u8>, u16)>)>,
    storage: Vec<(u8, Vec<(u8, u64)>)>,
}

fn word(byte: u8) -> B256 {
    B256 { bytes: [byte; 32] }
}

fn number(value: u64) -> U256 {
    U256 { limbs: [value, 0, 0, 0] }
}

fn node(entries: &[(Vec<u8>, u16)], i: usize) -> Option<(Nibbles, BranchNodeCompact)> {
    let (path, state_mask) = entries.get(i)?;
    let node = BranchNodeCompact {
        state_mask: *state_mask,
        tree_mask: 0,
        hash_mask: 0,
        hashes: vec![],
        root_hash: None,
    };
    Some((Nibbles::from_nibbles(path.clone()).unwrap(), node))
}

fn account(entries: &[(u8, u64)], i: usize) -> Option<(B256, Account)> {
    let (address, nonce) = *entries.get(i)?;
    Some((word(address), Account { nonce, balance: number(0), bytecode_hash: None }))
}

fn slot(entries: &[(u8, u64)], i: usize) -> Option<(B256, U256)> {
    let (slot, value) = *entries.get(i)?;
    Some((word(slot), number(value)))
}

fn of_account<E: Clone>(entries: &[(u8, Vec<E>)], address: B256) -> Vec<E> {
    entries
        .iter()
        .find(|(byte, _)| word(*byte) == address)
        .map(|(_, entries)| entries.clone())
        .unwrap_or_default()
}

/// Gives a verification what it asks for until it has come to its end, and collects what it
/// logs of the account tries and of the accounts.
fn drive(command: VerifyCommand, canonical: &Store, proofs: &Store) -> (Verification, Vec<Notice>) {
    let mut run = command.execute(42);
    let mut notices = vec![];
    let mut node_position = 0;
    let mut account_position = 0;
    let mut canonical_position = 0;
    let mut proofs_position = 0;
    loop {
        assert!(run.has_room());
        match run.stage() {
            Stage::AccountTrie(_) => {
                let left = node(&canonical.account_trie, node_position);
                let right = node(&proofs.account_trie, node_position);
                node_position += 1;
                notices.push(run.compare_account_trie(left, right));
            }
            Stage::DrainAccountTrie(_) => {
                let more = node(&canonical.account_trie, node_position).is_some();
                node_position += 1;
                run.drain_account_trie(more);
            }
            Stage::HashedAccounts(_) => {
                let left = account(&canonical.accounts, account_position);
                let right = account(&proofs.accounts, account_position);
                account_position += 1;
                notices.push(run.compare_hashed_accounts(left, right));
            }
            Stage::StorageTrie { hashed_address, cursors, .. } => {
                let left = of_account(&canonical.storage_trie, hashed_address);
                let right = of_account(&proofs.storage_trie, hashed_address);
                step(cursors, &mut canonical_position, &mut proofs_position);
                run.compare_storage_trie_by_hash(
                    node(&left, canonical_position),
                    node(&right, proofs_position),
                );
            }
            Stage::Storage { hashed_address, cursors, .. } => {
                let left = of_account(&canonical.storage, hashed_address);
                let right = of_account(&proofs.storage, hashed_address);
                step(cursors, &mut canonical_position, &mut proofs_position);
                run.compare_storage_by_hash(
                    slot(&left, canonical_position),
                    slot(&right, proofs_position),
                );
            }
            Stage::AccountVerified(_) => notices.push(run.resume_accounts()),
            Stage::Finished => return (run, notices),
        }
    }
}

/// Moves the cursors that are to be read.
fn step(cursors: Cursors, canonical: &mut usize, proofs: &mut usize) {
    match cursors {
        Cursors::First => {
            *canonical = 0;
            *proofs = 0;
        }
        Cursors::Both => {
            *canonical += 1;
            *proofs += 1;
        }
        Cursors::Canonical => *canonical += 1,
        Cursors::Proofs => *proofs += 1,
    }
}

fn command(max_differences: usize) -> VerifyCommand {
    VerifyCommand { verbose: false, max_differences }
}

fn sample() -> Store {
    Store {
        account_trie: vec![(vec![0], 1), (vec![1], 3), (vec![2], 7)],
        accounts: vec![(1, 10), (2, 20), (3, 30)],
        storage_trie: vec![(1, vec![(vec![5], 1)]), (3, vec![(vec![6], 1), (vec![7], 3)])],
        storage: vec![(1, vec![(8, 80)]), (2, vec![(9, 90), (10, 100)])],
    }
}

/// The number of differences of each kind.
fn counts(run: &Verification) -> [usize; 4] {
    let report = run.report();
    [
        report.account_trie_diffs.len(),
        report.hashed_account_diffs.len(),
        report.storage_trie_diffs.len(),
        report.storage_diffs.len(),
    ]
}

#[test]
fn equal_stores_pass() {
    for limit in [0, 1, 100] {
        let (run, _) = drive(command(limit), &sample(), &sample());
        assert_eq!(counts(&run), [0, 0, 0, 0]);
        assert!(!run.report().has_errors());
        assert_eq!(run.outcome(), Ok(()));
    }
}

#[test]
fn all_comparisons_are_made() {
    let (run, _) = drive(command(100), &sample(), &sample());
    let report = run.report();
    assert_eq!(report.block_number, 42);
    assert!(report.account_trie_compared);
    assert!(report.hashed_accounts_compared);
    assert!(report.storage_trie_compared);
    assert!(report.storage_compared);
}

#[test]
fn empty_stores_pass() {
    let (run, _) = drive(command(100), &Store::default(), &Store::default());
    assert_eq!(counts(&run), [0, 0, 0, 0]);
    assert_eq!(run.outcome(), Ok(()));
}

#[test]
fn changed_node_is_found() {
    let mut proofs = sample();
    proofs.account_trie[1].1 = 2;
    let (run, _) = drive(command(100), &sample(), &proofs);
    assert_eq!(counts(&run), [1, 0, 0, 0]);
    assert_eq!(run.outcome(), Err(VerifyError::DifferencesFound { total: 1 }));
}

#[test]
fn missing_node_shifts_all_that_follow() {
    let mut proofs = sample();
    proofs.account_trie.remove(0);
    let (run, notices) = drive(VerifyCommand { verbose: true, max_differences: 100 }, &sample(), &proofs);
    assert_eq!(counts(&run), [3, 0, 0, 0]);
    assert_eq!(notices[0].warning, Some(Finding::KeyMismatch));
    assert_eq!(notices[2].warning, Some(Finding::Missing));
    assert_eq!(run.report().account_trie_diffs[2].proofs_value, "MISSING");
}

#[test]
fn extra_entries_are_found() {
    let mut canonical = sample();
    canonical.account_trie.pop();
    canonical.accounts.pop();
    let (run, notices) = drive(VerifyCommand { verbose: true, max_differences: 100 }, &canonical, &sample());
    assert_eq!(counts(&run), [1, 1, 0, 0]);
    assert_eq!(notices[2].warning, Some(Finding::Extra));
    assert_eq!(run.report().hashed_account_diffs[0].nonce_diff, Some((0, 30)));
}

#[test]
fn changed_account_and_its_storage_are_found() {
    let mut proofs = sample();
    proofs.accounts[1].1 = 21;
    proofs.storage[1].1[1].1 = 101;
    proofs.storage_trie[1].1[0].1 = 2;
    let (run, _) = drive(command(100), &sample(), &proofs);
    assert_eq!(counts(&run), [0, 1, 1, 1]);
    let report = run.report();
    assert_eq!(report.hashed_account_diffs[0].nonce_diff, Some((20, 21)));
    assert_eq!(report.storage_trie_diffs[0].hashed_address, word(3));
    assert_eq!(report.storage_diffs[0].hashed_address, word(2));
    assert_eq!(report.storage_diffs[0].slot, word(10));
    assert_eq!(run.outcome(), Err(VerifyError::DifferencesFound { total: 3 }));
}

#[test]
fn storage_of_a_different_account_is_not_compared() {
    let mut proofs = sample();
    proofs.accounts[0].0 = 9;
    proofs.storage[0].1[0].1 = 81;
    let (run, _) = drive(command(100), &sample(), &proofs);
    assert_eq!(counts(&run), [0, 1, 0, 0]);
}

#[test]
fn store_at_its_end_is_not_read_again() {
    let canonical = Store { accounts: vec![(1, 0)], ..Store::default() };
    let mut proofs = canonical.clone();
    proofs.storage_trie = vec![(1, vec![(vec![1], 1), (vec![2], 1)])];
    proofs.storage = vec![(1, vec![(1, 1), (2, 2)])];
    let (run, _) = drive(command(100), &canonical, &proofs);
    assert_eq!(counts(&run), [0, 0, 2, 2]);
    let (run, _) = drive(command(100), &proofs, &canonical);
    assert_eq!(counts(&run), [0, 0, 2, 2]);
    assert_eq!(run.report().storage_trie_diffs[1].proofs_value, "MISSING");
}

#[test]
fn entry_of_an_exhausted_store_is_ignored() {
    let mut run = command(100).execute(1);
    run.compare_account_trie(None, None);
    run.drain_account_trie(false);
    run.compare_hashed_accounts(account(&[(1, 1)], 0), account(&[(1, 1)], 0));
    let nodes = [(vec![1], 1), (vec![2], 1)];
    run.compare_storage_trie_by_hash(node(&nodes, 0), None);
    assert_eq!(
        run.stage(),
        Stage::StorageTrie {
            accounts: Progress { differences: 0, checked: 1 },
            hashed_address: word(1),
            cursors: Cursors::Canonical,
            storage: Progress { differences: 1, checked: 1 },
        }
    );
    run.compare_storage_trie_by_hash(None, node(&nodes, 1));
    assert_eq!(run.report().storage_trie_diffs.len(), 1);
    assert!(matches!(run.stage(), Stage::Storage { cursors: Cursors::First, .. }));
}

#[test]
fn comparison_stops_at_the_limit() {
    let canonical = Store {
        account_trie: (0..8).map(|i| (vec![i], 1)).collect(),
        accounts: (0..8).map(|i| (i, 1)).collect(),
        storage_trie: vec![(0, (0..8).map(|i| (vec![i], 1)).collect())],
        storage: vec![(0, (0..8).map(|i| (i, 1)).collect())],
    };
    let mut proofs = canonical.clone();
    for entry in &mut proofs.account_trie {
        entry.1 = 2;
    }
    for entry in &mut proofs.accounts {
        entry.1 = 2;
    }
    for entry in &mut proofs.storage_trie[0].1 {
        entry.1 = 2;
    }
    for entry in &mut proofs.storage[0].1 {
        entry.1 = 2;
    }
    let (run, notices) = drive(command(3), &canonical, &proofs);
    assert_eq!(counts(&run), [3, 3, 3, 3]);
    assert_eq!(run.report().total_differences(), 12);
    assert!(notices[2].limit_reached);
    assert!(notices.last().unwrap().limit_reached);
    let (run, _) = drive(command(8), &canonical, &proofs);
    assert_eq!(counts(&run), [8, 8, 8, 8]);
    let (run, _) = drive(command(100), &canonical, &proofs);
    assert_eq!(counts(&run), [8, 8, 8, 8]);
    assert_eq!(run.report().storage_diffs[7].slot, word(7));
}

#[test]
fn limit_of_zero_reports_nothing() {
    let mut proofs = sample();
    proofs.account_trie[0].1 = 2;
    proofs.accounts[0].1 = 11;
    proofs.storage_trie[0].1.clear();
    proofs.storage[0].1[0].1 = 81;
    for verbose in [false, true] {
        let command = VerifyCommand { verbose, max_differences: 0 };
        let (run, notices) = drive(command, &sample(), &proofs);
        assert_eq!(counts(&run), [0, 0, 0, 0]);
        assert!(notices.iter().all(|notice| notice.warning.is_none()));
        assert!(notices[0].limit_reached);
        assert_eq!(run.outcome(), Ok(()));
    }
}

#[test]
fn limit_of_zero_reports_no_missing_storage_node() {
    let mut run = command(0).execute(7);
    run.compare_account_trie(None, None);
    run.drain_account_trie(false);
    run.compare_hashed_accounts(account(&[(0, 1)], 0), account(&[(0, 1)], 0));
    let notice = run.compare_storage_trie_by_hash(node(&[(vec![1], 1)], 0), None);
    assert_eq!(notice.progress, Progress { differences: 0, checked: 1 });
    assert!(notice.limit_reached);
    assert!(run.report().storage_trie_diffs.is_empty());
    assert!(matches!(run.stage(), Stage::Storage { .. }));
}

#[test]
fn storage_trie_and_slots_have_counts_of_their_own() {
    let canonical = Store {
        accounts: vec![(1, 0), (2, 0)],
        storage_trie: vec![(1, vec![(vec![1], 1), (vec![2], 1), (vec![3], 1)])],
        storage: vec![(1, vec![(1, 1), (2, 2), (3, 3)]), (2, vec![(4, 4)])],
        ..Store::default()
    };
    let proofs = Store { accounts: vec![(1, 0), (2, 0)], ..Store::default() };
    let (run, _) = drive(command(2), &canonical, &proofs);
    assert_eq!(counts(&run), [0, 0, 2, 3]);
    assert_eq!(run.report().storage_diffs[2].hashed_address, word(2));
}

#[test]
fn storage_of_an_account_changes_no_flag() {
    let mut run = command(1).execute(7);
    run.compare_account_trie(None, None);
    run.drain_account_trie(false);
    run.compare_hashed_accounts(account(&[(1, 1)], 0), account(&[(1, 2)], 0));
    run.compare_storage_trie_by_hash(None, None);
    run.compare_storage_by_hash(slot(&[(1, 1)], 0), None);
    assert_eq!(run.stage(), Stage::AccountVerified(Progress { differences: 1, checked: 1 }));
    assert!(!run.report().hashed_accounts_compared);
    assert!(!run.report().storage_trie_compared);
    assert!(!run.report().storage_compared);
    assert!(run.resume_accounts().limit_reached);
    assert_eq!(run.stage(), Stage::Finished);
    assert!(run.report().hashed_accounts_compared);
}

#[test]
fn every_canonical_node_is_counted() {
    let mut proofs = sample();
    proofs.account_trie[0].1 = 2;
    let mut run = command(1).execute(1);
    let canonical = sample();
    run.compare_account_trie(
        node(&canonical.account_trie, 0),
        node(&proofs.account_trie, 0),
    );
    assert_eq!(run.stage(), Stage::DrainAccountTrie(Progress { differences: 1, checked: 1 }));
    assert_eq!(run.drain_account_trie(true).checked, 2);
    assert_eq!(run.drain_account_trie(true).checked, 3);
    assert!(!run.report().account_trie_compared);
    assert_eq!(run.drain_account_trie(false), Progress { differences: 1, checked: 3 });
    assert!(run.report().account_trie_compared);
    assert_eq!(run.stage(), Stage::HashedAccounts(Progress { differences: 0, checked: 0 }));
}

#[test]
fn findings_are_logged_only_where_verbose() {
    let mut proofs = sample();
    proofs.account_trie[1].1 = 2;
    let (_, quiet) = drive(command(100), &sample(), &proofs);
    assert!(quiet.iter().all(|notice| notice.warning.is_none() && !notice.progress_due));
    let (_, verbose) =
        drive(VerifyCommand { verbose: true, max_differences: 100 }, &sample(), &proofs);
    assert_eq!(verbose[0].warning, None);
    assert_eq!(verbose[1].warning, Some(Finding::ValueMismatch));
    assert_eq!(verbose[1].progress, Progress { differences: 1, checked: 2 });
}

#[test]
fn progress_is_due_at_each_interval() {
    let store = Store {
        account_trie: vec![(vec![1], 1); 20001],
        accounts: vec![(1, 1); 10001],
        ..Store::default()
    };
    let (_, notices) = drive(VerifyCommand { verbose: true, max_differences: 1 }, &store, &store);
    let due: Vec<u64> =
        notices.iter().filter(|notice| notice.progress_due).map(|n| n.progress.checked).collect();
    assert_eq!(due, vec![10000, 20000, 10000]);
}

#[test]
fn limit_between_accounts_is_tested_after_the_storage() {
    let mut proofs = sample();
    proofs.accounts[0].1 = 11;
    proofs.storage[0].1[0].1 = 81;
    proofs.storage[1].1[0].1 = 91;
    let (run, notices) = drive(command(1), &sample(), &proofs);
    assert_eq!(counts(&run), [0, 1, 0, 1]);
    assert_eq!(run.report().storage_diffs[0].hashed_address, word(1));
    let accounts = &notices[notices.len() - 2..];
    assert!(!accounts[0].limit_reached);
    assert!(accounts[1].limit_reached);
}

#[test]
fn verbosity_does_not_change_the_report() {
    let mut proofs = sample();
    proofs.account_trie[1].1 = 2;
    proofs.storage[1].1[0].1 = 91;
    let (quiet, _) = drive(command(100), &sample(), &proofs);
    let (verbose, _) =
        drive(VerifyCommand { verbose: true, max_differences: 100 }, &sample(), &proofs);
    assert_eq!(counts(&quiet), [1, 0, 0, 1]);
    assert_eq!(quiet.report().render(true), verbose.report().render(true));
}
