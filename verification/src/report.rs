//! The report of a verification: the differences that were found, by kind.

use vstd::prelude::*;

use crate::primitives::{B256, U256};
use crate::trie::Nibbles;

verus! {

/// A difference between the account tries.
#[derive(Debug)]
pub struct AccountTrieDiff {
    pub path: Nibbles,
    pub canonical_value: String,
    pub proofs_value: String,
}

/// A difference between the values of an account. Of each pair the first is the canonical
/// value and the second that of the proofs storage.
#[derive(Clone, Copy, Debug, PartialEq, Eq)]
pub struct HashedAccountDiff {
    pub address: B256,
    pub balance_diff: Option<(U256, U256)>,
    pub nonce_diff: Option<(u64, u64)>,
    pub code_hash_diff: Option<(B256, B256)>,
    pub storage_root_diff: Option<(B256, B256)>,
}

/// A difference between the storage tries of an account.
#[derive(Debug)]
pub struct StorageTrieDiff {
    pub hashed_address: B256,
    pub path: Nibbles,
    pub canonical_value: String,
    pub proofs_value: String,
}

/// A difference between the storage values of an account.
#[derive(Clone, Copy, Debug, PartialEq, Eq)]
pub struct StorageDiff {
    pub hashed_address: B256,
    pub slot: B256,
    pub canonical_value: U256,
    pub proofs_value: U256,
}

/// What a difference between two tries says: where it is, and the text of both sides.
#[verifier::ext_equal]
pub struct TrieDiffView {
    pub path: Seq<u8>,
    pub canonical_value: Seq<char>,
    pub proofs_value: Seq<char>,
}

/// What a difference between the storage tries of an account says.
#[verifier::ext_equal]
pub struct StorageTrieDiffView {
    pub hashed_address: B256,
    pub diff: TrieDiffView,
}

impl View for AccountTrieDiff {
    type V = TrieDiffView;

    open spec fn view(&self) -> TrieDiffView {
        TrieDiffView {
            path: self.path@,
            canonical_value: self.canonical_value@,
            proofs_value: self.proofs_value@,
        }
    }
}

impl View for StorageTrieDiff {
    type V = StorageTrieDiffView;

    open spec fn view(&self) -> StorageTrieDiffView {
        StorageTrieDiffView {
            hashed_address: self.hashed_address,
            diff: TrieDiffView {
                path: self.path@,
                canonical_value: self.canonical_value@,
                proofs_value: self.proofs_value@,
            },
        }
    }
}

/// All differences found at a block, and which comparisons were carried through.
#[derive(Debug)]
pub struct VerificationReport {
    pub block_number: u64,
    pub account_trie_compared: bool,
    pub hashed_accounts_compared: bool,
    pub storage_trie_compared: bool,
    pub storage_compared: bool,
    pub account_trie_diffs: Vec<AccountTrieDiff>,
    pub hashed_account_diffs: Vec<HashedAccountDiff>,
    pub storage_trie_diffs: Vec<StorageTrieDiff>,
    pub storage_diffs: Vec<StorageDiff>,
}

/// What a report says.
#[verifier::ext_equal]
pub struct ReportView {
    pub block_number: u64,
    pub account_trie_compared: bool,
    pub hashed_accounts_compared: bool,
    pub storage_trie_compared: bool,
    pub storage_compared: bool,
    pub account_trie_diffs: Seq<TrieDiffView>,
    pub hashed_account_diffs: Seq<HashedAccountDiff>,
    pub storage_trie_diffs: Seq<StorageTrieDiffView>,
    pub storage_diffs: Seq<StorageDiff>,
}

impl View for VerificationReport {
    type V = ReportView;

    open spec fn view(&self) -> ReportView {
        ReportView {
            block_number: self.block_number,
            account_trie_compared: self.account_trie_compared,
            hashed_accounts_compared: self.hashed_accounts_compared,
            storage_trie_compared: self.storage_trie_compared,
            storage_compared: self.storage_compared,
            account_trie_diffs: self.account_trie_diffs@.map_values(|diff: AccountTrieDiff| diff@),
            hashed_account_diffs: self.hashed_account_diffs@,
            storage_trie_diffs: self.storage_trie_diffs@.map_values(|diff: StorageTrieDiff| diff@),
            storage_diffs: self.storage_diffs@,
        }
    }
}

impl ReportView {
    /// A report in which nothing has been compared yet.
    pub open spec fn empty(block_number: u64) -> ReportView {
        ReportView {
            block_number,
            account_trie_compared: false,
            hashed_accounts_compared: false,
            storage_trie_compared: false,
            storage_compared: false,
            account_trie_diffs: Seq::empty(),
            hashed_account_diffs: Seq::empty(),
            storage_trie_diffs: Seq::empty(),
            storage_diffs: Seq::empty(),
        }
    }

    /// The number of differences of all kinds.
    pub open spec fn total(self) -> nat {
        self.account_trie_diffs.len() + self.hashed_account_diffs.len()
            + self.storage_trie_diffs.len() + self.storage_diffs.len()
    }
}

impl VerificationReport {
    /// Makes a report in which nothing has been compared yet.
    pub fn new(block_number: u64) -> (report: VerificationReport)
        ensures
            report@ == ReportView::empty(block_number),
    {
        let report = VerificationReport {
            block_number,
            account_trie_compared: false,
            hashed_accounts_compared: false,
            storage_trie_compared: false,
            storage_compared: false,
            account_trie_diffs: Vec::new(),
            hashed_account_diffs: Vec::new(),
            storage_trie_diffs: Vec::new(),
            storage_diffs: Vec::new(),
        };
        assert(report@ =~= ReportView::empty(block_number));
        report
    }

    /// Whether any difference was found.
    pub fn has_errors(&self) -> (errors: bool)
        ensures
            errors == (self@.total() > 0),
    {
        self.account_trie_diffs.len() > 0 || self.hashed_account_diffs.len() > 0
            || self.storage_trie_diffs.len() > 0 || self.storage_diffs.len() > 0
    }

    /// Whether the number of differences can be counted in a `usize`.
    pub fn is_countable(&self) -> (countable: bool)
        ensures
            countable == (self@.total() <= usize::MAX),
    {
        let first: Option<usize> = self.account_trie_diffs.len().checked_add(
            self.hashed_account_diffs.len(),
        );
        let second: Option<usize> = self.storage_trie_diffs.len().checked_add(
            self.storage_diffs.len(),
        );
        match (first, second) {
            (Some(first), Some(second)) => first.checked_add(second).is_some(),
            _ => false,
        }
    }

    /// The number of differences of all kinds.
    pub fn total_differences(&self) -> (total: usize)
        requires
            self@.total() <= usize::MAX,
        ensures
            total == self@.total(),
    {
        self.account_trie_diffs.len() + self.hashed_account_diffs.len()
            + self.storage_trie_diffs.len() + self.storage_diffs.len()
    }
}

} // verus!
