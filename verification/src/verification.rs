//! The course of a verification: which entries are read next, what is compared with
//! what, and when a comparison stops.
//!
//! A [`Verification`] reads nothing itself. Its [`Stage`] says what is to be read; the
//! entries that were read are handed to the method of that stage, which compares them,
//! records a difference and moves on to the next stage.

use vstd::pervasive::unreached;
use vstd::prelude::*;

use crate::command::{VerifyCommand, VerifyError};
use crate::compare::{
    account_diff, compare_account_trie_nodes, compare_accounts, compare_storage_slots,
    compare_storage_trie_nodes, finding, storage_diff, storage_trie_diff, trie_diff, trie_entry,
    Account, Finding,
};
use crate::primitives::{B256, U256};
use crate::report::{ReportView, VerificationReport};
use crate::trie::{BranchNodeCompact, BranchNodeView, Nibbles};

verus! {

/// Progress is logged each time that this many entries have been checked.
pub const PROGRESS_INTERVAL: u64 = 10000;

/// How far a comparison has come.
#[derive(Clone, Copy, Debug, PartialEq, Eq, Structural)]
pub struct Progress {
    /// The differences found so far.
    pub differences: usize,
    /// The canonical entries checked so far.
    pub checked: u64,
}

/// Which cursors of an account's storage are to be read next.
#[derive(Clone, Copy, Debug, PartialEq, Eq, Structural)]
pub enum Cursors {
    /// Both, from the beginning.
    First,
    /// Both, at their next entry.
    Both,
    /// The canonical one; the other is exhausted.
    Canonical,
    /// That of the proofs storage; the other is exhausted.
    Proofs,
}

/// What a verification is to be given next.
#[derive(Clone, Copy, Debug, PartialEq, Eq)]
pub enum Stage {
    /// The next entry of both account tries.
    AccountTrie(Progress),
    /// The next entry of the canonical account trie, which is only counted.
    DrainAccountTrie(Progress),
    /// The next account of both stores.
    HashedAccounts(Progress),
    /// Entries of both storage tries of an account.
    StorageTrie { accounts: Progress, hashed_address: B256, cursors: Cursors, storage: Progress },
    /// Storage slots of an account in both stores.
    Storage { accounts: Progress, hashed_address: B256, cursors: Cursors, storage: Progress },
    /// Nothing: the storage of an account has been compared, and the accounts go on.
    AccountVerified(Progress),
    /// Nothing: all comparisons have been made.
    Finished,
}

/// What there is to log after a step of a comparison.
#[derive(Clone, Copy, Debug, PartialEq, Eq, Structural)]
pub struct Notice {
    /// How far the comparison has come.
    pub progress: Progress,
    /// How the entries differ, where findings are logged.
    pub warning: Option<Finding>,
    /// Whether the comparison stopped because of the number of differences.
    pub limit_reached: bool,
    /// Whether the progress is to be logged.
    pub progress_due: bool,
}

/// A verification that is under way.
#[derive(Debug)]
pub struct Verification {
    command: VerifyCommand,
    stage: Stage,
    report: VerificationReport,
}

/// The state of a verification.
#[verifier::ext_equal]
pub struct VerificationView {
    pub command: VerifyCommand,
    pub stage: Stage,
    pub report: ReportView,
}

impl View for Verification {
    type V = VerificationView;

    closed spec fn view(&self) -> VerificationView {
        VerificationView { command: self.command, stage: self.stage, report: self.report@ }
    }
}

impl Progress {
    /// The progress at the start of a comparison.
    pub open spec fn none() -> Progress {
        Progress { differences: 0, checked: 0 }
    }

    /// The progress after one more position: whether there is a canonical entry at it,
    /// and whether there is a difference.
    pub open spec fn advanced(self, canonical: bool, difference: bool) -> Progress {
        Progress {
            differences: if difference {
                (self.differences + 1) as usize
            } else {
                self.differences
            },
            checked: if canonical {
                (self.checked + 1) as u64
            } else {
                self.checked
            },
        }
    }

    /// Counts one more position.
    fn advance(self, canonical: bool, difference: bool) -> (after: Progress)
        requires
            difference ==> self.differences < usize::MAX,
            canonical ==> self.checked < u64::MAX,
        ensures
            after == self.advanced(canonical, difference),
    {
        Progress {
            differences: if difference {
                self.differences + 1
            } else {
                self.differences
            },
            checked: if canonical {
                self.checked + 1
            } else {
                self.checked
            },
        }
    }
}

/// A sequence with one more element, where there is one.
pub open spec fn appended<D>(diffs: Seq<D>, diff: Option<D>) -> Seq<D> {
    match diff {
        Some(diff) => diffs.push(diff),
        None => diffs,
    }
}

/// The cursors that have not come to their end.
pub open spec fn live_cursors(canonical: bool, proofs: bool) -> Cursors {
    if canonical && proofs {
        Cursors::Both
    } else if canonical {
        Cursors::Canonical
    } else {
        Cursors::Proofs
    }
}

impl Cursors {
    /// What is read from the canonical cursor, which may be exhausted.
    pub open spec fn canonical_entry<E>(self, entry: Option<E>) -> Option<E> {
        if self == Cursors::Proofs {
            None
        } else {
            entry
        }
    }

    /// What is read from the cursor of the proofs storage, which may be exhausted.
    pub open spec fn proofs_entry<E>(self, entry: Option<E>) -> Option<E> {
        if self == Cursors::Canonical {
            None
        } else {
            entry
        }
    }

    /// Returns the cursors that have not come to their end.
    fn live(canonical: bool, proofs: bool) -> (cursors: Cursors)
        ensures
            cursors == live_cursors(canonical, proofs),
    {
        if canonical && proofs {
            Cursors::Both
        } else if canonical {
            Cursors::Canonical
        } else {
            Cursors::Proofs
        }
    }
}

impl VerifyCommand {
    /// Whether a comparison with this progress stops.
    pub open spec fn stops(self, progress: Progress) -> bool {
        progress.differences >= self.max_differences
    }

    /// The difference that a comparison with this progress records: none where it has
    /// recorded as many as are to be reported.
    pub open spec fn recorded<D>(self, progress: Progress, diff: Option<D>) -> Option<D> {
        if self.stops(progress) {
            None
        } else {
            diff
        }
    }

    /// Whether a comparison can be under way with this progress.
    pub open spec fn goes_on(self, progress: Progress) -> bool {
        progress.differences == 0 || progress.differences < self.max_differences
    }

    /// What there is to log after a position at which both stores were read.
    pub open spec fn notice(
        self,
        progress: Progress,
        found: Option<Finding>,
        limit_reached: bool,
        both: bool,
    ) -> Notice {
        Notice {
            progress,
            warning: if self.verbose {
                found
            } else {
                None
            },
            limit_reached,
            progress_due: self.verbose && both && !limit_reached && progress.checked
                % PROGRESS_INTERVAL == 0,
        }
    }

    /// Starts a verification at a block.
    pub fn execute(self, block_number: u64) -> (verification: Verification)
        ensures
            verification@ == VerificationView::start(self, block_number),
            verification@.wf(),
    {
        Verification {
            command: self,
            stage: Stage::AccountTrie(Progress { differences: 0, checked: 0 }),
            report: VerificationReport::new(block_number),
        }
    }

    /// Makes the notice of a step.
    fn notify(
        self,
        progress: Progress,
        found: Option<Finding>,
        limit_reached: bool,
        both: bool,
    ) -> (notice: Notice)
        ensures
            notice == self.notice(progress, found, limit_reached, both),
    {
        Notice {
            progress,
            warning: if self.verbose {
                found
            } else {
                None
            },
            limit_reached,
            progress_due: self.verbose && both && !limit_reached && progress.checked
                % PROGRESS_INTERVAL == 0,
        }
    }
}

impl VerificationView {
    /// The state in which a verification starts.
    pub open spec fn start(command: VerifyCommand, block_number: u64) -> VerificationView {
        VerificationView {
            command,
            stage: Stage::AccountTrie(Progress::none()),
            report: ReportView::empty(block_number),
        }
    }

    /// A comparison that is under way has not yet found as many differences as make it stop.
    pub open spec fn wf(self) -> bool {
        match self.stage {
            Stage::AccountTrie(progress) => self.command.goes_on(progress),
            Stage::DrainAccountTrie(_) => true,
            Stage::HashedAccounts(progress) => self.command.goes_on(progress),
            Stage::StorageTrie { storage, .. } => self.command.goes_on(storage),
            Stage::Storage { storage, .. } => self.command.goes_on(storage),
            Stage::AccountVerified(_) => true,
            Stage::Finished => true,
        }
    }

    /// Whether one more entry can be counted.
    pub open spec fn has_room(self) -> bool {
        match self.stage {
            Stage::AccountTrie(progress) => progress.checked < u64::MAX,
            Stage::DrainAccountTrie(progress) => progress.checked < u64::MAX,
            Stage::HashedAccounts(progress) => progress.checked < u64::MAX,
            Stage::StorageTrie { storage, .. } => storage.checked < u64::MAX,
            Stage::Storage { storage, .. } => storage.checked < u64::MAX,
            Stage::AccountVerified(_) => true,
            Stage::Finished => true,
        }
    }

    /// After a position of the account tries: on to the next position, until both tries
    /// have come to their end or the differences are too many.
    pub open spec fn after_account_trie(
        self,
        canonical: Option<(Seq<u8>, BranchNodeView)>,
        proofs: Option<(Seq<u8>, BranchNodeView)>,
    ) -> VerificationView
        recommends
            self.stage is AccountTrie,
    {
        let before = self.stage->AccountTrie_0;
        let diff = self.command.recorded(before, trie_diff(canonical, proofs));
        let progress = before.advanced(canonical is Some, diff is Some);
        VerificationView {
            stage: if canonical is None && proofs is None || self.command.stops(progress) {
                Stage::DrainAccountTrie(progress)
            } else {
                Stage::AccountTrie(progress)
            },
            report: ReportView {
                account_trie_diffs: appended(self.report.account_trie_diffs, diff),
                ..self.report
            },
            ..self
        }
    }

    /// After an entry of the canonical account trie that is only counted: on to the next
    /// one, and at the end of the trie to the accounts.
    pub open spec fn after_drain(self, canonical: bool) -> VerificationView
        recommends
            self.stage is DrainAccountTrie,
    {
        if canonical {
            VerificationView {
                stage: Stage::DrainAccountTrie(
                    self.stage->DrainAccountTrie_0.advanced(true, false),
                ),
                ..self
            }
        } else {
            VerificationView {
                stage: Stage::HashedAccounts(Progress::none()),
                report: ReportView { account_trie_compared: true, ..self.report },
                ..self
            }
        }
    }

    /// All comparisons made.
    pub open spec fn finished(self) -> VerificationView {
        VerificationView {
            stage: Stage::Finished,
            report: ReportView {
                hashed_accounts_compared: true,
                storage_trie_compared: true,
                storage_compared: true,
                ..self.report
            },
            ..self
        }
    }

    /// On to the next accounts, unless the differences between accounts are too many.
    pub open spec fn to_next_accounts(self, accounts: Progress) -> VerificationView {
        if self.command.stops(accounts) {
            self.finished()
        } else {
            VerificationView { stage: Stage::HashedAccounts(accounts), ..self }
        }
    }

    /// After a position of the accounts: on to the storage of the account, where both
    /// stores have it at this position, and else to the next position.
    pub open spec fn after_accounts(
        self,
        canonical: Option<(B256, Account)>,
        proofs: Option<(B256, Account)>,
    ) -> VerificationView
        recommends
            self.stage is HashedAccounts,
    {
        let before = self.stage->HashedAccounts_0;
        let diff = self.command.recorded(before, account_diff(canonical, proofs));
        let accounts = before.advanced(canonical is Some, diff is Some);
        let next = VerificationView {
            report: ReportView {
                hashed_account_diffs: appended(self.report.hashed_account_diffs, diff),
                ..self.report
            },
            ..self
        };
        match (canonical, proofs) {
            (None, None) => next.finished(),
            (Some((address, _)), Some((proofs_address, _))) if address == proofs_address => {
                next.to_account_storage(accounts, address)
            },
            _ => next.to_next_accounts(accounts),
        }
    }

    /// On to the storage of an account, which begins with its storage trie.
    pub open spec fn to_account_storage(
        self,
        accounts: Progress,
        hashed_address: B256,
    ) -> VerificationView {
        VerificationView {
            stage: Stage::StorageTrie {
                accounts,
                hashed_address,
                cursors: Cursors::First,
                storage: Progress::none(),
            },
            ..self
        }
    }

    /// After a position of the storage tries of an account: on to the next position, and
    /// after the last one to the storage slots. A store that has come to its end is not
    /// read again.
    pub open spec fn after_storage_trie(
        self,
        canonical_read: Option<(Seq<u8>, BranchNodeView)>,
        proofs_read: Option<(Seq<u8>, BranchNodeView)>,
    ) -> VerificationView
        recommends
            self.stage is StorageTrie,
    {
        let accounts = self.stage->StorageTrie_accounts;
        let hashed_address = self.stage->StorageTrie_hashed_address;
        let canonical = self.stage->StorageTrie_cursors.canonical_entry(canonical_read);
        let proofs = self.stage->StorageTrie_cursors.proofs_entry(proofs_read);
        let before = self.stage->StorageTrie_storage;
        let diff = self.command.recorded(
            before,
            storage_trie_diff(hashed_address, canonical, proofs),
        );
        let storage = before.advanced(canonical is Some, diff is Some);
        VerificationView {
            stage: if canonical is None && proofs is None || self.command.stops(storage) {
                Stage::Storage {
                    accounts,
                    hashed_address,
                    cursors: Cursors::First,
                    storage: Progress::none(),
                }
            } else {
                Stage::StorageTrie {
                    accounts,
                    hashed_address,
                    cursors: live_cursors(canonical is Some, proofs is Some),
                    storage,
                }
            },
            report: ReportView {
                storage_trie_diffs: appended(self.report.storage_trie_diffs, diff),
                ..self.report
            },
            ..self
        }
    }

    /// After a position of the storage slots of an account: on to the next position, until
    /// both stores have come to their end or the differences are too many. A store that has
    /// come to its end is not read again.
    pub open spec fn after_storage(
        self,
        canonical_read: Option<(B256, U256)>,
        proofs_read: Option<(B256, U256)>,
    ) -> VerificationView
        recommends
            self.stage is Storage,
    {
        let accounts = self.stage->Storage_accounts;
        let hashed_address = self.stage->Storage_hashed_address;
        let canonical = self.stage->Storage_cursors.canonical_entry(canonical_read);
        let proofs = self.stage->Storage_cursors.proofs_entry(proofs_read);
        let before = self.stage->Storage_storage;
        let diff = self.command.recorded(before, storage_diff(hashed_address, canonical, proofs));
        let storage = before.advanced(canonical is Some, diff is Some);
        VerificationView {
            stage: if canonical is None && proofs is None || self.command.stops(storage) {
                Stage::AccountVerified(accounts)
            } else {
                Stage::Storage {
                    accounts,
                    hashed_address,
                    cursors: live_cursors(canonical is Some, proofs is Some),
                    storage,
                }
            },
            report: ReportView {
                storage_diffs: appended(self.report.storage_diffs, diff),
                ..self.report
            },
            ..self
        }
    }

    /// What there is to log after a position of the account tries.
    pub open spec fn account_trie_notice(
        self,
        canonical: Option<(Seq<u8>, BranchNodeView)>,
        proofs: Option<(Seq<u8>, BranchNodeView)>,
    ) -> Notice
        recommends
            self.stage is AccountTrie,
    {
        let before = self.stage->AccountTrie_0;
        let found = self.command.recorded(before, finding(canonical, proofs));
        let progress = before.advanced(canonical is Some, found is Some);
        self.command.notice(
            progress,
            found,
            (canonical is Some || proofs is Some) && self.command.stops(progress),
            canonical is Some && proofs is Some,
        )
    }

    /// What there is to log after a position of the accounts. Where the storage of the
    /// account comes next, its progress is logged only behind that.
    pub open spec fn accounts_notice(
        self,
        canonical: Option<(B256, Account)>,
        proofs: Option<(B256, Account)>,
    ) -> Notice
        recommends
            self.stage is HashedAccounts,
    {
        let before = self.stage->HashedAccounts_0;
        let found = self.command.recorded(before, finding(canonical, proofs));
        let progress = before.advanced(canonical is Some, found is Some);
        let to_storage = self.after_accounts(canonical, proofs).stage is StorageTrie;
        self.command.notice(
            progress,
            found,
            !to_storage && (canonical is Some || proofs is Some) && self.command.stops(progress),
            !to_storage && canonical is Some && proofs is Some,
        )
    }

    /// What there is to log after a position of the storage tries of an account.
    pub open spec fn storage_trie_notice(
        self,
        canonical_read: Option<(Seq<u8>, BranchNodeView)>,
        proofs_read: Option<(Seq<u8>, BranchNodeView)>,
    ) -> Notice
        recommends
            self.stage is StorageTrie,
    {
        let canonical = self.stage->StorageTrie_cursors.canonical_entry(canonical_read);
        let proofs = self.stage->StorageTrie_cursors.proofs_entry(proofs_read);
        let before = self.stage->StorageTrie_storage;
        let found = self.command.recorded(before, finding(canonical, proofs));
        let progress = before.advanced(canonical is Some, found is Some);
        self.command.notice(
            progress,
            found,
            (canonical is Some || proofs is Some) && self.command.stops(progress),
            false,
        )
    }

    /// What there is to log after a position of the storage slots of an account.
    pub open spec fn storage_notice(
        self,
        canonical_read: Option<(B256, U256)>,
        proofs_read: Option<(B256, U256)>,
    ) -> Notice
        recommends
            self.stage is Storage,
    {
        let canonical = self.stage->Storage_cursors.canonical_entry(canonical_read);
        let proofs = self.stage->Storage_cursors.proofs_entry(proofs_read);
        let before = self.stage->Storage_storage;
        let found = self.command.recorded(before, finding(canonical, proofs));
        let progress = before.advanced(canonical is Some, found is Some);
        self.command.notice(
            progress,
            found,
            (canonical is Some || proofs is Some) && self.command.stops(progress),
            false,
        )
    }

    /// What there is to log after the storage of an account.
    pub open spec fn resume_notice(self) -> Notice
        recommends
            self.stage is AccountVerified,
    {
        let accounts = self.stage->AccountVerified_0;
        self.command.notice(accounts, None, self.command.stops(accounts), true)
    }

    /// What a verification comes to: it succeeds where nothing was recorded.
    pub open spec fn outcome(self) -> Result<(), VerifyError> {
        if self.report.total() == 0 {
            Ok(())
        } else {
            Err(VerifyError::DifferencesFound { total: self.report.total() as usize })
        }
    }

    /// After the storage of an account: on to the next accounts.
    pub open spec fn after_account_storage(self) -> VerificationView
        recommends
            self.stage is AccountVerified,
    {
        self.to_next_accounts(self.stage->AccountVerified_0)
    }
}

impl Verification {
    /// What is to be read next.
    pub fn stage(&self) -> (stage: Stage)
        ensures
            stage == self@.stage,
    {
        self.stage
    }

    /// The differences found so far.
    pub fn report(&self) -> (report: &VerificationReport)
        ensures
            report@ == self@.report,
    {
        &self.report
    }

    /// Whether one more entry can be counted.
    pub fn has_room(&self) -> (room: bool)
        ensures
            room == self@.has_room(),
    {
        match self.stage {
            Stage::AccountTrie(progress) => progress.checked < u64::MAX,
            Stage::DrainAccountTrie(progress) => progress.checked < u64::MAX,
            Stage::HashedAccounts(progress) => progress.checked < u64::MAX,
            Stage::StorageTrie { storage, .. } => storage.checked < u64::MAX,
            Stage::Storage { storage, .. } => storage.checked < u64::MAX,
            Stage::AccountVerified(_) => true,
            Stage::Finished => true,
        }
    }

    /// Compares the entries of both account tries at one position.
    pub fn compare_account_trie(
        &mut self,
        canonical: Option<(Nibbles, BranchNodeCompact)>,
        proofs: Option<(Nibbles, BranchNodeCompact)>,
    ) -> (notice: Notice)
        requires
            old(self)@.stage is AccountTrie,
            old(self)@.wf(),
            canonical is Some ==> old(self)@.has_room(),
        ensures
            final(self)@ == old(self)@.after_account_trie(
                trie_entry(canonical),
                trie_entry(proofs),
            ),
            final(self)@.wf(),
            notice == old(self)@.account_trie_notice(trie_entry(canonical), trie_entry(proofs)),
            ({
                let before = old(self)@.stage->AccountTrie_0;
                let found = old(self)@.command.recorded(
                    before,
                    finding(trie_entry(canonical), trie_entry(proofs)),
                );
                let progress = before.advanced(canonical is Some, found is Some);
                notice == old(self)@.command.notice(
                    progress,
                    found,
                    (canonical is Some || proofs is Some) && old(self)@.command.stops(progress),
                    canonical is Some && proofs is Some,
                )
            }),
    {
        if let Stage::AccountTrie(before) = self.stage {
            let has_canonical: bool = canonical.is_some();
            let has_proofs: bool = proofs.is_some();
            let (found, progress) = match compare_account_trie_nodes(canonical, proofs) {
                Some((found, diff)) if before.differences < self.command.max_differences => {
                    self.report.account_trie_diffs.push(diff);
                    (Some(found), before.advance(has_canonical, true))
                },
                _ => (None, before.advance(has_canonical, false)),
            };
            let limit_reached: bool = (has_canonical || has_proofs) && progress.differences
                >= self.command.max_differences;
            if !has_canonical && !has_proofs || limit_reached {
                self.stage = Stage::DrainAccountTrie(progress);
            } else {
                self.stage = Stage::AccountTrie(progress);
            }
            assert(self@ =~= old(self)@.after_account_trie(
                trie_entry(canonical),
                trie_entry(proofs),
            ));
            self.command.notify(progress, found, limit_reached, has_canonical && has_proofs)
        } else {
            unreached()
        }
    }

    /// Counts one more entry of the canonical account trie, or ends the comparison of the
    /// account tries where there is none.
    pub fn drain_account_trie(&mut self, canonical: bool) -> (progress: Progress)
        requires
            old(self)@.stage is DrainAccountTrie,
            old(self)@.wf(),
            canonical ==> old(self)@.has_room(),
        ensures
            final(self)@ == old(self)@.after_drain(canonical),
            final(self)@.wf(),
            progress == old(self)@.stage->DrainAccountTrie_0.advanced(canonical, false),
    {
        if let Stage::DrainAccountTrie(before) = self.stage {
            if canonical {
                let progress = Progress {
                    differences: before.differences,
                    checked: before.checked + 1,
                };
                self.stage = Stage::DrainAccountTrie(progress);
                progress
            } else {
                self.report.account_trie_compared = true;
                self.stage = Stage::HashedAccounts(Progress { differences: 0, checked: 0 });
                before
            }
        } else {
            unreached()
        }
    }

    /// Ends the verification.
    fn finish(&mut self)
        ensures
            final(self)@ == old(self)@.finished(),
    {
        self.report.hashed_accounts_compared = true;
        self.report.storage_trie_compared = true;
        self.report.storage_compared = true;
        self.stage = Stage::Finished;
    }

    /// Goes on to the next accounts, unless the differences between accounts are too many,
    /// and returns whether they are.
    fn continue_accounts(&mut self, accounts: Progress) -> (limit_reached: bool)
        ensures
            final(self)@ == old(self)@.to_next_accounts(accounts),
            final(self)@.wf(),
            limit_reached == old(self)@.command.stops(accounts),
    {
        let limit_reached: bool = accounts.differences >= self.command.max_differences;
        if limit_reached {
            self.finish();
        } else {
            self.stage = Stage::HashedAccounts(accounts);
        }
        limit_reached
    }

    /// Goes on to the storage of an account.
    fn verify_account_storage(&mut self, accounts: Progress, hashed_address: B256)
        ensures
            final(self)@ == old(self)@.to_account_storage(accounts, hashed_address),
            final(self)@.wf(),
    {
        self.stage =
        Stage::StorageTrie {
            accounts,
            hashed_address,
            cursors: Cursors::First,
            storage: Progress { differences: 0, checked: 0 },
        };
    }

    /// Compares the accounts of both stores at one position.
    pub fn compare_hashed_accounts(
        &mut self,
        canonical: Option<(B256, Account)>,
        proofs: Option<(B256, Account)>,
    ) -> (notice: Notice)
        requires
            old(self)@.stage is HashedAccounts,
            old(self)@.wf(),
            canonical is Some ==> old(self)@.has_room(),
        ensures
            final(self)@ == old(self)@.after_accounts(canonical, proofs),
            final(self)@.wf(),
            notice == old(self)@.accounts_notice(canonical, proofs),
            ({
                let before = old(self)@.stage->HashedAccounts_0;
                let found = old(self)@.command.recorded(before, finding(canonical, proofs));
                let progress = before.advanced(canonical is Some, found is Some);
                let to_storage = final(self)@.stage is StorageTrie;
                notice == old(self)@.command.notice(
                    progress,
                    found,
                    !to_storage && (canonical is Some || proofs is Some)
                        && old(self)@.command.stops(progress),
                    !to_storage && canonical is Some && proofs is Some,
                )
            }),
    {
        if let Stage::HashedAccounts(before) = self.stage {
            let (found, progress) = match compare_accounts(canonical, proofs) {
                Some((found, diff)) if before.differences < self.command.max_differences => {
                    self.report.hashed_account_diffs.push(diff);
                    (Some(found), before.advance(canonical.is_some(), true))
                },
                _ => (None, before.advance(canonical.is_some(), false)),
            };
            match (canonical, proofs) {
                (Some((address, _)), Some((proofs_address, _))) => {
                    if address == proofs_address {
                        self.verify_account_storage(progress, address);
                        self.command.notify(progress, found, false, false)
                    } else {
                        let limit_reached: bool = self.continue_accounts(progress);
                        self.command.notify(progress, found, limit_reached, true)
                    }
                },
                (None, None) => {
                    self.finish();
                    self.command.notify(progress, found, false, false)
                },
                _ => {
                    let limit_reached: bool = self.continue_accounts(progress);
                    self.command.notify(progress, found, limit_reached, false)
                },
            }
        } else {
            unreached()
        }
    }

    /// Compares the entries of both storage tries of an account at one position.
    pub fn compare_storage_trie_by_hash(
        &mut self,
        canonical_read: Option<(Nibbles, BranchNodeCompact)>,
        proofs_read: Option<(Nibbles, BranchNodeCompact)>,
    ) -> (notice: Notice)
        requires
            old(self)@.stage is StorageTrie,
            old(self)@.wf(),
            canonical_read is Some ==> old(self)@.has_room(),
        ensures
            final(self)@ == old(self)@.after_storage_trie(
                trie_entry(canonical_read),
                trie_entry(proofs_read),
            ),
            final(self)@.wf(),
            notice == old(self)@.storage_trie_notice(
                trie_entry(canonical_read),
                trie_entry(proofs_read),
            ),
            ({
                let cursors = old(self)@.stage->StorageTrie_cursors;
                let canonical = cursors.canonical_entry(trie_entry(canonical_read));
                let proofs = cursors.proofs_entry(trie_entry(proofs_read));
                let before = old(self)@.stage->StorageTrie_storage;
                let found = old(self)@.command.recorded(before, finding(canonical, proofs));
                let progress = before.advanced(canonical is Some, found is Some);
                notice == old(self)@.command.notice(
                    progress,
                    found,
                    (canonical is Some || proofs is Some) && old(self)@.command.stops(progress),
                    false,
                )
            }),
    {
        if let Stage::StorageTrie { accounts, hashed_address, cursors, storage } = self.stage {
            let canonical = if cursors == Cursors::Proofs {
                None
            } else {
                canonical_read
            };
            let proofs = if cursors == Cursors::Canonical {
                None
            } else {
                proofs_read
            };
            let has_canonical: bool = canonical.is_some();
            let has_proofs: bool = proofs.is_some();
            let (found, progress) = match compare_storage_trie_nodes(
                hashed_address,
                canonical,
                proofs,
            ) {
                Some((found, diff)) if storage.differences < self.command.max_differences => {
                    self.report.storage_trie_diffs.push(diff);
                    (Some(found), storage.advance(has_canonical, true))
                },
                _ => (None, storage.advance(has_canonical, false)),
            };
            let limit_reached: bool = (has_canonical || has_proofs) && progress.differences
                >= self.command.max_differences;
            if !has_canonical && !has_proofs || limit_reached {
                self.stage =
                Stage::Storage {
                    accounts,
                    hashed_address,
                    cursors: Cursors::First,
                    storage: Progress { differences: 0, checked: 0 },
                };
            } else {
                self.stage =
                Stage::StorageTrie {
                    accounts,
                    hashed_address,
                    cursors: Cursors::live(has_canonical, has_proofs),
                    storage: progress,
                };
            }
            assert(self@ =~= old(self)@.after_storage_trie(
                trie_entry(canonical_read),
                trie_entry(proofs_read),
            ));
            self.command.notify(progress, found, limit_reached, false)
        } else {
            unreached()
        }
    }

    /// Compares the storage slots of an account in both stores at one position.
    pub fn compare_storage_by_hash(
        &mut self,
        canonical_read: Option<(B256, U256)>,
        proofs_read: Option<(B256, U256)>,
    ) -> (notice: Notice)
        requires
            old(self)@.stage is Storage,
            old(self)@.wf(),
            canonical_read is Some ==> old(self)@.has_room(),
        ensures
            final(self)@ == old(self)@.after_storage(canonical_read, proofs_read),
            final(self)@.wf(),
            notice == old(self)@.storage_notice(canonical_read, proofs_read),
            ({
                let cursors = old(self)@.stage->Storage_cursors;
                let canonical = cursors.canonical_entry(canonical_read);
                let proofs = cursors.proofs_entry(proofs_read);
                let before = old(self)@.stage->Storage_storage;
                let found = old(self)@.command.recorded(before, finding(canonical, proofs));
                let progress = before.advanced(canonical is Some, found is Some);
                notice == old(self)@.command.notice(
                    progress,
                    found,
                    (canonical is Some || proofs is Some) && old(self)@.command.stops(progress),
                    false,
                )
            }),
    {
        if let Stage::Storage { accounts, hashed_address, cursors, storage } = self.stage {
            let canonical = if cursors == Cursors::Proofs {
                None
            } else {
                canonical_read
            };
            let proofs = if cursors == Cursors::Canonical {
                None
            } else {
                proofs_read
            };
            let (found, progress) = match compare_storage_slots(hashed_address, canonical, proofs) {
                Some((found, diff)) if storage.differences < self.command.max_differences => {
                    self.report.storage_diffs.push(diff);
                    (Some(found), storage.advance(canonical.is_some(), true))
                },
                _ => (None, storage.advance(canonical.is_some(), false)),
            };
            let limit_reached: bool = (canonical.is_some() || proofs.is_some())
                && progress.differences >= self.command.max_differences;
            if canonical.is_none() && proofs.is_none() || limit_reached {
                self.stage = Stage::AccountVerified(accounts);
            } else {
                self.stage =
                Stage::Storage {
                    accounts,
                    hashed_address,
                    cursors: Cursors::live(canonical.is_some(), proofs.is_some()),
                    storage: progress,
                };
            }
            self.command.notify(progress, found, limit_reached, false)
        } else {
            unreached()
        }
    }

    /// Goes on to the next accounts after the storage of an account, unless the differences
    /// between accounts are too many.
    pub fn resume_accounts(&mut self) -> (notice: Notice)
        requires
            old(self)@.stage is AccountVerified,
        ensures
            final(self)@ == old(self)@.after_account_storage(),
            final(self)@.wf(),
            notice == old(self)@.resume_notice(),
            ({
                let accounts = old(self)@.stage->AccountVerified_0;
                notice == old(self)@.command.notice(
                    accounts,
                    None,
                    old(self)@.command.stops(accounts),
                    true,
                )
            }),
    {
        if let Stage::AccountVerified(accounts) = self.stage {
            let limit_reached: bool = self.continue_accounts(accounts);
            self.command.notify(accounts, None, limit_reached, true)
        } else {
            unreached()
        }
    }

    /// The outcome of a verification that has come to its end. It goes by what was recorded:
    /// where the maximum number of differences is zero nothing is recorded, and the outcome
    /// is `Ok` whatever the stores hold.
    pub fn outcome(&self) -> (outcome: Result<(), VerifyError>)
        requires
            self@.stage is Finished,
            self@.report.total() <= usize::MAX,
        ensures
            outcome == self@.outcome(),
            outcome == if self@.report.total() == 0 {
                Ok::<(), VerifyError>(())
            } else {
                Err(VerifyError::DifferencesFound { total: self@.report.total() as usize })
            },
    {
        if self.report.has_errors() {
            Err(VerifyError::DifferencesFound { total: self.report.total_differences() })
        } else {
            Ok(())
        }
    }
}

} // verus!
