//! What a verification comes to, taken as a whole: which differences it reports of two
//! stores, and when it passes.

use vstd::prelude::*;

use crate::command::{block_to_verify, VerifyCommand};
use crate::compare::{account_diff, storage_diff, storage_trie_diff, trie_diff, Account};
use crate::primitives::{B256, U256};
use crate::render::{
    account_trie_diff_text, hashed_account_diff_text, report_text, section_text, storage_diff_text,
    storage_trie_diff_text, ACCOUNT_TRIE_HEADING, ACCOUNT_TRIE_RULE, HASHED_ACCOUNTS_HEADING,
    HASHED_ACCOUNTS_RULE, LISTED_DIFFERENCES, STORAGE_HEADING, STORAGE_RULE, STORAGE_TRIE_HEADING,
    STORAGE_TRIE_RULE,
};
use crate::report::{
    HashedAccountDiff, ReportView, StorageDiff, StorageTrieDiffView, TrieDiffView,
};
use crate::text::decimal;
use crate::trie::BranchNodeView;
use crate::verification::{appended, Cursors, Progress, Stage, VerificationView};

verus! {

/// What a store holds at a block, each part in the order in which it is read.
pub struct Store {
    pub account_trie: Seq<(Seq<u8>, BranchNodeView)>,
    pub accounts: Seq<(B256, Account)>,
    pub storage_trie: spec_fn(B256) -> Seq<(Seq<u8>, BranchNodeView)>,
    pub storage: spec_fn(B256) -> Seq<(B256, U256)>,
}

/// The entry at a position; `None` behind the last one.
pub open spec fn entry_at<E>(entries: Seq<E>, i: int) -> Option<E> {
    if 0 <= i < entries.len() {
        Some(entries[i])
    } else {
        None
    }
}

/// The number of positions at which at least one of two sequences has an entry.
pub open spec fn positions<E>(canonical: Seq<E>, proofs: Seq<E>) -> nat {
    if canonical.len() >= proofs.len() {
        canonical.len()
    } else {
        proofs.len()
    }
}

/// The differences at the first positions.
pub open spec fn differences<D>(diff_at: spec_fn(int) -> Option<D>, count: nat) -> Seq<D>
    decreases count,
{
    if count == 0 {
        Seq::empty()
    } else {
        appended(differences(diff_at, (count - 1) as nat), diff_at(count - 1))
    }
}

/// The number of positions of which the differences are reported: all of them, or those up
/// to the first position, counted from `from`, at which the differences are `limit` or more;
/// and none further where the limit is zero.
pub open spec fn compared_from<D>(
    diff_at: spec_fn(int) -> Option<D>,
    count: nat,
    limit: nat,
    from: nat,
) -> nat
    decreases count - from,
{
    if from >= count {
        count
    } else if limit == 0 {
        from
    } else if differences(diff_at, from + 1).len() >= limit {
        from + 1
    } else {
        compared_from(diff_at, count, limit, from + 1)
    }
}

/// The number of positions of which a comparison with this limit reports the differences.
pub open spec fn compared<D>(diff_at: spec_fn(int) -> Option<D>, count: nat, limit: nat) -> nat {
    compared_from(diff_at, count, limit, 0)
}

/// The differences that a comparison with this limit reports.
pub open spec fn reported<D>(diff_at: spec_fn(int) -> Option<D>, count: nat, limit: nat) -> Seq<D> {
    differences(diff_at, compared(diff_at, count, limit))
}

/// The difference at a position of two tries.
pub open spec fn trie_diff_at(
    canonical: Seq<(Seq<u8>, BranchNodeView)>,
    proofs: Seq<(Seq<u8>, BranchNodeView)>,
) -> spec_fn(int) -> Option<TrieDiffView> {
    |i: int| trie_diff(entry_at(canonical, i), entry_at(proofs, i))
}

/// The difference at a position of the storage tries of an account.
pub open spec fn storage_trie_diff_at(
    hashed_address: B256,
    canonical: Seq<(Seq<u8>, BranchNodeView)>,
    proofs: Seq<(Seq<u8>, BranchNodeView)>,
) -> spec_fn(int) -> Option<StorageTrieDiffView> {
    |i: int| storage_trie_diff(hashed_address, entry_at(canonical, i), entry_at(proofs, i))
}

/// The difference at a position of the storage slots of an account.
pub open spec fn storage_diff_at(
    hashed_address: B256,
    canonical: Seq<(B256, U256)>,
    proofs: Seq<(B256, U256)>,
) -> spec_fn(int) -> Option<StorageDiff> {
    |i: int| storage_diff(hashed_address, entry_at(canonical, i), entry_at(proofs, i))
}

/// The difference at a position of the accounts.
pub open spec fn account_diff_at(
    canonical: Seq<(B256, Account)>,
    proofs: Seq<(B256, Account)>,
) -> spec_fn(int) -> Option<HashedAccountDiff> {
    |i: int| account_diff(entry_at(canonical, i), entry_at(proofs, i))
}

/// Whether both stores have the same account at a position.
pub open spec fn same_address(
    canonical: Seq<(B256, Account)>,
    proofs: Seq<(B256, Account)>,
    i: int,
) -> bool {
    &&& 0 <= i < canonical.len()
    &&& i < proofs.len()
    &&& canonical[i].0 == proofs[i].0
}

/// The differences reported between the storage tries of an account.
pub open spec fn reported_of_storage_trie(
    canonical: Store,
    proofs: Store,
    limit: nat,
    hashed_address: B256,
) -> Seq<StorageTrieDiffView> {
    let canonical_trie = (canonical.storage_trie)(hashed_address);
    let proofs_trie = (proofs.storage_trie)(hashed_address);
    reported(
        storage_trie_diff_at(hashed_address, canonical_trie, proofs_trie),
        positions(canonical_trie, proofs_trie),
        limit,
    )
}

/// The differences reported between the storage slots of an account.
pub open spec fn reported_of_storage(
    canonical: Store,
    proofs: Store,
    limit: nat,
    hashed_address: B256,
) -> Seq<StorageDiff> {
    let canonical_storage = (canonical.storage)(hashed_address);
    let proofs_storage = (proofs.storage)(hashed_address);
    reported(
        storage_diff_at(hashed_address, canonical_storage, proofs_storage),
        positions(canonical_storage, proofs_storage),
        limit,
    )
}

/// The differences reported between the storage tries of the account at a position.
pub open spec fn account_storage_trie_diffs(
    canonical: Store,
    proofs: Store,
    limit: nat,
    i: int,
) -> Seq<StorageTrieDiffView> {
    if same_address(canonical.accounts, proofs.accounts, i) {
        reported_of_storage_trie(canonical, proofs, limit, canonical.accounts[i].0)
    } else {
        Seq::empty()
    }
}

/// The differences reported between the storage slots of the account at a position.
pub open spec fn account_storage_diffs(
    canonical: Store,
    proofs: Store,
    limit: nat,
    i: int,
) -> Seq<StorageDiff> {
    if same_address(canonical.accounts, proofs.accounts, i) {
        reported_of_storage(canonical, proofs, limit, canonical.accounts[i].0)
    } else {
        Seq::empty()
    }
}

/// What the first positions contribute, one after the other.
pub open spec fn joined<D>(part_at: spec_fn(int) -> Seq<D>, count: nat) -> Seq<D>
    decreases count,
{
    if count == 0 {
        Seq::empty()
    } else {
        joined(part_at, (count - 1) as nat) + part_at(count - 1)
    }
}

/// The report that a verification of two stores ends with. The tries and the accounts are
/// compared position by position, each up to the limit; the storage is compared of each
/// account that both stores have at one of these positions.
pub open spec fn expected_report(
    command: VerifyCommand,
    block_number: u64,
    canonical: Store,
    proofs: Store,
) -> ReportView {
    let limit = command.max_differences as nat;
    let trie_count = positions(canonical.account_trie, proofs.account_trie);
    let account_count = positions(canonical.accounts, proofs.accounts);
    let at_account = account_diff_at(canonical.accounts, proofs.accounts);
    let visited = compared(at_account, account_count, limit);
    ReportView {
        block_number,
        account_trie_compared: true,
        hashed_accounts_compared: true,
        storage_trie_compared: true,
        storage_compared: true,
        account_trie_diffs: reported(
            trie_diff_at(canonical.account_trie, proofs.account_trie),
            trie_count,
            limit,
        ),
        hashed_account_diffs: reported(at_account, account_count, limit),
        storage_trie_diffs: joined(
            |i: int| account_storage_trie_diffs(canonical, proofs, limit, i),
            visited,
        ),
        storage_diffs: joined(
            |i: int| account_storage_diffs(canonical, proofs, limit, i),
            visited,
        ),
    }
}

/// A verification that is given the entries of both account tries from a position on,
/// until it asks for accounts.
pub open spec fn account_trie_run(
    state: VerificationView,
    canonical: Seq<(Seq<u8>, BranchNodeView)>,
    proofs: Seq<(Seq<u8>, BranchNodeView)>,
    i: nat,
) -> VerificationView
    decreases positions(canonical, proofs) + 2 - i,
{
    if i >= positions(canonical, proofs) + 2 {
        state
    } else if state.stage is AccountTrie {
        account_trie_run(
            state.after_account_trie(entry_at(canonical, i as int), entry_at(proofs, i as int)),
            canonical,
            proofs,
            i + 1,
        )
    } else if state.stage is DrainAccountTrie {
        account_trie_run(
            state.after_drain(entry_at(canonical, i as int) is Some),
            canonical,
            proofs,
            i + 1,
        )
    } else {
        state
    }
}

/// A verification that is given the entries of both storage tries of an account from a
/// position on, until it asks for something else.
pub open spec fn storage_trie_run(
    state: VerificationView,
    canonical: Seq<(Seq<u8>, BranchNodeView)>,
    proofs: Seq<(Seq<u8>, BranchNodeView)>,
    i: nat,
) -> VerificationView
    decreases positions(canonical, proofs) + 1 - i,
{
    if state.stage is StorageTrie && i < positions(canonical, proofs) + 1 {
        storage_trie_run(
            state.after_storage_trie(entry_at(canonical, i as int), entry_at(proofs, i as int)),
            canonical,
            proofs,
            i + 1,
        )
    } else {
        state
    }
}

/// A verification that is given the storage slots of an account from a position on, until
/// it asks for something else.
pub open spec fn storage_run(
    state: VerificationView,
    canonical: Seq<(B256, U256)>,
    proofs: Seq<(B256, U256)>,
    i: nat,
) -> VerificationView
    decreases positions(canonical, proofs) + 1 - i,
{
    if state.stage is Storage && i < positions(canonical, proofs) + 1 {
        storage_run(
            state.after_storage(entry_at(canonical, i as int), entry_at(proofs, i as int)),
            canonical,
            proofs,
            i + 1,
        )
    } else {
        state
    }
}

/// A verification that is given the storage of an account, where it asks for it.
pub open spec fn account_storage_run(
    state: VerificationView,
    canonical: Store,
    proofs: Store,
) -> VerificationView {
    if state.stage is StorageTrie {
        let address = state.stage->StorageTrie_hashed_address;
        storage_run(
            storage_trie_run(
                state,
                (canonical.storage_trie)(address),
                (proofs.storage_trie)(address),
                0,
            ),
            (canonical.storage)(address),
            (proofs.storage)(address),
            0,
        )
    } else {
        state
    }
}

/// A verification that goes on with the accounts, where it has compared the storage of one.
pub open spec fn resumed(state: VerificationView) -> VerificationView {
    if state.stage is AccountVerified {
        state.after_account_storage()
    } else {
        state
    }
}

/// A verification that is given the accounts of both stores from a position on, and the
/// storage of each account for which it asks, until it has come to its end.
pub open spec fn accounts_run(
    state: VerificationView,
    canonical: Store,
    proofs: Store,
    i: nat,
) -> VerificationView
    decreases positions(canonical.accounts, proofs.accounts) + 1 - i,
{
    if state.stage is HashedAccounts && i < positions(canonical.accounts, proofs.accounts) + 1 {
        accounts_run(
            resumed(
                account_storage_run(
                    state.after_accounts(
                        entry_at(canonical.accounts, i as int),
                        entry_at(proofs.accounts, i as int),
                    ),
                    canonical,
                    proofs,
                ),
            ),
            canonical,
            proofs,
            i + 1,
        )
    } else {
        state
    }
}

/// A verification of two stores from its start to its end.
pub open spec fn verification_run(
    command: VerifyCommand,
    block_number: u64,
    canonical: Store,
    proofs: Store,
) -> VerificationView {
    accounts_run(
        account_trie_run(
            VerificationView::start(command, block_number),
            canonical.account_trie,
            proofs.account_trie,
            0,
        ),
        canonical,
        proofs,
        0,
    )
}

/// From the point at which the canonical account trie is only counted, the report does not
/// change until the accounts are reached.
proof fn lemma_drain_run(
    state: VerificationView,
    canonical: Seq<(Seq<u8>, BranchNodeView)>,
    proofs: Seq<(Seq<u8>, BranchNodeView)>,
    i: nat,
)
    requires
        state.stage is DrainAccountTrie,
        i <= positions(canonical, proofs) + 1,
    ensures
        account_trie_run(state, canonical, proofs, i) == (VerificationView {
            stage: Stage::HashedAccounts(Progress::none()),
            report: ReportView { account_trie_compared: true, ..state.report },
            ..state
        }),
    decreases positions(canonical, proofs) + 2 - i,
{
    let next = state.after_drain(entry_at(canonical, i as int) is Some);
    if entry_at(canonical, i as int) is Some {
        lemma_drain_run(next, canonical, proofs, i + 1);
    } else {
        reveal_with_fuel(account_trie_run, 2);
    }
}

/// From a position of the account tries on, what is reported are the differences up to the
/// position at which the comparison stops.
proof fn lemma_account_trie_run(
    state: VerificationView,
    canonical: Seq<(Seq<u8>, BranchNodeView)>,
    proofs: Seq<(Seq<u8>, BranchNodeView)>,
    i: nat,
)
    requires
        state.stage is AccountTrie,
        state.wf(),
        i <= positions(canonical, proofs),
        state.report.account_trie_diffs == differences(trie_diff_at(canonical, proofs), i),
        state.stage->AccountTrie_0.differences == differences(
            trie_diff_at(canonical, proofs),
            i,
        ).len(),
    ensures
        account_trie_run(state, canonical, proofs, i) == (VerificationView {
            stage: Stage::HashedAccounts(Progress::none()),
            report: ReportView {
                account_trie_compared: true,
                account_trie_diffs: differences(
                    trie_diff_at(canonical, proofs),
                    compared_from(
                        trie_diff_at(canonical, proofs),
                        positions(canonical, proofs),
                        state.command.max_differences as nat,
                        i,
                    ),
                ),
                ..state.report
            },
            ..state
        }),
    decreases positions(canonical, proofs) - i,
{
    let diff_at = trie_diff_at(canonical, proofs);
    let next = state.after_account_trie(entry_at(canonical, i as int), entry_at(proofs, i as int));
    assert(diff_at(i as int) == trie_diff(entry_at(canonical, i as int), entry_at(proofs, i as int)));
    assert(differences(diff_at, i + 1) == appended(differences(diff_at, i), diff_at(i as int)));
    if next.stage is AccountTrie {
        lemma_account_trie_run(next, canonical, proofs, i + 1);
    } else {
        lemma_drain_run(next, canonical, proofs, i + 1);
    }
}

/// From a position of the storage tries of an account on, what is added to the report are
/// the differences up to the position at which the comparison stops.
proof fn lemma_storage_trie_run(
    state: VerificationView,
    canonical: Seq<(Seq<u8>, BranchNodeView)>,
    proofs: Seq<(Seq<u8>, BranchNodeView)>,
    i: nat,
    before: Seq<StorageTrieDiffView>,
)
    requires
        state.stage is StorageTrie,
        state.wf(),
        i <= positions(canonical, proofs),
        state.stage->StorageTrie_cursors == Cursors::Proofs ==> canonical.len() <= i,
        state.stage->StorageTrie_cursors == Cursors::Canonical ==> proofs.len() <= i,
        ({
            let diff_at = storage_trie_diff_at(
                state.stage->StorageTrie_hashed_address,
                canonical,
                proofs,
            );
            &&& state.report.storage_trie_diffs == before + differences(diff_at, i)
            &&& state.stage->StorageTrie_storage.differences == differences(diff_at, i).len()
        }),
    ensures
        storage_trie_run(state, canonical, proofs, i) == ({
            let diff_at = storage_trie_diff_at(
                state.stage->StorageTrie_hashed_address,
                canonical,
                proofs,
            );
            VerificationView {
                stage: Stage::Storage {
                    accounts: state.stage->StorageTrie_accounts,
                    hashed_address: state.stage->StorageTrie_hashed_address,
                    cursors: Cursors::First,
                    storage: Progress::none(),
                },
                report: ReportView {
                    storage_trie_diffs: before + differences(
                        diff_at,
                        compared_from(
                            diff_at,
                            positions(canonical, proofs),
                            state.command.max_differences as nat,
                            i,
                        ),
                    ),
                    ..state.report
                },
                ..state
            }
        }),
    decreases positions(canonical, proofs) - i,
{
    let diff_at = storage_trie_diff_at(
        state.stage->StorageTrie_hashed_address,
        canonical,
        proofs,
    );
    let next = state.after_storage_trie(entry_at(canonical, i as int), entry_at(proofs, i as int));
    assert(differences(diff_at, i + 1) == appended(differences(diff_at, i), diff_at(i as int)));
    if state.command.max_differences > 0 {
        assert(next.report.storage_trie_diffs =~= before + differences(diff_at, i + 1));
    }
    if next.stage is StorageTrie {
        lemma_storage_trie_run(next, canonical, proofs, i + 1, before);
    } else {
        reveal_with_fuel(storage_trie_run, 2);
        if i == positions(canonical, proofs) {
            assert(next.report.storage_trie_diffs =~= before + differences(diff_at, i));
        }
    }
}

/// From a position of the storage slots of an account on, what is added to the report are
/// the differences up to the position at which the comparison stops.
proof fn lemma_storage_run(
    state: VerificationView,
    canonical: Seq<(B256, U256)>,
    proofs: Seq<(B256, U256)>,
    i: nat,
    before: Seq<StorageDiff>,
)
    requires
        state.stage is Storage,
        state.wf(),
        i <= positions(canonical, proofs),
        state.stage->Storage_cursors == Cursors::Proofs ==> canonical.len() <= i,
        state.stage->Storage_cursors == Cursors::Canonical ==> proofs.len() <= i,
        ({
            let diff_at = storage_diff_at(state.stage->Storage_hashed_address, canonical, proofs);
            &&& state.report.storage_diffs == before + differences(diff_at, i)
            &&& state.stage->Storage_storage.differences == differences(diff_at, i).len()
        }),
    ensures
        storage_run(state, canonical, proofs, i) == ({
            let diff_at = storage_diff_at(state.stage->Storage_hashed_address, canonical, proofs);
            VerificationView {
                stage: Stage::AccountVerified(state.stage->Storage_accounts),
                report: ReportView {
                    storage_diffs: before + differences(
                        diff_at,
                        compared_from(
                            diff_at,
                            positions(canonical, proofs),
                            state.command.max_differences as nat,
                            i,
                        ),
                    ),
                    ..state.report
                },
                ..state
            }
        }),
    decreases positions(canonical, proofs) - i,
{
    let diff_at = storage_diff_at(state.stage->Storage_hashed_address, canonical, proofs);
    let next = state.after_storage(entry_at(canonical, i as int), entry_at(proofs, i as int));
    assert(differences(diff_at, i + 1) == appended(differences(diff_at, i), diff_at(i as int)));
    if state.command.max_differences > 0 {
        assert(next.report.storage_diffs =~= before + differences(diff_at, i + 1));
    }
    if next.stage is Storage {
        lemma_storage_run(next, canonical, proofs, i + 1, before);
    } else {
        reveal_with_fuel(storage_run, 2);
        if i == positions(canonical, proofs) {
            assert(next.report.storage_diffs =~= before + differences(diff_at, i));
        }
    }
}

/// The storage of an account is compared as a whole: its storage trie and then its storage
/// slots, each with a count of its own, so that many differences of the trie suppress none of
/// the slots. To the report are added the differences of both, and nothing else in it
/// changes.
pub proof fn law_account_storage_adds_both_comparisons(
    state: VerificationView,
    accounts: Progress,
    hashed_address: B256,
    canonical: Store,
    proofs: Store,
)
    ensures
        account_storage_run(
            state.to_account_storage(accounts, hashed_address),
            canonical,
            proofs,
        ) == ({
            let limit = state.command.max_differences as nat;
            VerificationView {
                stage: Stage::AccountVerified(accounts),
                report: ReportView {
                    storage_trie_diffs: state.report.storage_trie_diffs + reported_of_storage_trie(
                        canonical,
                        proofs,
                        limit,
                        hashed_address,
                    ),
                    storage_diffs: state.report.storage_diffs + reported_of_storage(
                        canonical,
                        proofs,
                        limit,
                        hashed_address,
                    ),
                    ..state.report
                },
                ..state
            }
        }),
{
    let first = state.to_account_storage(accounts, hashed_address);
    let canonical_trie = (canonical.storage_trie)(hashed_address);
    let proofs_trie = (proofs.storage_trie)(hashed_address);
    let trie_diffs = state.report.storage_trie_diffs;
    assert(trie_diffs =~= trie_diffs + Seq::<StorageTrieDiffView>::empty());
    lemma_storage_trie_run(first, canonical_trie, proofs_trie, 0, trie_diffs);
    let second = storage_trie_run(first, canonical_trie, proofs_trie, 0);
    let diffs = state.report.storage_diffs;
    assert(diffs =~= diffs + Seq::<StorageDiff>::empty());
    lemma_storage_run(
        second,
        (canonical.storage)(hashed_address),
        (proofs.storage)(hashed_address),
        0,
        diffs,
    );
}

/// From a position of the accounts on, what is reported are the differences up to the
/// position at which the comparison stops, and those of the storage of the accounts up to
/// there.
proof fn lemma_accounts_run(state: VerificationView, canonical: Store, proofs: Store, i: nat)
    requires
        state.stage is HashedAccounts,
        state.wf(),
        i <= positions(canonical.accounts, proofs.accounts),
        ({
            let limit = state.command.max_differences as nat;
            let diff_at = account_diff_at(canonical.accounts, proofs.accounts);
            &&& state.report.hashed_account_diffs == differences(diff_at, i)
            &&& state.stage->HashedAccounts_0.differences == differences(diff_at, i).len()
            &&& state.report.storage_trie_diffs == joined(
                |k: int| account_storage_trie_diffs(canonical, proofs, limit, k),
                i,
            )
            &&& state.report.storage_diffs == joined(
                |k: int| account_storage_diffs(canonical, proofs, limit, k),
                i,
            )
        }),
    ensures
        accounts_run(state, canonical, proofs, i) == ({
            let limit = state.command.max_differences as nat;
            let diff_at = account_diff_at(canonical.accounts, proofs.accounts);
            let visited = compared_from(
                diff_at,
                positions(canonical.accounts, proofs.accounts),
                limit,
                i,
            );
            (VerificationView {
                report: ReportView {
                    hashed_account_diffs: differences(diff_at, visited),
                    storage_trie_diffs: joined(
                        |k: int| account_storage_trie_diffs(canonical, proofs, limit, k),
                        visited,
                    ),
                    storage_diffs: joined(
                        |k: int| account_storage_diffs(canonical, proofs, limit, k),
                        visited,
                    ),
                    ..state.report
                },
                ..state
            }).finished()
        }),
    decreases positions(canonical.accounts, proofs.accounts) - i,
{
    let limit = state.command.max_differences as nat;
    let diff_at = account_diff_at(canonical.accounts, proofs.accounts);
    let trie_part = |k: int| account_storage_trie_diffs(canonical, proofs, limit, k);
    let part = |k: int| account_storage_diffs(canonical, proofs, limit, k);
    let canonical_entry = entry_at(canonical.accounts, i as int);
    let proofs_entry = entry_at(proofs.accounts, i as int);
    let diff = state.command.recorded(state.stage->HashedAccounts_0, diff_at(i as int));
    let accounts = state.stage->HashedAccounts_0.advanced(canonical_entry is Some, diff is Some);
    let recorded = VerificationView {
        report: ReportView {
            hashed_account_diffs: appended(state.report.hashed_account_diffs, diff),
            ..state.report
        },
        ..state
    };
    let step = state.after_accounts(canonical_entry, proofs_entry);
    let next = resumed(account_storage_run(step, canonical, proofs));
    assert(differences(diff_at, i + 1) == appended(differences(diff_at, i), diff_at(i as int)));
    if i < positions(canonical.accounts, proofs.accounts) {
        assert(joined(trie_part, i + 1) == joined(trie_part, i) + trie_part(i as int));
        assert(joined(part, i + 1) == joined(part, i) + part(i as int));
        if same_address(canonical.accounts, proofs.accounts, i as int) {
            law_account_storage_adds_both_comparisons(
                recorded,
                accounts,
                canonical.accounts[i as int].0,
                canonical,
                proofs,
            );
            if limit == 0 {
                assert(joined(trie_part, i) + trie_part(i as int) =~= joined(trie_part, i));
                assert(joined(part, i) + part(i as int) =~= joined(part, i));
            }
        } else {
            assert(joined(trie_part, i + 1) =~= joined(trie_part, i));
            assert(joined(part, i + 1) =~= joined(part, i));
        }
        if next.stage is HashedAccounts {
            lemma_accounts_run(next, canonical, proofs, i + 1);
        } else {
            reveal_with_fuel(accounts_run, 2);
        }
    } else {
        reveal_with_fuel(accounts_run, 2);
    }
}

/// A verification of two stores comes to its end, and its report says what the stores are
/// expected to give.
pub proof fn law_run_gives_expected_report(
    command: VerifyCommand,
    block_number: u64,
    canonical: Store,
    proofs: Store,
)
    ensures
        verification_run(command, block_number, canonical, proofs) == (VerificationView {
            command,
            stage: Stage::Finished,
            report: expected_report(command, block_number, canonical, proofs),
        }),
{
    let start = VerificationView::start(command, block_number);
    lemma_account_trie_run(start, canonical.account_trie, proofs.account_trie, 0);
    let accounts = account_trie_run(start, canonical.account_trie, proofs.account_trie, 0);
    lemma_accounts_run(accounts, canonical, proofs, 0);
}

/// There are no differences at the first positions if and only if there is none at each.
proof fn lemma_no_differences<D>(diff_at: spec_fn(int) -> Option<D>, count: nat)
    ensures
        differences(diff_at, count).len() == 0 <==> forall|i: int|
            0 <= i < count ==> (#[trigger] diff_at(i)) is None,
    decreases count,
{
    if count > 0 {
        lemma_no_differences(diff_at, (count - 1) as nat);
    }
}

/// Without differences every position is compared.
proof fn lemma_all_compared<D>(
    diff_at: spec_fn(int) -> Option<D>,
    count: nat,
    limit: nat,
    from: nat,
)
    requires
        from <= count,
        limit > 0,
        differences(diff_at, compared_from(diff_at, count, limit, from)).len() == 0,
    ensures
        compared_from(diff_at, count, limit, from) == count,
    decreases count - from,
{
    if from < count && differences(diff_at, from + 1).len() < limit {
        lemma_all_compared(diff_at, count, limit, from + 1);
    }
}

/// The positions of which differences are reported reach at least to the one that is
/// counted from, and not behind the last one.
proof fn lemma_compared_in_range<D>(
    diff_at: spec_fn(int) -> Option<D>,
    count: nat,
    limit: nat,
    from: nat,
)
    requires
        from <= count,
    ensures
        from <= compared_from(diff_at, count, limit, from) <= count,
    decreases count - from,
{
    if from < count && differences(diff_at, from + 1).len() < limit {
        lemma_compared_in_range(diff_at, count, limit, from + 1);
    }
}

/// Nothing is reported where there is no difference; and where there is one, something
/// is, unless the limit is zero.
proof fn lemma_nothing_reported<D>(diff_at: spec_fn(int) -> Option<D>, count: nat, limit: nat)
    ensures
        (forall|i: int| 0 <= i < count ==> (#[trigger] diff_at(i)) is None) ==> reported(
            diff_at,
            count,
            limit,
        ).len() == 0,
        limit > 0 && reported(diff_at, count, limit).len() == 0 ==> compared(diff_at, count, limit)
            == count && forall|i: int| 0 <= i < count ==> (#[trigger] diff_at(i)) is None,
{
    lemma_compared_in_range(diff_at, count, limit, 0);
    lemma_no_differences(diff_at, count);
    lemma_no_differences(diff_at, compared(diff_at, count, limit));
    if limit > 0 && reported(diff_at, count, limit).len() == 0 {
        lemma_all_compared(diff_at, count, limit, 0);
    }
}

/// Positions contribute nothing together if and only if each contributes nothing.
proof fn lemma_nothing_joined<D>(part_at: spec_fn(int) -> Seq<D>, count: nat)
    ensures
        joined(part_at, count).len() == 0 <==> forall|i: int|
            0 <= i < count ==> (#[trigger] part_at(i)).len() == 0,
    decreases count,
{
    if count > 0 {
        lemma_nothing_joined(part_at, (count - 1) as nat);
    }
}

/// Two sequences are equal where their entries are equal at each position.
proof fn lemma_equal_entries<E>(canonical: Seq<E>, proofs: Seq<E>)
    requires
        forall|i: int|
            0 <= i < positions(canonical, proofs) ==> #[trigger] entry_at(canonical, i)
                == entry_at(proofs, i),
    ensures
        canonical == proofs,
{
    if canonical.len() > proofs.len() {
        assert(entry_at(canonical, proofs.len() as int) == entry_at(proofs, proofs.len() as int));
    } else if canonical.len() < proofs.len() {
        assert(entry_at(canonical, canonical.len() as int) == entry_at(
            proofs,
            canonical.len() as int,
        ));
    } else {
        assert forall|i: int| 0 <= i < canonical.len() implies canonical[i] == proofs[i] by {
            assert(entry_at(canonical, i) == entry_at(proofs, i));
        }
        assert(canonical =~= proofs);
    }
}

/// Where the differences are at the positions at which two sequences are unequal, nothing
/// is reported of equal sequences; and something is of unequal ones, unless the limit is
/// zero.
proof fn lemma_reported_of_unequal<E, D>(
    diff_at: spec_fn(int) -> Option<D>,
    canonical: Seq<E>,
    proofs: Seq<E>,
    limit: nat,
)
    requires
        forall|i: int|
            (#[trigger] diff_at(i)) is None <==> entry_at(canonical, i) == entry_at(proofs, i),
    ensures
        canonical == proofs ==> reported(diff_at, positions(canonical, proofs), limit).len() == 0,
        limit > 0 && reported(diff_at, positions(canonical, proofs), limit).len() == 0 ==> {
            &&& canonical == proofs
            &&& compared(diff_at, positions(canonical, proofs), limit) == canonical.len()
        },
{
    let count = positions(canonical, proofs);
    lemma_nothing_reported(diff_at, count, limit);
    if limit > 0 && reported(diff_at, count, limit).len() == 0 {
        assert forall|i: int| 0 <= i < count implies #[trigger] entry_at(canonical, i) == entry_at(
            proofs,
            i,
        ) by {
            assert(diff_at(i) is None);
        }
        lemma_equal_entries(canonical, proofs);
    }
}

/// Whether two stores hold the same: the same account trie, the same accounts, and of each
/// account the same storage trie and the same storage slots.
pub open spec fn stores_agree(canonical: Store, proofs: Store) -> bool {
    &&& canonical.account_trie == proofs.account_trie
    &&& canonical.accounts == proofs.accounts
    &&& forall|i: int|
        0 <= i < canonical.accounts.len() ==> {
            let address = (#[trigger] canonical.accounts[i]).0;
            &&& (canonical.storage_trie)(address) == (proofs.storage_trie)(address)
            &&& (canonical.storage)(address) == (proofs.storage)(address)
        }
}

/// A verification of stores that hold the same finds no difference; and one that finds
/// none, with a limit other than zero, has shown that the stores hold the same.
pub proof fn law_passes_exactly_where_stores_agree(
    command: VerifyCommand,
    block_number: u64,
    canonical: Store,
    proofs: Store,
)
    ensures
        ({
            let report = verification_run(command, block_number, canonical, proofs).report;
            &&& stores_agree(canonical, proofs) ==> report.total() == 0
            &&& command.max_differences > 0 && report.total() == 0 ==> stores_agree(
                canonical,
                proofs,
            )
        }),
{
    law_run_gives_expected_report(command, block_number, canonical, proofs);
    let limit = command.max_differences as nat;
    let report = expected_report(command, block_number, canonical, proofs);
    let count = positions(canonical.accounts, proofs.accounts);
    let diff_at = account_diff_at(canonical.accounts, proofs.accounts);
    let visited = compared(diff_at, count, limit);
    let trie_part = |k: int| account_storage_trie_diffs(canonical, proofs, limit, k);
    let part = |k: int| account_storage_diffs(canonical, proofs, limit, k);
    lemma_reported_of_unequal(
        trie_diff_at(canonical.account_trie, proofs.account_trie),
        canonical.account_trie,
        proofs.account_trie,
        limit,
    );
    lemma_reported_of_unequal(diff_at, canonical.accounts, proofs.accounts, limit);
    lemma_compared_in_range(diff_at, count, limit, 0);
    lemma_nothing_joined(trie_part, visited);
    lemma_nothing_joined(part, visited);
    assert forall|i: int| 0 <= i < canonical.accounts.len() && same_address(
        canonical.accounts,
        proofs.accounts,
        i,
    ) implies {
        let address = (#[trigger] canonical.accounts[i]).0;
        &&& (canonical.storage_trie)(address) == (proofs.storage_trie)(address) ==> trie_part(
            i,
        ).len() == 0
        &&& limit > 0 && trie_part(i).len() == 0 ==> (canonical.storage_trie)(address) == (
        proofs.storage_trie)(address)
        &&& (canonical.storage)(address) == (proofs.storage)(address) ==> part(i).len() == 0
        &&& limit > 0 && part(i).len() == 0 ==> (canonical.storage)(address) == (proofs.storage)(
            address,
        )
    } by {
        let address = canonical.accounts[i].0;
        let canonical_trie = (canonical.storage_trie)(address);
        let proofs_trie = (proofs.storage_trie)(address);
        lemma_reported_of_unequal(
            storage_trie_diff_at(address, canonical_trie, proofs_trie),
            canonical_trie,
            proofs_trie,
            limit,
        );
        let canonical_storage = (canonical.storage)(address);
        let proofs_storage = (proofs.storage)(address);
        lemma_reported_of_unequal(
            storage_diff_at(address, canonical_storage, proofs_storage),
            canonical_storage,
            proofs_storage,
            limit,
        );
    }
    if stores_agree(canonical, proofs) {
        assert forall|i: int| 0 <= i < visited implies (#[trigger] trie_part(i)).len() == 0 by {
            assert(canonical.accounts[i] == proofs.accounts[i]);
        }
        assert forall|i: int| 0 <= i < visited implies (#[trigger] part(i)).len() == 0 by {
            assert(canonical.accounts[i] == proofs.accounts[i]);
        }
    }
    if limit > 0 && report.total() == 0 {
        assert forall|i: int| 0 <= i < canonical.accounts.len() implies {
            let address = (#[trigger] canonical.accounts[i]).0;
            &&& (canonical.storage_trie)(address) == (proofs.storage_trie)(address)
            &&& (canonical.storage)(address) == (proofs.storage)(address)
        } by {
            assert(trie_part(i).len() == 0);
            assert(part(i).len() == 0);
        }
    }
}

/// The differences at the first positions are the first of all differences.
proof fn lemma_differences_are_prefix<D>(
    diff_at: spec_fn(int) -> Option<D>,
    first: nat,
    count: nat,
)
    requires
        first <= count,
    ensures
        differences(diff_at, first).len() <= differences(diff_at, count).len(),
        differences(diff_at, count).take(differences(diff_at, first).len() as int) == differences(
            diff_at,
            first,
        ),
    decreases count - first,
{
    if first < count {
        lemma_differences_are_prefix(diff_at, first, (count - 1) as nat);
        let shorter = differences(diff_at, (count - 1) as nat);
        let length = differences(diff_at, first).len() as int;
        assert(differences(diff_at, count).take(length) =~= shorter.take(length));
    } else {
        assert(differences(diff_at, count).take(differences(diff_at, count).len() as int)
            =~= differences(diff_at, count));
    }
}

/// From a position on, a comparison that has not reached its limit reports the first
/// differences up to the limit.
proof fn lemma_reported_up_to_limit<D>(
    diff_at: spec_fn(int) -> Option<D>,
    count: nat,
    limit: nat,
    from: nat,
)
    requires
        from <= count,
        differences(diff_at, from).len() < limit,
    ensures
        ({
            let all = differences(diff_at, count);
            let found = differences(diff_at, compared_from(diff_at, count, limit, from));
            found == all.take(
                if all.len() < limit {
                    all.len() as int
                } else {
                    limit as int
                },
            )
        }),
    decreases count - from,
{
    if from < count {
        if differences(diff_at, from + 1).len() >= limit {
            lemma_differences_are_prefix(diff_at, from + 1, count);
        } else {
            lemma_reported_up_to_limit(diff_at, count, limit, from + 1);
        }
    } else {
        assert(differences(diff_at, count).take(differences(diff_at, count).len() as int)
            =~= differences(diff_at, count));
    }
}

/// A comparison reports the first differences of all positions, as many as the limit allows.
pub proof fn law_reports_first_differences<D>(
    diff_at: spec_fn(int) -> Option<D>,
    count: nat,
    limit: nat,
)
    ensures
        ({
            let all = differences(diff_at, count);
            reported(diff_at, count, limit) == all.take(
                if all.len() < limit {
                    all.len() as int
                } else {
                    limit as int
                },
            )
        }),
{
    if limit > 0 {
        lemma_reported_up_to_limit(diff_at, count, limit, 0);
    } else {
        assert(differences(diff_at, count).take(0) =~= Seq::<D>::empty());
    }
}

/// A comparison reports no more differences than its limit.
pub proof fn law_limit_is_kept<D>(diff_at: spec_fn(int) -> Option<D>, count: nat, limit: nat)
    ensures
        reported(diff_at, count, limit).len() <= limit,
{
    law_reports_first_differences(diff_at, count, limit);
}

/// The account tries, the accounts, and of each account the storage trie and the storage
/// slots are each reported with no more differences than the maximum; and where the maximum
/// is zero, the report holds none at all.
pub proof fn law_report_keeps_limit(
    command: VerifyCommand,
    block_number: u64,
    canonical: Store,
    proofs: Store,
)
    ensures
        ({
            let report = verification_run(command, block_number, canonical, proofs).report;
            let limit = command.max_differences as nat;
            &&& report.account_trie_diffs.len() <= limit
            &&& report.hashed_account_diffs.len() <= limit
            &&& forall|i: int|
                (#[trigger] account_storage_trie_diffs(canonical, proofs, limit, i)).len() <= limit
            &&& forall|i: int|
                (#[trigger] account_storage_diffs(canonical, proofs, limit, i)).len() <= limit
            &&& limit == 0 ==> report.total() == 0
        }),
{
    let limit = command.max_differences as nat;
    law_run_gives_expected_report(command, block_number, canonical, proofs);
    law_limit_is_kept(
        trie_diff_at(canonical.account_trie, proofs.account_trie),
        positions(canonical.account_trie, proofs.account_trie),
        limit,
    );
    law_limit_is_kept(
        account_diff_at(canonical.accounts, proofs.accounts),
        positions(canonical.accounts, proofs.accounts),
        limit,
    );
    assert forall|i: int|
        (#[trigger] account_storage_trie_diffs(canonical, proofs, limit, i)).len() <= limit by {
        let address = canonical.accounts[i].0;
        let canonical_trie = (canonical.storage_trie)(address);
        let proofs_trie = (proofs.storage_trie)(address);
        law_limit_is_kept(
            storage_trie_diff_at(address, canonical_trie, proofs_trie),
            positions(canonical_trie, proofs_trie),
            limit,
        );
    }
    assert forall|i: int|
        (#[trigger] account_storage_diffs(canonical, proofs, limit, i)).len() <= limit by {
        let address = canonical.accounts[i].0;
        let canonical_storage = (canonical.storage)(address);
        let proofs_storage = (proofs.storage)(address);
        law_limit_is_kept(
            storage_diff_at(address, canonical_storage, proofs_storage),
            positions(canonical_storage, proofs_storage),
            limit,
        );
    }
    if limit == 0 {
        let visited = compared(
            account_diff_at(canonical.accounts, proofs.accounts),
            positions(canonical.accounts, proofs.accounts),
            limit,
        );
        lemma_nothing_joined(
            |i: int| account_storage_trie_diffs(canonical, proofs, limit, i),
            visited,
        );
        lemma_nothing_joined(|i: int| account_storage_diffs(canonical, proofs, limit, i), visited);
    }
}

/// Whether a report says at least what an earlier one said, of the same block.
pub open spec fn extends(later: ReportView, earlier: ReportView) -> bool {
    &&& later.block_number == earlier.block_number
    &&& earlier.account_trie_compared ==> later.account_trie_compared
    &&& earlier.hashed_accounts_compared ==> later.hashed_accounts_compared
    &&& earlier.storage_trie_compared ==> later.storage_trie_compared
    &&& earlier.storage_compared ==> later.storage_compared
    &&& earlier.account_trie_diffs.is_prefix_of(later.account_trie_diffs)
    &&& earlier.hashed_account_diffs.is_prefix_of(later.hashed_account_diffs)
    &&& earlier.storage_trie_diffs.is_prefix_of(later.storage_trie_diffs)
    &&& earlier.storage_diffs.is_prefix_of(later.storage_diffs)
}

/// No step of a verification takes back what was reported, nor does it record more than one
/// difference.
pub proof fn law_steps_extend_report(
    state: VerificationView,
    canonical_node: Option<(Seq<u8>, BranchNodeView)>,
    proofs_node: Option<(Seq<u8>, BranchNodeView)>,
    canonical_account: Option<(B256, Account)>,
    proofs_account: Option<(B256, Account)>,
    canonical_slot: Option<(B256, U256)>,
    proofs_slot: Option<(B256, U256)>,
)
    ensures
        ({
            let next = state.after_account_trie(canonical_node, proofs_node);
            &&& extends(next.report, state.report)
            &&& next.report.total() <= state.report.total() + 1
        }),
        ({
            let next = state.after_drain(canonical_node is Some);
            &&& extends(next.report, state.report)
            &&& next.report.total() == state.report.total()
        }),
        ({
            let next = state.after_accounts(canonical_account, proofs_account);
            &&& extends(next.report, state.report)
            &&& next.report.total() <= state.report.total() + 1
        }),
        ({
            let next = state.after_storage_trie(canonical_node, proofs_node);
            &&& extends(next.report, state.report)
            &&& next.report.total() <= state.report.total() + 1
        }),
        ({
            let next = state.after_storage(canonical_slot, proofs_slot);
            &&& extends(next.report, state.report)
            &&& next.report.total() <= state.report.total() + 1
        }),
        ({
            let next = state.after_account_storage();
            &&& extends(next.report, state.report)
            &&& next.report.total() == state.report.total()
        }),
{
}

/// The number of entries that a comparison of the account tries has checked.
pub open spec fn nodes_checked(state: VerificationView) -> u64 {
    match state.stage {
        Stage::AccountTrie(progress) => progress.checked,
        Stage::DrainAccountTrie(progress) => progress.checked,
        _ => 0,
    }
}

/// Each entry of the canonical account trie is counted once, also those behind the position
/// at which the comparison stopped: before the entry at a position is read, as many entries
/// have been counted as the trie has before that position.
pub proof fn law_every_canonical_node_is_counted(
    state: VerificationView,
    canonical: Seq<(Seq<u8>, BranchNodeView)>,
    proofs: Seq<(Seq<u8>, BranchNodeView)>,
    i: nat,
)
    requires
        canonical.len() <= u64::MAX,
        nodes_checked(state) == if i < canonical.len() {
            i
        } else {
            canonical.len()
        },
    ensures
        ({
            let counted = if i + 1 < canonical.len() {
                i + 1
            } else {
                canonical.len()
            };
            let entry = entry_at(canonical, i as int);
            &&& state.stage is AccountTrie ==> nodes_checked(
                state.after_account_trie(entry, entry_at(proofs, i as int)),
            ) == counted
            &&& state.stage is DrainAccountTrie && entry is Some ==> nodes_checked(
                state.after_drain(true),
            ) == counted
            &&& state.stage is DrainAccountTrie && entry is None ==> nodes_checked(state)
                == canonical.len()
        }),
{
}

/// A difference between accounts names at least one value, and never a storage root.
pub proof fn law_account_difference_names_a_value(
    canonical: Option<(B256, Account)>,
    proofs: Option<(B256, Account)>,
)
    ensures
        account_diff(canonical, proofs) matches Some(diff) ==> {
            &&& diff.balance_diff is Some || diff.nonce_diff is Some || diff.code_hash_diff is Some
            &&& diff.storage_root_diff is None
        },
{
}

/// A block is verified exactly where the proofs storage covers the last canonical block,
/// and it is that block.
pub proof fn law_verified_block_is_covered(
    proofs_latest: Option<u64>,
    canonical_latest: u64,
    proofs_earliest: Option<u64>,
)
    ensures
        block_to_verify(proofs_latest, canonical_latest, proofs_earliest) is Ok <==> {
            &&& proofs_latest matches Some(latest) && canonical_latest <= latest
            &&& proofs_latest == Some(canonical_latest) || (proofs_earliest matches Some(earliest)
                && earliest <= canonical_latest)
        },
        block_to_verify(proofs_latest, canonical_latest, proofs_earliest) matches Ok(block)
            ==> block == canonical_latest,
{
}

/// A verbose report lists every difference of a kind.
pub proof fn law_verbose_report_lists_all(
    heading: Seq<char>,
    rule: Seq<char>,
    entries: Seq<Seq<char>>,
)
    requires
        entries.len() > 0,
    ensures
        section_text(heading, rule, entries, true) == heading + decimal(entries.len()) + rule
            + entries.flatten(),
{
    assert(entries.take(entries.len() as int) =~= entries);
    assert(section_text(heading, rule, entries, true) =~= heading + decimal(entries.len()) + rule
        + entries.flatten());
}

/// A number above zero has no more decimal digits than it counts.
proof fn lemma_decimal_is_short(number: nat)
    requires
        number > 0,
    ensures
        decimal(number).len() <= number,
    decreases number,
{
    if number >= 10 {
        lemma_decimal_is_short(number / 10);
    }
}

/// Entries of at least forty characters each make a text of at least as many together.
proof fn lemma_entries_are_long(entries: Seq<Seq<char>>)
    requires
        forall|i: int| 0 <= i < entries.len() ==> (#[trigger] entries[i]).len() >= 40,
    ensures
        entries.flatten().len() >= 40 * entries.len(),
    decreases entries.len(),
{
    if entries.len() > 0 {
        assert forall|i: int| 0 <= i < entries.drop_first().len() implies (
        #[trigger] entries.drop_first()[i]).len() >= 40 by {
            assert(entries.drop_first()[i] == entries[i + 1]);
        }
        lemma_entries_are_long(entries.drop_first());
    }
}

/// A section that leaves entries out is shorter than one that lists all.
proof fn lemma_short_section(heading: Seq<char>, rule: Seq<char>, entries: Seq<Seq<char>>)
    requires
        forall|i: int| 0 <= i < entries.len() ==> (#[trigger] entries[i]).len() >= 40,
    ensures
        section_text(heading, rule, entries, false).len() <= section_text(
            heading,
            rule,
            entries,
            true,
        ).len(),
        entries.len() > LISTED_DIFFERENCES ==> section_text(heading, rule, entries, false).len()
            < section_text(heading, rule, entries, true).len(),
{
    if entries.len() > LISTED_DIFFERENCES {
        let first = entries.take(LISTED_DIFFERENCES as int);
        let rest = entries.skip(LISTED_DIFFERENCES as int);
        assert(entries.take(entries.len() as int) =~= first + rest);
        vstd::seq_lib::lemma_flatten_concat(first, rest);
        assert forall|i: int| 0 <= i < rest.len() implies (#[trigger] rest[i]).len() >= 40 by {
            assert(rest[i] == entries[i + LISTED_DIFFERENCES]);
        }
        lemma_entries_are_long(rest);
        lemma_decimal_is_short(rest.len());
        reveal_strlit("  ... and ");
        reveal_strlit(" more\n");
    }
}

/// The lines of a difference of each kind are at least forty characters.
proof fn lemma_lines_are_long()
    ensures
        forall|diff: TrieDiffView| (#[trigger] account_trie_diff_text(diff)).len() >= 40,
        forall|diff: HashedAccountDiff| (#[trigger] hashed_account_diff_text(diff)).len() >= 40,
        forall|diff: StorageTrieDiffView| (#[trigger] storage_trie_diff_text(diff)).len() >= 40,
        forall|diff: StorageDiff| (#[trigger] storage_diff_text(diff)).len() >= 40,
{
    reveal_strlit("    Canonical: ");
    reveal_strlit("\n    Proofs:    ");
    reveal_strlit("\n\n");
    reveal_strlit("  Path: ");
    reveal_strlit("Nibbles(0x");
    reveal_strlit("  Address: ");
    reveal_strlit("  Hashed Address: ");
}

/// A report is the same text whether it is verbose or not if and only if it has no more than
/// ten differences of each kind.
pub proof fn law_short_report_is_complete(report: ReportView)
    ensures
        report_text(report, true) == report_text(report, false) <==> {
            &&& report.account_trie_diffs.len() <= LISTED_DIFFERENCES
            &&& report.hashed_account_diffs.len() <= LISTED_DIFFERENCES
            &&& report.storage_trie_diffs.len() <= LISTED_DIFFERENCES
            &&& report.storage_diffs.len() <= LISTED_DIFFERENCES
        },
{
    lemma_lines_are_long();
    lemma_short_section(
        ACCOUNT_TRIE_HEADING@,
        ACCOUNT_TRIE_RULE@,
        report.account_trie_diffs.map_values(|diff: TrieDiffView| account_trie_diff_text(diff)),
    );
    lemma_short_section(
        HASHED_ACCOUNTS_HEADING@,
        HASHED_ACCOUNTS_RULE@,
        report.hashed_account_diffs.map_values(
            |diff: HashedAccountDiff| hashed_account_diff_text(diff),
        ),
    );
    lemma_short_section(
        STORAGE_TRIE_HEADING@,
        STORAGE_TRIE_RULE@,
        report.storage_trie_diffs.map_values(
            |diff: StorageTrieDiffView| storage_trie_diff_text(diff),
        ),
    );
    lemma_short_section(
        STORAGE_HEADING@,
        STORAGE_RULE@,
        report.storage_diffs.map_values(|diff: StorageDiff| storage_diff_text(diff)),
    );
    if !{
        &&& report.account_trie_diffs.len() <= LISTED_DIFFERENCES
        &&& report.hashed_account_diffs.len() <= LISTED_DIFFERENCES
        &&& report.storage_trie_diffs.len() <= LISTED_DIFFERENCES
        &&& report.storage_diffs.len() <= LISTED_DIFFERENCES
    } {
        assert(report_text(report, false).len() < report_text(report, true).len());
    }
}

/// Whether a verification is verbose does not change what it reports.
pub proof fn law_verbosity_does_not_change_report(
    quiet: VerifyCommand,
    verbose: VerifyCommand,
    block_number: u64,
    canonical: Store,
    proofs: Store,
)
    requires
        quiet.max_differences == verbose.max_differences,
    ensures
        verification_run(quiet, block_number, canonical, proofs).report == verification_run(
            verbose,
            block_number,
            canonical,
            proofs,
        ).report,
{
    law_run_gives_expected_report(quiet, block_number, canonical, proofs);
    law_run_gives_expected_report(verbose, block_number, canonical, proofs);
}

} // verus!
