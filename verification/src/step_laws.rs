//! What each step of a verification does to its report, its counts and its stage.

use vstd::prelude::*;

use crate::command::{block_to_verify, VerifyCommand, VerifyError};
use crate::compare::{
    account_diff, finding, storage_diff, storage_trie_diff, trie_diff, Account, Finding,
};
use crate::primitives::{B256, U256};
use crate::report::ReportView;
use crate::trie::BranchNodeView;
use crate::verification::{
    live_cursors, Cursors, Notice, Progress, Stage, VerificationView, PROGRESS_INTERVAL,
};

verus! {

/// Where the verification takes place, or why it cannot: nothing is to be verified without a
/// block; proofs that end before the canonical chain are behind; and proofs that end after it
/// have to begin at its last block or before. Else it takes place at the last canonical
/// block. The error names the blocks that were compared.
pub proof fn law_block_or_error(
    proofs_latest: Option<u64>,
    canonical_latest: u64,
    proofs_earliest: Option<u64>,
)
    ensures
        ({
            let chosen = block_to_verify(proofs_latest, canonical_latest, proofs_earliest);
            &&& chosen matches Ok(block) ==> block == canonical_latest
            &&& chosen is Ok <==> {
                &&& proofs_latest is Some
                &&& {
                    ||| proofs_latest == Some(canonical_latest)
                    ||| proofs_latest.unwrap() > canonical_latest && proofs_earliest is Some
                        && proofs_earliest.unwrap() <= canonical_latest
                }
            }
            &&& chosen == Err::<u64, VerifyError>(VerifyError::NoBlocks) <==> {
                ||| proofs_latest is None
                ||| proofs_latest.unwrap() > canonical_latest && proofs_earliest is None
            }
            &&& proofs_latest matches Some(latest) ==> (latest < canonical_latest <==> chosen
                == Err::<u64, VerifyError>(
                VerifyError::ProofsBehind { canonical_latest, proofs_latest: latest },
            ))
            &&& proofs_earliest matches Some(earliest) ==> (proofs_latest is Some
                && proofs_latest.unwrap() > canonical_latest && earliest > canonical_latest
                <==> chosen == Err::<u64, VerifyError>(
                VerifyError::CanonicalBeforeEarliest {
                    canonical_latest,
                    proofs_earliest: earliest,
                },
            ))
        }),
{
}

/// A comparison stops as soon as it has recorded as many differences as are to be reported,
/// and records one exactly where there is one and it has not stopped.
pub proof fn law_limit_stops<D>(command: VerifyCommand, progress: Progress, diff: Option<D>)
    ensures
        command.stops(progress) <==> progress.differences >= command.max_differences,
        command.recorded(progress, diff) is Some <==> diff is Some && progress.differences
            < command.max_differences,
        command.recorded(progress, diff) is Some ==> command.recorded(progress, diff) == diff,
        command.goes_on(progress) <==> progress.differences == 0 || progress.differences
            < command.max_differences,
{
}

/// A position adds one to the differences exactly where a difference was recorded, and one to
/// the checked entries exactly where there is a canonical one; a comparison starts at none.
pub proof fn law_progress_counts(progress: Progress, canonical: bool, difference: bool)
    requires
        progress.differences < usize::MAX,
        progress.checked < u64::MAX,
    ensures
        progress.advanced(canonical, difference).differences == progress.differences + (
        if difference {
            1int
        } else {
            0
        }),
        progress.advanced(canonical, difference).checked == progress.checked + (if canonical {
            1int
        } else {
            0
        }),
        Progress::none().differences == 0,
        Progress::none().checked == 0,
{
}

/// A finding is logged exactly where the command is verbose; the progress is logged after
/// every ten thousandth entry, where both stores have one, the command is verbose and the
/// limit is not reached.
pub proof fn law_notice(
    command: VerifyCommand,
    progress: Progress,
    found: Option<Finding>,
    limit_reached: bool,
    both: bool,
)
    ensures
        PROGRESS_INTERVAL == 10000,
        ({
            let notice = command.notice(progress, found, limit_reached, both);
            &&& notice.progress == progress
            &&& notice.limit_reached == limit_reached
            &&& command.verbose ==> notice.warning == found
            &&& !command.verbose ==> notice.warning is None
            &&& notice.progress_due <==> {
                &&& command.verbose
                &&& both
                &&& !limit_reached
                &&& progress.checked % 10000 == 0
            }
        }),
{
}

/// Of a store that has come to its end nothing is read, and of the other what is there; and
/// the cursors that go on are those that gave an entry.
pub proof fn law_cursors<E>(entry: Option<E>, canonical: bool, proofs: bool)
    ensures
        Cursors::First.canonical_entry(entry) == entry,
        Cursors::First.proofs_entry(entry) == entry,
        Cursors::Both.canonical_entry(entry) == entry,
        Cursors::Both.proofs_entry(entry) == entry,
        Cursors::Canonical.canonical_entry(entry) == entry,
        Cursors::Canonical.proofs_entry(entry) is None,
        Cursors::Proofs.canonical_entry(entry) is None,
        Cursors::Proofs.proofs_entry(entry) == entry,
        live_cursors(true, true) == Cursors::Both,
        live_cursors(true, false) == Cursors::Canonical,
        live_cursors(false, true) == Cursors::Proofs,
        canonical || proofs ==> {
            let live = live_cursors(canonical, proofs);
            &&& live.canonical_entry(Some(0u8)) is Some <==> canonical
            &&& live.proofs_entry(Some(0u8)) is Some <==> proofs
        },
{
}

/// A verification starts with the account tries, with nothing compared and nothing found.
pub proof fn law_start(command: VerifyCommand, block_number: u64)
    ensures
        ({
            let start = VerificationView::start(command, block_number);
            &&& start.command == command
            &&& start.stage matches Stage::AccountTrie(progress) && progress.differences == 0
                && progress.checked == 0
            &&& start.report.block_number == block_number
            &&& start.report.account_trie_diffs.len() == 0
            &&& start.report.hashed_account_diffs.len() == 0
            &&& start.report.storage_trie_diffs.len() == 0
            &&& start.report.storage_diffs.len() == 0
            &&& !start.report.account_trie_compared
            &&& !start.report.hashed_accounts_compared
            &&& !start.report.storage_trie_compared
            &&& !start.report.storage_compared
            &&& start.wf()
        }),
{
}

/// A comparison can be under way with no difference or with fewer than make it stop, and can
/// count an entry as long as the count has not come to its end.
pub proof fn law_states_under_way(state: VerificationView)
    ensures
        state.stage matches Stage::AccountTrie(progress) ==> {
            &&& state.wf() <==> progress.differences == 0 || progress.differences
                < state.command.max_differences
            &&& state.has_room() <==> progress.checked != u64::MAX
        },
        state.stage matches Stage::DrainAccountTrie(progress) ==> {
            &&& state.wf()
            &&& state.has_room() <==> progress.checked != u64::MAX
        },
        state.stage matches Stage::HashedAccounts(progress) ==> {
            &&& state.wf() <==> progress.differences == 0 || progress.differences
                < state.command.max_differences
            &&& state.has_room() <==> progress.checked != u64::MAX
        },
        state.stage matches Stage::StorageTrie { storage, .. } ==> {
            &&& state.wf() <==> storage.differences == 0 || storage.differences
                < state.command.max_differences
            &&& state.has_room() <==> storage.checked != u64::MAX
        },
        state.stage matches Stage::Storage { storage, .. } ==> {
            &&& state.wf() <==> storage.differences == 0 || storage.differences
                < state.command.max_differences
            &&& state.has_room() <==> storage.checked != u64::MAX
        },
        state.stage is AccountVerified || state.stage is Finished ==> state.wf()
            && state.has_room(),
{
}

/// A position of the account tries adds its difference behind those that are there, exactly
/// where the entries are unequal and the limit is not reached, and changes nothing else in
/// the report. The differences are counted as they are added, and each canonical entry once.
/// The comparison goes on exactly where one of the tries had an entry and the limit is not
/// reached; else the rest of the canonical trie is counted.
pub proof fn law_account_trie_step(
    state: VerificationView,
    canonical: Option<(Seq<u8>, BranchNodeView)>,
    proofs: Option<(Seq<u8>, BranchNodeView)>,
)
    requires
        state.stage is AccountTrie,
        state.wf(),
        canonical is Some ==> state.has_room(),
    ensures
        ({
            let before = state.stage->AccountTrie_0;
            let limit = state.command.max_differences;
            let old_diffs = state.report.account_trie_diffs;
            let next = state.after_account_trie(canonical, proofs);
            let diffs = next.report.account_trie_diffs;
            &&& next.command == state.command
            &&& next.report == (ReportView { account_trie_diffs: diffs, ..state.report })
            &&& canonical == proofs || before.differences >= limit ==> diffs == old_diffs
            &&& canonical != proofs && before.differences < limit ==> diffs == old_diffs.push(
                trie_diff(canonical, proofs).unwrap(),
            )
            &&& exists|after: Progress|
                {
                    &&& #[trigger] after.differences - before.differences == diffs.len()
                        - old_diffs.len()
                    &&& after.checked == before.checked + (if canonical is Some {
                        1int
                    } else {
                        0
                    })
                    &&& next.stage == (if (canonical is Some || proofs is Some) && after.differences
                        < limit {
                        Stage::AccountTrie(after)
                    } else {
                        Stage::DrainAccountTrie(after)
                    })
                }
        }),
{
    let before = state.stage->AccountTrie_0;
    let diff = state.command.recorded(before, trie_diff(canonical, proofs));
    let after = before.advanced(canonical is Some, diff is Some);
    assert(after.differences - before.differences == (if diff is Some {
        1int
    } else {
        0
    }));
}

/// An entry of the canonical account trie that is only counted adds one to the count and
/// changes nothing in the report; behind the last one the account tries are compared, and the
/// accounts begin with nothing counted.
pub proof fn law_drain_step(state: VerificationView)
    requires
        state.stage is DrainAccountTrie,
        state.has_room(),
    ensures
        ({
            let before = state.stage->DrainAccountTrie_0;
            let next = state.after_drain(true);
            &&& next.command == state.command
            &&& next.report == state.report
            &&& next.stage matches Stage::DrainAccountTrie(after) && after.differences
                == before.differences && after.checked == before.checked + 1
        }),
        ({
            let next = state.after_drain(false);
            &&& next.command == state.command
            &&& next.report == (ReportView { account_trie_compared: true, ..state.report })
            &&& next.stage matches Stage::HashedAccounts(after) && after.differences == 0
                && after.checked == 0
        }),
{
}

/// A position of the accounts adds its difference behind those that are there, exactly where
/// the entries are unequal and the limit is not reached, and changes no other difference.
/// The storage is compared next exactly where both stores have the same account, whether or
/// not the limit is reached; else the verification ends, with all comparisons made, where
/// both stores have come to their end or the limit is reached.
pub proof fn law_accounts_step(
    state: VerificationView,
    canonical: Option<(B256, Account)>,
    proofs: Option<(B256, Account)>,
)
    requires
        state.stage is HashedAccounts,
        state.wf(),
        canonical is Some ==> state.has_room(),
    ensures
        ({
            let before = state.stage->HashedAccounts_0;
            let limit = state.command.max_differences;
            let old_diffs = state.report.hashed_account_diffs;
            let next = state.after_accounts(canonical, proofs);
            let diffs = next.report.hashed_account_diffs;
            let same = canonical is Some && proofs is Some && canonical.unwrap().0
                == proofs.unwrap().0;
            &&& next.command == state.command
            &&& canonical == proofs || before.differences >= limit ==> diffs == old_diffs
            &&& canonical != proofs && before.differences < limit ==> diffs == old_diffs.push(
                account_diff(canonical, proofs).unwrap(),
            )
            &&& next.stage !is Finished ==> next.report == (ReportView {
                hashed_account_diffs: diffs,
                ..state.report
            })
            &&& next.stage is Finished ==> next.report == (ReportView {
                hashed_account_diffs: diffs,
                hashed_accounts_compared: true,
                storage_trie_compared: true,
                storage_compared: true,
                ..state.report
            })
            &&& exists|after: Progress|
                {
                    &&& #[trigger] after.differences - before.differences == diffs.len()
                        - old_diffs.len()
                    &&& after.checked == before.checked + (if canonical is Some {
                        1int
                    } else {
                        0
                    })
                    &&& next.stage == (if same {
                        Stage::StorageTrie {
                            accounts: after,
                            hashed_address: canonical.unwrap().0,
                            cursors: Cursors::First,
                            storage: Progress { differences: 0, checked: 0 },
                        }
                    } else if (canonical is Some || proofs is Some) && after.differences < limit {
                        Stage::HashedAccounts(after)
                    } else {
                        Stage::Finished
                    })
                }
        }),
{
    let before = state.stage->HashedAccounts_0;
    let diff = state.command.recorded(before, account_diff(canonical, proofs));
    let after = before.advanced(canonical is Some, diff is Some);
    assert(after.differences - before.differences == (if diff is Some {
        1int
    } else {
        0
    }));
}

/// What is read of a store that has come to its end changes nothing.
pub proof fn law_ended_store_is_not_read(
    state: VerificationView,
    node: Option<(Seq<u8>, BranchNodeView)>,
    other_node: Option<(Seq<u8>, BranchNodeView)>,
    slot: Option<(B256, U256)>,
    other_slot: Option<(B256, U256)>,
)
    ensures
        state.stage is StorageTrie && state.stage->StorageTrie_cursors == Cursors::Proofs
            ==> state.after_storage_trie(node, other_node) == state.after_storage_trie(
            None,
            other_node,
        ),
        state.stage is StorageTrie && state.stage->StorageTrie_cursors == Cursors::Canonical
            ==> state.after_storage_trie(other_node, node) == state.after_storage_trie(
            other_node,
            None,
        ),
        state.stage is Storage && state.stage->Storage_cursors == Cursors::Proofs
            ==> state.after_storage(slot, other_slot) == state.after_storage(None, other_slot),
        state.stage is Storage && state.stage->Storage_cursors == Cursors::Canonical
            ==> state.after_storage(other_slot, slot) == state.after_storage(other_slot, None),
{
}

/// A position of the storage tries of an account adds its difference behind those that are
/// there, exactly where the entries are unequal and the limit is not reached, and changes
/// nothing else in the report. The comparison goes on with the stores that had an entry,
/// where one had and the limit is not reached, and else with the slots of the same account.
pub proof fn law_storage_trie_step(
    state: VerificationView,
    canonical: Option<(Seq<u8>, BranchNodeView)>,
    proofs: Option<(Seq<u8>, BranchNodeView)>,
)
    requires
        state.stage is StorageTrie,
        state.wf(),
        state.stage->StorageTrie_cursors == Cursors::Proofs ==> canonical is None,
        state.stage->StorageTrie_cursors == Cursors::Canonical ==> proofs is None,
        canonical is Some ==> state.has_room(),
    ensures
        ({
            let accounts = state.stage->StorageTrie_accounts;
            let hashed_address = state.stage->StorageTrie_hashed_address;
            let before = state.stage->StorageTrie_storage;
            let limit = state.command.max_differences;
            let old_diffs = state.report.storage_trie_diffs;
            let next = state.after_storage_trie(canonical, proofs);
            let diffs = next.report.storage_trie_diffs;
            &&& next.command == state.command
            &&& next.report == (ReportView { storage_trie_diffs: diffs, ..state.report })
            &&& canonical == proofs || before.differences >= limit ==> diffs == old_diffs
            &&& canonical != proofs && before.differences < limit ==> diffs == old_diffs.push(
                storage_trie_diff(hashed_address, canonical, proofs).unwrap(),
            )
            &&& exists|after: Progress|
                {
                    &&& #[trigger] after.differences - before.differences == diffs.len()
                        - old_diffs.len()
                    &&& after.checked == before.checked + (if canonical is Some {
                        1int
                    } else {
                        0
                    })
                    &&& next.stage == (if (canonical is None && proofs is None)
                        || after.differences >= limit {
                        Stage::Storage {
                            accounts,
                            hashed_address,
                            cursors: Cursors::First,
                            storage: Progress { differences: 0, checked: 0 },
                        }
                    } else if proofs is None {
                        Stage::StorageTrie {
                            accounts,
                            hashed_address,
                            cursors: Cursors::Canonical,
                            storage: after,
                        }
                    } else if canonical is None {
                        Stage::StorageTrie {
                            accounts,
                            hashed_address,
                            cursors: Cursors::Proofs,
                            storage: after,
                        }
                    } else {
                        Stage::StorageTrie {
                            accounts,
                            hashed_address,
                            cursors: Cursors::Both,
                            storage: after,
                        }
                    })
                }
        }),
{
    let hashed_address = state.stage->StorageTrie_hashed_address;
    let before = state.stage->StorageTrie_storage;
    let diff = state.command.recorded(before, storage_trie_diff(hashed_address, canonical, proofs));
    let after = before.advanced(canonical is Some, diff is Some);
    assert(after.differences - before.differences == (if diff is Some {
        1int
    } else {
        0
    }));
}

/// A position of the storage slots of an account adds its difference behind those that are
/// there, exactly where the entries are unequal and the limit is not reached, and changes
/// nothing else in the report. The comparison goes on with the stores that had an entry,
/// where one had and the limit is not reached, and else the account is verified.
pub proof fn law_storage_step(
    state: VerificationView,
    canonical: Option<(B256, U256)>,
    proofs: Option<(B256, U256)>,
)
    requires
        state.stage is Storage,
        state.wf(),
        state.stage->Storage_cursors == Cursors::Proofs ==> canonical is None,
        state.stage->Storage_cursors == Cursors::Canonical ==> proofs is None,
        canonical is Some ==> state.has_room(),
    ensures
        ({
            let accounts = state.stage->Storage_accounts;
            let hashed_address = state.stage->Storage_hashed_address;
            let before = state.stage->Storage_storage;
            let limit = state.command.max_differences;
            let old_diffs = state.report.storage_diffs;
            let next = state.after_storage(canonical, proofs);
            let diffs = next.report.storage_diffs;
            &&& next.command == state.command
            &&& next.report == (ReportView { storage_diffs: diffs, ..state.report })
            &&& canonical == proofs || before.differences >= limit ==> diffs == old_diffs
            &&& canonical != proofs && before.differences < limit ==> diffs == old_diffs.push(
                storage_diff(hashed_address, canonical, proofs).unwrap(),
            )
            &&& exists|after: Progress|
                {
                    &&& #[trigger] after.differences - before.differences == diffs.len()
                        - old_diffs.len()
                    &&& after.checked == before.checked + (if canonical is Some {
                        1int
                    } else {
                        0
                    })
                    &&& next.stage == (if (canonical is None && proofs is None)
                        || after.differences >= limit {
                        Stage::AccountVerified(accounts)
                    } else if proofs is None {
                        Stage::Storage {
                            accounts,
                            hashed_address,
                            cursors: Cursors::Canonical,
                            storage: after,
                        }
                    } else if canonical is None {
                        Stage::Storage {
                            accounts,
                            hashed_address,
                            cursors: Cursors::Proofs,
                            storage: after,
                        }
                    } else {
                        Stage::Storage {
                            accounts,
                            hashed_address,
                            cursors: Cursors::Both,
                            storage: after,
                        }
                    })
                }
        }),
{
    let hashed_address = state.stage->Storage_hashed_address;
    let before = state.stage->Storage_storage;
    let diff = state.command.recorded(before, storage_diff(hashed_address, canonical, proofs));
    let after = before.advanced(canonical is Some, diff is Some);
    assert(after.differences - before.differences == (if diff is Some {
        1int
    } else {
        0
    }));
}

/// After the storage of an account the accounts go on with their own counts, exactly where
/// the differences between accounts have not reached the limit; else the verification ends,
/// with all comparisons made. No difference is added or lost.
pub proof fn law_resume_step(state: VerificationView)
    requires
        state.stage is AccountVerified,
    ensures
        ({
            let accounts = state.stage->AccountVerified_0;
            let next = state.after_account_storage();
            &&& next.command == state.command
            &&& accounts.differences < state.command.max_differences ==> next.stage
                == Stage::HashedAccounts(accounts) && next.report == state.report
            &&& accounts.differences >= state.command.max_differences ==> next.stage
                == Stage::Finished && next.report == (ReportView {
                hashed_accounts_compared: true,
                storage_trie_compared: true,
                storage_compared: true,
                ..state.report
            })
        }),
{
}

/// A notice has a warning exactly where the command is verbose and the step added a
/// difference to the report, and the warning tells how the entries differ.
pub open spec fn warns_of_added(
    notice: Notice,
    verbose: bool,
    added: bool,
    found: Option<Finding>,
) -> bool {
    &&& notice.warning is Some <==> verbose && added
    &&& notice.warning is Some ==> notice.warning == found
}

/// The notice of a position of the account tries goes with the step: it has the progress of
/// the next stage, warns of the difference that was added, and says that the limit is reached
/// exactly where the comparison ends though one of the tries had an entry.
pub proof fn law_account_trie_notice(
    state: VerificationView,
    canonical: Option<(Seq<u8>, BranchNodeView)>,
    proofs: Option<(Seq<u8>, BranchNodeView)>,
)
    requires
        state.stage is AccountTrie,
        state.wf(),
        canonical is Some ==> state.has_room(),
    ensures
        ({
            let notice = state.account_trie_notice(canonical, proofs);
            let next = state.after_account_trie(canonical, proofs);
            let added = next.report.account_trie_diffs.len()
                > state.report.account_trie_diffs.len();
            &&& next.stage == Stage::AccountTrie(notice.progress) || next.stage
                == Stage::DrainAccountTrie(notice.progress)
            &&& warns_of_added(notice, state.command.verbose, added, finding(canonical, proofs))
            &&& notice.limit_reached <==> (canonical is Some || proofs is Some)
                && next.stage is DrainAccountTrie
            &&& notice.progress_due <==> {
                &&& state.command.verbose
                &&& canonical is Some
                &&& proofs is Some
                &&& next.stage is AccountTrie
                &&& notice.progress.checked % 10000 == 0
            }
        }),
{
}

/// The notice of a position of the accounts goes with the step: it has the progress of the
/// accounts, warns of the difference that was added, and says that the limit is reached
/// exactly where the verification ends though one of the stores had an account. Progress is
/// due only where the accounts go on at once.
pub proof fn law_accounts_notice(
    state: VerificationView,
    canonical: Option<(B256, Account)>,
    proofs: Option<(B256, Account)>,
)
    requires
        state.stage is HashedAccounts,
        state.wf(),
        canonical is Some ==> state.has_room(),
    ensures
        ({
            let before = state.stage->HashedAccounts_0;
            let notice = state.accounts_notice(canonical, proofs);
            let next = state.after_accounts(canonical, proofs);
            let old_diffs = state.report.hashed_account_diffs;
            let diffs = next.report.hashed_account_diffs;
            let added = diffs.len() > old_diffs.len();
            &&& notice.progress.differences - before.differences == diffs.len() - old_diffs.len()
            &&& notice.progress.checked - before.checked == (if canonical is Some {
                1int
            } else {
                0
            })
            &&& next.stage matches Stage::HashedAccounts(accounts) ==> accounts == notice.progress
            &&& next.stage matches Stage::StorageTrie { accounts, .. } ==> accounts
                == notice.progress
            &&& warns_of_added(notice, state.command.verbose, added, finding(canonical, proofs))
            &&& notice.limit_reached <==> (canonical is Some || proofs is Some)
                && next.stage is Finished
            &&& notice.progress_due <==> {
                &&& state.command.verbose
                &&& canonical is Some
                &&& proofs is Some
                &&& next.stage is HashedAccounts
                &&& notice.progress.checked % 10000 == 0
            }
        }),
{
}

/// The notice of a position of the storage tries of an account goes with the step: it warns
/// of the difference that was added, says that the limit is reached exactly where the slots
/// come next though one of the tries had an entry, and never that progress is due.
pub proof fn law_storage_trie_notice(
    state: VerificationView,
    canonical: Option<(Seq<u8>, BranchNodeView)>,
    proofs: Option<(Seq<u8>, BranchNodeView)>,
)
    requires
        state.stage is StorageTrie,
        state.wf(),
        state.stage->StorageTrie_cursors == Cursors::Proofs ==> canonical is None,
        state.stage->StorageTrie_cursors == Cursors::Canonical ==> proofs is None,
        canonical is Some ==> state.has_room(),
    ensures
        ({
            let before = state.stage->StorageTrie_storage;
            let notice = state.storage_trie_notice(canonical, proofs);
            let next = state.after_storage_trie(canonical, proofs);
            let old_diffs = state.report.storage_trie_diffs;
            let diffs = next.report.storage_trie_diffs;
            let added = diffs.len() > old_diffs.len();
            &&& notice.progress.differences - before.differences == diffs.len() - old_diffs.len()
            &&& notice.progress.checked - before.checked == (if canonical is Some {
                1int
            } else {
                0
            })
            &&& warns_of_added(notice, state.command.verbose, added, finding(canonical, proofs))
            &&& notice.limit_reached <==> (canonical is Some || proofs is Some)
                && next.stage is Storage
            &&& !notice.progress_due
        }),
{
}

/// The notice of a position of the storage slots of an account goes with the step: it warns
/// of the difference that was added, says that the limit is reached exactly where the account
/// is verified though one of the stores had a slot, and never that progress is due.
pub proof fn law_storage_notice(
    state: VerificationView,
    canonical: Option<(B256, U256)>,
    proofs: Option<(B256, U256)>,
)
    requires
        state.stage is Storage,
        state.wf(),
        state.stage->Storage_cursors == Cursors::Proofs ==> canonical is None,
        state.stage->Storage_cursors == Cursors::Canonical ==> proofs is None,
        canonical is Some ==> state.has_room(),
    ensures
        ({
            let before = state.stage->Storage_storage;
            let notice = state.storage_notice(canonical, proofs);
            let next = state.after_storage(canonical, proofs);
            let old_diffs = state.report.storage_diffs;
            let diffs = next.report.storage_diffs;
            let added = diffs.len() > old_diffs.len();
            &&& notice.progress.differences - before.differences == diffs.len() - old_diffs.len()
            &&& notice.progress.checked - before.checked == (if canonical is Some {
                1int
            } else {
                0
            })
            &&& warns_of_added(notice, state.command.verbose, added, finding(canonical, proofs))
            &&& notice.limit_reached <==> (canonical is Some || proofs is Some)
                && next.stage is AccountVerified
            &&& !notice.progress_due
        }),
{
}

/// The notice after the storage of an account has the progress of the accounts and no
/// warning; it says that the limit is reached exactly where the verification ends, and that
/// progress is due exactly where it goes on, verbosely, after a ten thousandth account.
pub proof fn law_resume_notice(state: VerificationView)
    requires
        state.stage is AccountVerified,
    ensures
        ({
            let notice = state.resume_notice();
            let next = state.after_account_storage();
            &&& notice.progress == state.stage->AccountVerified_0
            &&& notice.warning is None
            &&& notice.limit_reached <==> next.stage is Finished
            &&& notice.progress_due <==> {
                &&& state.command.verbose
                &&& next.stage is HashedAccounts
                &&& notice.progress.checked % 10000 == 0
            }
        }),
{
}

/// A verification succeeds exactly where its report has no difference of any kind, and else
/// fails with the number of the differences of all kinds.
pub proof fn law_outcome(state: VerificationView)
    requires
        state.report.account_trie_diffs.len() + state.report.hashed_account_diffs.len()
            + state.report.storage_trie_diffs.len() + state.report.storage_diffs.len()
            <= usize::MAX,
    ensures
        state.outcome() is Ok <==> {
            &&& state.report.account_trie_diffs.len() == 0
            &&& state.report.hashed_account_diffs.len() == 0
            &&& state.report.storage_trie_diffs.len() == 0
            &&& state.report.storage_diffs.len() == 0
        },
        state.outcome() matches Err(error) ==> error matches VerifyError::DifferencesFound { total }
            && total == state.report.account_trie_diffs.len()
            + state.report.hashed_account_diffs.len() + state.report.storage_trie_diffs.len()
            + state.report.storage_diffs.len(),
{
}

} // verus!
