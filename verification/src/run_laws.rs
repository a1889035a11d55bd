//! The report of a verification, told by the positions at which the stores are unequal.

use vstd::prelude::*;

use crate::command::VerifyCommand;
use crate::compare::{account_diff, storage_diff, storage_trie_diff, trie_diff};
use crate::entry_laws::{
    law_exchanged_accounts, law_exchanged_slots, law_exchanged_tries,
    law_storage_trie_like_account_trie,
};
use crate::laws::{
    account_diff_at, account_storage_diffs, account_storage_trie_diffs, compared, compared_from,
    differences, entry_at, joined, law_reports_first_differences, law_run_gives_expected_report,
    positions, reported, storage_diff_at, storage_trie_diff_at, trie_diff_at, verification_run,
    Store,
};
use crate::primitives::B256;
use crate::report::{StorageDiff, StorageTrieDiffView};
use crate::verification::Stage;

verus! {

/// Whether two sequences are unequal at a position at which at least one has an entry.
pub open spec fn unequal_at<E>(canonical: Seq<E>, proofs: Seq<E>, i: int) -> bool {
    !(i < canonical.len() && i < proofs.len() && canonical[i] == proofs[i])
}

/// Those of the first positions at which two sequences are unequal, in their order.
pub open spec fn unequal_before<E>(canonical: Seq<E>, proofs: Seq<E>, count: nat) -> Seq<int> {
    Seq::new(count, |i: int| i).filter(|i: int| unequal_at(canonical, proofs, i))
}

/// The positions at which two sequences are unequal, in their order.
pub open spec fn unequal_positions<E>(canonical: Seq<E>, proofs: Seq<E>) -> Seq<int> {
    unequal_before(
        canonical,
        proofs,
        if canonical.len() < proofs.len() {
            proofs.len()
        } else {
            canonical.len()
        },
    )
}

/// What is said of the first positions at which two sequences are unequal, up to a limit.
pub open spec fn said_of_unequal<E, D>(
    canonical: Seq<E>,
    proofs: Seq<E>,
    limit: nat,
    said: spec_fn(int) -> D,
) -> Seq<D> {
    let unequal = unequal_positions(canonical, proofs);
    unequal.take(
        if unequal.len() < limit {
            unequal.len() as int
        } else {
            limit as int
        },
    ).map_values(said)
}

/// The number of positions that are compared: all of them, or those up to the one that makes
/// the unequal ones as many as the limit; and none where the limit is zero.
pub open spec fn positions_up_to_limit<E>(canonical: Seq<E>, proofs: Seq<E>, limit: nat) -> nat {
    let unequal = unequal_positions(canonical, proofs);
    if limit == 0 {
        0
    } else if unequal.len() >= limit {
        (unequal[limit - 1] + 1) as nat
    } else if canonical.len() < proofs.len() {
        proofs.len()
    } else {
        canonical.len()
    }
}

/// One more position adds itself to the unequal ones where it is one.
proof fn lemma_one_more<E>(canonical: Seq<E>, proofs: Seq<E>, count: nat)
    ensures
        unequal_before(canonical, proofs, count + 1) == (if unequal_at(
            canonical,
            proofs,
            count as int,
        ) {
            unequal_before(canonical, proofs, count).push(count as int)
        } else {
            unequal_before(canonical, proofs, count)
        }),
        unequal_before(canonical, proofs, 0).len() == 0,
{
    reveal(Seq::filter);
    let longer = Seq::new(count + 1, |i: int| i);
    assert(longer.drop_last() =~= Seq::new(count, |i: int| i));
    assert(longer.last() == count);
}

/// The unequal ones of the first positions are the first of the unequal ones of more.
proof fn lemma_unequal_are_prefix<E>(canonical: Seq<E>, proofs: Seq<E>, first: nat, count: nat)
    requires
        first <= count,
    ensures
        unequal_before(canonical, proofs, first).len() <= unequal_before(
            canonical,
            proofs,
            count,
        ).len(),
        forall|k: int|
            0 <= k < unequal_before(canonical, proofs, first).len() ==> #[trigger] unequal_before(
                canonical,
                proofs,
                first,
            )[k] == unequal_before(canonical, proofs, count)[k],
    decreases count - first,
{
    if first < count {
        lemma_unequal_are_prefix(canonical, proofs, first, (count - 1) as nat);
        lemma_one_more(canonical, proofs, (count - 1) as nat);
    }
}

/// There is a difference exactly at the positions at which the entries are unequal.
spec fn tells_unequal<E, D>(
    diff_at: spec_fn(int) -> Option<D>,
    canonical: Seq<E>,
    proofs: Seq<E>,
) -> bool {
    forall|i: int|
        0 <= i < positions(canonical, proofs) ==> ((#[trigger] diff_at(i)) is Some <==> entry_at(
            canonical,
            i,
        ) != entry_at(proofs, i))
}

/// The differences at the first positions are those at the unequal ones among them.
proof fn lemma_differences_at_unequal<E, D>(
    diff_at: spec_fn(int) -> Option<D>,
    canonical: Seq<E>,
    proofs: Seq<E>,
    count: nat,
)
    requires
        tells_unequal(diff_at, canonical, proofs),
        count <= positions(canonical, proofs),
    ensures
        differences(diff_at, count) == unequal_before(canonical, proofs, count).map_values(
            |i: int| diff_at(i).unwrap(),
        ),
    decreases count,
{
    if count > 0 {
        let last = (count - 1) as nat;
        lemma_differences_at_unequal(diff_at, canonical, proofs, last);
        lemma_one_more(canonical, proofs, last);
        assert(diff_at(count - 1) is Some <==> unequal_at(canonical, proofs, count - 1));
    } else {
        lemma_one_more(canonical, proofs, 0);
    }
    assert(differences(diff_at, count) =~= unequal_before(canonical, proofs, count).map_values(
        |i: int| diff_at(i).unwrap(),
    ));
}

/// The differences that a comparison reports are those at the first unequal positions.
proof fn lemma_reported_at_unequal<E, D>(
    diff_at: spec_fn(int) -> Option<D>,
    canonical: Seq<E>,
    proofs: Seq<E>,
    limit: nat,
)
    requires
        tells_unequal(diff_at, canonical, proofs),
    ensures
        reported(diff_at, positions(canonical, proofs), limit) == said_of_unequal(
            canonical,
            proofs,
            limit,
            |i: int| diff_at(i).unwrap(),
        ),
{
    let count = positions(canonical, proofs);
    lemma_differences_at_unequal(diff_at, canonical, proofs, count);
    law_reports_first_differences(diff_at, count, limit);
    assert(reported(diff_at, count, limit) =~= said_of_unequal(
        canonical,
        proofs,
        limit,
        |i: int| diff_at(i).unwrap(),
    ));
}

/// From a position on, a comparison goes up to the unequal one that reaches the limit.
proof fn lemma_compared_up_to_limit<E, D>(
    diff_at: spec_fn(int) -> Option<D>,
    canonical: Seq<E>,
    proofs: Seq<E>,
    limit: nat,
    from: nat,
)
    requires
        tells_unequal(diff_at, canonical, proofs),
        from <= positions(canonical, proofs),
        unequal_before(canonical, proofs, from).len() < limit,
    ensures
        compared_from(diff_at, positions(canonical, proofs), limit, from)
            == positions_up_to_limit(canonical, proofs, limit),
    decreases positions(canonical, proofs) - from,
{
    let count = positions(canonical, proofs);
    if from < count {
        lemma_one_more(canonical, proofs, from);
        lemma_differences_at_unequal(diff_at, canonical, proofs, from + 1);
        if differences(diff_at, from + 1).len() >= limit {
            lemma_unequal_are_prefix(canonical, proofs, from + 1, count);
            assert(unequal_before(canonical, proofs, from + 1)[limit - 1] == from);
        } else {
            lemma_compared_up_to_limit(diff_at, canonical, proofs, limit, from + 1);
        }
    }
}

/// A comparison goes up to the unequal position that reaches the limit.
proof fn lemma_compared<E, D>(
    diff_at: spec_fn(int) -> Option<D>,
    canonical: Seq<E>,
    proofs: Seq<E>,
    limit: nat,
)
    requires
        tells_unequal(diff_at, canonical, proofs),
    ensures
        compared(diff_at, positions(canonical, proofs), limit) == positions_up_to_limit(
            canonical,
            proofs,
            limit,
        ),
{
    lemma_one_more(canonical, proofs, 0);
    if limit > 0 {
        lemma_compared_up_to_limit(diff_at, canonical, proofs, limit, 0);
    }
}

/// What positions contribute one after the other are their parts joined together.
proof fn lemma_joined_parts<D>(part_at: spec_fn(int) -> Seq<D>, count: nat)
    ensures
        joined(part_at, count) == Seq::new(count, part_at).flatten(),
    decreases count,
{
    let parts = Seq::new(count, part_at);
    if count > 0 {
        let last = (count - 1) as nat;
        lemma_joined_parts(part_at, last);
        let shorter = Seq::new(last, part_at);
        let one = seq![part_at(count - 1)];
        assert(parts =~= shorter + one);
        vstd::seq_lib::lemma_flatten_concat(shorter, one);
        assert(one.drop_first() =~= Seq::<Seq<D>>::empty());
        reveal_with_fuel(Seq::flatten, 2);
        assert(one.flatten() =~= part_at(count - 1));
    } else {
        assert(parts =~= Seq::<Seq<D>>::empty());
    }
}

/// The differences of the storage tries of an account, at the first positions at which they
/// are unequal.
pub open spec fn storage_trie_part(
    canonical: Store,
    proofs: Store,
    limit: nat,
    address: B256,
) -> Seq<StorageTrieDiffView> {
    let canonical_trie = (canonical.storage_trie)(address);
    let proofs_trie = (proofs.storage_trie)(address);
    said_of_unequal(
        canonical_trie,
        proofs_trie,
        limit,
        |j: int|
            storage_trie_diff(
                address,
                entry_at(canonical_trie, j),
                entry_at(proofs_trie, j),
            ).unwrap(),
    )
}

/// The differences of the storage slots of an account, at the first positions at which they
/// are unequal.
pub open spec fn storage_part(
    canonical: Store,
    proofs: Store,
    limit: nat,
    address: B256,
) -> Seq<StorageDiff> {
    let canonical_storage = (canonical.storage)(address);
    let proofs_storage = (proofs.storage)(address);
    said_of_unequal(
        canonical_storage,
        proofs_storage,
        limit,
        |j: int|
            storage_diff(
                address,
                entry_at(canonical_storage, j),
                entry_at(proofs_storage, j),
            ).unwrap(),
    )
}

/// The storage differences of an account are those at the first unequal positions.
proof fn lemma_storage_parts(canonical: Store, proofs: Store, limit: nat, i: int)
    ensures
        account_storage_trie_diffs(canonical, proofs, limit, i) == (if 0 <= i
            < canonical.accounts.len() && i < proofs.accounts.len() && canonical.accounts[i].0
            == proofs.accounts[i].0 {
            storage_trie_part(canonical, proofs, limit, canonical.accounts[i].0)
        } else {
            Seq::empty()
        }),
        account_storage_diffs(canonical, proofs, limit, i) == (if 0 <= i < canonical.accounts.len()
            && i < proofs.accounts.len() && canonical.accounts[i].0 == proofs.accounts[i].0 {
            storage_part(canonical, proofs, limit, canonical.accounts[i].0)
        } else {
            Seq::empty()
        }),
{
    let address = canonical.accounts[i].0;
    let canonical_trie = (canonical.storage_trie)(address);
    let proofs_trie = (proofs.storage_trie)(address);
    let trie_at = storage_trie_diff_at(address, canonical_trie, proofs_trie);
    assert forall|j: int| 0 <= j < positions(canonical_trie, proofs_trie) implies ((
    #[trigger] trie_at(j)) is Some <==> entry_at(canonical_trie, j) != entry_at(proofs_trie, j)) by {
        law_storage_trie_like_account_trie(
            address,
            entry_at(canonical_trie, j),
            entry_at(proofs_trie, j),
        );
    }
    lemma_reported_at_unequal(trie_at, canonical_trie, proofs_trie, limit);
    assert(said_of_unequal(canonical_trie, proofs_trie, limit, |j: int| trie_at(j).unwrap())
        =~= storage_trie_part(canonical, proofs, limit, address));
    let canonical_storage = (canonical.storage)(address);
    let proofs_storage = (proofs.storage)(address);
    let slot_at = storage_diff_at(address, canonical_storage, proofs_storage);
    assert forall|j: int| 0 <= j < positions(canonical_storage, proofs_storage) implies ((
    #[trigger] slot_at(j)) is Some <==> entry_at(canonical_storage, j) != entry_at(
        proofs_storage,
        j,
    )) by {
        law_exchanged_slots(address, entry_at(canonical_storage, j), entry_at(proofs_storage, j));
    }
    lemma_reported_at_unequal(slot_at, canonical_storage, proofs_storage, limit);
    assert(said_of_unequal(canonical_storage, proofs_storage, limit, |j: int| slot_at(j).unwrap())
        =~= storage_part(canonical, proofs, limit, address));
}

/// A verification of two stores comes to its end with all comparisons made. It reports, in
/// the order of the positions, the difference at each position at which the account tries
/// are unequal, up to the limit, and so it does with the accounts. Of each account that both
/// stores have at one of the positions compared, in their order, it reports the difference at
/// each position at which the storage tries are unequal, up to the limit, and so it does with
/// the storage slots. It reports nothing else.
pub proof fn law_report_follows_unequal_positions(
    command: VerifyCommand,
    block_number: u64,
    canonical: Store,
    proofs: Store,
)
    ensures
        ({
            let run = verification_run(command, block_number, canonical, proofs);
            let limit = command.max_differences as nat;
            let visited = positions_up_to_limit(canonical.accounts, proofs.accounts, limit);
            &&& run.stage == Stage::Finished
            &&& run.command == command
            &&& run.report.block_number == block_number
            &&& run.report.account_trie_compared
            &&& run.report.hashed_accounts_compared
            &&& run.report.storage_trie_compared
            &&& run.report.storage_compared
            &&& run.report.account_trie_diffs == said_of_unequal(
                canonical.account_trie,
                proofs.account_trie,
                limit,
                |i: int|
                    trie_diff(
                        entry_at(canonical.account_trie, i),
                        entry_at(proofs.account_trie, i),
                    ).unwrap(),
            )
            &&& run.report.hashed_account_diffs == said_of_unequal(
                canonical.accounts,
                proofs.accounts,
                limit,
                |i: int|
                    account_diff(
                        entry_at(canonical.accounts, i),
                        entry_at(proofs.accounts, i),
                    ).unwrap(),
            )
            &&& run.report.storage_trie_diffs == Seq::new(
                visited,
                |i: int|
                    if i < canonical.accounts.len() && i < proofs.accounts.len()
                        && canonical.accounts[i].0 == proofs.accounts[i].0 {
                        storage_trie_part(canonical, proofs, limit, canonical.accounts[i].0)
                    } else {
                        Seq::empty()
                    },
            ).flatten()
            &&& run.report.storage_diffs == Seq::new(
                visited,
                |i: int|
                    if i < canonical.accounts.len() && i < proofs.accounts.len()
                        && canonical.accounts[i].0 == proofs.accounts[i].0 {
                        storage_part(canonical, proofs, limit, canonical.accounts[i].0)
                    } else {
                        Seq::empty()
                    },
            ).flatten()
        }),
{
    law_run_gives_expected_report(command, block_number, canonical, proofs);
    let limit = command.max_differences as nat;
    let visited = positions_up_to_limit(canonical.accounts, proofs.accounts, limit);
    let node_at = trie_diff_at(canonical.account_trie, proofs.account_trie);
    assert forall|i: int| 0 <= i < positions(canonical.account_trie, proofs.account_trie) implies ((
    #[trigger] node_at(i)) is Some <==> entry_at(canonical.account_trie, i) != entry_at(
        proofs.account_trie,
        i,
    )) by {
        law_exchanged_tries(
            entry_at(canonical.account_trie, i),
            entry_at(proofs.account_trie, i),
        );
    }
    lemma_reported_at_unequal(node_at, canonical.account_trie, proofs.account_trie, limit);
    assert(said_of_unequal(
        canonical.account_trie,
        proofs.account_trie,
        limit,
        |i: int| node_at(i).unwrap(),
    ) =~= said_of_unequal(
        canonical.account_trie,
        proofs.account_trie,
        limit,
        |i: int|
            trie_diff(
                entry_at(canonical.account_trie, i),
                entry_at(proofs.account_trie, i),
            ).unwrap(),
    ));
    let account_at = account_diff_at(canonical.accounts, proofs.accounts);
    assert forall|i: int| 0 <= i < positions(canonical.accounts, proofs.accounts) implies ((
    #[trigger] account_at(i)) is Some <==> entry_at(canonical.accounts, i) != entry_at(
        proofs.accounts,
        i,
    )) by {
        law_exchanged_accounts(entry_at(canonical.accounts, i), entry_at(proofs.accounts, i));
    }
    lemma_reported_at_unequal(account_at, canonical.accounts, proofs.accounts, limit);
    lemma_compared(account_at, canonical.accounts, proofs.accounts, limit);
    assert(said_of_unequal(
        canonical.accounts,
        proofs.accounts,
        limit,
        |i: int| account_at(i).unwrap(),
    ) =~= said_of_unequal(
        canonical.accounts,
        proofs.accounts,
        limit,
        |i: int|
            account_diff(
                entry_at(canonical.accounts, i),
                entry_at(proofs.accounts, i),
            ).unwrap(),
    ));
    let trie_at = |i: int| account_storage_trie_diffs(canonical, proofs, limit, i);
    let slots_at = |i: int| account_storage_diffs(canonical, proofs, limit, i);
    lemma_joined_parts(trie_at, visited);
    lemma_joined_parts(slots_at, visited);
    assert forall|i: int| 0 <= i < visited implies #[trigger] trie_at(i) == (if i
        < canonical.accounts.len() && i < proofs.accounts.len() && canonical.accounts[i].0
        == proofs.accounts[i].0 {
        storage_trie_part(canonical, proofs, limit, canonical.accounts[i].0)
    } else {
        Seq::empty()
    }) by {
        lemma_storage_parts(canonical, proofs, limit, i);
    }
    assert forall|i: int| 0 <= i < visited implies #[trigger] slots_at(i) == (if i
        < canonical.accounts.len() && i < proofs.accounts.len() && canonical.accounts[i].0
        == proofs.accounts[i].0 {
        storage_part(canonical, proofs, limit, canonical.accounts[i].0)
    } else {
        Seq::empty()
    }) by {
        lemma_storage_parts(canonical, proofs, limit, i);
    }
    assert(Seq::new(visited, trie_at) =~= Seq::new(
        visited,
        |i: int|
            if i < canonical.accounts.len() && i < proofs.accounts.len() && canonical.accounts[i].0
                == proofs.accounts[i].0 {
                storage_trie_part(canonical, proofs, limit, canonical.accounts[i].0)
            } else {
                Seq::empty()
            },
    ));
    assert(Seq::new(visited, slots_at) =~= Seq::new(
        visited,
        |i: int|
            if i < canonical.accounts.len() && i < proofs.accounts.len() && canonical.accounts[i].0
                == proofs.accounts[i].0 {
                storage_part(canonical, proofs, limit, canonical.accounts[i].0)
            } else {
                Seq::empty()
            },
    ));
}

} // verus!
