//! What the comparison of two entries says of them, for all entries.

use vstd::prelude::*;
use vstd::std_specs::cmp::PartialEqSpec;

use crate::compare::{
    account_diff, both_sides, finding, hash_or_zero, storage_diff, storage_trie_diff, trie_diff,
    trie_entry, with_node_text, written_entry, Account, Finding,
};
use crate::primitives::{B256, U256};
use crate::report::{
    AccountTrieDiff, ReportView, StorageDiff, StorageTrieDiff, StorageTrieDiffView, TrieDiffView,
    VerificationReport,
};
use crate::trie::{is_path, node_text, path_text, BranchNodeCompact, BranchNodeView, Nibbles};

verus! {

/// The zero word has only zero bytes, and the number zero only zero limbs.
pub proof fn law_zero_is_zero()
    ensures
        forall|i: int| 0 <= i < 32 ==> #[trigger] B256::zero_word().bytes@[i] == 0,
        forall|i: int| 0 <= i < 4 ==> #[trigger] U256::zero_number().limbs@[i] == 0,
        U256::zero_number().value() == 0,
{
}

/// A number is the sum of its limbs, each 64 bits above the one before, and two numbers of
/// the same value are the same number.
pub proof fn law_value_of_number(number: U256, other: U256)
    ensures
        number.value() == number.limbs@[0] + number.limbs@[1] * 0x1_0000_0000_0000_0000
            + number.limbs@[2] * 0x1_0000_0000_0000_0000_0000_0000_0000_0000 + number.limbs@[3]
            * 0x1_0000_0000_0000_0000_0000_0000_0000_0000_0000_0000_0000_0000,
        number.value() == other.value() <==> number == other,
{
    if number.value() == other.value() {
        assert(number.limbs@[0] == other.limbs@[0]);
        assert(number.limbs@[1] == other.limbs@[1]);
        assert(number.limbs@[2] == other.limbs@[2]);
        assert(number.limbs@[3] == other.limbs@[3]);
        assert(number.limbs =~= other.limbs);
    }
}

/// Words are compared by all their bytes, numbers by all their limbs.
pub proof fn law_equal_words_and_numbers(word: B256, other_word: B256, number: U256, other: U256)
    ensures
        word.eq_spec(&other_word) <==> forall|i: int|
            0 <= i < 32 ==> word.bytes@[i] == other_word.bytes@[i],
        number.eq_spec(&other) <==> forall|i: int|
            0 <= i < 4 ==> number.limbs@[i] == other.limbs@[i],
{
    if forall|i: int| 0 <= i < 32 ==> word.bytes@[i] == other_word.bytes@[i] {
        assert(word.bytes =~= other_word.bytes);
    }
    if forall|i: int| 0 <= i < 4 ==> number.limbs@[i] == other.limbs@[i] {
        assert(number.limbs =~= other.limbs);
    }
}

/// A path is at most 64 nibbles. What is before any position of a path is a path, and so is
/// what is behind it.
pub proof fn law_paths(nibbles: Seq<u8>, at: int)
    requires
        0 <= at <= nibbles.len(),
    ensures
        is_path(nibbles) <==> nibbles.len() <= 64 && forall|i: int|
            0 <= i < nibbles.len() ==> nibbles[i] <= 15,
        nibbles.len() <= 64 ==> (is_path(nibbles) <==> is_path(nibbles.take(at)) && is_path(
            nibbles.skip(at),
        )),
{
    if is_path(nibbles.take(at)) && is_path(nibbles.skip(at)) {
        assert forall|i: int| 0 <= i < nibbles.len() implies nibbles[i] < 16 by {
            if i < at {
                assert(nibbles.take(at)[i] == nibbles[i]);
            } else {
                assert(nibbles.skip(at)[i - at] == nibbles[i]);
            }
        }
    }
}

/// Paths are compared by all their nibbles.
pub proof fn law_equal_paths(path: Nibbles, other: Nibbles)
    ensures
        path.eq_spec(&other) <==> path@.len() == other@.len() && forall|i: int|
            0 <= i < path@.len() ==> path@[i] == other@[i],
{
    if path@.len() == other@.len() && forall|i: int|
        0 <= i < path@.len() ==> path@[i] == other@[i] {
        assert(path@ =~= other@);
    }
}

/// Nodes are compared by their three masks, all their hashes and their root hash.
pub proof fn law_equal_nodes(node: BranchNodeCompact, other: BranchNodeCompact)
    ensures
        node.eq_spec(&other) <==> node@ == other@,
        node@ == other@ <==> {
            &&& node.state_mask == other.state_mask
            &&& node.tree_mask == other.tree_mask
            &&& node.hash_mask == other.hash_mask
            &&& node.hashes@ == other.hashes@
            &&& node.root_hash == other.root_hash
        },
        node@.state_mask == node.state_mask,
        node@.tree_mask == node.tree_mask,
        node@.hash_mask == node.hash_mask,
        node@.hashes == node.hashes@,
        node@.root_hash == node.root_hash,
{
}

/// An entry is told by its path and its node, and the end of a store by nothing.
pub proof fn law_entries(path: Nibbles, node: BranchNodeCompact, text: String)
    ensures
        trie_entry(Some((path, node))) == Some((path@, node@)),
        trie_entry(None) is None,
        written_entry(Some((path, text))) == Some((path@, text@)),
        written_entry(None) is None,
        with_node_text(Some((path@, node@))) == Some((path@, node_text(node@))),
        with_node_text(None) is None,
{
}

/// Nothing is found exactly of equal entries; and what is found of others says whether a
/// store has no entry, whether the keys differ, or whether only the values do.
pub proof fn law_finding_tells_entries_apart<K, V>(
    canonical: Option<(K, V)>,
    proofs: Option<(K, V)>,
)
    ensures
        finding(canonical, proofs) is None <==> canonical == proofs,
        finding(canonical, proofs) == Some(Finding::Missing) <==> canonical is Some
            && proofs is None,
        finding(canonical, proofs) == Some(Finding::Extra) <==> canonical is None
            && proofs is Some,
        finding(canonical, proofs) == Some(Finding::KeyMismatch) <==> {
            &&& canonical is Some
            &&& proofs is Some
            &&& canonical.unwrap().0 != proofs.unwrap().0
        },
        finding(canonical, proofs) == Some(Finding::ValueMismatch) <==> {
            &&& canonical is Some
            &&& proofs is Some
            &&& canonical.unwrap().0 == proofs.unwrap().0
            &&& canonical.unwrap().1 != proofs.unwrap().1
        },
{
}

/// Of two nodes at one path the difference stands at that path, with the text of the
/// canonical node on the canonical side and that of the other on the side of the proofs;
/// and there is one exactly where the nodes are not the same.
pub proof fn law_different_nodes_at_one_path(
    path: Seq<u8>,
    node: BranchNodeView,
    proofs_node: BranchNodeView,
)
    ensures
        node == proofs_node ==> trie_diff(Some((path, node)), Some((path, proofs_node))) is None,
        node != proofs_node ==> {
            let diff = trie_diff(Some((path, node)), Some((path, proofs_node)));
            &&& diff is Some
            &&& diff.unwrap().path == path
            &&& diff.unwrap().canonical_value == node_text(node)
            &&& diff.unwrap().proofs_value == node_text(proofs_node)
        },
{
}

/// Of two nodes at different paths the difference stands at the canonical path, and each side
/// says its own path and its own node.
pub proof fn law_nodes_at_different_paths(
    path: Seq<u8>,
    node: BranchNodeView,
    proofs_path: Seq<u8>,
    proofs_node: BranchNodeView,
)
    requires
        path != proofs_path,
    ensures
        ({
            let diff = trie_diff(Some((path, node)), Some((proofs_path, proofs_node)));
            &&& diff is Some
            &&& diff.unwrap().path == path
            &&& diff.unwrap().canonical_value == "Path: "@ + path_text(path) + ", Node: "@
                + node_text(node)
            &&& diff.unwrap().proofs_value == "Path: "@ + path_text(proofs_path) + ", Node: "@
                + node_text(proofs_node)
        }),
{
}

/// A node that only one store has gives a difference at its path, with its text on the side
/// of that store and the word for a missing one on the other.
pub proof fn law_node_of_one_store(path: Seq<u8>, node: BranchNodeView)
    ensures
        ({
            let missing = trie_diff(Some((path, node)), None);
            &&& missing is Some
            &&& missing.unwrap().path == path
            &&& missing.unwrap().canonical_value == node_text(node)
            &&& missing.unwrap().proofs_value == "MISSING"@
        }),
        ({
            let extra = trie_diff(None, Some((path, node)));
            &&& extra is Some
            &&& extra.unwrap().path == path
            &&& extra.unwrap().canonical_value == "MISSING"@
            &&& extra.unwrap().proofs_value == node_text(node)
        }),
        trie_diff(None, None) is None,
{
}

/// Tries give a difference exactly where the entries are unequal, and to exchange the stores
/// is to exchange the sides of the difference.
pub proof fn law_exchanged_tries(
    canonical: Option<(Seq<u8>, BranchNodeView)>,
    proofs: Option<(Seq<u8>, BranchNodeView)>,
)
    ensures
        trie_diff(canonical, proofs) is None <==> canonical == proofs,
        trie_diff(canonical, proofs) matches Some(diff) ==> {
            let exchanged = trie_diff(proofs, canonical);
            &&& exchanged is Some
            &&& exchanged.unwrap().canonical_value == diff.proofs_value
            &&& exchanged.unwrap().proofs_value == diff.canonical_value
            &&& finding(canonical, proofs) != Some(Finding::KeyMismatch)
                ==> exchanged.unwrap().path == diff.path
        },
{
}

/// Both sides that are put together keep their texts, each on its own side; the text for a
/// missing one stands where there is none, and the paths are added exactly where they differ.
pub proof fn law_described_sides(
    path: Seq<u8>,
    node: Seq<char>,
    proofs_path: Seq<u8>,
    proofs_node: Seq<char>,
)
    ensures
        ({
            let diff = both_sides(Some((path, node)), Some((path, proofs_node)));
            &&& diff is Some
            &&& diff.unwrap().path == path
            &&& diff.unwrap().canonical_value == node
            &&& diff.unwrap().proofs_value == proofs_node
        }),
        path != proofs_path ==> {
            let diff = both_sides(Some((path, node)), Some((proofs_path, proofs_node)));
            &&& diff is Some
            &&& diff.unwrap().path == path
            &&& diff.unwrap().canonical_value == "Path: "@ + path_text(path) + ", Node: "@ + node
            &&& diff.unwrap().proofs_value == "Path: "@ + path_text(proofs_path) + ", Node: "@
                + proofs_node
        },
        ({
            let diff = both_sides(Some((path, node)), None);
            &&& diff is Some
            &&& diff.unwrap().path == path
            &&& diff.unwrap().canonical_value == node
            &&& diff.unwrap().proofs_value == "MISSING"@
        }),
        ({
            let diff = both_sides(None, Some((proofs_path, proofs_node)));
            &&& diff is Some
            &&& diff.unwrap().path == proofs_path
            &&& diff.unwrap().canonical_value == "MISSING"@
            &&& diff.unwrap().proofs_value == proofs_node
        }),
        both_sides(None, None) is None,
{
}

/// The difference between storage tries names the account, and else says of two entries what
/// the difference between account tries says of them, side by side.
pub proof fn law_storage_trie_like_account_trie(
    hashed_address: B256,
    canonical: Option<(Seq<u8>, BranchNodeView)>,
    proofs: Option<(Seq<u8>, BranchNodeView)>,
)
    ensures
        storage_trie_diff(hashed_address, canonical, proofs) is Some <==> canonical != proofs,
        storage_trie_diff(hashed_address, canonical, proofs) is Some <==> trie_diff(
            canonical,
            proofs,
        ) is Some,
        storage_trie_diff(hashed_address, canonical, proofs) matches Some(found) ==> {
            let diff = trie_diff(canonical, proofs).unwrap();
            &&& found.hashed_address == hashed_address
            &&& found.diff.path == diff.path
            &&& found.diff.canonical_value == diff.canonical_value
            &&& found.diff.proofs_value == diff.proofs_value
        },
{
}

/// The storage tries of an account at one path, and a node that only one of them has.
pub proof fn law_storage_trie_sides(
    hashed_address: B256,
    path: Seq<u8>,
    node: BranchNodeView,
    proofs_node: BranchNodeView,
)
    ensures
        node != proofs_node ==> storage_trie_diff(
            hashed_address,
            Some((path, node)),
            Some((path, proofs_node)),
        ) == Some(
            StorageTrieDiffView {
                hashed_address,
                diff: TrieDiffView {
                    path,
                    canonical_value: node_text(node),
                    proofs_value: node_text(proofs_node),
                },
            },
        ),
        storage_trie_diff(hashed_address, Some((path, node)), None) == Some(
            StorageTrieDiffView {
                hashed_address,
                diff: TrieDiffView {
                    path,
                    canonical_value: node_text(node),
                    proofs_value: "MISSING"@,
                },
            },
        ),
        storage_trie_diff(hashed_address, None, Some((path, node))) == Some(
            StorageTrieDiffView {
                hashed_address,
                diff: TrieDiffView {
                    path,
                    canonical_value: "MISSING"@,
                    proofs_value: node_text(node),
                },
            },
        ),
{
}

/// Of two accounts at one address there is a difference exactly where they are not the same.
/// It names the address, and each value exactly where that value differs, whatever the other
/// values are: the canonical one first, and of a code hash that is not there the zero word.
pub proof fn law_different_accounts_at_one_address(
    address: B256,
    account: Account,
    proofs_account: Account,
)
    ensures
        ({
            let diff = account_diff(Some((address, account)), Some((address, proofs_account)));
            &&& diff is None <==> {
                &&& account.balance == proofs_account.balance
                &&& account.nonce == proofs_account.nonce
                &&& account.bytecode_hash == proofs_account.bytecode_hash
            }
            &&& diff matches Some(diff) ==> {
                &&& diff.address == address
                &&& diff.balance_diff is Some <==> account.balance != proofs_account.balance
                &&& diff.balance_diff matches Some((first, second)) ==> first == account.balance
                    && second == proofs_account.balance
                &&& diff.nonce_diff is Some <==> account.nonce != proofs_account.nonce
                &&& diff.nonce_diff matches Some((first, second)) ==> first == account.nonce
                    && second == proofs_account.nonce
                &&& diff.code_hash_diff is Some <==> account.bytecode_hash
                    != proofs_account.bytecode_hash
                &&& diff.code_hash_diff matches Some((first, second)) ==> {
                    &&& account.bytecode_hash matches Some(hash) ==> first == hash
                    &&& account.bytecode_hash is None ==> forall|i: int|
                        0 <= i < 32 ==> first.bytes@[i] == 0
                    &&& proofs_account.bytecode_hash matches Some(hash) ==> second == hash
                    &&& proofs_account.bytecode_hash is None ==> forall|i: int|
                        0 <= i < 32 ==> second.bytes@[i] == 0
                }
                &&& diff.storage_root_diff is None
            }
        }),
{
}

/// A canonical account that the proofs storage has not at this position, be it that it ends
/// there or that it has another account, is held against zero, and so is one that only the
/// proofs storage has; the zero stands on the side that has not the account.
pub proof fn law_account_of_one_store(address: B256, account: Account)
    ensures
        forall|proofs: Option<(B256, Account)>|
            (proofs matches Some((other, _)) ==> other != address) ==> {
                let diff = #[trigger] account_diff(Some((address, account)), proofs);
                &&& diff is Some
                &&& diff.unwrap().address == address
                &&& diff.unwrap().balance_diff matches Some((first, second)) && first
                    == account.balance && second.value() == 0
                &&& diff.unwrap().nonce_diff == Some((account.nonce, 0u64))
                &&& diff.unwrap().code_hash_diff is None
                &&& diff.unwrap().storage_root_diff is None
            },
        ({
            let diff = account_diff(None, Some((address, account)));
            &&& diff is Some
            &&& diff.unwrap().address == address
            &&& diff.unwrap().balance_diff matches Some((first, second)) && first.value() == 0
                && second == account.balance
            &&& diff.unwrap().nonce_diff == Some((0u64, account.nonce))
            &&& diff.unwrap().code_hash_diff is None
            &&& diff.unwrap().storage_root_diff is None
        }),
        account_diff(None, None) is None,
{
    law_zero_is_zero();
}

/// Accounts give a difference exactly where the entries are unequal, and to exchange the
/// stores is to exchange the values of each pair, unless the addresses differ.
pub proof fn law_exchanged_accounts(
    canonical: Option<(B256, Account)>,
    proofs: Option<(B256, Account)>,
)
    ensures
        account_diff(canonical, proofs) is None <==> canonical == proofs,
        account_diff(canonical, proofs) is Some && finding(canonical, proofs) != Some(
            Finding::KeyMismatch,
        ) ==> {
            let diff = account_diff(canonical, proofs).unwrap();
            let exchanged = account_diff(proofs, canonical);
            &&& exchanged is Some
            &&& exchanged.unwrap().address == diff.address
            &&& exchanged.unwrap().balance_diff == exchanged_pair(diff.balance_diff)
            &&& exchanged.unwrap().nonce_diff == exchanged_pair(diff.nonce_diff)
            &&& exchanged.unwrap().code_hash_diff == exchanged_pair(diff.code_hash_diff)
        },
{
}

/// A pair in the other order.
pub open spec fn exchanged_pair<V>(pair: Option<(V, V)>) -> Option<(V, V)> {
    match pair {
        Some((first, second)) => Some((second, first)),
        None => None,
    }
}

/// A hash that is there is kept, and the zero word stands for one that is not.
pub proof fn law_hash_or_zero(hash: B256)
    ensures
        hash_or_zero(Some(hash)) == hash,
        forall|i: int| 0 <= i < 32 ==> #[trigger] hash_or_zero(None).bytes@[i] == 0,
{
}

/// Of two values of one slot there is a difference exactly where they are not the same, and
/// it has the canonical value on the canonical side and the other on that of the proofs,
/// whichever is the larger.
pub proof fn law_different_values_of_one_slot(
    hashed_address: B256,
    slot: B256,
    value: U256,
    proofs_value: U256,
)
    ensures
        value == proofs_value ==> storage_diff(
            hashed_address,
            Some((slot, value)),
            Some((slot, proofs_value)),
        ) is None,
        value != proofs_value ==> {
            let diff = storage_diff(
                hashed_address,
                Some((slot, value)),
                Some((slot, proofs_value)),
            );
            &&& diff is Some
            &&& diff.unwrap().hashed_address == hashed_address
            &&& diff.unwrap().slot == slot
            &&& diff.unwrap().canonical_value == value
            &&& diff.unwrap().proofs_value == proofs_value
        },
{
}

/// A canonical slot that the proofs storage has not at this position, be it that it ends
/// there or that it has another slot, is held against zero, and so is one that only the
/// proofs storage has; the zero stands on the side that has not the slot.
pub proof fn law_slot_of_one_store(hashed_address: B256, slot: B256, value: U256)
    ensures
        forall|proofs: Option<(B256, U256)>|
            (proofs matches Some((other, _)) ==> other != slot) ==> {
                let diff = #[trigger] storage_diff(hashed_address, Some((slot, value)), proofs);
                &&& diff is Some
                &&& diff.unwrap().hashed_address == hashed_address
                &&& diff.unwrap().slot == slot
                &&& diff.unwrap().canonical_value == value
                &&& diff.unwrap().proofs_value.value() == 0
            },
        ({
            let diff = storage_diff(hashed_address, None, Some((slot, value)));
            &&& diff is Some
            &&& diff.unwrap().hashed_address == hashed_address
            &&& diff.unwrap().slot == slot
            &&& diff.unwrap().canonical_value.value() == 0
            &&& diff.unwrap().proofs_value == value
        }),
        storage_diff(hashed_address, None, None) is None,
{
    law_zero_is_zero();
}

/// Slots give a difference exactly where the entries are unequal, and to exchange the stores
/// is to exchange the values, unless the slots differ.
pub proof fn law_exchanged_slots(
    hashed_address: B256,
    canonical: Option<(B256, U256)>,
    proofs: Option<(B256, U256)>,
)
    ensures
        storage_diff(hashed_address, canonical, proofs) is None <==> canonical == proofs,
        storage_diff(hashed_address, canonical, proofs) is Some && finding(canonical, proofs)
            != Some(Finding::KeyMismatch) ==> {
            let diff = storage_diff(hashed_address, canonical, proofs).unwrap();
            storage_diff(hashed_address, proofs, canonical) == Some(
                StorageDiff {
                    hashed_address,
                    slot: diff.slot,
                    canonical_value: diff.proofs_value,
                    proofs_value: diff.canonical_value,
                },
            )
        },
{
}

/// What is read of a difference between tries are its own path and texts.
pub proof fn law_trie_diff_fields(diff: AccountTrieDiff, storage_diff: StorageTrieDiff)
    ensures
        diff@.path == diff.path@,
        diff@.canonical_value == diff.canonical_value@,
        diff@.proofs_value == diff.proofs_value@,
        storage_diff@.hashed_address == storage_diff.hashed_address,
        storage_diff@.diff.path == storage_diff.path@,
        storage_diff@.diff.canonical_value == storage_diff.canonical_value@,
        storage_diff@.diff.proofs_value == storage_diff.proofs_value@,
{
}

/// What is read of a report are its own fields, with every difference of every kind in its
/// place.
pub proof fn law_report_fields(report: VerificationReport)
    ensures
        report@.block_number == report.block_number,
        report@.account_trie_compared == report.account_trie_compared,
        report@.hashed_accounts_compared == report.hashed_accounts_compared,
        report@.storage_trie_compared == report.storage_trie_compared,
        report@.storage_compared == report.storage_compared,
        report@.account_trie_diffs.len() == report.account_trie_diffs@.len(),
        forall|i: int|
            0 <= i < report.account_trie_diffs@.len() ==> #[trigger] report@.account_trie_diffs[i]
                == report.account_trie_diffs@[i]@,
        report@.hashed_account_diffs == report.hashed_account_diffs@,
        report@.storage_trie_diffs.len() == report.storage_trie_diffs@.len(),
        forall|i: int|
            0 <= i < report.storage_trie_diffs@.len() ==> #[trigger] report@.storage_trie_diffs[i]
                == report.storage_trie_diffs@[i]@,
        report@.storage_diffs == report.storage_diffs@,
{
}

/// The total counts each difference of each kind once, and is zero exactly where there is
/// none of any kind. An empty report has none, and says that nothing was compared.
pub proof fn law_total_counts_all_kinds(report: ReportView, block_number: u64)
    ensures
        report.total() == report.account_trie_diffs.len() + report.hashed_account_diffs.len()
            + report.storage_trie_diffs.len() + report.storage_diffs.len(),
        report.total() == 0 <==> {
            &&& report.account_trie_diffs =~= Seq::empty()
            &&& report.hashed_account_diffs =~= Seq::empty()
            &&& report.storage_trie_diffs =~= Seq::empty()
            &&& report.storage_diffs =~= Seq::empty()
        },
        ({
            let empty = ReportView::empty(block_number);
            &&& empty.block_number == block_number
            &&& empty.total() == 0
            &&& !empty.account_trie_compared
            &&& !empty.hashed_accounts_compared
            &&& !empty.storage_trie_compared
            &&& !empty.storage_compared
        }),
{
}

} // verus!
