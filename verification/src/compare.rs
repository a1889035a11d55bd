//! Comparison of one entry of the canonical store with the entry of the proofs storage
//! that stands at the same position.

use vstd::prelude::*;

use crate::primitives::{B256, U256};
use crate::report::{
    AccountTrieDiff, HashedAccountDiff, StorageDiff, StorageTrieDiff, StorageTrieDiffView,
    TrieDiffView,
};
use crate::trie::{
    branch_node_debug, node_text, path_debug, path_text, BranchNodeCompact, BranchNodeView, Nibbles,
};

verus! {

/// The values of an account that stand in the state trie.
#[derive(Clone, Copy, Debug)]
pub struct Account {
    pub nonce: u64,
    pub balance: U256,
    pub bytecode_hash: Option<B256>,
}

/// How the two entries at one position differ.
#[derive(Clone, Copy, Debug, PartialEq, Eq, Structural)]
pub enum Finding {
    /// The entries stand under different keys.
    KeyMismatch,
    /// The entries stand under the same key and hold different values.
    ValueMismatch,
    /// The proofs storage has no entry.
    Missing,
    /// The canonical store has no entry.
    Extra,
}

/// How two entries differ, if they do. `None` stands for the end of a store.
pub open spec fn finding<K, V>(canonical: Option<(K, V)>, proofs: Option<(K, V)>) -> Option<
    Finding,
> {
    match (canonical, proofs) {
        (Some((canonical_key, canonical_value)), Some((proofs_key, proofs_value))) => {
            if canonical_key != proofs_key {
                Some(Finding::KeyMismatch)
            } else if canonical_value != proofs_value {
                Some(Finding::ValueMismatch)
            } else {
                None
            }
        },
        (Some(_), None) => Some(Finding::Missing),
        (None, Some(_)) => Some(Finding::Extra),
        (None, None) => None,
    }
}

/// What an entry of a trie says: its path and its node.
pub open spec fn trie_entry(entry: Option<(Nibbles, BranchNodeCompact)>) -> Option<
    (Seq<u8>, BranchNodeView),
> {
    match entry {
        Some((path, node)) => Some((path@, node@)),
        None => None,
    }
}

/// Decides how two entries of a trie differ, if they do.
pub fn find_node_difference(
    canonical: &Option<(Nibbles, BranchNodeCompact)>,
    proofs: &Option<(Nibbles, BranchNodeCompact)>,
) -> (found: Option<Finding>)
    ensures
        found == finding(trie_entry(*canonical), trie_entry(*proofs)),
{
    match (canonical, proofs) {
        (Some((path, node)), Some((proofs_path, proofs_node))) => {
            if *path != *proofs_path {
                Some(Finding::KeyMismatch)
            } else if *node != *proofs_node {
                Some(Finding::ValueMismatch)
            } else {
                None
            }
        },
        (Some(_), None) => Some(Finding::Missing),
        (None, Some(_)) => Some(Finding::Extra),
        (None, None) => None,
    }
}

/// The text of a node together with its path.
pub open spec fn path_and_node_text(path: Seq<u8>, node: Seq<char>) -> Seq<char> {
    "Path: "@ + path_text(path) + ", Node: "@ + node
}

/// Both sides of a position of a trie, each given by its path and the text of its node.
/// Where the paths differ the position is that of the canonical one, and the text of both
/// sides says the path as well.
pub open spec fn both_sides(
    canonical: Option<(Seq<u8>, Seq<char>)>,
    proofs: Option<(Seq<u8>, Seq<char>)>,
) -> Option<TrieDiffView> {
    match (canonical, proofs) {
        (Some((path, node)), Some((proofs_path, proofs_node))) => {
            if path != proofs_path {
                Some(
                    TrieDiffView {
                        path,
                        canonical_value: path_and_node_text(path, node),
                        proofs_value: path_and_node_text(proofs_path, proofs_node),
                    },
                )
            } else {
                Some(TrieDiffView { path, canonical_value: node, proofs_value: proofs_node })
            }
        },
        (Some((path, node)), None) => Some(
            TrieDiffView { path, canonical_value: node, proofs_value: "MISSING"@ },
        ),
        (None, Some((path, node))) => Some(
            TrieDiffView { path, canonical_value: "MISSING"@, proofs_value: node },
        ),
        (None, None) => None,
    }
}

/// What an entry says of which the node has been written: its path and that text.
pub open spec fn written_entry(entry: Option<(Nibbles, String)>) -> Option<(Seq<u8>, Seq<char>)> {
    match entry {
        Some((path, node)) => Some((path@, node@)),
        None => None,
    }
}

/// Writes a node, of which the text is given, together with its path.
fn path_and_node(path: &Nibbles, node: &str) -> (text: String)
    ensures
        text@ == path_and_node_text(path@, node@),
{
    let mut text = "Path: ".to_owned();
    text.append(path_debug(path).as_str());
    text.append(", Node: ");
    text.append(node);
    text
}

/// Puts both sides of a position of a trie together, each given by its path and the text of
/// its node.
pub fn describe_difference(
    canonical: Option<(Nibbles, String)>,
    proofs: Option<(Nibbles, String)>,
) -> (diff: Option<AccountTrieDiff>)
    ensures
        both_sides(written_entry(canonical), written_entry(proofs)) == (match diff {
            Some(diff) => Some(diff@),
            None => None,
        }),
{
    match (canonical, proofs) {
        (Some((path, node)), Some((proofs_path, proofs_node))) => {
            if path != proofs_path {
                let canonical_value = path_and_node(&path, node.as_str());
                let proofs_value = path_and_node(&proofs_path, proofs_node.as_str());
                Some(AccountTrieDiff { path, canonical_value, proofs_value })
            } else {
                Some(AccountTrieDiff { path, canonical_value: node, proofs_value: proofs_node })
            }
        },
        (Some((path, node)), None) => Some(
            AccountTrieDiff { path, canonical_value: node, proofs_value: "MISSING".to_owned() },
        ),
        (None, Some((path, node))) => Some(
            AccountTrieDiff { path, canonical_value: "MISSING".to_owned(), proofs_value: node },
        ),
        (None, None) => None,
    }
}

/// An entry of a trie with its node as text.
pub open spec fn with_node_text(entry: Option<(Seq<u8>, BranchNodeView)>) -> Option<
    (Seq<u8>, Seq<char>),
> {
    match entry {
        Some((path, node)) => Some((path, node_text(node))),
        None => None,
    }
}

/// The difference that two entries of a trie give rise to: both sides with their nodes as
/// text, where the entries differ.
pub open spec fn trie_diff(
    canonical: Option<(Seq<u8>, BranchNodeView)>,
    proofs: Option<(Seq<u8>, BranchNodeView)>,
) -> Option<TrieDiffView> {
    if finding(canonical, proofs) is Some {
        both_sides(with_node_text(canonical), with_node_text(proofs))
    } else {
        None
    }
}

/// Writes the node of an entry.
fn write_node(entry: Option<(Nibbles, BranchNodeCompact)>) -> (written: Option<(Nibbles, String)>)
    ensures
        written_entry(written) == with_node_text(trie_entry(entry)),
{
    match entry {
        Some((path, node)) => {
            let text = branch_node_debug(&node);
            Some((path, text))
        },
        None => None,
    }
}

/// Compares two entries of the account trie.
pub fn compare_account_trie_nodes(
    canonical: Option<(Nibbles, BranchNodeCompact)>,
    proofs: Option<(Nibbles, BranchNodeCompact)>,
) -> (difference: Option<(Finding, AccountTrieDiff)>)
    ensures
        match difference {
            Some((found, diff)) => {
                &&& finding(trie_entry(canonical), trie_entry(proofs)) == Some(found)
                &&& trie_diff(trie_entry(canonical), trie_entry(proofs)) == Some(diff@)
            },
            None => {
                &&& finding(trie_entry(canonical), trie_entry(proofs)) is None
                &&& trie_diff(trie_entry(canonical), trie_entry(proofs)) is None
            },
        },
{
    match find_node_difference(&canonical, &proofs) {
        Some(found) => match describe_difference(write_node(canonical), write_node(proofs)) {
            Some(diff) => Some((found, diff)),
            None => None,
        },
        None => None,
    }
}

/// The difference that two entries of an account's storage trie give rise to.
pub open spec fn storage_trie_diff(
    hashed_address: B256,
    canonical: Option<(Seq<u8>, BranchNodeView)>,
    proofs: Option<(Seq<u8>, BranchNodeView)>,
) -> Option<StorageTrieDiffView> {
    match trie_diff(canonical, proofs) {
        Some(diff) => Some(StorageTrieDiffView { hashed_address, diff }),
        None => None,
    }
}

/// Compares two entries of the storage trie of an account.
pub fn compare_storage_trie_nodes(
    hashed_address: B256,
    canonical: Option<(Nibbles, BranchNodeCompact)>,
    proofs: Option<(Nibbles, BranchNodeCompact)>,
) -> (difference: Option<(Finding, StorageTrieDiff)>)
    ensures
        match difference {
            Some((found, diff)) => {
                &&& finding(trie_entry(canonical), trie_entry(proofs)) == Some(found)
                &&& storage_trie_diff(hashed_address, trie_entry(canonical), trie_entry(proofs))
                    == Some(diff@)
            },
            None => {
                &&& finding(trie_entry(canonical), trie_entry(proofs)) is None
                &&& storage_trie_diff(
                    hashed_address,
                    trie_entry(canonical),
                    trie_entry(proofs),
                ) is None
            },
        },
{
    match compare_account_trie_nodes(canonical, proofs) {
        Some((found, diff)) => Some(
            (
                found,
                StorageTrieDiff {
                    hashed_address,
                    path: diff.path,
                    canonical_value: diff.canonical_value,
                    proofs_value: diff.proofs_value,
                },
            ),
        ),
        None => None,
    }
}

/// A hash, or the zero word where there is none.
pub open spec fn hash_or_zero(hash: Option<B256>) -> B256 {
    match hash {
        Some(hash) => hash,
        None => B256::zero_word(),
    }
}

/// Both values where they differ.
pub open spec fn if_different<V>(canonical: V, proofs: V) -> Option<(V, V)> {
    if canonical != proofs {
        Some((canonical, proofs))
    } else {
        None
    }
}

/// The difference at an account that the proofs storage does not have at this position:
/// its balance and its nonce against zero.
pub open spec fn absent_from_proofs(address: B256, account: Account) -> HashedAccountDiff {
    HashedAccountDiff {
        address,
        balance_diff: Some((account.balance, U256::zero_number())),
        nonce_diff: Some((account.nonce, 0)),
        code_hash_diff: None,
        storage_root_diff: None,
    }
}

/// The difference at an account that only the proofs storage has: zero against its
/// balance and its nonce.
pub open spec fn absent_from_canonical(address: B256, account: Account) -> HashedAccountDiff {
    HashedAccountDiff {
        address,
        balance_diff: Some((U256::zero_number(), account.balance)),
        nonce_diff: Some((0, account.nonce)),
        code_hash_diff: None,
        storage_root_diff: None,
    }
}

/// The difference that two accounts at the same position give rise to.
pub open spec fn account_diff(
    canonical: Option<(B256, Account)>,
    proofs: Option<(B256, Account)>,
) -> Option<HashedAccountDiff> {
    match (canonical, proofs) {
        (Some((address, account)), Some((proofs_address, proofs_account))) => {
            if address != proofs_address {
                Some(absent_from_proofs(address, account))
            } else if account != proofs_account {
                Some(
                    HashedAccountDiff {
                        address,
                        balance_diff: if_different(account.balance, proofs_account.balance),
                        nonce_diff: if_different(account.nonce, proofs_account.nonce),
                        code_hash_diff: if account.bytecode_hash != proofs_account.bytecode_hash {
                            Some(
                                (
                                    hash_or_zero(account.bytecode_hash),
                                    hash_or_zero(proofs_account.bytecode_hash),
                                ),
                            )
                        } else {
                            None
                        },
                        storage_root_diff: None,
                    },
                )
            } else {
                None
            }
        },
        (Some((address, account)), None) => Some(absent_from_proofs(address, account)),
        (None, Some((address, account))) => Some(absent_from_canonical(address, account)),
        (None, None) => None,
    }
}

/// Compares two accounts at the same position.
pub fn compare_accounts(
    canonical: Option<(B256, Account)>,
    proofs: Option<(B256, Account)>,
) -> (difference: Option<(Finding, HashedAccountDiff)>)
    ensures
        match difference {
            Some((found, diff)) => {
                &&& finding(canonical, proofs) == Some(found)
                &&& account_diff(canonical, proofs) == Some(diff)
            },
            None => {
                &&& finding(canonical, proofs) is None
                &&& account_diff(canonical, proofs) is None
            },
        },
{
    match (canonical, proofs) {
        (Some((address, account)), Some((proofs_address, proofs_account))) => {
            if address != proofs_address {
                return Some(
                    (
                        Finding::KeyMismatch,
                        HashedAccountDiff {
                            address,
                            balance_diff: Some((account.balance, U256::zero())),
                            nonce_diff: Some((account.nonce, 0)),
                            code_hash_diff: None,
                            storage_root_diff: None,
                        },
                    ),
                );
            }
            let mut diff = HashedAccountDiff {
                address,
                balance_diff: None,
                nonce_diff: None,
                code_hash_diff: None,
                storage_root_diff: None,
            };
            let mut has_diff = false;
            if account.balance != proofs_account.balance {
                diff.balance_diff = Some((account.balance, proofs_account.balance));
                has_diff = true;
            }
            if account.nonce != proofs_account.nonce {
                diff.nonce_diff = Some((account.nonce, proofs_account.nonce));
                has_diff = true;
            }
            if account.bytecode_hash != proofs_account.bytecode_hash {
                diff.code_hash_diff = Some(
                    (
                        account.bytecode_hash.unwrap_or(B256::zero()),
                        proofs_account.bytecode_hash.unwrap_or(B256::zero()),
                    ),
                );
                has_diff = true;
            }
            if has_diff {
                Some((Finding::ValueMismatch, diff))
            } else {
                None
            }
        },
        (Some((address, account)), None) => Some(
            (
                Finding::Missing,
                HashedAccountDiff {
                    address,
                    balance_diff: Some((account.balance, U256::zero())),
                    nonce_diff: Some((account.nonce, 0)),
                    code_hash_diff: None,
                    storage_root_diff: None,
                },
            ),
        ),
        (None, Some((address, account))) => Some(
            (
                Finding::Extra,
                HashedAccountDiff {
                    address,
                    balance_diff: Some((U256::zero(), account.balance)),
                    nonce_diff: Some((0, account.nonce)),
                    code_hash_diff: None,
                    storage_root_diff: None,
                },
            ),
        ),
        (None, None) => None,
    }
}

/// The difference that two storage slots at the same position give rise to.
pub open spec fn storage_diff(
    hashed_address: B256,
    canonical: Option<(B256, U256)>,
    proofs: Option<(B256, U256)>,
) -> Option<StorageDiff> {
    match (canonical, proofs) {
        (Some((slot, value)), Some((proofs_slot, proofs_value))) => {
            if slot != proofs_slot {
                Some(
                    StorageDiff {
                        hashed_address,
                        slot,
                        canonical_value: value,
                        proofs_value: U256::zero_number(),
                    },
                )
            } else if value != proofs_value {
                Some(StorageDiff { hashed_address, slot, canonical_value: value, proofs_value })
            } else {
                None
            }
        },
        (Some((slot, value)), None) => Some(
            StorageDiff {
                hashed_address,
                slot,
                canonical_value: value,
                proofs_value: U256::zero_number(),
            },
        ),
        (None, Some((slot, value))) => Some(
            StorageDiff {
                hashed_address,
                slot,
                canonical_value: U256::zero_number(),
                proofs_value: value,
            },
        ),
        (None, None) => None,
    }
}

/// Compares two storage slots at the same position.
pub fn compare_storage_slots(
    hashed_address: B256,
    canonical: Option<(B256, U256)>,
    proofs: Option<(B256, U256)>,
) -> (difference: Option<(Finding, StorageDiff)>)
    ensures
        match difference {
            Some((found, diff)) => {
                &&& finding(canonical, proofs) == Some(found)
                &&& storage_diff(hashed_address, canonical, proofs) == Some(diff)
            },
            None => {
                &&& finding(canonical, proofs) is None
                &&& storage_diff(hashed_address, canonical, proofs) is None
            },
        },
{
    match (canonical, proofs) {
        (Some((slot, value)), Some((proofs_slot, proofs_value))) => {
            if slot != proofs_slot {
                let diff = StorageDiff {
                    hashed_address,
                    slot,
                    canonical_value: value,
                    proofs_value: U256::zero(),
                };
                Some((Finding::KeyMismatch, diff))
            } else if value != proofs_value {
                let diff = StorageDiff {
                    hashed_address,
                    slot,
                    canonical_value: value,
                    proofs_value,
                };
                Some((Finding::ValueMismatch, diff))
            } else {
                None
            }
        },
        (Some((slot, value)), None) => {
            let diff = StorageDiff {
                hashed_address,
                slot,
                canonical_value: value,
                proofs_value: U256::zero(),
            };
            Some((Finding::Missing, diff))
        },
        (None, Some((slot, value))) => {
            let diff = StorageDiff {
                hashed_address,
                slot,
                canonical_value: U256::zero(),
                proofs_value: value,
            };
            Some((Finding::Extra, diff))
        },
        (None, None) => None,
    }
}

} // verus!
