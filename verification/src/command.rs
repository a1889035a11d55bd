//! The command that verifies the proofs storage: its settings, the block at which it
//! verifies, and the errors with which it ends.

use vstd::prelude::*;

use crate::text::{decimal, decimal_text};

verus! {

/// Verifies the proofs storage against the canonical chain state.
#[derive(Clone, Copy, Debug)]
pub struct VerifyCommand {
    /// Enable verbose output showing all comparisons.
    pub verbose: bool,
    /// Maximum number of differences to report before stopping. Each comparison has a count
    /// of its own: the account tries, the accounts, and of each account the storage trie and
    /// the storage slots.
    pub max_differences: usize,
}

/// Why a verification did not succeed.
#[derive(Clone, Copy, Debug, PartialEq, Eq, Structural)]
pub enum VerifyError {
    /// The proofs storage holds no block.
    NoBlocks,
    /// The canonical chain ends before the first block of the proofs storage.
    CanonicalBeforeEarliest { canonical_latest: u64, proofs_earliest: u64 },
    /// The proofs storage ends before the canonical chain.
    ProofsBehind { canonical_latest: u64, proofs_latest: u64 },
    /// Differences were found.
    DifferencesFound { total: usize },
}

/// What the latest blocks of both stores say about the block to verify at.
#[derive(Clone, Copy, Debug, PartialEq, Eq, Structural)]
pub enum BlockChoice {
    /// Both stores end at this block.
    Latest(u64),
    /// The proofs storage is ahead: it has to go back as far as this block.
    Historical(u64),
}

/// The block at which to verify, given the first and the last block of the proofs storage
/// and the last block of the canonical chain: the last canonical block, where the proofs
/// storage covers it.
pub open spec fn block_to_verify(
    proofs_latest: Option<u64>,
    canonical_latest: u64,
    proofs_earliest: Option<u64>,
) -> Result<u64, VerifyError> {
    match (proofs_latest, proofs_earliest) {
        (None, _) => Err(VerifyError::NoBlocks),
        (Some(latest), _) if latest < canonical_latest => Err(
            VerifyError::ProofsBehind { canonical_latest, proofs_latest: latest },
        ),
        (Some(latest), _) if latest == canonical_latest => Ok(canonical_latest),
        (Some(_), None) => Err(VerifyError::NoBlocks),
        (Some(_), Some(earliest)) if canonical_latest < earliest => Err(
            VerifyError::CanonicalBeforeEarliest { canonical_latest, proofs_earliest: earliest },
        ),
        (Some(_), Some(_)) => Ok(canonical_latest),
    }
}

/// The message of an error.
pub open spec fn error_text(error: VerifyError) -> Seq<char> {
    match error {
        VerifyError::NoBlocks => "No blocks in proofs storage"@,
        VerifyError::CanonicalBeforeEarliest { canonical_latest, proofs_earliest } => {
            "Canonical latest block "@ + decimal(canonical_latest as nat)
                + " is earlier than earliest block in proof storage "@ + decimal(
                proofs_earliest as nat,
            ) + ". Cannot verify."@
        },
        VerifyError::ProofsBehind { canonical_latest, proofs_latest } => {
            "Proof storage is behind: canonical is at block "@ + decimal(canonical_latest as nat)
                + " but proof storage is only at block "@ + decimal(proofs_latest as nat)
                + ". Cannot verify - proof storage needs to catch up."@
        },
        VerifyError::DifferencesFound { total } => {
            "Verification failed with "@ + decimal(total as nat) + " total differences"@
        },
    }
}

impl VerifyError {
    /// The message of the error.
    pub fn message(&self) -> (text: String)
        ensures
            text@ == error_text(*self),
    {
        match *self {
            VerifyError::NoBlocks => "No blocks in proofs storage".to_owned(),
            VerifyError::CanonicalBeforeEarliest { canonical_latest, proofs_earliest } => {
                let mut text = "Canonical latest block ".to_owned();
                text.append(decimal_text(canonical_latest).as_str());
                text.append(" is earlier than earliest block in proof storage ");
                text.append(decimal_text(proofs_earliest).as_str());
                text.append(". Cannot verify.");
                text
            },
            VerifyError::ProofsBehind { canonical_latest, proofs_latest } => {
                let mut text = "Proof storage is behind: canonical is at block ".to_owned();
                text.append(decimal_text(canonical_latest).as_str());
                text.append(" but proof storage is only at block ");
                text.append(decimal_text(proofs_latest).as_str());
                text.append(". Cannot verify - proof storage needs to catch up.");
                text
            },
            VerifyError::DifferencesFound { total } => {
                let mut text = "Verification failed with ".to_owned();
                text.append(decimal_text(total as u64).as_str());
                text.append(" total differences");
                text
            },
        }
    }
}

/// Takes a block of the proofs storage, which has to hold one.
pub fn require_block(block: Option<u64>) -> (required: Result<u64, VerifyError>)
    ensures
        required == (match block {
            Some(number) => Ok::<u64, VerifyError>(number),
            None => Err(VerifyError::NoBlocks),
        }),
{
    match block {
        Some(number) => Ok(number),
        None => Err(VerifyError::NoBlocks),
    }
}

/// Decides from the last blocks of both stores where to verify. Where the choice is
/// `Historical`, the first block of the proofs storage has to be held against it.
pub fn choose_block(canonical_latest: u64, proofs_latest: u64) -> (choice: Result<
    BlockChoice,
    VerifyError,
>)
    ensures
        match choice {
            Ok(BlockChoice::Latest(block)) => {
                &&& canonical_latest == proofs_latest
                &&& block == canonical_latest
            },
            Ok(BlockChoice::Historical(block)) => {
                &&& canonical_latest < proofs_latest
                &&& block == canonical_latest
            },
            Err(error) => {
                &&& canonical_latest > proofs_latest
                &&& error == VerifyError::ProofsBehind { canonical_latest, proofs_latest }
            },
        },
        forall|earliest: Option<u64>|
            match choice {
                Ok(BlockChoice::Latest(block)) => #[trigger] block_to_verify(
                    Some(proofs_latest),
                    canonical_latest,
                    earliest,
                ) == Ok::<u64, VerifyError>(block),
                Ok(BlockChoice::Historical(_)) => true,
                Err(error) => block_to_verify(Some(proofs_latest), canonical_latest, earliest)
                    == Err::<u64, VerifyError>(error),
            },
{
    if canonical_latest <= proofs_latest {
        if canonical_latest < proofs_latest {
            Ok(BlockChoice::Historical(canonical_latest))
        } else {
            Ok(BlockChoice::Latest(canonical_latest))
        }
    } else {
        Err(VerifyError::ProofsBehind { canonical_latest, proofs_latest })
    }
}

/// Decides whether the proofs storage, which is ahead of the canonical chain, goes back
/// as far as the last canonical block.
pub fn confirm_block(canonical_latest: u64, proofs_earliest: Option<u64>) -> (confirmed: Result<
    u64,
    VerifyError,
>)
    ensures
        forall|latest: u64|
            canonical_latest < latest ==> confirmed == #[trigger] block_to_verify(
                Some(latest),
                canonical_latest,
                proofs_earliest,
            ),
        confirmed == (match proofs_earliest {
            None => Err::<u64, VerifyError>(VerifyError::NoBlocks),
            Some(earliest) if canonical_latest < earliest => Err(
                VerifyError::CanonicalBeforeEarliest {
                    canonical_latest,
                    proofs_earliest: earliest,
                },
            ),
            Some(_) => Ok(canonical_latest),
        }),
{
    match require_block(proofs_earliest) {
        Err(error) => Err(error),
        Ok(earliest) => {
            if canonical_latest < earliest {
                Err(
                    VerifyError::CanonicalBeforeEarliest {
                        canonical_latest,
                        proofs_earliest: earliest,
                    },
                )
            } else {
                Ok(canonical_latest)
            }
        },
    }
}

} // verus!
