use op_proofs_verify::command::{
    choose_block, confirm_block, require_block, BlockChoice, VerifyError,
};
use op_proofs_verify::text::decimal_text;

#[test]
fn numbers_are_written_in_decimal_notation() {
    assert_eq!(decimal_text(0), "0");
    assert_eq!(decimal_text(9), "9");
    assert_eq!(decimal_text(10), "10");
    assert_eq!(decimal_text(1234567890), "1234567890");
    assert_eq!(decimal_text(u64::MAX), "18446744073709551615");
}

#[test]
fn stores_at_the_same_block_are_verified_there() {
    assert_eq!(choose_block(7, 7), Ok(BlockChoice::Latest(7)));
}

#[test]
fn proofs_storage_that_is_ahead_has_to_go_back() {
    assert_eq!(choose_block(7, 9), Ok(BlockChoice::Historical(7)));
    assert_eq!(confirm_block(7, Some(3)), Ok(7));
    assert_eq!(confirm_block(7, Some(7)), Ok(7));
    assert_eq!(
        confirm_block(7, Some(8)),
        Err(VerifyError::CanonicalBeforeEarliest { canonical_latest: 7, proofs_earliest: 8 })
    );
    assert_eq!(confirm_block(7, None), Err(VerifyError::NoBlocks));
}

#[test]
fn proofs_storage_that_is_behind_is_not_verified() {
    assert_eq!(
        choose_block(9, 7),
        Err(VerifyError::ProofsBehind { canonical_latest: 9, proofs_latest: 7 })
    );
}

#[test]
fn proofs_storage_has_to_hold_a_block() {
    assert_eq!(require_block(Some(4)), Ok(4));
    assert_eq!(require_block(None), Err(VerifyError::NoBlocks));
}

#[test]
fn errors_have_messages() {
    assert_eq!(VerifyError::NoBlocks.message(), "No blocks in proofs storage");
    assert_eq!(
        VerifyError::CanonicalBeforeEarliest { canonical_latest: 7, proofs_earliest: 8 }.message(),
        "Canonical latest block 7 is earlier than earliest block in proof storage 8. Cannot verify."
    );
    assert_eq!(
        VerifyError::ProofsBehind { canonical_latest: 9, proofs_latest: 7 }.message(),
        "Proof storage is behind: canonical is at block 9 but proof storage is only at block 7. \
         Cannot verify - proof storage needs to catch up."
    );
    assert_eq!(
        VerifyError::DifferencesFound { total: 12 }.message(),
        "Verification failed with 12 total differences"
    );
}
