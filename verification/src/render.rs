//! The text of a report.

use vstd::prelude::*;

use crate::primitives::{b256_debug, b256_display, u256_display, B256, U256};
use crate::report::{
    AccountTrieDiff, HashedAccountDiff, ReportView, StorageDiff, StorageTrieDiff,
    StorageTrieDiffView, TrieDiffView, VerificationReport,
};
use crate::text::{bytes_hex, decimal, decimal_text};
use crate::trie::{path_debug, path_text};

verus! {

/// The number of differences of each kind that a report lists, unless it lists all.
pub const LISTED_DIFFERENCES: usize = 10;

/// The title of a report, up to the number of the block.
pub const TITLE: &'static str = "\n╔════════════════════════════════════════════════════════════════╗\n║          Proofs Storage Verification Report                   ║\n╚════════════════════════════════════════════════════════════════╝\n\nBlock Number: ";

/// The rule below the title.
pub const TITLE_RULE: &'static str = "\n\n─────────────────────────────────────────────────────────────────\n";

/// The rule below the differences.
pub const END_RULE: &'static str = "─────────────────────────────────────────────────────────────────\n\n";

/// The heading of a section, up to the number of differences.
pub const ACCOUNT_TRIE_HEADING: &'static str = "┌─ Account Trie Differences (";

/// The rest of the heading.
pub const ACCOUNT_TRIE_RULE: &'static str = ") ─────────────────────────\n";

/// The heading of a section, up to the number of differences.
pub const HASHED_ACCOUNTS_HEADING: &'static str = "┌─ Hashed Account Differences (";

/// The rest of the heading.
pub const HASHED_ACCOUNTS_RULE: &'static str = ") ───────────────────────\n";

/// The heading of a section, up to the number of differences.
pub const STORAGE_TRIE_HEADING: &'static str = "┌─ Storage Trie Differences (";

/// The rest of the heading.
pub const STORAGE_TRIE_RULE: &'static str = ") ─────────────────────────\n";

/// The heading of a section, up to the number of differences.
pub const STORAGE_HEADING: &'static str = "┌─ Storage Differences (";

/// The rest of the heading.
pub const STORAGE_RULE: &'static str = ") ──────────────────────────────\n";

/// The text of a word: the prefix `0x` and its bytes in hexadecimal notation.
pub open spec fn word_text(word: B256) -> Seq<char> {
    "0x"@ + bytes_hex(word.bytes@)
}

/// The lines that show both sides of a difference.
pub open spec fn sides_text(canonical: Seq<char>, proofs: Seq<char>) -> Seq<char> {
    "    Canonical: "@ + canonical + "\n    Proofs:    "@ + proofs + "\n\n"@
}

/// The lines of a difference between the account tries.
pub open spec fn account_trie_diff_text(diff: TrieDiffView) -> Seq<char> {
    "  Path: "@ + path_text(diff.path) + "\n"@ + sides_text(
        diff.canonical_value,
        diff.proofs_value,
    )
}

/// The line of a value of an account that differs, or nothing.
pub open spec fn value_text(label: Seq<char>, values: Option<(Seq<char>, Seq<char>)>) -> Seq<char> {
    match values {
        Some((canonical, proofs)) => {
            label + "canonical="@ + canonical + ", proofs="@ + proofs + "\n"@
        },
        None => Seq::empty(),
    }
}

/// The texts of two numbers.
pub open spec fn number_texts(values: Option<(U256, U256)>) -> Option<(Seq<char>, Seq<char>)> {
    match values {
        Some((canonical, proofs)) => Some((decimal(canonical.value()), decimal(proofs.value()))),
        None => None,
    }
}

/// The texts of two nonces.
pub open spec fn nonce_texts(values: Option<(u64, u64)>) -> Option<(Seq<char>, Seq<char>)> {
    match values {
        Some((canonical, proofs)) => Some((decimal(canonical as nat), decimal(proofs as nat))),
        None => None,
    }
}

/// The texts of two words.
pub open spec fn word_texts(values: Option<(B256, B256)>) -> Option<(Seq<char>, Seq<char>)> {
    match values {
        Some((canonical, proofs)) => Some((word_text(canonical), word_text(proofs))),
        None => None,
    }
}

/// The lines of a difference between the values of an account.
pub open spec fn hashed_account_diff_text(diff: HashedAccountDiff) -> Seq<char> {
    "  Address: "@ + word_text(diff.address) + "\n"@ + value_text(
        "    Balance:      "@,
        number_texts(diff.balance_diff),
    ) + value_text("    Nonce:        "@, nonce_texts(diff.nonce_diff)) + value_text(
        "    Code Hash:    "@,
        word_texts(diff.code_hash_diff),
    ) + value_text("    Storage Root: "@, word_texts(diff.storage_root_diff)) + "\n"@
}

/// The lines of a difference between the storage tries of an account.
pub open spec fn storage_trie_diff_text(diff: StorageTrieDiffView) -> Seq<char> {
    "  Hashed Address: "@ + word_text(diff.hashed_address) + ", Path: "@ + path_text(diff.diff.path)
        + "\n"@ + sides_text(diff.diff.canonical_value, diff.diff.proofs_value)
}

/// The lines of a difference between the storage values of an account.
pub open spec fn storage_diff_text(diff: StorageDiff) -> Seq<char> {
    "  Hashed Address: "@ + word_text(diff.hashed_address) + ", Slot: "@ + word_text(diff.slot)
        + "\n"@ + sides_text(
        decimal(diff.canonical_value.value()),
        decimal(diff.proofs_value.value()),
    )
}

/// The number of differences of a kind that are listed.
pub open spec fn listed(count: nat, verbose: bool) -> nat {
    if verbose || count <= LISTED_DIFFERENCES {
        count
    } else {
        LISTED_DIFFERENCES as nat
    }
}

/// The differences of a kind: nothing where there is none, and else a heading with their
/// number, those that are listed, and how many are not.
pub open spec fn section_text(
    heading: Seq<char>,
    rule: Seq<char>,
    entries: Seq<Seq<char>>,
    verbose: bool,
) -> Seq<char> {
    if entries.len() == 0 {
        Seq::empty()
    } else {
        heading + decimal(entries.len()) + rule + entries.take(
            listed(entries.len(), verbose) as int,
        ).flatten() + if listed(entries.len(), verbose) < entries.len() {
            "  ... and "@ + decimal((entries.len() - LISTED_DIFFERENCES) as nat) + " more\n"@
        } else {
            Seq::empty()
        }
    }
}

/// The text of a report that found no difference: which comparisons were made. That of the
/// storage values is not mentioned.
pub open spec fn success_text(report: ReportView) -> Seq<char> {
    "\n✓ SUCCESS: No differences found!\n\nChecks performed:\n"@ + (
    if report.account_trie_compared {
        "  ✓ Account trie nodes\n"@
    } else {
        Seq::empty()
    }) + (if report.hashed_accounts_compared {
        "  ✓ Hashed account values\n"@
    } else {
        Seq::empty()
    }) + (if report.storage_trie_compared {
        "  ✓ Storage trie nodes\n"@
    } else {
        Seq::empty()
    })
}

/// The text of a report that found differences: their number, and the differences by kind.
pub open spec fn failure_text(report: ReportView, verbose: bool) -> Seq<char> {
    "\n✗ FAILED: "@ + decimal(report.total()) + " differences found\n\n"@ + section_text(
        ACCOUNT_TRIE_HEADING@,
        ACCOUNT_TRIE_RULE@,
        report.account_trie_diffs.map_values(|diff: TrieDiffView| account_trie_diff_text(diff)),
        verbose,
    ) + section_text(
        HASHED_ACCOUNTS_HEADING@,
        HASHED_ACCOUNTS_RULE@,
        report.hashed_account_diffs.map_values(
            |diff: HashedAccountDiff| hashed_account_diff_text(diff),
        ),
        verbose,
    ) + section_text(
        STORAGE_TRIE_HEADING@,
        STORAGE_TRIE_RULE@,
        report.storage_trie_diffs.map_values(
            |diff: StorageTrieDiffView| storage_trie_diff_text(diff),
        ),
        verbose,
    ) + section_text(
        STORAGE_HEADING@,
        STORAGE_RULE@,
        report.storage_diffs.map_values(|diff: StorageDiff| storage_diff_text(diff)),
        verbose,
    ) + END_RULE@
}

/// The text of a report.
pub open spec fn report_text(report: ReportView, verbose: bool) -> Seq<char> {
    TITLE@ + decimal(report.block_number as nat) + TITLE_RULE@ + if report.total() == 0 {
        success_text(report)
    } else {
        failure_text(report, verbose)
    }
}

/// A difference that can be listed in a report.
trait Listed {
    /// The lines of the difference.
    spec fn lines(&self) -> Seq<char>;

    /// Writes the lines of the difference.
    fn write(&self) -> (text: String)
        ensures
            text@ == self.lines(),
    ;
}

/// Adds the lines that show both sides of a difference.
fn append_sides(out: &mut String, canonical: &str, proofs: &str)
    ensures
        final(out)@ == old(out)@ + sides_text(canonical@, proofs@),
{
    out.append("    Canonical: ");
    out.append(canonical);
    out.append("\n    Proofs:    ");
    out.append(proofs);
    out.append("\n\n");
    assert(out@ =~= old(out)@ + sides_text(canonical@, proofs@));
}

impl Listed for AccountTrieDiff {
    spec fn lines(&self) -> Seq<char> {
        account_trie_diff_text(self@)
    }

    fn write(&self) -> (text: String) {
        let mut text = "  Path: ".to_owned();
        text.append(path_debug(&self.path).as_str());
        text.append("\n");
        append_sides(&mut text, self.canonical_value.as_str(), self.proofs_value.as_str());
        text
    }
}

/// Adds the line of a value of an account that differs.
fn append_value(out: &mut String, label: &str, canonical: &str, proofs: &str)
    ensures
        final(out)@ == old(out)@ + value_text(label@, Some((canonical@, proofs@))),
{
    out.append(label);
    out.append("canonical=");
    out.append(canonical);
    out.append(", proofs=");
    out.append(proofs);
    out.append("\n");
    assert(out@ =~= old(out)@ + value_text(label@, Some((canonical@, proofs@))));
}

impl Listed for HashedAccountDiff {
    spec fn lines(&self) -> Seq<char> {
        hashed_account_diff_text(*self)
    }

    fn write(&self) -> (text: String) {
        let mut text = "  Address: ".to_owned();
        text.append(b256_display(&self.address).as_str());
        text.append("\n");
        if let Some((canonical, proofs)) = &self.balance_diff {
            append_value(
                &mut text,
                "    Balance:      ",
                u256_display(canonical).as_str(),
                u256_display(proofs).as_str(),
            );
        }
        assert(text@ =~= "  Address: "@ + word_text(self.address) + "\n"@ + value_text(
            "    Balance:      "@,
            number_texts(self.balance_diff),
        ));
        let ghost balance = text@;
        if let Some((canonical, proofs)) = &self.nonce_diff {
            append_value(
                &mut text,
                "    Nonce:        ",
                decimal_text(*canonical).as_str(),
                decimal_text(*proofs).as_str(),
            );
        }
        assert(text@ =~= balance + value_text(
            "    Nonce:        "@,
            nonce_texts(self.nonce_diff),
        ));
        let ghost nonce = text@;
        if let Some((canonical, proofs)) = &self.code_hash_diff {
            append_value(
                &mut text,
                "    Code Hash:    ",
                b256_display(canonical).as_str(),
                b256_display(proofs).as_str(),
            );
        }
        assert(text@ =~= nonce + value_text(
            "    Code Hash:    "@,
            word_texts(self.code_hash_diff),
        ));
        let ghost code_hash = text@;
        if let Some((canonical, proofs)) = &self.storage_root_diff {
            append_value(
                &mut text,
                "    Storage Root: ",
                b256_display(canonical).as_str(),
                b256_display(proofs).as_str(),
            );
        }
        assert(text@ =~= code_hash + value_text(
            "    Storage Root: "@,
            word_texts(self.storage_root_diff),
        ));
        text.append("\n");
        text
    }
}

impl Listed for StorageTrieDiff {
    spec fn lines(&self) -> Seq<char> {
        storage_trie_diff_text(self@)
    }

    fn write(&self) -> (text: String) {
        let mut text = "  Hashed Address: ".to_owned();
        text.append(b256_debug(&self.hashed_address).as_str());
        text.append(", Path: ");
        text.append(path_debug(&self.path).as_str());
        text.append("\n");
        append_sides(&mut text, self.canonical_value.as_str(), self.proofs_value.as_str());
        text
    }
}

impl Listed for StorageDiff {
    spec fn lines(&self) -> Seq<char> {
        storage_diff_text(*self)
    }

    fn write(&self) -> (text: String) {
        let mut text = "  Hashed Address: ".to_owned();
        text.append(b256_debug(&self.hashed_address).as_str());
        text.append(", Slot: ");
        text.append(b256_display(&self.slot).as_str());
        text.append("\n");
        append_sides(
            &mut text,
            u256_display(&self.canonical_value).as_str(),
            u256_display(&self.proofs_value).as_str(),
        );
        text
    }
}

/// The lines of each of a number of differences.
spec fn all_lines<D: Listed>(diffs: Seq<D>) -> Seq<Seq<char>> {
    diffs.map_values(|diff: D| diff.lines())
}

/// Writes the differences of a kind.
fn section<D: Listed>(heading: &str, rule: &str, diffs: &Vec<D>, verbose: bool) -> (text: String)
    ensures
        text@ == section_text(heading@, rule@, all_lines(diffs@), verbose),
{
    let count: usize = diffs.len();
    let ghost entries = all_lines(diffs@);
    let mut text = String::new();
    if count == 0 {
        return text;
    }
    text.append(heading);
    text.append(decimal_text(count as u64).as_str());
    text.append(rule);
    let ghost opening = text@;
    let shown: usize = if verbose || count <= LISTED_DIFFERENCES {
        count
    } else {
        LISTED_DIFFERENCES
    };
    let mut i: usize = 0;
    assert(opening =~= heading@ + decimal(count as nat) + rule@);
    assert(entries.take(0).flatten() =~= Seq::<char>::empty());
    while i < shown
        invariant
            i <= shown <= count,
            count == diffs.len(),
            entries == all_lines(diffs@),
            text@ == opening + entries.take(i as int).flatten(),
        decreases shown - i,
    {
        proof {
            assert(entries.take(i + 1) =~= entries.take(i as int).push(entries[i as int]));
            entries.take(i as int).lemma_flatten_push(entries[i as int]);
        }
        text.append(diffs[i].write().as_str());
        assert(text@ =~= opening + entries.take(i + 1).flatten());
        i = i + 1;
    }
    let ghost listing = text@;
    if shown < count {
        text.append("  ... and ");
        text.append(decimal_text((count - LISTED_DIFFERENCES) as u64).as_str());
        text.append(" more\n");
        assert(text@ =~= listing + ("  ... and "@ + decimal((count - LISTED_DIFFERENCES) as nat)
            + " more\n"@));
    } else {
        assert(text@ =~= listing + Seq::<char>::empty());
    }
    text
}

impl VerificationReport {
    /// Writes which comparisons were made.
    fn success(&self) -> (text: String)
        ensures
            text@ == success_text(self@),
    {
        let mut text = "\n✓ SUCCESS: No differences found!\n\nChecks performed:\n".to_owned();
        if self.account_trie_compared {
            text.append("  ✓ Account trie nodes\n");
        }
        if self.hashed_accounts_compared {
            text.append("  ✓ Hashed account values\n");
        }
        if self.storage_trie_compared {
            text.append("  ✓ Storage trie nodes\n");
        }
        assert(text@ =~= success_text(self@));
        text
    }

    /// Writes the number of differences, and the differences by kind.
    fn failure(&self, verbose: bool) -> (text: String)
        requires
            self@.total() <= usize::MAX,
        ensures
            text@ == failure_text(self@, verbose),
    {
        proof {
            assert(all_lines(self.account_trie_diffs@) =~= self@.account_trie_diffs.map_values(
                |diff: TrieDiffView| account_trie_diff_text(diff),
            ));
            assert(all_lines(self.hashed_account_diffs@) =~= self@.hashed_account_diffs.map_values(
                |diff: HashedAccountDiff| hashed_account_diff_text(diff),
            ));
            assert(all_lines(self.storage_trie_diffs@) =~= self@.storage_trie_diffs.map_values(
                |diff: StorageTrieDiffView| storage_trie_diff_text(diff),
            ));
            assert(all_lines(self.storage_diffs@) =~= self@.storage_diffs.map_values(
                |diff: StorageDiff| storage_diff_text(diff),
            ));
        }
        let mut text = "\n✗ FAILED: ".to_owned();
        text.append(decimal_text(self.total_differences() as u64).as_str());
        text.append(" differences found\n\n");
        text.append(
            section(
                ACCOUNT_TRIE_HEADING,
                ACCOUNT_TRIE_RULE,
                &self.account_trie_diffs,
                verbose,
            ).as_str(),
        );
        text.append(
            section(
                HASHED_ACCOUNTS_HEADING,
                HASHED_ACCOUNTS_RULE,
                &self.hashed_account_diffs,
                verbose,
            ).as_str(),
        );
        text.append(
            section(
                STORAGE_TRIE_HEADING,
                STORAGE_TRIE_RULE,
                &self.storage_trie_diffs,
                verbose,
            ).as_str(),
        );
        text.append(
            section(
                STORAGE_HEADING,
                STORAGE_RULE,
                &self.storage_diffs,
                verbose,
            ).as_str(),
        );
        text.append(END_RULE);
        text
    }

    /// Writes the report. Unless it is verbose, it lists the first ten differences of each
    /// kind.
    pub fn render(&self, verbose: bool) -> (text: String)
        requires
            self@.total() <= usize::MAX,
        ensures
            text@ == report_text(self@, verbose),
    {
        let mut text = TITLE.to_owned();
        text.append(decimal_text(self.block_number).as_str());
        text.append(TITLE_RULE);
        if self.has_errors() {
            text.append(self.failure(verbose).as_str());
        } else {
            text.append(self.success().as_str());
        }
        text
    }
}

} // verus!
