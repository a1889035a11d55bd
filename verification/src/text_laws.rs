//! What can be read back from the texts of numbers, words, paths, differences and reports.

use vstd::prelude::*;

use crate::command::{error_text, VerifyError};
use crate::entry_laws::law_value_of_number;
use crate::primitives::{B256, U256};
use crate::render::{
    account_trie_diff_text, hashed_account_diff_text, nonce_texts, number_texts, report_text,
    section_text, sides_text, storage_diff_text, storage_trie_diff_text, success_text, value_text,
    word_text, word_texts, ACCOUNT_TRIE_HEADING, ACCOUNT_TRIE_RULE, END_RULE,
    HASHED_ACCOUNTS_HEADING, HASHED_ACCOUNTS_RULE, LISTED_DIFFERENCES, STORAGE_HEADING,
    STORAGE_RULE, STORAGE_TRIE_HEADING, STORAGE_TRIE_RULE, TITLE, TITLE_RULE,
};
use crate::report::{
    HashedAccountDiff, ReportView, StorageDiff, StorageTrieDiffView, TrieDiffView,
};
use crate::text::{bytes_hex, decimal, digit_char, nibbles_hex};
use crate::trie::path_text;

verus! {

/// A part stands in a text at a position.
pub open spec fn holds_at(text: Seq<char>, part: Seq<char>, at: int) -> bool {
    &&& 0 <= at
    &&& at + part.len() <= text.len()
    &&& text.subrange(at, at + part.len()) == part
}

/// A part stands in a text.
pub open spec fn holds(text: Seq<char>, part: Seq<char>) -> bool {
    exists|at: int| holds_at(text, part, at)
}

/// The number that a sequence of decimal digits stands for.
pub open spec fn read_decimal(digits: Seq<char>) -> int
    decreases digits.len(),
{
    if digits.len() == 0 {
        0
    } else {
        10 * read_decimal(digits.drop_last()) + (digits.last() as int - '0' as int)
    }
}

/// A text in which a character does not occur.
pub open spec fn without(text: Seq<char>, character: char) -> bool {
    forall|i: int| 0 <= i < text.len() ==> text[i] != character
}

/// The digits are those of the decimal and of the hexadecimal notation, in lower case.
pub proof fn law_digits()
    ensures
        digit_char(0) == '0' && digit_char(1) == '1' && digit_char(2) == '2' && digit_char(3) == '3',
        digit_char(4) == '4' && digit_char(5) == '5' && digit_char(6) == '6' && digit_char(7) == '7',
        digit_char(8) == '8' && digit_char(9) == '9' && digit_char(10) == 'a' && digit_char(11)
            == 'b',
        digit_char(12) == 'c' && digit_char(13) == 'd' && digit_char(14) == 'e' && digit_char(15)
            == 'f',
{
}

/// The decimal notation of a number has at least one digit, nothing but digits, no zero in
/// front of another digit, and reads back as the number.
pub proof fn law_decimal_reads_back(number: nat)
    ensures
        decimal(number).len() > 0,
        forall|i: int|
            0 <= i < decimal(number).len() ==> '0' <= #[trigger] decimal(number)[i] <= '9',
        decimal(number).len() > 1 ==> decimal(number)[0] != '0',
        read_decimal(decimal(number)) == number,
    decreases number,
{
    reveal_with_fuel(read_decimal, 2);
    if number >= 10 {
        law_decimal_reads_back(number / 10);
        assert(decimal(number).drop_last() =~= decimal(number / 10));
        if decimal(number / 10).len() == 1 {
            assert(decimal(number / 10).drop_last() =~= Seq::<char>::empty());
            assert(read_decimal(decimal(number / 10)) == number / 10);
        }
    } else {
        assert(decimal(number).drop_last() =~= Seq::<char>::empty());
    }
}

/// Different numbers have different decimal notations.
pub proof fn law_decimal_tells_numbers_apart(number: nat, other: nat)
    ensures
        decimal(number) == decimal(other) <==> number == other,
{
    law_decimal_reads_back(number);
    law_decimal_reads_back(other);
}

/// The hexadecimal notation of nibbles is one digit for each, in their order, and different
/// nibbles have different notations.
pub proof fn law_nibbles_read_back(nibbles: Seq<u8>, other: Seq<u8>)
    requires
        forall|i: int| 0 <= i < nibbles.len() ==> nibbles[i] < 16,
        forall|i: int| 0 <= i < other.len() ==> other[i] < 16,
    ensures
        nibbles_hex(nibbles).len() == nibbles.len(),
        forall|i: int|
            0 <= i < nibbles.len() ==> #[trigger] nibbles_hex(nibbles)[i] == digit_char(
                nibbles[i] as nat,
            ),
        nibbles_hex(nibbles) == nibbles_hex(other) <==> nibbles == other,
{
    if nibbles_hex(nibbles) == nibbles_hex(other) {
        assert(nibbles.len() == nibbles_hex(nibbles).len());
        assert(other.len() == nibbles_hex(other).len());
        assert forall|i: int| 0 <= i < nibbles.len() implies nibbles[i] == other[i] by {
            assert(nibbles_hex(nibbles)[i] == digit_char(nibbles[i] as nat));
            assert(nibbles_hex(other)[i] == digit_char(other[i] as nat));
        }
        assert(nibbles =~= other);
    }
}

/// The hexadecimal notation of bytes is two digits for each, the high one first, and
/// different bytes have different notations.
pub proof fn law_bytes_read_back(bytes: Seq<u8>, other: Seq<u8>)
    ensures
        bytes_hex(bytes).len() == 2 * bytes.len(),
        forall|i: int|
            0 <= i < bytes.len() ==> {
                &&& bytes_hex(bytes)[2 * i] == digit_char((#[trigger] bytes[i] / 16) as nat)
                &&& bytes_hex(bytes)[2 * i + 1] == digit_char((bytes[i] % 16) as nat)
            },
        bytes_hex(bytes) == bytes_hex(other) <==> bytes == other,
{
    assert forall|i: int| 0 <= i < bytes.len() implies {
        &&& bytes_hex(bytes)[2 * i] == digit_char((#[trigger] bytes[i] / 16) as nat)
        &&& bytes_hex(bytes)[2 * i + 1] == digit_char((bytes[i] % 16) as nat)
    } by {
        assert((2 * i) / 2 == i && (2 * i + 1) / 2 == i);
    }
    if bytes_hex(bytes) == bytes_hex(other) {
        assert(bytes_hex(bytes).len() == 2 * bytes.len());
        assert(bytes_hex(other).len() == 2 * other.len());
        assert forall|i: int| 0 <= i < bytes.len() implies bytes[i] == other[i] by {
            assert((2 * i) / 2 == i && (2 * i + 1) / 2 == i);
            assert(bytes_hex(bytes)[2 * i] == bytes_hex(other)[2 * i]);
            assert(bytes_hex(bytes)[2 * i + 1] == bytes_hex(other)[2 * i + 1]);
            assert(digit_char((bytes[i] / 16) as nat) == digit_char((other[i] / 16) as nat));
            assert(digit_char((bytes[i] % 16) as nat) == digit_char((other[i] % 16) as nat));
            assert(bytes[i] / 16 == other[i] / 16);
            assert(bytes[i] % 16 == other[i] % 16);
        }
        assert(bytes =~= other);
    }
}

/// The text of a word is the prefix and two digits for each byte, and different words have
/// different texts.
pub proof fn law_words_read_back(word: B256, other: B256)
    ensures
        word_text(word).len() == 66,
        word_text(word)[0] == '0' && word_text(word)[1] == 'x',
        word_text(word).skip(2) == bytes_hex(word.bytes@),
        word_text(word) == word_text(other) <==> word == other,
{
    reveal_strlit("0x");
    assert(word_text(word).skip(2) =~= bytes_hex(word.bytes@));
    assert(word_text(other).skip(2) =~= bytes_hex(other.bytes@));
    if word_text(word) == word_text(other) {
        law_bytes_read_back(word.bytes@, other.bytes@);
        assert(word.bytes =~= other.bytes);
    }
}

/// The text of a path names it a path and has one digit for each nibble, and different paths
/// have different texts.
pub proof fn law_paths_read_back(path: Seq<u8>, other: Seq<u8>)
    requires
        forall|i: int| 0 <= i < path.len() ==> path[i] < 16,
        forall|i: int| 0 <= i < other.len() ==> other[i] < 16,
    ensures
        path_text(path) == "Nibbles(0x"@ + nibbles_hex(path) + ")"@,
        path_text(path).len() == path.len() + 11,
        path_text(path) == path_text(other) <==> path == other,
{
    reveal_strlit("Nibbles(0x");
    reveal_strlit(")");
    if path_text(path) == path_text(other) {
        assert(nibbles_hex(path).len() == path.len() && nibbles_hex(other).len() == other.len());
        assert(path_text(path).subrange(10, 10 + path.len() as int) =~= nibbles_hex(path));
        assert(path_text(other).subrange(10, 10 + other.len() as int) =~= nibbles_hex(other));
        law_nibbles_read_back(path, other);
    }
}

/// What stands before the first occurrence of a character, and what stands from there on, can
/// be read back.
proof fn lemma_read_up_to(
    first: Seq<char>,
    rest: Seq<char>,
    other_first: Seq<char>,
    other_rest: Seq<char>,
    character: char,
)
    requires
        without(first, character),
        without(other_first, character),
        rest.len() > 0 && rest[0] == character,
        other_rest.len() > 0 && other_rest[0] == character,
        first + rest == other_first + other_rest,
    ensures
        first == other_first,
        rest == other_rest,
{
    let text = first + rest;
    let other = other_first + other_rest;
    if first.len() < other_first.len() {
        assert(text[first.len() as int] == character);
        assert(other[first.len() as int] == other_first[first.len() as int]);
    }
    if other_first.len() < first.len() {
        assert(other[other_first.len() as int] == character);
        assert(text[other_first.len() as int] == first[other_first.len() as int]);
    }
    assert(text.take(first.len() as int) =~= first);
    assert(other.take(first.len() as int) =~= other_first);
    assert(text.skip(first.len() as int) =~= rest);
    assert(other.skip(first.len() as int) =~= other_rest);
}

/// A part stands in what it is joined to.
proof fn lemma_holds_joined(before: Seq<char>, part: Seq<char>, behind: Seq<char>)
    ensures
        holds(before + part + behind, part),
{
    let text = before + part + behind;
    assert(text.subrange(before.len() as int, before.len() as int + part.len()) =~= part);
    assert(holds_at(text, part, before.len() as int));
}

/// What stands in a part of a text stands in the text.
proof fn lemma_holds_within(text: Seq<char>, middle: Seq<char>, part: Seq<char>)
    requires
        holds(text, middle),
        holds(middle, part),
    ensures
        holds(text, part),
{
    let outer = choose|at: int| holds_at(text, middle, at);
    let inner = choose|at: int| holds_at(middle, part, at);
    assert(text.subrange(outer + inner, outer + inner + part.len()) =~= middle.subrange(
        inner,
        inner + part.len(),
    ));
    assert(holds_at(text, part, outer + inner));
}

/// What is written on either side of a value has no comma and no end of a line in it.
proof fn lemma_plain_numbers(number: nat)
    ensures
        without(decimal(number), ','),
        without(decimal(number), '\n'),
        without(decimal(number), ' '),
        without(decimal(number), '.'),
{
    law_decimal_reads_back(number);
}

/// What is written of a word has no comma and no end of a line in it.
proof fn lemma_plain_words(word: B256)
    ensures
        without(word_text(word), ','),
        without(word_text(word), '\n'),
{
    reveal_strlit("0x");
    assert forall|i: int| 0 <= i < word_text(word).len() implies word_text(word)[i] != ','
        && word_text(word)[i] != '\n' by {
        if i >= 2 {
            assert(word_text(word)[i] == bytes_hex(word.bytes@)[i - 2]);
        }
    }
}

/// Both texts of a value have no comma and no end of a line in them.
spec fn plain(values: Option<(Seq<char>, Seq<char>)>) -> bool {
    match values {
        Some((canonical, proofs)) => {
            &&& without(canonical, ',') && without(canonical, '\n')
            &&& without(proofs, ',') && without(proofs, '\n')
        },
        None => true,
    }
}

/// A text that does not go on with a label, told by the fifth character.
spec fn other_label(text: Seq<char>, character: char) -> bool {
    text.len() <= 4 || text[4] != character
}

/// The line of a value can be read back from what begins with it.
proof fn lemma_read_value(
    label: Seq<char>,
    values: Option<(Seq<char>, Seq<char>)>,
    rest: Seq<char>,
    other: Option<(Seq<char>, Seq<char>)>,
    other_rest: Seq<char>,
)
    requires
        label.len() == 18,
        plain(values),
        plain(other),
        other_label(rest, label[4]),
        other_label(other_rest, label[4]),
        value_text(label, values) + rest == value_text(label, other) + other_rest,
    ensures
        values == other,
        rest == other_rest,
{
    reveal_strlit("canonical=");
    reveal_strlit(", proofs=");
    reveal_strlit("\n");
    let text = value_text(label, values) + rest;
    let other_text = value_text(label, other) + other_rest;
    if values is None {
        assert(text =~= rest);
        if other is Some {
            assert(other_text[4] == label[4]);
        } else {
            assert(other_text =~= other_rest);
        }
    } else if other is None {
        assert(other_text =~= other_rest);
        assert(text[4] == label[4]);
    } else {
        let (canonical, proofs) = values.unwrap();
        let (other_canonical, other_proofs) = other.unwrap();
        let end = "\n"@ + rest;
        let other_end = "\n"@ + other_rest;
        let second = ", proofs="@ + (proofs + end);
        let other_second = ", proofs="@ + (other_proofs + other_end);
        assert(text.skip(28) =~= canonical + second);
        assert(other_text.skip(28) =~= other_canonical + other_second);
        lemma_read_up_to(canonical, second, other_canonical, other_second, ',');
        assert(second.skip(9) =~= proofs + end);
        assert(other_second.skip(9) =~= other_proofs + other_end);
        lemma_read_up_to(proofs, end, other_proofs, other_end, '\n');
        assert(end.skip(1) =~= rest);
        assert(other_end.skip(1) =~= other_rest);
    }
}

/// What goes on with the line of another value, or with none, does not go on with a label.
proof fn lemma_other_label(
    label: Seq<char>,
    values: Option<(Seq<char>, Seq<char>)>,
    rest: Seq<char>,
    character: char,
)
    requires
        label.len() == 18,
        label[4] != character,
        other_label(rest, character),
    ensures
        other_label(value_text(label, values) + rest, character),
{
    if values is None {
        assert(value_text(label, values) + rest =~= rest);
    }
}

/// Different pairs of numbers have different texts, and those are plain.
proof fn lemma_number_texts(values: Option<(U256, U256)>, other: Option<(U256, U256)>)
    ensures
        plain(number_texts(values)),
        number_texts(values) == number_texts(other) ==> values == other,
{
    if let Some((canonical, proofs)) = values {
        lemma_plain_numbers(canonical.value());
        lemma_plain_numbers(proofs.value());
        if let Some((other_canonical, other_proofs)) = other {
            law_decimal_tells_numbers_apart(canonical.value(), other_canonical.value());
            law_decimal_tells_numbers_apart(proofs.value(), other_proofs.value());
            law_value_of_number(canonical, other_canonical);
            law_value_of_number(proofs, other_proofs);
        }
    }
}

/// Different pairs of nonces have different texts, and those are plain.
proof fn lemma_nonce_texts(values: Option<(u64, u64)>, other: Option<(u64, u64)>)
    ensures
        plain(nonce_texts(values)),
        nonce_texts(values) == nonce_texts(other) ==> values == other,
{
    if let Some((canonical, proofs)) = values {
        lemma_plain_numbers(canonical as nat);
        lemma_plain_numbers(proofs as nat);
        if let Some((other_canonical, other_proofs)) = other {
            law_decimal_tells_numbers_apart(canonical as nat, other_canonical as nat);
            law_decimal_tells_numbers_apart(proofs as nat, other_proofs as nat);
        }
    }
}

/// Different pairs of words have different texts, and those are plain.
proof fn lemma_word_texts(values: Option<(B256, B256)>, other: Option<(B256, B256)>)
    ensures
        plain(word_texts(values)),
        word_texts(values) == word_texts(other) ==> values == other,
{
    if let Some((canonical, proofs)) = values {
        lemma_plain_words(canonical);
        lemma_plain_words(proofs);
        if let Some((other_canonical, other_proofs)) = other {
            law_words_read_back(canonical, other_canonical);
            law_words_read_back(proofs, other_proofs);
        }
    }
}

/// The lines of a difference between the values of an account, behind that of the address.
spec fn value_lines(diff: HashedAccountDiff) -> Seq<char> {
    value_text("    Balance:      "@, number_texts(diff.balance_diff)) + nonce_and_words(diff)
}

/// The lines behind that of the balance.
spec fn nonce_and_words(diff: HashedAccountDiff) -> Seq<char> {
    value_text("    Nonce:        "@, nonce_texts(diff.nonce_diff)) + code_and_root(diff)
}

/// The lines behind that of the nonce.
spec fn code_and_root(diff: HashedAccountDiff) -> Seq<char> {
    value_text("    Code Hash:    "@, word_texts(diff.code_hash_diff)) + root_line(diff)
}

/// The lines behind that of the code hash.
spec fn root_line(diff: HashedAccountDiff) -> Seq<char> {
    value_text("    Storage Root: "@, word_texts(diff.storage_root_diff)) + "\n"@
}

/// The lines of a difference between the values of an account go on with those of its values
/// behind that of its address.
proof fn lemma_value_lines(diff: HashedAccountDiff)
    ensures
        hashed_account_diff_text(diff).subrange(11, 77) == word_text(diff.address),
        hashed_account_diff_text(diff).skip(78) == value_lines(diff),
        other_label(root_line(diff), 'B'),
        other_label(root_line(diff), 'N'),
        other_label(root_line(diff), 'C'),
        other_label(code_and_root(diff), 'B'),
        other_label(code_and_root(diff), 'N'),
        other_label(nonce_and_words(diff), 'B'),
{
    reveal_strlit("  Address: ");
    reveal_strlit("\n");
    reveal_strlit("    Nonce:        ");
    reveal_strlit("    Code Hash:    ");
    reveal_strlit("    Storage Root: ");
    law_words_read_back(diff.address, diff.address);
    let text = hashed_account_diff_text(diff);
    assert(text.subrange(11, 77) =~= word_text(diff.address));
    assert(text.skip(78) =~= value_lines(diff));
    let root = word_texts(diff.storage_root_diff);
    lemma_other_label("    Storage Root: "@, root, "\n"@, 'B');
    lemma_other_label("    Storage Root: "@, root, "\n"@, 'N');
    lemma_other_label("    Storage Root: "@, root, "\n"@, 'C');
    let code = word_texts(diff.code_hash_diff);
    lemma_other_label("    Code Hash:    "@, code, root_line(diff), 'B');
    lemma_other_label("    Code Hash:    "@, code, root_line(diff), 'N');
    let nonce = nonce_texts(diff.nonce_diff);
    lemma_other_label("    Nonce:        "@, nonce, code_and_root(diff), 'B');
}

/// Two differences between accounts have the same lines exactly where they are the same in
/// the address, the balance, the nonce, the code hash and the storage root.
pub proof fn law_account_lines_tell_differences_apart(
    diff: HashedAccountDiff,
    other: HashedAccountDiff,
)
    ensures
        hashed_account_diff_text(diff) == hashed_account_diff_text(other) <==> {
            &&& diff.address == other.address
            &&& diff.balance_diff == other.balance_diff
            &&& diff.nonce_diff == other.nonce_diff
            &&& diff.code_hash_diff == other.code_hash_diff
            &&& diff.storage_root_diff == other.storage_root_diff
        },
{
    if hashed_account_diff_text(diff) == hashed_account_diff_text(other) {
        reveal_strlit("\n");
        reveal_strlit("    Balance:      ");
        reveal_strlit("    Nonce:        ");
        reveal_strlit("    Code Hash:    ");
        reveal_strlit("    Storage Root: ");
        lemma_value_lines(diff);
        lemma_value_lines(other);
        law_words_read_back(diff.address, other.address);
        lemma_number_texts(diff.balance_diff, other.balance_diff);
        lemma_number_texts(other.balance_diff, diff.balance_diff);
        lemma_read_value(
            "    Balance:      "@,
            number_texts(diff.balance_diff),
            nonce_and_words(diff),
            number_texts(other.balance_diff),
            nonce_and_words(other),
        );
        lemma_nonce_texts(diff.nonce_diff, other.nonce_diff);
        lemma_nonce_texts(other.nonce_diff, diff.nonce_diff);
        lemma_read_value(
            "    Nonce:        "@,
            nonce_texts(diff.nonce_diff),
            code_and_root(diff),
            nonce_texts(other.nonce_diff),
            code_and_root(other),
        );
        lemma_word_texts(diff.code_hash_diff, other.code_hash_diff);
        lemma_word_texts(other.code_hash_diff, diff.code_hash_diff);
        lemma_read_value(
            "    Code Hash:    "@,
            word_texts(diff.code_hash_diff),
            root_line(diff),
            word_texts(other.code_hash_diff),
            root_line(other),
        );
        lemma_word_texts(diff.storage_root_diff, other.storage_root_diff);
        lemma_word_texts(other.storage_root_diff, diff.storage_root_diff);
        lemma_read_value(
            "    Storage Root: "@,
            word_texts(diff.storage_root_diff),
            "\n"@,
            word_texts(other.storage_root_diff),
            "\n"@,
        );
    }
}

/// What stands in a text stands in any text that begins with it.
proof fn lemma_holds_longer(text: Seq<char>, part: Seq<char>, more: Seq<char>)
    requires
        holds(text, part),
    ensures
        holds(text + more, part),
{
    let at = choose|at: int| holds_at(text, part, at);
    assert((text + more).subrange(at, at + part.len()) =~= text.subrange(at, at + part.len()));
    assert(holds_at(text + more, part, at));
}

/// What a text ends with stands in it.
proof fn lemma_holds_end(before: Seq<char>, part: Seq<char>)
    ensures
        holds(before + part, part),
{
    let text = before + part;
    assert(text.subrange(before.len() as int, before.len() as int + part.len()) =~= part);
    assert(holds_at(text, part, before.len() as int));
}

/// The lines of a difference between accounts begin with that of the address and hold that
/// of each value.
proof fn lemma_account_lines(diff: HashedAccountDiff)
    ensures
        holds_at(
            hashed_account_diff_text(diff),
            "  Address: 0x"@ + bytes_hex(diff.address.bytes@) + "\n"@,
            0,
        ),
        holds(
            hashed_account_diff_text(diff),
            value_text("    Balance:      "@, number_texts(diff.balance_diff)),
        ),
        holds(
            hashed_account_diff_text(diff),
            value_text("    Nonce:        "@, nonce_texts(diff.nonce_diff)),
        ),
        holds(
            hashed_account_diff_text(diff),
            value_text("    Code Hash:    "@, word_texts(diff.code_hash_diff)),
        ),
        holds(
            hashed_account_diff_text(diff),
            value_text("    Storage Root: "@, word_texts(diff.storage_root_diff)),
        ),
{
    let address = "  Address: "@ + word_text(diff.address) + "\n"@;
    let line = "  Address: 0x"@ + bytes_hex(diff.address.bytes@) + "\n"@;
    assert(address =~= line) by {
        reveal_strlit("  Address: ");
        reveal_strlit("  Address: 0x");
        reveal_strlit("0x");
    }
    let balance = value_text("    Balance:      "@, number_texts(diff.balance_diff));
    let nonce = value_text("    Nonce:        "@, nonce_texts(diff.nonce_diff));
    let code_hash = value_text("    Code Hash:    "@, word_texts(diff.code_hash_diff));
    let root = value_text("    Storage Root: "@, word_texts(diff.storage_root_diff));
    let text = hashed_account_diff_text(diff);
    assert(text.subrange(0, line.len() as int) =~= line);
    lemma_holds_end(address, balance);
    lemma_holds_longer(address + balance, balance, nonce);
    lemma_holds_longer(address + balance + nonce, balance, code_hash);
    lemma_holds_longer(address + balance + nonce + code_hash, balance, root);
    lemma_holds_longer(address + balance + nonce + code_hash + root, balance, "\n"@);
    lemma_holds_end(address + balance, nonce);
    lemma_holds_longer(address + balance + nonce, nonce, code_hash);
    lemma_holds_longer(address + balance + nonce + code_hash, nonce, root);
    lemma_holds_longer(address + balance + nonce + code_hash + root, nonce, "\n"@);
    lemma_holds_end(address + balance + nonce, code_hash);
    lemma_holds_longer(address + balance + nonce + code_hash, code_hash, root);
    lemma_holds_longer(address + balance + nonce + code_hash + root, code_hash, "\n"@);
    lemma_holds_end(address + balance + nonce + code_hash, root);
    lemma_holds_longer(address + balance + nonce + code_hash + root, root, "\n"@);
}

/// The line of a code hash, with the prefixes of the words.
proof fn lemma_code_hash_line(canonical: B256, proofs: B256)
    ensures
        value_text("    Code Hash:    "@, word_texts(Some((canonical, proofs))))
            == "    Code Hash:    canonical=0x"@ + bytes_hex(canonical.bytes@) + ", proofs=0x"@
            + bytes_hex(proofs.bytes@) + "\n"@,
{
    reveal_strlit("    Code Hash:    ");
    reveal_strlit("    Code Hash:    canonical=0x");
    reveal_strlit("canonical=");
    reveal_strlit(", proofs=");
    reveal_strlit(", proofs=0x");
    reveal_strlit("0x");
}

/// The line of a storage root, with the prefixes of the words.
proof fn lemma_storage_root_line(canonical: B256, proofs: B256)
    ensures
        value_text("    Storage Root: "@, word_texts(Some((canonical, proofs))))
            == "    Storage Root: canonical=0x"@ + bytes_hex(canonical.bytes@) + ", proofs=0x"@
            + bytes_hex(proofs.bytes@) + "\n"@,
{
    reveal_strlit("    Storage Root: ");
    reveal_strlit("    Storage Root: canonical=0x");
    reveal_strlit("canonical=");
    reveal_strlit(", proofs=");
    reveal_strlit(", proofs=0x");
    reveal_strlit("0x");
}

/// The lines of a difference between accounts hold the address, and of each value that
/// differs the line with its label, the canonical value and that of the proofs, in this
/// order, whatever the other values are.
pub proof fn law_account_lines_hold_values(diff: HashedAccountDiff)
    ensures
        holds_at(
            hashed_account_diff_text(diff),
            "  Address: 0x"@ + bytes_hex(diff.address.bytes@) + "\n"@,
            0,
        ),
        diff.balance_diff matches Some((canonical, proofs)) ==> holds(
            hashed_account_diff_text(diff),
            "    Balance:      canonical="@ + decimal(canonical.value()) + ", proofs="@ + decimal(
                proofs.value(),
            ) + "\n"@,
        ),
        diff.nonce_diff matches Some((canonical, proofs)) ==> holds(
            hashed_account_diff_text(diff),
            "    Nonce:        canonical="@ + decimal(canonical as nat) + ", proofs="@ + decimal(
                proofs as nat,
            ) + "\n"@,
        ),
        diff.code_hash_diff matches Some((canonical, proofs)) ==> holds(
            hashed_account_diff_text(diff),
            "    Code Hash:    canonical=0x"@ + bytes_hex(canonical.bytes@) + ", proofs=0x"@
                + bytes_hex(proofs.bytes@) + "\n"@,
        ),
        diff.storage_root_diff matches Some((canonical, proofs)) ==> holds(
            hashed_account_diff_text(diff),
            "    Storage Root: canonical=0x"@ + bytes_hex(canonical.bytes@) + ", proofs=0x"@
                + bytes_hex(proofs.bytes@) + "\n"@,
        ),
{
    lemma_account_lines(diff);
    if let Some((canonical, proofs)) = diff.balance_diff {
        reveal_strlit("canonical=");
        reveal_strlit("    Balance:      ");
        reveal_strlit("    Balance:      canonical=");
        assert("    Balance:      canonical="@ =~= "    Balance:      "@ + "canonical="@);
    }
    if let Some((canonical, proofs)) = diff.nonce_diff {
        reveal_strlit("canonical=");
        reveal_strlit("    Nonce:        ");
        reveal_strlit("    Nonce:        canonical=");
        assert("    Nonce:        canonical="@ =~= "    Nonce:        "@ + "canonical="@);
    }
    if let Some((canonical, proofs)) = diff.code_hash_diff {
        lemma_code_hash_line(canonical, proofs);
    }
    if let Some((canonical, proofs)) = diff.storage_root_diff {
        lemma_storage_root_line(canonical, proofs);
    }
}

/// The lines of a difference between accounts are that of the address, those of the values
/// that differ in the order balance, nonce, code hash and storage root, and an empty one:
/// there is none of a value that does not differ, and no other line.
pub proof fn law_account_lines_in_order(
    diff: HashedAccountDiff,
    balance: Seq<char>,
    nonce: Seq<char>,
    code_hash: Seq<char>,
    storage_root: Seq<char>,
)
    requires
        diff.balance_diff is None ==> balance.len() == 0,
        diff.balance_diff matches Some((canonical, proofs)) ==> balance
            == "    Balance:      canonical="@ + decimal(canonical.value()) + ", proofs="@
            + decimal(proofs.value()) + "\n"@,
        diff.nonce_diff is None ==> nonce.len() == 0,
        diff.nonce_diff matches Some((canonical, proofs)) ==> nonce
            == "    Nonce:        canonical="@ + decimal(canonical as nat) + ", proofs="@ + decimal(
            proofs as nat,
        ) + "\n"@,
        diff.code_hash_diff is None ==> code_hash.len() == 0,
        diff.code_hash_diff matches Some((canonical, proofs)) ==> code_hash
            == "    Code Hash:    canonical=0x"@ + bytes_hex(canonical.bytes@) + ", proofs=0x"@
            + bytes_hex(proofs.bytes@) + "\n"@,
        diff.storage_root_diff is None ==> storage_root.len() == 0,
        diff.storage_root_diff matches Some((canonical, proofs)) ==> storage_root
            == "    Storage Root: canonical=0x"@ + bytes_hex(canonical.bytes@) + ", proofs=0x"@
            + bytes_hex(proofs.bytes@) + "\n"@,
    ensures
        hashed_account_diff_text(diff) == "  Address: 0x"@ + bytes_hex(diff.address.bytes@) + "\n"@
            + balance + nonce + code_hash + storage_root + "\n"@,
{
    let address = "  Address: 0x"@ + bytes_hex(diff.address.bytes@) + "\n"@;
    assert(address =~= "  Address: "@ + word_text(diff.address) + "\n"@) by {
        reveal_strlit("  Address: ");
        reveal_strlit("  Address: 0x");
        reveal_strlit("0x");
    }
    assert(balance =~= value_text("    Balance:      "@, number_texts(diff.balance_diff))) by {
        reveal_strlit("canonical=");
        reveal_strlit("    Balance:      ");
        reveal_strlit("    Balance:      canonical=");
        assert("    Balance:      canonical="@ =~= "    Balance:      "@ + "canonical="@);
    }
    assert(nonce =~= value_text("    Nonce:        "@, nonce_texts(diff.nonce_diff))) by {
        reveal_strlit("canonical=");
        reveal_strlit("    Nonce:        ");
        reveal_strlit("    Nonce:        canonical=");
        assert("    Nonce:        canonical="@ =~= "    Nonce:        "@ + "canonical="@);
    }
    assert(code_hash =~= value_text("    Code Hash:    "@, word_texts(diff.code_hash_diff))) by {
        if let Some((canonical, proofs)) = diff.code_hash_diff {
            lemma_code_hash_line(canonical, proofs);
        }
    }
    assert(storage_root =~= value_text(
        "    Storage Root: "@,
        word_texts(diff.storage_root_diff),
    )) by {
        if let Some((canonical, proofs)) = diff.storage_root_diff {
            lemma_storage_root_line(canonical, proofs);
        }
    }
}

/// The lines of a difference between account tries are its path and both its sides, the
/// canonical one first, whatever their texts are.
pub proof fn law_account_trie_lines(diff: TrieDiffView)
    ensures
        account_trie_diff_text(diff) == "  Path: "@ + path_text(diff.path) + "\n    Canonical: "@
            + diff.canonical_value + "\n    Proofs:    "@ + diff.proofs_value + "\n\n"@,
{
    reveal_strlit("\n");
    reveal_strlit("    Canonical: ");
    reveal_strlit("\n    Canonical: ");
    let before = "  Path: "@ + path_text(diff.path);
    assert(before + "\n"@ + sides_text(diff.canonical_value, diff.proofs_value) =~= before
        + "\n    Canonical: "@ + diff.canonical_value + "\n    Proofs:    "@ + diff.proofs_value
        + "\n\n"@);
}

/// The lines of a difference between the storage tries of an account are the account, and
/// else those of the same difference between account tries.
pub proof fn law_storage_trie_lines(diff: StorageTrieDiffView)
    ensures
        storage_trie_diff_text(diff) == "  Hashed Address: 0x"@ + bytes_hex(
            diff.hashed_address.bytes@,
        ) + ", Path: "@ + path_text(diff.diff.path) + "\n    Canonical: "@
            + diff.diff.canonical_value + "\n    Proofs:    "@ + diff.diff.proofs_value + "\n\n"@,
        storage_trie_diff_text(diff) == "  Hashed Address: 0x"@ + bytes_hex(
            diff.hashed_address.bytes@,
        ) + ","@ + account_trie_diff_text(diff.diff).skip(1),
{
    reveal_strlit("  Hashed Address: ");
    reveal_strlit("  Hashed Address: 0x");
    reveal_strlit("0x");
    reveal_strlit(",");
    reveal_strlit(", Path: ");
    reveal_strlit("  Path: ");
    reveal_strlit("\n");
    reveal_strlit("    Canonical: ");
    reveal_strlit("\n    Canonical: ");
    let address = "  Hashed Address: 0x"@ + bytes_hex(diff.hashed_address.bytes@);
    assert(address =~= "  Hashed Address: "@ + word_text(diff.hashed_address));
    let sides = sides_text(diff.diff.canonical_value, diff.diff.proofs_value);
    assert(storage_trie_diff_text(diff) =~= address + ", Path: "@ + path_text(diff.diff.path)
        + "\n    Canonical: "@ + diff.diff.canonical_value + "\n    Proofs:    "@
        + diff.diff.proofs_value + "\n\n"@);
    assert(", Path: "@ =~= ","@ + "  Path: "@.skip(1));
    assert(account_trie_diff_text(diff.diff).skip(1) =~= "  Path: "@.skip(1) + (path_text(
        diff.diff.path,
    ) + "\n"@ + sides));
    assert(storage_trie_diff_text(diff) =~= address + ","@ + ("  Path: "@.skip(1) + (path_text(
        diff.diff.path,
    ) + "\n"@ + sides)));
}

/// The lines of a difference between storage values are the account, the slot and both
/// values, the canonical one first, whichever is the larger.
pub proof fn law_storage_lines(diff: StorageDiff)
    ensures
        storage_diff_text(diff) == "  Hashed Address: 0x"@ + bytes_hex(diff.hashed_address.bytes@)
            + ", Slot: 0x"@ + bytes_hex(diff.slot.bytes@) + "\n    Canonical: "@ + decimal(
            diff.canonical_value.value(),
        ) + "\n    Proofs:    "@ + decimal(diff.proofs_value.value()) + "\n\n"@,
{
    reveal_strlit("  Hashed Address: ");
    reveal_strlit("  Hashed Address: 0x");
    reveal_strlit("0x");
    reveal_strlit(", Slot: ");
    reveal_strlit(", Slot: 0x");
    reveal_strlit("\n");
    reveal_strlit("    Canonical: ");
    reveal_strlit("\n    Canonical: ");
    let address = "  Hashed Address: 0x"@ + bytes_hex(diff.hashed_address.bytes@);
    assert(address =~= "  Hashed Address: "@ + word_text(diff.hashed_address));
    let slot = ", Slot: 0x"@ + bytes_hex(diff.slot.bytes@);
    assert(slot =~= ", Slot: "@ + word_text(diff.slot));
    assert(address + ", Slot: "@ + word_text(diff.slot) =~= address + slot);
    assert(address + ", Slot: 0x"@ + bytes_hex(diff.slot.bytes@) =~= address + slot);
    let canonical = decimal(diff.canonical_value.value());
    let proofs = decimal(diff.proofs_value.value());
    assert(address + slot + "\n"@ + sides_text(canonical, proofs) =~= address + slot
        + "\n    Canonical: "@ + canonical + "\n    Proofs:    "@ + proofs + "\n\n"@);
}

/// Two differences between storage values have the same lines exactly where they are the
/// same.
pub proof fn law_storage_lines_tell_differences_apart(diff: StorageDiff, other: StorageDiff)
    ensures
        storage_diff_text(diff) == storage_diff_text(other) <==> {
            &&& diff.hashed_address == other.hashed_address
            &&& diff.slot == other.slot
            &&& diff.canonical_value == other.canonical_value
            &&& diff.proofs_value == other.proofs_value
        },
{
    let text = storage_diff_text(diff);
    let other_text = storage_diff_text(other);
    if text == other_text {
        lemma_storage_line(diff);
        lemma_storage_line(other);
        law_words_read_back(diff.hashed_address, other.hashed_address);
        law_words_read_back(diff.slot, other.slot);
        let canonical = decimal(diff.canonical_value.value());
        let other_canonical = decimal(other.canonical_value.value());
        let proofs = decimal(diff.proofs_value.value());
        let other_proofs = decimal(other.proofs_value.value());
        let second = "\n    Proofs:    "@ + (proofs + "\n\n"@);
        let other_second = "\n    Proofs:    "@ + (other_proofs + "\n\n"@);
        reveal_strlit("\n    Proofs:    ");
        reveal_strlit("\n\n");
        lemma_plain_numbers(diff.canonical_value.value());
        lemma_plain_numbers(other.canonical_value.value());
        lemma_plain_numbers(diff.proofs_value.value());
        lemma_plain_numbers(other.proofs_value.value());
        lemma_read_up_to(canonical, second, other_canonical, other_second, '\n');
        assert(second.skip(16) =~= proofs + "\n\n"@);
        assert(other_second.skip(16) =~= other_proofs + "\n\n"@);
        lemma_read_up_to(proofs, "\n\n"@, other_proofs, "\n\n"@, '\n');
        law_decimal_tells_numbers_apart(
            diff.canonical_value.value(),
            other.canonical_value.value(),
        );
        law_decimal_tells_numbers_apart(diff.proofs_value.value(), other.proofs_value.value());
        law_value_of_number(diff.canonical_value, other.canonical_value);
        law_value_of_number(diff.proofs_value, other.proofs_value);
    }
}

/// Where the address, the slot and the values stand in the lines of a difference between
/// storage values.
proof fn lemma_storage_line(diff: StorageDiff)
    ensures
        storage_diff_text(diff).subrange(18, 84) == word_text(diff.hashed_address),
        storage_diff_text(diff).subrange(92, 158) == word_text(diff.slot),
        storage_diff_text(diff).skip(174) == decimal(diff.canonical_value.value()) + (
        "\n    Proofs:    "@ + (decimal(diff.proofs_value.value()) + "\n\n"@)),
{
    reveal_strlit("  Hashed Address: ");
    reveal_strlit(", Slot: ");
    reveal_strlit("\n");
    reveal_strlit("    Canonical: ");
    law_words_read_back(diff.hashed_address, diff.hashed_address);
    law_words_read_back(diff.slot, diff.slot);
    let text = storage_diff_text(diff);
    assert(text.subrange(18, 84) =~= word_text(diff.hashed_address));
    assert(text.subrange(92, 158) =~= word_text(diff.slot));
    assert(text.skip(174) =~= decimal(diff.canonical_value.value()) + ("\n    Proofs:    "@ + (
    decimal(diff.proofs_value.value()) + "\n\n"@)));
}

/// What stands in an entry stands in the entries joined together.
proof fn lemma_holds_entry(entries: Seq<Seq<char>>, i: int)
    requires
        0 <= i < entries.len(),
    ensures
        holds(entries.flatten(), entries[i]),
{
    let before = entries.take(i);
    let from = entries.skip(i);
    assert(entries =~= before + from);
    vstd::seq_lib::lemma_flatten_concat(before, from);
    assert(from.first() == entries[i]);
    assert(from.flatten() == entries[i] + from.drop_first().flatten());
    assert(entries.flatten() =~= before.flatten() + entries[i] + from.drop_first().flatten());
    lemma_holds_joined(before.flatten(), entries[i], from.drop_first().flatten());
}

/// A section begins with its heading and the number of all its entries. It lists them all
/// where there are at most ten or the report is verbose, and else the first ten and how many
/// more there are. Without an entry there is no section.
pub proof fn law_section_lists_entries(
    heading: Seq<char>,
    rule: Seq<char>,
    entries: Seq<Seq<char>>,
    verbose: bool,
)
    ensures
        LISTED_DIFFERENCES == 10,
        entries.len() == 0 ==> section_text(heading, rule, entries, verbose).len() == 0,
        entries.len() > 0 && (verbose || entries.len() <= 10) ==> section_text(
            heading,
            rule,
            entries,
            verbose,
        ) == heading + decimal(entries.len()) + rule + entries.flatten(),
        entries.len() > 10 && !verbose ==> section_text(heading, rule, entries, verbose) == heading
            + decimal(entries.len()) + rule + entries.take(10).flatten() + "  ... and "@ + decimal(
            (entries.len() - 10) as nat,
        ) + " more\n"@,
        forall|i: int|
            0 <= i < entries.len() && (verbose || i < 10) ==> holds(
                section_text(heading, rule, entries, verbose),
                #[trigger] entries[i],
            ),
{
    let text = section_text(heading, rule, entries, verbose);
    assert(entries.take(entries.len() as int) =~= entries);
    if entries.len() > 0 {
        let front = heading + decimal(entries.len()) + rule;
        let count = if verbose || entries.len() <= 10 {
            entries.len() as int
        } else {
            10
        };
        let shown = entries.take(count);
        let behind = if count < entries.len() {
            "  ... and "@ + decimal((entries.len() - 10) as nat) + " more\n"@
        } else {
            Seq::empty()
        };
        assert(text =~= front + shown.flatten() + behind);
        lemma_holds_joined(front, shown.flatten(), behind);
        assert forall|i: int| 0 <= i < entries.len() && (verbose || i < 10) implies holds(
            text,
            #[trigger] entries[i],
        ) by {
            assert(shown[i] == entries[i]);
            lemma_holds_entry(shown, i);
            lemma_holds_within(text, shown.flatten(), entries[i]);
        }
    }
}

/// The text of a report without differences names each comparison of tries and accounts
/// exactly where it was made, in this order; that of the storage values does not change it.
pub proof fn law_success_names_checks(report: ReportView)
    ensures
        ({
            let title = "\n✓ SUCCESS: No differences found!\n\nChecks performed:\n"@;
            let accounts = if report.hashed_accounts_compared {
                "  ✓ Hashed account values\n"@
            } else {
                Seq::empty()
            };
            &&& report.account_trie_compared && report.storage_trie_compared ==> success_text(
                report,
            ) == title + "  ✓ Account trie nodes\n"@ + accounts + "  ✓ Storage trie nodes\n"@
            &&& report.account_trie_compared && !report.storage_trie_compared ==> success_text(
                report,
            ) == title + "  ✓ Account trie nodes\n"@ + accounts
            &&& !report.account_trie_compared && report.storage_trie_compared ==> success_text(
                report,
            ) == title + accounts + "  ✓ Storage trie nodes\n"@
            &&& !report.account_trie_compared && !report.storage_trie_compared ==> success_text(
                report,
            ) == title + accounts
        }),
{
    let title = "\n✓ SUCCESS: No differences found!\n\nChecks performed:\n"@;
    let accounts = if report.hashed_accounts_compared {
        "  ✓ Hashed account values\n"@
    } else {
        Seq::empty()
    };
    if !report.account_trie_compared {
        assert(title + Seq::<char>::empty() =~= title);
        if !report.storage_trie_compared {
            assert(success_text(report) =~= title + accounts);
        }
    }
    if report.account_trie_compared && !report.storage_trie_compared {
        assert(success_text(report) =~= title + "  ✓ Account trie nodes\n"@ + accounts);
    }
}

/// The text of a report is its title with the number of the block, and then either the
/// success, where there is no difference of any kind, or the number of the differences of
/// all kinds and a section for each kind: account tries, accounts, storage tries, storage.
pub proof fn law_report_parts(report: ReportView, verbose: bool)
    ensures
        ({
            let count = report.account_trie_diffs.len() + report.hashed_account_diffs.len()
                + report.storage_trie_diffs.len() + report.storage_diffs.len();
            let title = TITLE@ + decimal(report.block_number as nat) + TITLE_RULE@;
            let account_trie = section_text(
                "┌─ Account Trie Differences ("@,
                ACCOUNT_TRIE_RULE@,
                Seq::new(
                    report.account_trie_diffs.len(),
                    |i: int| account_trie_diff_text(report.account_trie_diffs[i]),
                ),
                verbose,
            );
            let accounts = section_text(
                "┌─ Hashed Account Differences ("@,
                HASHED_ACCOUNTS_RULE@,
                Seq::new(
                    report.hashed_account_diffs.len(),
                    |i: int| hashed_account_diff_text(report.hashed_account_diffs[i]),
                ),
                verbose,
            );
            let storage_trie = section_text(
                "┌─ Storage Trie Differences ("@,
                STORAGE_TRIE_RULE@,
                Seq::new(
                    report.storage_trie_diffs.len(),
                    |i: int| storage_trie_diff_text(report.storage_trie_diffs[i]),
                ),
                verbose,
            );
            let storage = section_text(
                "┌─ Storage Differences ("@,
                STORAGE_RULE@,
                Seq::new(
                    report.storage_diffs.len(),
                    |i: int| storage_diff_text(report.storage_diffs[i]),
                ),
                verbose,
            );
            &&& count == 0 ==> report_text(report, verbose) == title + success_text(report)
            &&& count > 0 ==> report_text(report, verbose) == title + ("\n✗ FAILED: "@ + decimal(
                count,
            ) + " differences found\n\n"@ + account_trie + accounts + storage_trie + storage
                + END_RULE@)
        }),
{
    lemma_sections(report);
}

/// The entries of the sections are the lines of the differences.
proof fn lemma_sections(report: ReportView)
    ensures
        report.account_trie_diffs.map_values(|diff: TrieDiffView| account_trie_diff_text(diff))
            == Seq::new(
            report.account_trie_diffs.len(),
            |i: int| account_trie_diff_text(report.account_trie_diffs[i]),
        ),
        report.hashed_account_diffs.map_values(
            |diff: HashedAccountDiff| hashed_account_diff_text(diff),
        ) == Seq::new(
            report.hashed_account_diffs.len(),
            |i: int| hashed_account_diff_text(report.hashed_account_diffs[i]),
        ),
        report.storage_trie_diffs.map_values(
            |diff: StorageTrieDiffView| storage_trie_diff_text(diff),
        ) == Seq::new(
            report.storage_trie_diffs.len(),
            |i: int| storage_trie_diff_text(report.storage_trie_diffs[i]),
        ),
        report.storage_diffs.map_values(|diff: StorageDiff| storage_diff_text(diff)) == Seq::new(
            report.storage_diffs.len(),
            |i: int| storage_diff_text(report.storage_diffs[i]),
        ),
{
}

/// The text of a report holds the number of its block, and where there are differences the
/// number of them and the lines of every difference of every kind, but for those behind the
/// first ten of a kind where it is not verbose.
pub proof fn law_report_holds_differences(report: ReportView, verbose: bool)
    ensures
        holds(report_text(report, verbose), decimal(report.block_number as nat)),
        forall|i: int|
            0 <= i < report.account_trie_diffs.len() && (verbose || i < 10) ==> holds(
                report_text(report, verbose),
                account_trie_diff_text(#[trigger] report.account_trie_diffs[i]),
            ),
        forall|i: int|
            0 <= i < report.hashed_account_diffs.len() && (verbose || i < 10) ==> holds(
                report_text(report, verbose),
                hashed_account_diff_text(#[trigger] report.hashed_account_diffs[i]),
            ),
        forall|i: int|
            0 <= i < report.storage_trie_diffs.len() && (verbose || i < 10) ==> holds(
                report_text(report, verbose),
                storage_trie_diff_text(#[trigger] report.storage_trie_diffs[i]),
            ),
        forall|i: int|
            0 <= i < report.storage_diffs.len() && (verbose || i < 10) ==> holds(
                report_text(report, verbose),
                storage_diff_text(#[trigger] report.storage_diffs[i]),
            ),
{
    let text = report_text(report, verbose);
    let block = decimal(report.block_number as nat);
    let title = TITLE@ + block + TITLE_RULE@;
    lemma_holds_joined(TITLE@, block, TITLE_RULE@);
    let body = text.skip(title.len() as int);
    assert(text =~= title + body);
    lemma_holds_longer(title, block, body);
    if report.total() > 0 {
        let account_trie = report.account_trie_diffs.map_values(
            |diff: TrieDiffView| account_trie_diff_text(diff),
        );
        let accounts = report.hashed_account_diffs.map_values(
            |diff: HashedAccountDiff| hashed_account_diff_text(diff),
        );
        let storage_trie = report.storage_trie_diffs.map_values(
            |diff: StorageTrieDiffView| storage_trie_diff_text(diff),
        );
        let storage = report.storage_diffs.map_values(|diff: StorageDiff| storage_diff_text(diff));
        let front = "\n✗ FAILED: "@ + decimal(report.total()) + " differences found\n\n"@;
        let first = section_text(ACCOUNT_TRIE_HEADING@, ACCOUNT_TRIE_RULE@, account_trie, verbose);
        let second = section_text(
            HASHED_ACCOUNTS_HEADING@,
            HASHED_ACCOUNTS_RULE@,
            accounts,
            verbose,
        );
        let third = section_text(STORAGE_TRIE_HEADING@, STORAGE_TRIE_RULE@, storage_trie, verbose);
        let fourth = section_text(STORAGE_HEADING@, STORAGE_RULE@, storage, verbose);
        law_section_lists_entries(
            ACCOUNT_TRIE_HEADING@,
            ACCOUNT_TRIE_RULE@,
            account_trie,
            verbose,
        );
        law_section_lists_entries(
            HASHED_ACCOUNTS_HEADING@,
            HASHED_ACCOUNTS_RULE@,
            accounts,
            verbose,
        );
        law_section_lists_entries(
            STORAGE_TRIE_HEADING@,
            STORAGE_TRIE_RULE@,
            storage_trie,
            verbose,
        );
        law_section_lists_entries(STORAGE_HEADING@, STORAGE_RULE@, storage, verbose);
        let failure = front + first + second + third + fourth + END_RULE@;
        assert(text == title + failure);
        lemma_holds_end(title, failure);
        lemma_holds_end(front, first);
        lemma_holds_longer(front + first, first, second);
        lemma_holds_longer(front + first + second, first, third);
        lemma_holds_longer(front + first + second + third, first, fourth);
        lemma_holds_longer(front + first + second + third + fourth, first, END_RULE@);
        lemma_holds_within(text, failure, first);
        lemma_holds_end(front + first, second);
        lemma_holds_longer(front + first + second, second, third);
        lemma_holds_longer(front + first + second + third, second, fourth);
        lemma_holds_longer(front + first + second + third + fourth, second, END_RULE@);
        lemma_holds_within(text, failure, second);
        lemma_holds_end(front + first + second, third);
        lemma_holds_longer(front + first + second + third, third, fourth);
        lemma_holds_longer(front + first + second + third + fourth, third, END_RULE@);
        lemma_holds_within(text, failure, third);
        lemma_holds_end(front + first + second + third, fourth);
        lemma_holds_longer(front + first + second + third + fourth, fourth, END_RULE@);
        lemma_holds_within(text, failure, fourth);
        assert forall|i: int|
            0 <= i < report.account_trie_diffs.len() && (verbose || i < 10) implies holds(
            text,
            account_trie_diff_text(#[trigger] report.account_trie_diffs[i]),
        ) by {
            assert(holds(first, account_trie[i]));
            lemma_holds_within(text, first, account_trie[i]);
        }
        assert forall|i: int|
            0 <= i < report.hashed_account_diffs.len() && (verbose || i < 10) implies holds(
            text,
            hashed_account_diff_text(#[trigger] report.hashed_account_diffs[i]),
        ) by {
            assert(holds(second, accounts[i]));
            lemma_holds_within(text, second, accounts[i]);
        }
        assert forall|i: int|
            0 <= i < report.storage_trie_diffs.len() && (verbose || i < 10) implies holds(
            text,
            storage_trie_diff_text(#[trigger] report.storage_trie_diffs[i]),
        ) by {
            assert(holds(third, storage_trie[i]));
            lemma_holds_within(text, third, storage_trie[i]);
        }
        assert forall|i: int|
            0 <= i < report.storage_diffs.len() && (verbose || i < 10) implies holds(
            text,
            storage_diff_text(#[trigger] report.storage_diffs[i]),
        ) by {
            assert(holds(fourth, storage[i]));
            lemma_holds_within(text, fourth, storage[i]);
        }
    }
}

/// The message of an error says what is wrong and holds its numbers, the canonical block
/// before that of the proofs storage.
pub proof fn law_messages_hold_numbers(canonical: u64, proofs: u64, total: usize)
    ensures
        error_text(VerifyError::NoBlocks) == "No blocks in proofs storage"@,
        error_text(
            VerifyError::CanonicalBeforeEarliest {
                canonical_latest: canonical,
                proofs_earliest: proofs,
            },
        ) == "Canonical latest block "@ + decimal(canonical as nat)
            + " is earlier than earliest block in proof storage "@ + decimal(proofs as nat)
            + ". Cannot verify."@,
        error_text(
            VerifyError::ProofsBehind { canonical_latest: canonical, proofs_latest: proofs },
        ) == "Proof storage is behind: canonical is at block "@ + decimal(canonical as nat)
            + " but proof storage is only at block "@ + decimal(proofs as nat)
            + ". Cannot verify - proof storage needs to catch up."@,
        error_text(VerifyError::DifferencesFound { total }) == "Verification failed with "@
            + decimal(total as nat) + " total differences"@,
{
}

/// Different errors have different messages, be they of different kinds or of different
/// numbers.
pub proof fn law_messages_tell_errors_apart(error: VerifyError, other: VerifyError)
    ensures
        error_text(error) == error_text(other) <==> error == other,
{
    reveal_strlit("No blocks in proofs storage");
    reveal_strlit("Canonical latest block ");
    reveal_strlit("Proof storage is behind: canonical is at block ");
    reveal_strlit("Verification failed with ");
    let text = error_text(error);
    let other_text = error_text(other);
    if text == other_text {
        assert(text[0] == other_text[0]);
        match (error, other) {
            (
                VerifyError::CanonicalBeforeEarliest { canonical_latest, proofs_earliest },
                VerifyError::CanonicalBeforeEarliest {
                    canonical_latest: other_latest,
                    proofs_earliest: other_earliest,
                },
            ) => {
                reveal_strlit(" is earlier than earliest block in proof storage ");
                reveal_strlit(". Cannot verify.");
                lemma_read_two_numbers(
                    "Canonical latest block "@,
                    canonical_latest as nat,
                    " is earlier than earliest block in proof storage "@,
                    proofs_earliest as nat,
                    ". Cannot verify."@,
                    other_latest as nat,
                    other_earliest as nat,
                );
            },
            (
                VerifyError::ProofsBehind { canonical_latest, proofs_latest },
                VerifyError::ProofsBehind {
                    canonical_latest: other_canonical,
                    proofs_latest: other_latest,
                },
            ) => {
                reveal_strlit(" but proof storage is only at block ");
                reveal_strlit(". Cannot verify - proof storage needs to catch up.");
                lemma_read_two_numbers(
                    "Proof storage is behind: canonical is at block "@,
                    canonical_latest as nat,
                    " but proof storage is only at block "@,
                    proofs_latest as nat,
                    ". Cannot verify - proof storage needs to catch up."@,
                    other_canonical as nat,
                    other_latest as nat,
                );
            },
            (
                VerifyError::DifferencesFound { total },
                VerifyError::DifferencesFound { total: other_total },
            ) => {
                reveal_strlit(" total differences");
                let label = "Verification failed with "@;
                let end = " total differences"@;
                assert(text.skip(label.len() as int) =~= decimal(total as nat) + end);
                assert(other_text.skip(label.len() as int) =~= decimal(other_total as nat) + end);
                lemma_plain_numbers(total as nat);
                lemma_plain_numbers(other_total as nat);
                lemma_read_up_to(decimal(total as nat), end, decimal(other_total as nat), end, ' ');
                law_decimal_tells_numbers_apart(total as nat, other_total as nat);
            },
            _ => {},
        }
    }
}

/// Two numbers can be read back from a message that holds them.
proof fn lemma_read_two_numbers(
    label: Seq<char>,
    first: nat,
    between: Seq<char>,
    second: nat,
    end: Seq<char>,
    other_first: nat,
    other_second: nat,
)
    requires
        between.len() > 0 && between[0] == ' ',
        end.len() > 0 && end[0] == '.',
        label + decimal(first) + between + decimal(second) + end == label + decimal(other_first)
            + between + decimal(other_second) + end,
    ensures
        first == other_first,
        second == other_second,
{
    let text = label + decimal(first) + between + decimal(second) + end;
    let other_text = label + decimal(other_first) + between + decimal(other_second) + end;
    let rest = between + (decimal(second) + end);
    let other_rest = between + (decimal(other_second) + end);
    assert(text.skip(label.len() as int) =~= decimal(first) + rest);
    assert(other_text.skip(label.len() as int) =~= decimal(other_first) + other_rest);
    lemma_plain_numbers(first);
    lemma_plain_numbers(other_first);
    lemma_plain_numbers(second);
    lemma_plain_numbers(other_second);
    lemma_read_up_to(decimal(first), rest, decimal(other_first), other_rest, ' ');
    assert(rest.skip(between.len() as int) =~= decimal(second) + end);
    assert(other_rest.skip(between.len() as int) =~= decimal(other_second) + end);
    lemma_read_up_to(decimal(second), end, decimal(other_second), end, '.');
    law_decimal_tells_numbers_apart(first, other_first);
    law_decimal_tells_numbers_apart(second, other_second);
}

} // verus!
