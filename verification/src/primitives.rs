//! Words of 256 bits: hashes, and numbers such as balances and storage values.

use vstd::prelude::*;

use crate::text::{bytes_hex, decimal};

verus! {

/// A word of 32 bytes: a hash, a hashed address or a hashed storage slot.
#[derive(Clone, Copy, Debug)]
pub struct B256 {
    pub bytes: [u8; 32],
}

/// A number of 256 bits, as four limbs with the least significant one first.
#[derive(Clone, Copy, Debug)]
pub struct U256 {
    pub limbs: [u64; 4],
}

impl B256 {
    /// The word whose bytes are all zero.
    pub open spec fn zero_word() -> B256 {
        B256 { bytes: vstd::array::spec_array_fill_for_copy_type(0u8) }
    }

    /// Returns the word whose bytes are all zero.
    pub fn zero() -> (word: B256)
        ensures
            word == B256::zero_word(),
    {
        B256 { bytes: [0u8; 32] }
    }
}

impl PartialEq for B256 {
    fn eq(&self, other: &B256) -> (equal: bool) {
        let mut i: usize = 0;
        while i < 32
            invariant
                i <= 32,
                forall|j: int| 0 <= j < i ==> self.bytes@[j] == other.bytes@[j],
            decreases 32 - i,
        {
            if self.bytes[i] != other.bytes[i] {
                return false;
            }
            i = i + 1;
        }
        assert(self.bytes =~= other.bytes);
        true
    }
}

impl vstd::std_specs::cmp::PartialEqSpecImpl for B256 {
    open spec fn obeys_eq_spec() -> bool {
        true
    }

    open spec fn eq_spec(&self, other: &B256) -> bool {
        *self == *other
    }
}

impl Eq for B256 {

}

impl U256 {
    /// The number that the limbs stand for.
    pub open spec fn value(self) -> nat {
        self.limbs@[0] as nat + 0x1_0000_0000_0000_0000 * (self.limbs@[1] as nat
            + 0x1_0000_0000_0000_0000 * (self.limbs@[2] as nat + 0x1_0000_0000_0000_0000
            * self.limbs@[3] as nat))
    }

    /// The number zero.
    pub open spec fn zero_number() -> U256 {
        U256 { limbs: vstd::array::spec_array_fill_for_copy_type(0u64) }
    }

    /// Returns the number zero.
    pub fn zero() -> (number: U256)
        ensures
            number == U256::zero_number(),
            number.value() == 0,
    {
        U256 { limbs: [0u64; 4] }
    }
}

impl PartialEq for U256 {
    fn eq(&self, other: &U256) -> (equal: bool) {
        let equal = self.limbs[0] == other.limbs[0] && self.limbs[1] == other.limbs[1]
            && self.limbs[2] == other.limbs[2] && self.limbs[3] == other.limbs[3];
        assert(equal ==> self.limbs =~= other.limbs);
        equal
    }
}

impl vstd::std_specs::cmp::PartialEqSpecImpl for U256 {
    open spec fn obeys_eq_spec() -> bool {
        true
    }

    open spec fn eq_spec(&self, other: &U256) -> bool {
        *self == *other
    }
}

impl Eq for U256 {

}

/// Writes a word with `Display` of `alloy_primitives::B256`: the prefix `0x` and then
/// two hexadecimal digits in lower case for each byte, the first byte first.
#[verifier::external_body]
pub(crate) fn b256_display(word: &B256) -> (text: String)
    ensures
        text@ == "0x"@ + bytes_hex(word.bytes@),
{
    format!("{}", alloy_primitives::B256::from(word.bytes))
}

/// Writes a word with `Debug` of `alloy_primitives::B256`, whose text is the same as
/// that of `Display`: the prefix `0x` and two hexadecimal digits for each byte.
#[verifier::external_body]
pub(crate) fn b256_debug(word: &B256) -> (text: String)
    ensures
        text@ == "0x"@ + bytes_hex(word.bytes@),
{
    format!("{:?}", alloy_primitives::B256::from(word.bytes))
}

/// Writes a number with `Display` of `alloy_primitives::U256`: its decimal notation.
#[verifier::external_body]
pub(crate) fn u256_display(number: &U256) -> (text: String)
    ensures
        text@ == decimal(number.value()),
{
    format!("{}", alloy_primitives::U256::from_limbs(number.limbs))
}

} // verus!
