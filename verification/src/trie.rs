//! Trie nodes: the paths at which they stand and what they hold.

use vstd::prelude::*;

use crate::primitives::B256;
use crate::text::nibbles_hex;

verus! {

/// The longest path in a trie: the nibbles of a key of 32 bytes.
pub const MAX_NIBBLES: usize = 64;

/// A path in a trie: at most 64 nibbles, each below 16.
#[derive(Debug)]
pub struct Nibbles {
    nibbles: Vec<u8>,
}

/// Whether a sequence of bytes is a path in a trie.
pub open spec fn is_path(nibbles: Seq<u8>) -> bool {
    &&& nibbles.len() <= MAX_NIBBLES
    &&& forall|i: int| 0 <= i < nibbles.len() ==> nibbles[i] < 16
}

impl View for Nibbles {
    type V = Seq<u8>;

    closed spec fn view(&self) -> Seq<u8> {
        self.nibbles@
    }
}

impl Nibbles {
    #[verifier::type_invariant]
    spec fn well_formed(self) -> bool {
        is_path(self@)
    }

    /// Makes a path of its nibbles; `None` where a byte is no nibble or where there
    /// are too many of them.
    pub fn from_nibbles(nibbles: Vec<u8>) -> (path: Option<Nibbles>)
        ensures
            path is Some <==> is_path(nibbles@),
            path matches Some(path) ==> path@ == nibbles@,
    {
        if nibbles.len() > MAX_NIBBLES {
            return None;
        }
        let mut i: usize = 0;
        while i < nibbles.len()
            invariant
                i <= nibbles.len() <= MAX_NIBBLES,
                forall|j: int| 0 <= j < i ==> nibbles@[j] < 16,
            decreases nibbles.len() - i,
        {
            if nibbles[i] >= 16 {
                return None;
            }
            i = i + 1;
        }
        Some(Nibbles { nibbles })
    }
}

impl PartialEq for Nibbles {
    fn eq(&self, other: &Nibbles) -> (equal: bool) {
        if self.nibbles.len() != other.nibbles.len() {
            return false;
        }
        let mut i: usize = 0;
        while i < self.nibbles.len()
            invariant
                i <= self.nibbles.len(),
                self.nibbles.len() == other.nibbles.len(),
                forall|j: int| 0 <= j < i ==> self.nibbles@[j] == other.nibbles@[j],
            decreases self.nibbles.len() - i,
        {
            if self.nibbles[i] != other.nibbles[i] {
                return false;
            }
            i = i + 1;
        }
        assert(self@ =~= other@);
        true
    }
}

impl vstd::std_specs::cmp::PartialEqSpecImpl for Nibbles {
    open spec fn obeys_eq_spec() -> bool {
        true
    }

    open spec fn eq_spec(&self, other: &Nibbles) -> bool {
        self@ == other@
    }
}

/// A branch node of a trie as it is stored: which children it has, which of them are
/// stored themselves, which are hashed, and the hashes.
#[derive(Debug)]
pub struct BranchNodeCompact {
    pub state_mask: u16,
    pub tree_mask: u16,
    pub hash_mask: u16,
    pub hashes: Vec<B256>,
    pub root_hash: Option<B256>,
}

/// What a branch node holds.
#[verifier::ext_equal]
pub struct BranchNodeView {
    pub state_mask: u16,
    pub tree_mask: u16,
    pub hash_mask: u16,
    pub hashes: Seq<B256>,
    pub root_hash: Option<B256>,
}

impl View for BranchNodeCompact {
    type V = BranchNodeView;

    open spec fn view(&self) -> BranchNodeView {
        BranchNodeView {
            state_mask: self.state_mask,
            tree_mask: self.tree_mask,
            hash_mask: self.hash_mask,
            hashes: self.hashes@,
            root_hash: self.root_hash,
        }
    }
}

impl PartialEq for BranchNodeCompact {
    fn eq(&self, other: &BranchNodeCompact) -> (equal: bool) {
        if self.state_mask != other.state_mask || self.tree_mask != other.tree_mask
            || self.hash_mask != other.hash_mask || self.root_hash != other.root_hash
            || self.hashes.len() != other.hashes.len() {
            return false;
        }
        let mut i: usize = 0;
        while i < self.hashes.len()
            invariant
                i <= self.hashes.len(),
                self.hashes.len() == other.hashes.len(),
                forall|j: int| 0 <= j < i ==> self.hashes@[j] == other.hashes@[j],
            decreases self.hashes.len() - i,
        {
            if self.hashes[i] != other.hashes[i] {
                return false;
            }
            i = i + 1;
        }
        assert(self.hashes@ =~= other.hashes@);
        true
    }
}

impl vstd::std_specs::cmp::PartialEqSpecImpl for BranchNodeCompact {
    open spec fn obeys_eq_spec() -> bool {
        true
    }

    open spec fn eq_spec(&self, other: &BranchNodeCompact) -> bool {
        self@ == other@
    }
}

/// The text that `Debug` of a path gives: its nibbles in hexadecimal notation.
pub open spec fn path_text(path: Seq<u8>) -> Seq<char> {
    "Nibbles(0x"@ + nibbles_hex(path) + ")"@
}

/// The text that `Debug` of `alloy_trie::BranchNodeCompact` gives for a branch node.
pub uninterp spec fn node_text(node: BranchNodeView) -> Seq<char>;

/// Writes a path with `Debug` of `alloy_trie::Nibbles`: the word `Nibbles` and, in
/// brackets, the prefix `0x` and one hexadecimal digit in lower case for each nibble.
#[verifier::external_body]
fn nibbles_debug(path: &Nibbles) -> (text: String)
    requires
        is_path(path@),
    ensures
        text@ == path_text(path@),
{
    format!("{:?}", alloy_trie::Nibbles::from_nibbles(&path.nibbles))
}

/// Writes a branch node with `Debug` of `alloy_trie::BranchNodeCompact`. The text is a
/// function of the node's three masks, its hashes and its root hash; nothing more is
/// stated of it.
#[verifier::external_body]
pub(crate) fn branch_node_debug(node: &BranchNodeCompact) -> (text: String)
    ensures
        text@ == node_text(node@),
{
    format!(
        "{:?}",
        alloy_trie::BranchNodeCompact {
            state_mask: alloy_trie::TrieMask::new(node.state_mask),
            tree_mask: alloy_trie::TrieMask::new(node.tree_mask),
            hash_mask: alloy_trie::TrieMask::new(node.hash_mask),
            hashes: node.hashes.iter().map(|hash| hash.bytes.into()).collect::<Vec<_>>().into(),
            root_hash: node.root_hash.map(|hash| hash.bytes.into()),
        }
    )
}

/// Writes a path with its nibbles in hexadecimal notation.
pub(crate) fn path_debug(path: &Nibbles) -> (text: String)
    ensures
        text@ == path_text(path@),
{
    proof {
        use_type_invariant(path);
    }
    nibbles_debug(path)
}

} // verus!
