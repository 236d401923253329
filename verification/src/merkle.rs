//! The Merkle commitment over the rows of a low-degree-extended table.
//!
//! The tree itself is the `twenty_first` crate's; this module declares its
//! type, names what it holds and what root it produces, and wraps the two
//! calls the pipeline makes: building a tree over a vector of leaf digests,
//! and reading its root.

use vstd::prelude::*;

verus! {

use crate::tip5::Digest;
use crate::tip5::all_digests_valid;
use crate::tip5::digest_valid;
use twenty_first::prelude::BFieldElement;
use twenty_first::prelude::MerkleTree;
use vstd::arithmetic::power2::is_pow2;

#[verifier::external_type_specification]
#[verifier::external_body]
pub struct ExMerkleTree(MerkleTree);

/// What a Merkle tree holds: its leaf digests, in order.
pub uninterp spec fn merkle_leafs_of(tree: MerkleTree) -> Seq<Digest>;

/// The root of the Merkle tree over the given leaves: a function of the
/// leaves alone.
pub uninterp spec fn merkle_root_of(leafs: Seq<Digest>) -> Digest;

/// Relies on `MerkleTree::par_new`: builds the Merkle tree whose leaves are
/// the given digests. The call succeeds whenever the number of leaves is a
/// power of two, which is at least one. Only canonical digests are
/// admitted, so the conversion below changes no coordinate and the tree
/// holds exactly the given leaves.
#[verifier::external_body]
pub fn merkle_tree_from_digests(leafs: &Vec<Digest>) -> (r: MerkleTree)
    requires
        leafs@.len() >= 1,
        is_pow2(leafs@.len() as int),
        all_digests_valid(leafs@),
    ensures
        merkle_leafs_of(r) == leafs@,
{
    let digests: Vec<twenty_first::prelude::Digest> = leafs
        .iter()
        .map(
            |d| twenty_first::prelude::Digest::new(
                [
                    BFieldElement::new(d.0),
                    BFieldElement::new(d.1),
                    BFieldElement::new(d.2),
                    BFieldElement::new(d.3),
                    BFieldElement::new(d.4),
                ],
            ),
        )
        .collect();
    MerkleTree::par_new(&digests).unwrap()
}

/// Relies on `MerkleTree::root`: the root digest of the tree, a function of
/// its leaves alone.
#[verifier::external_body]
pub fn merkle_root(tree: &MerkleTree) -> (r: Digest)
    ensures
        r == merkle_root_of(merkle_leafs_of(*tree)),
        digest_valid(r),
{
    let d = tree.root().0;
    Digest(d[0].value(), d[1].value(), d[2].value(), d[3].value(), d[4].value())
}

} // verus!
