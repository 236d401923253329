//! One typed entry of the prover-verifier transcript.
//!
//! A proof item is a tagged sum of exactly eleven variants. Some variants are
//! folded into the Fiat-Shamir sponge when sent or received; the others are
//! commitments' pre-images, already bound by a Merkle root that was folded
//! in, or contribute nothing to challenge sampling.

use vstd::prelude::*;

verus! {

use crate::tip5::Digest;
use crate::xfield::Xfe;

/// The number of segments the quotient polynomial is split into.
pub const NUM_QUOTIENT_SEGMENTS: usize = 4;

/// An authentication structure: the node digests needed to verify a batch of
/// Merkle leaf openings.
pub type AuthenticationStructure = Vec<Digest>;

/// An authentication structure together with the values of the revealed
/// leaves of the Merkle tree. Together, they correspond to the queried
/// indices of the FRI codeword of that round.
#[derive(Debug, Clone, PartialEq, Eq, Hash)]
pub struct FriResponse {
    /// The authentication structure of the Merkle tree.
    pub auth_structure: AuthenticationStructure,
    /// The values of the opened leaves of the Merkle tree.
    pub revealed_leaves: Vec<Xfe>,
}

/// One entry of the transcript.
#[derive(Debug, Clone, PartialEq, Eq, Hash)]
pub enum ProofItem {
    AuthenticationStructure(AuthenticationStructure),
    MasterBaseTableRows(Vec<Vec<u64>>),
    MasterExtTableRows(Vec<Vec<Xfe>>),
    OutOfDomainBaseRow(Vec<Xfe>),
    OutOfDomainExtRow(Vec<Xfe>),
    OutOfDomainQuotientSegments([Xfe; NUM_QUOTIENT_SEGMENTS]),
    MerkleRoot(Digest),
    Log2PaddedHeight(u32),
    QuotientSegmentsElements(Vec<[Xfe; NUM_QUOTIENT_SEGMENTS]>),
    FriCodeword(Vec<Xfe>),
    FriResponse(FriResponse),
}

/// The errors a transcript can surface: reading past the end, asking a typed
/// extractor for the wrong variant, and a proof that does not decode.
#[derive(Debug, Clone, PartialEq, Eq)]
pub enum ProofStreamError {
    EmptyQueue,
    UnexpectedItem(&'static str, ProofItem),
    DecodingError,
}

/// The mathematical value of a `FriResponse`: its two vectors as sequences.
pub ghost struct FriResponseView {
    pub auth_structure: Seq<Digest>,
    pub revealed_leaves: Seq<Xfe>,
}

/// The mathematical value of a `ProofItem`: the same tagged sum, with every
/// vector replaced by the sequence it holds.
pub ghost enum ProofItemView {
    AuthenticationStructure(Seq<Digest>),
    MasterBaseTableRows(Seq<Seq<u64>>),
    MasterExtTableRows(Seq<Seq<Xfe>>),
    OutOfDomainBaseRow(Seq<Xfe>),
    OutOfDomainExtRow(Seq<Xfe>),
    OutOfDomainQuotientSegments(Seq<Xfe>),
    MerkleRoot(Digest),
    Log2PaddedHeight(u32),
    QuotientSegmentsElements(Seq<Seq<Xfe>>),
    FriCodeword(Seq<Xfe>),
    FriResponse(FriResponseView),
}

impl View for FriResponse {
    type V = FriResponseView;

    open spec fn view(&self) -> FriResponseView {
        FriResponseView { auth_structure: self.auth_structure@, revealed_leaves: self.revealed_leaves@ }
    }
}

impl View for ProofItem {
    type V = ProofItemView;

    open spec fn view(&self) -> ProofItemView {
        match self {
            ProofItem::AuthenticationStructure(v) => ProofItemView::AuthenticationStructure(v@),
            ProofItem::MasterBaseTableRows(v) => ProofItemView::MasterBaseTableRows(
                v@.map_values(|row: Vec<u64>| row@),
            ),
            ProofItem::MasterExtTableRows(v) => ProofItemView::MasterExtTableRows(
                v@.map_values(|row: Vec<Xfe>| row@),
            ),
            ProofItem::OutOfDomainBaseRow(v) => ProofItemView::OutOfDomainBaseRow(v@),
            ProofItem::OutOfDomainExtRow(v) => ProofItemView::OutOfDomainExtRow(v@),
            ProofItem::OutOfDomainQuotientSegments(a) => ProofItemView::OutOfDomainQuotientSegments(
                a@,
            ),
            ProofItem::MerkleRoot(d) => ProofItemView::MerkleRoot(*d),
            ProofItem::Log2PaddedHeight(h) => ProofItemView::Log2PaddedHeight(*h),
            ProofItem::QuotientSegmentsElements(v) => ProofItemView::QuotientSegmentsElements(
                v@.map_values(|q: [Xfe; NUM_QUOTIENT_SEGMENTS]| q@),
            ),
            ProofItem::FriCodeword(v) => ProofItemView::FriCodeword(v@),
            ProofItem::FriResponse(fr) => ProofItemView::FriResponse(fr@),
        }
    }
}

/// Whether an item of this value is folded into the Fiat-Shamir sponge:
/// exactly the Merkle roots and the out-of-domain rows and segments.
pub open spec fn included_in_fiat_shamir(v: ProofItemView) -> bool {
    match v {
        ProofItemView::MerkleRoot(_) => true,
        ProofItemView::OutOfDomainBaseRow(_) => true,
        ProofItemView::OutOfDomainExtRow(_) => true,
        ProofItemView::OutOfDomainQuotientSegments(_) => true,
        _ => false,
    }
}

impl ProofItem {
    /// Whether this item is to be considered in the Fiat-Shamir heuristic.
    /// The heuristic is sound only if all elements of the transcript are
    /// considered, but certain elements indirectly appear more than once: a
    /// Merkle root is a commitment to any number of elements, so, assuming
    /// collision resistance, nothing it already commits to has to be
    /// considered again.
    pub fn include_in_fiat_shamir_heuristic(&self) -> (r: bool)
        ensures
            r == included_in_fiat_shamir(self@),
    {
        match self {
            ProofItem::MerkleRoot(_) => true,
            ProofItem::OutOfDomainBaseRow(_) => true,
            ProofItem::OutOfDomainExtRow(_) => true,
            ProofItem::OutOfDomainQuotientSegments(_) => true,
            _ => false,
        }
    }

    /// An exact copy of this item.
    pub fn duplicate(&self) -> (r: ProofItem)
        ensures
            r@ == self@,
    {
        match self {
            ProofItem::AuthenticationStructure(v) => ProofItem::AuthenticationStructure(copy_digests(v)),
            ProofItem::MasterBaseTableRows(v) => {
                let c = clone_nested_b_rows(v);
                ProofItem::MasterBaseTableRows(c)
            },
            ProofItem::MasterExtTableRows(v) => {
                let c = clone_nested_x_rows(v);
                ProofItem::MasterExtTableRows(c)
            },
            ProofItem::OutOfDomainBaseRow(v) => ProofItem::OutOfDomainBaseRow(copy_xfes(v)),
            ProofItem::OutOfDomainExtRow(v) => ProofItem::OutOfDomainExtRow(copy_xfes(v)),
            ProofItem::OutOfDomainQuotientSegments(a) => ProofItem::OutOfDomainQuotientSegments(*a),
            ProofItem::MerkleRoot(d) => ProofItem::MerkleRoot(*d),
            ProofItem::Log2PaddedHeight(h) => ProofItem::Log2PaddedHeight(*h),
            ProofItem::QuotientSegmentsElements(v) => ProofItem::QuotientSegmentsElements(copy_quads(v)),
            ProofItem::FriCodeword(v) => ProofItem::FriCodeword(copy_xfes(v)),
            ProofItem::FriResponse(fr) => ProofItem::FriResponse(
                FriResponse {
                    auth_structure: copy_digests(&fr.auth_structure),
                    revealed_leaves: copy_xfes(&fr.revealed_leaves),
                },
            ),
        }
    }

    pub fn as_authentication_structure(&self) -> (r: Result<AuthenticationStructure, ProofStreamError>)
        ensures
            *self matches ProofItem::AuthenticationStructure(v) ==> (r matches Ok(rv)
                && rv@ == v@),
            !(*self matches ProofItem::AuthenticationStructure(_)) ==> (r matches Err(
                ProofStreamError::UnexpectedItem(d, it),
            ) && d@ == "authentication structure"@ && it@ == self@),
    {
        match self {
            ProofItem::AuthenticationStructure(v) => Ok(copy_digests(v)),
            _ => Err(ProofStreamError::UnexpectedItem("authentication structure", self.duplicate())),
        }
    }

    pub fn as_master_base_table_rows(&self) -> (r: Result<Vec<Vec<u64>>, ProofStreamError>)
        ensures
            *self matches ProofItem::MasterBaseTableRows(v) ==> (r matches Ok(rv)
                && rv.deep_view() == v.deep_view()),
            !(*self matches ProofItem::MasterBaseTableRows(_)) ==> (r matches Err(
                ProofStreamError::UnexpectedItem(d, it),
            ) && d@ == "master base table rows"@ && it@ == self@),
    {
        match self {
            ProofItem::MasterBaseTableRows(v) => Ok(clone_nested_b_rows(v)),
            _ => Err(ProofStreamError::UnexpectedItem("master base table rows", self.duplicate())),
        }
    }

    pub fn as_master_ext_table_rows(&self) -> (r: Result<Vec<Vec<Xfe>>, ProofStreamError>)
        ensures
            *self matches ProofItem::MasterExtTableRows(v) ==> (r matches Ok(rv)
                && rv.deep_view() == v.deep_view()),
            !(*self matches ProofItem::MasterExtTableRows(_)) ==> (r matches Err(
                ProofStreamError::UnexpectedItem(d, it),
            ) && d@ == "master extension table rows"@ && it@ == self@),
    {
        match self {
            ProofItem::MasterExtTableRows(v) => Ok(clone_nested_x_rows(v)),
            _ => Err(
                ProofStreamError::UnexpectedItem("master extension table rows", self.duplicate()),
            ),
        }
    }

    pub fn as_out_of_domain_base_row(&self) -> (r: Result<Vec<Xfe>, ProofStreamError>)
        ensures
            *self matches ProofItem::OutOfDomainBaseRow(v) ==> (r matches Ok(rv) && rv@ == v@),
            !(*self matches ProofItem::OutOfDomainBaseRow(_)) ==> (r matches Err(
                ProofStreamError::UnexpectedItem(d, it),
            ) && d@ == "out of domain base row"@ && it@ == self@),
    {
        match self {
            ProofItem::OutOfDomainBaseRow(v) => Ok(copy_xfes(v)),
            _ => Err(ProofStreamError::UnexpectedItem("out of domain base row", self.duplicate())),
        }
    }

    pub fn as_out_of_domain_ext_row(&self) -> (r: Result<Vec<Xfe>, ProofStreamError>)
        ensures
            *self matches ProofItem::OutOfDomainExtRow(v) ==> (r matches Ok(rv) && rv@ == v@),
            !(*self matches ProofItem::OutOfDomainExtRow(_)) ==> (r matches Err(
                ProofStreamError::UnexpectedItem(d, it),
            ) && d@ == "out of domain extension row"@ && it@ == self@),
    {
        match self {
            ProofItem::OutOfDomainExtRow(v) => Ok(copy_xfes(v)),
            _ => Err(
                ProofStreamError::UnexpectedItem("out of domain extension row", self.duplicate()),
            ),
        }
    }

    pub fn as_out_of_domain_quotient_segments(&self) -> (r: Result<
        [Xfe; NUM_QUOTIENT_SEGMENTS],
        ProofStreamError,
    >)
        ensures
            *self matches ProofItem::OutOfDomainQuotientSegments(a) ==> r == Ok::<
                [Xfe; NUM_QUOTIENT_SEGMENTS],
                ProofStreamError,
            >(a),
            !(*self matches ProofItem::OutOfDomainQuotientSegments(_)) ==> (r matches Err(
                ProofStreamError::UnexpectedItem(d, it),
            ) && d@ == "out of domain quotient segments"@ && it@ == self@),
    {
        match self {
            ProofItem::OutOfDomainQuotientSegments(a) => Ok(*a),
            _ => Err(
                ProofStreamError::UnexpectedItem(
                    "out of domain quotient segments",
                    self.duplicate(),
                ),
            ),
        }
    }

    pub fn as_merkle_root(&self) -> (r: Result<Digest, ProofStreamError>)
        ensures
            *self matches ProofItem::MerkleRoot(d) ==> r == Ok::<Digest, ProofStreamError>(d),
            !(*self matches ProofItem::MerkleRoot(_)) ==> (r matches Err(
                ProofStreamError::UnexpectedItem(d, it),
            ) && d@ == "merkle root"@ && it@ == self@),
    {
        match self {
            ProofItem::MerkleRoot(d) => Ok(*d),
            _ => Err(ProofStreamError::UnexpectedItem("merkle root", self.duplicate())),
        }
    }

    pub fn as_log2_padded_height(&self) -> (r: Result<u32, ProofStreamError>)
        ensures
            *self matches ProofItem::Log2PaddedHeight(h) ==> r == Ok::<u32, ProofStreamError>(h),
            !(*self matches ProofItem::Log2PaddedHeight(_)) ==> (r matches Err(
                ProofStreamError::UnexpectedItem(d, it),
            ) && d@ == "log2 padded height"@ && it@ == self@),
    {
        match self {
            ProofItem::Log2PaddedHeight(h) => Ok(*h),
            _ => Err(ProofStreamError::UnexpectedItem("log2 padded height", self.duplicate())),
        }
    }

    pub fn as_quotient_segments_elements(&self) -> (r: Result<
        Vec<[Xfe; NUM_QUOTIENT_SEGMENTS]>,
        ProofStreamError,
    >)
        ensures
            *self matches ProofItem::QuotientSegmentsElements(v) ==> (r matches Ok(rv)
                && rv@ == v@),
            !(*self matches ProofItem::QuotientSegmentsElements(_)) ==> (r matches Err(
                ProofStreamError::UnexpectedItem(d, it),
            ) && d@ == "quotient segments' elements"@ && it@ == self@),
    {
        match self {
            ProofItem::QuotientSegmentsElements(v) => Ok(copy_quads(v)),
            _ => Err(
                ProofStreamError::UnexpectedItem("quotient segments' elements", self.duplicate()),
            ),
        }
    }

    pub fn as_fri_codeword(&self) -> (r: Result<Vec<Xfe>, ProofStreamError>)
        ensures
            *self matches ProofItem::FriCodeword(v) ==> (r matches Ok(rv) && rv@ == v@),
            !(*self matches ProofItem::FriCodeword(_)) ==> (r matches Err(
                ProofStreamError::UnexpectedItem(d, it),
            ) && d@ == "FRI codeword"@ && it@ == self@),
    {
        match self {
            ProofItem::FriCodeword(v) => Ok(copy_xfes(v)),
            _ => Err(ProofStreamError::UnexpectedItem("FRI codeword", self.duplicate())),
        }
    }

    pub fn as_fri_response(&self) -> (r: Result<FriResponse, ProofStreamError>)
        ensures
            *self matches ProofItem::FriResponse(fr) ==> (r matches Ok(rf) && rf@ == fr@),
            !(*self matches ProofItem::FriResponse(_)) ==> (r matches Err(
                ProofStreamError::UnexpectedItem(d, it),
            ) && d@ == "FRI proof"@ && it@ == self@),
    {
        match self {
            ProofItem::FriResponse(fr) => Ok(
                FriResponse {
                    auth_structure: copy_digests(&fr.auth_structure),
                    revealed_leaves: copy_xfes(&fr.revealed_leaves),
                },
            ),
            _ => Err(ProofStreamError::UnexpectedItem("FRI proof", self.duplicate())),
        }
    }
}


/// An exact copy of a vector of digests.
fn copy_digests(v: &Vec<Digest>) -> (r: Vec<Digest>)
    ensures
        r@ == v@,
{
    let mut r: Vec<Digest> = Vec::new();
    let mut i: usize = 0;
    while i < v.len()
        invariant
            i <= v@.len(),
            r@ == v@.subrange(0, i as int),
        decreases v@.len() - i,
    {
        r.push(v[i]);
        i = i + 1;
    }
    proof {
        assert(v@.subrange(0, v@.len() as int) =~= v@);
    }
    r
}

/// An exact copy of a vector of extension-field elements.
fn copy_xfes(v: &Vec<Xfe>) -> (r: Vec<Xfe>)
    ensures
        r@ == v@,
{
    let mut r: Vec<Xfe> = Vec::new();
    let mut i: usize = 0;
    while i < v.len()
        invariant
            i <= v@.len(),
            r@ == v@.subrange(0, i as int),
        decreases v@.len() - i,
    {
        r.push(v[i]);
        i = i + 1;
    }
    proof {
        assert(v@.subrange(0, v@.len() as int) =~= v@);
    }
    r
}

/// An exact copy of a vector of quotient-segment tuples.
fn copy_quads(v: &Vec<[Xfe; NUM_QUOTIENT_SEGMENTS]>) -> (r: Vec<[Xfe; NUM_QUOTIENT_SEGMENTS]>)
    ensures
        r@ == v@,
{
    let mut r: Vec<[Xfe; NUM_QUOTIENT_SEGMENTS]> = Vec::new();
    let mut i: usize = 0;
    while i < v.len()
        invariant
            i <= v@.len(),
            r@ == v@.subrange(0, i as int),
        decreases v@.len() - i,
    {
        r.push(v[i]);
        i = i + 1;
    }
    proof {
        assert(v@.subrange(0, v@.len() as int) =~= v@);
    }
    r
}

/// An exact copy of a vector of base-field rows.
fn clone_nested_b_rows(v: &Vec<Vec<u64>>) -> (r: Vec<Vec<u64>>)
    ensures
        r.deep_view() == v.deep_view(),
        r@.map_values(|row: Vec<u64>| row@) == v@.map_values(|row: Vec<u64>| row@),
{
    let mut r: Vec<Vec<u64>> = Vec::new();
    let mut i: usize = 0;
    while i < v.len()
        invariant
            i <= v@.len(),
            r@.len() == i,
            forall|j: int| 0 <= j < i ==> #[trigger] r@[j]@ == v@[j]@,
        decreases v@.len() - i,
    {
        r.push(v[i].clone());
        i = i + 1;
    }
    proof {
        assert(r.deep_view() =~= v.deep_view());
        assert(r@.map_values(|row: Vec<u64>| row@) =~= v@.map_values(|row: Vec<u64>| row@));
    }
    r
}

/// An exact copy of a vector of extension-field rows.
fn clone_nested_x_rows(v: &Vec<Vec<Xfe>>) -> (r: Vec<Vec<Xfe>>)
    ensures
        r.deep_view() == v.deep_view(),
        r@.map_values(|row: Vec<Xfe>| row@) == v@.map_values(|row: Vec<Xfe>| row@),
{
    let mut r: Vec<Vec<Xfe>> = Vec::new();
    let mut i: usize = 0;
    while i < v.len()
        invariant
            i <= v@.len(),
            r@.len() == i,
            forall|j: int| 0 <= j < i ==> #[trigger] r@[j]@ == v@[j]@,
        decreases v@.len() - i,
    {
        r.push(copy_xfes(&v[i]));
        i = i + 1;
    }
    proof {
        assert(r.deep_view() =~= v.deep_view());
        assert(r@.map_values(|row: Vec<Xfe>| row@) =~= v@.map_values(|row: Vec<Xfe>| row@));
    }
    r
}

} // verus!
