//! The binary codec of the transcript.
//!
//! A proof item is encoded as a sequence of base-field elements: one element
//! for the variant's discriminant (its declaration index, starting at 1),
//! followed by the encoding of the payload. A variable-length structure is
//! prefixed by one element holding the element count of its encoded body;
//! nested variable-length fields follow the same rule recursively;
//! fixed-length structures carry no prefix.

use vstd::prelude::*;

verus! {

use crate::proof_item::FriResponse;
use crate::proof_item::FriResponseView;
use crate::proof_item::NUM_QUOTIENT_SEGMENTS;
use crate::proof_item::ProofItem;
use crate::proof_item::ProofItemView;
use crate::proof_item::ProofStreamError;
use crate::tip5::Digest;
use crate::tip5::digest_seq;
use crate::xfield::Xfe;

/// The three coefficients of one extension element, in order.
pub open spec fn enc_xfe(x: Xfe) -> Seq<u64> {
    seq![x.0, x.1, x.2]
}

/// The concatenated encodings of a sequence of extension elements.
pub open spec fn enc_xfes(s: Seq<Xfe>) -> Seq<u64>
    decreases s.len(),
{
    if s.len() == 0 {
        Seq::empty()
    } else {
        enc_xfe(s[0]) + enc_xfes(s.drop_first())
    }
}

/// The concatenated encodings of a sequence of digests.
pub open spec fn enc_digests(s: Seq<Digest>) -> Seq<u64>
    decreases s.len(),
{
    if s.len() == 0 {
        Seq::empty()
    } else {
        digest_seq(s[0]) + enc_digests(s.drop_first())
    }
}

/// The concatenated encodings of a sequence of quotient-segment tuples, each
/// a fixed-length run of four extension elements.
pub open spec fn enc_quads(s: Seq<Seq<Xfe>>) -> Seq<u64>
    decreases s.len(),
{
    if s.len() == 0 {
        Seq::empty()
    } else {
        enc_xfes(s[0]) + enc_quads(s.drop_first())
    }
}

/// A vector of extension elements: an item-count prefix, then the items.
pub open spec fn enc_vec_xfes(s: Seq<Xfe>) -> Seq<u64> {
    seq![s.len() as u64] + enc_xfes(s)
}

/// A vector of digests: an item-count prefix, then the items.
pub open spec fn enc_vec_digests(s: Seq<Digest>) -> Seq<u64> {
    seq![s.len() as u64] + enc_digests(s)
}

/// A vector of quotient-segment tuples: an item-count prefix, then the items.
pub open spec fn enc_vec_quads(s: Seq<Seq<Xfe>>) -> Seq<u64> {
    seq![s.len() as u64] + enc_quads(s)
}

/// The concatenated encodings of a sequence of base-field rows. Rows vary in
/// length, so each is prefixed first by the element count of its own encoding
/// and then by its item count.
pub open spec fn enc_b_rows(rows: Seq<Seq<u64>>) -> Seq<u64>
    decreases rows.len(),
{
    if rows.len() == 0 {
        Seq::empty()
    } else {
        seq![(rows[0].len() + 1) as u64, rows[0].len() as u64] + rows[0] + enc_b_rows(
            rows.drop_first(),
        )
    }
}

/// A vector of base-field rows: an item-count prefix, then the items.
pub open spec fn enc_vec_b_rows(rows: Seq<Seq<u64>>) -> Seq<u64> {
    seq![rows.len() as u64] + enc_b_rows(rows)
}

/// The concatenated encodings of a sequence of extension-field rows, each
/// prefixed by the element count of its own encoding and by its item count.
pub open spec fn enc_x_rows(rows: Seq<Seq<Xfe>>) -> Seq<u64>
    decreases rows.len(),
{
    if rows.len() == 0 {
        Seq::empty()
    } else {
        seq![(3 * rows[0].len() + 1) as u64, rows[0].len() as u64] + enc_xfes(rows[0])
            + enc_x_rows(rows.drop_first())
    }
}

/// A vector of extension-field rows: an item-count prefix, then the items.
pub open spec fn enc_vec_x_rows(rows: Seq<Seq<Xfe>>) -> Seq<u64> {
    seq![rows.len() as u64] + enc_x_rows(rows)
}

/// A FRI response: its two variable-length fields in declaration order, each
/// prefixed by the element count of its encoding.
pub open spec fn enc_fri_response(fr: FriResponseView) -> Seq<u64> {
    seq![enc_vec_digests(fr.auth_structure).len() as u64] + enc_vec_digests(fr.auth_structure)
        + seq![enc_vec_xfes(fr.revealed_leaves).len() as u64] + enc_vec_xfes(fr.revealed_leaves)
}

/// The canonical encoding of one proof item: the variant's discriminant,
/// then the payload, the payload prefixed by the element count of its
/// encoding wherever its length is not fixed by the variant alone.
pub open spec fn encoding_of(v: ProofItemView) -> Seq<u64> {
    match v {
        ProofItemView::AuthenticationStructure(s) => seq![1u64, enc_vec_digests(s).len() as u64]
            + enc_vec_digests(s),
        ProofItemView::MasterBaseTableRows(rows) => seq![2u64, enc_vec_b_rows(rows).len() as u64]
            + enc_vec_b_rows(rows),
        ProofItemView::MasterExtTableRows(rows) => seq![3u64, enc_vec_x_rows(rows).len() as u64]
            + enc_vec_x_rows(rows),
        ProofItemView::OutOfDomainBaseRow(s) => seq![4u64, enc_vec_xfes(s).len() as u64]
            + enc_vec_xfes(s),
        ProofItemView::OutOfDomainExtRow(s) => seq![5u64, enc_vec_xfes(s).len() as u64]
            + enc_vec_xfes(s),
        ProofItemView::OutOfDomainQuotientSegments(q) => seq![6u64] + enc_xfes(q),
        ProofItemView::MerkleRoot(d) => seq![7u64] + digest_seq(d),
        ProofItemView::Log2PaddedHeight(h) => seq![8u64, h as u64],
        ProofItemView::QuotientSegmentsElements(s) => seq![9u64, enc_vec_quads(s).len() as u64]
            + enc_vec_quads(s),
        ProofItemView::FriCodeword(s) => seq![10u64, enc_vec_xfes(s).len() as u64] + enc_vec_xfes(
            s,
        ),
        ProofItemView::FriResponse(fr) => seq![11u64, enc_fri_response(fr).len() as u64]
            + enc_fri_response(fr),
    }
}

/// The encoding of a run of extension elements is three elements per item.
pub proof fn lemma_enc_xfes_len(s: Seq<Xfe>)
    ensures
        enc_xfes(s).len() == 3 * s.len(),
    decreases s.len(),
{
    if s.len() > 0 {
        lemma_enc_xfes_len(s.drop_first());
    }
}

/// Where each coefficient of each item stands in the encoding of a run of
/// extension elements.
pub proof fn lemma_enc_xfes_index(s: Seq<Xfe>)
    ensures
        enc_xfes(s).len() == 3 * s.len(),
        forall|j: int, k: int|
            0 <= j < s.len() && 0 <= k < 3 ==> enc_xfes(s)[3 * j + k] == enc_xfe(s[j])[k],
    decreases s.len(),
{
    lemma_enc_xfes_len(s);
    if s.len() > 0 {
        lemma_enc_xfes_index(s.drop_first());
        assert forall|j: int, k: int| 0 <= j < s.len() && 0 <= k < 3 implies enc_xfes(s)[3 * j + k]
            == enc_xfe(s[j])[k] by {
            if j == 0 {
            } else {
                assert(enc_xfes(s.drop_first())[3 * (j - 1) + k] == enc_xfe(
                    s.drop_first()[j - 1],
                )[k]);
                assert(enc_xfes(s)[3 * j + k] == enc_xfes(s.drop_first())[3 * j + k - 3]);
            }
        }
    }
}

/// The encoding of a run of digests is five elements per item.
pub proof fn lemma_enc_digests_len(s: Seq<Digest>)
    ensures
        enc_digests(s).len() == 5 * s.len(),
    decreases s.len(),
{
    if s.len() > 0 {
        lemma_enc_digests_len(s.drop_first());
    }
}

/// Where each coordinate of each item stands in the encoding of a run of
/// digests.
pub proof fn lemma_enc_digests_index(s: Seq<Digest>)
    ensures
        enc_digests(s).len() == 5 * s.len(),
        forall|j: int, k: int|
            0 <= j < s.len() && 0 <= k < 5 ==> enc_digests(s)[5 * j + k] == digest_seq(s[j])[k],
    decreases s.len(),
{
    lemma_enc_digests_len(s);
    if s.len() > 0 {
        lemma_enc_digests_index(s.drop_first());
        assert forall|j: int, k: int| 0 <= j < s.len() && 0 <= k < 5 implies enc_digests(s)[5 * j
            + k] == digest_seq(s[j])[k] by {
            if j == 0 {
            } else {
                assert(enc_digests(s.drop_first())[5 * (j - 1) + k] == digest_seq(
                    s.drop_first()[j - 1],
                )[k]);
                assert(enc_digests(s)[5 * j + k] == enc_digests(s.drop_first())[5 * j + k - 5]);
            }
        }
    }
}

/// The encoding of a run of quotient-segment tuples, each of four extension
/// elements, is twelve elements per item.
pub proof fn lemma_enc_quads_len(s: Seq<Seq<Xfe>>)
    requires
        forall|j: int| 0 <= j < s.len() ==> (#[trigger] s[j]).len() == NUM_QUOTIENT_SEGMENTS,
    ensures
        enc_quads(s).len() == 12 * s.len(),
    decreases s.len(),
{
    if s.len() > 0 {
        lemma_enc_xfes_len(s[0]);
        lemma_enc_quads_len(s.drop_first());
    }
}

/// Where each coefficient of each tuple stands in the encoding of a run of
/// quotient-segment tuples.
pub proof fn lemma_enc_quads_index(s: Seq<Seq<Xfe>>)
    requires
        forall|j: int| 0 <= j < s.len() ==> (#[trigger] s[j]).len() == NUM_QUOTIENT_SEGMENTS,
    ensures
        enc_quads(s).len() == 12 * s.len(),
        forall|j: int, k: int|
            0 <= j < s.len() && 0 <= k < 12 ==> enc_quads(s)[12 * j + k] == enc_xfes(s[j])[k],
    decreases s.len(),
{
    lemma_enc_quads_len(s);
    if s.len() > 0 {
        lemma_enc_xfes_len(s[0]);
        lemma_enc_quads_index(s.drop_first());
        assert forall|j: int, k: int| 0 <= j < s.len() && 0 <= k < 12 implies enc_quads(s)[12 * j
            + k] == enc_xfes(s[j])[k] by {
            if j == 0 {
            } else {
                assert(enc_quads(s.drop_first())[12 * (j - 1) + k] == enc_xfes(
                    s.drop_first()[j - 1],
                )[k]);
                assert(enc_quads(s)[12 * j + k] == enc_quads(s.drop_first())[12 * j + k - 12]);
            }
        }
    }
}

/// Appends the encoding of a run of extension elements to `out`.
fn push_xfes(out: &mut Vec<u64>, s: &Vec<Xfe>)
    ensures
        final(out)@ == old(out)@ + enc_xfes(s@),
{
    let ghost orig = out@;
    let mut i: usize = 0;
    while i < s.len()
        invariant
            i <= s@.len(),
            out@ == orig + enc_xfes(s@.subrange(0, i as int)),
        decreases s@.len() - i,
    {
        let ghost pre = s@.subrange(0, i as int);
        out.push(s[i].0);
        out.push(s[i].1);
        out.push(s[i].2);
        i = i + 1;
        proof {
            let cur = s@.subrange(0, i as int);
            lemma_enc_xfes_index(pre);
            lemma_enc_xfes_index(cur);
            assert(pre =~= cur.subrange(0, cur.len() - 1));
            assert(out@ =~= orig + enc_xfes(cur)) by {
                lemma_enc_xfes_snoc(cur);
            }
        }
    }
    proof {
        assert(s@.subrange(0, s@.len() as int) =~= s@);
    }
}

/// Splitting the last element off a non-empty run of extension elements.
pub proof fn lemma_enc_xfes_snoc_pub(s: Seq<Xfe>)
    requires
        s.len() > 0,
    ensures
        enc_xfes(s) == enc_xfes(s.subrange(0, s.len() - 1)) + enc_xfe(s[s.len() - 1]),
{
    lemma_enc_xfes_snoc(s);
}

/// Splitting the last element off a non-empty run of extension elements.
proof fn lemma_enc_xfes_snoc(s: Seq<Xfe>)
    requires
        s.len() > 0,
    ensures
        enc_xfes(s) == enc_xfes(s.subrange(0, s.len() - 1)) + enc_xfe(s[s.len() - 1]),
    decreases s.len(),
{
    if s.len() == 1 {
        assert(s.subrange(0, 0) =~= Seq::<Xfe>::empty());
        assert(s.drop_first() =~= Seq::<Xfe>::empty());
        assert(enc_xfes(s) =~= enc_xfes(s.subrange(0, 0)) + enc_xfe(s[0]));
    } else {
        lemma_enc_xfes_snoc(s.drop_first());
        let init = s.subrange(0, s.len() - 1);
        assert(init.drop_first() =~= s.drop_first().subrange(0, s.drop_first().len() - 1));
        assert(enc_xfes(s) =~= enc_xfes(init) + enc_xfe(s[s.len() - 1]));
    }
}

/// Splitting the last element off a non-empty run of digests.
proof fn lemma_enc_digests_snoc(s: Seq<Digest>)
    requires
        s.len() > 0,
    ensures
        enc_digests(s) == enc_digests(s.subrange(0, s.len() - 1)) + digest_seq(s[s.len() - 1]),
    decreases s.len(),
{
    if s.len() == 1 {
        assert(s.subrange(0, 0) =~= Seq::<Digest>::empty());
        assert(s.drop_first() =~= Seq::<Digest>::empty());
        assert(enc_digests(s) =~= enc_digests(s.subrange(0, 0)) + digest_seq(s[0]));
    } else {
        lemma_enc_digests_snoc(s.drop_first());
        let init = s.subrange(0, s.len() - 1);
        assert(init.drop_first() =~= s.drop_first().subrange(0, s.drop_first().len() - 1));
        assert(enc_digests(s) =~= enc_digests(init) + digest_seq(s[s.len() - 1]));
    }
}

/// Appends the encoding of a run of digests to `out`.
fn push_digests(out: &mut Vec<u64>, s: &Vec<Digest>)
    ensures
        final(out)@ == old(out)@ + enc_digests(s@),
{
    let ghost orig = out@;
    let mut i: usize = 0;
    while i < s.len()
        invariant
            i <= s@.len(),
            out@ == orig + enc_digests(s@.subrange(0, i as int)),
        decreases s@.len() - i,
    {
        out.push(s[i].0);
        out.push(s[i].1);
        out.push(s[i].2);
        out.push(s[i].3);
        out.push(s[i].4);
        i = i + 1;
        proof {
            let cur = s@.subrange(0, i as int);
            assert(cur.subrange(0, cur.len() - 1) =~= s@.subrange(0, i - 1));
            lemma_enc_digests_snoc(cur);
            assert(out@ =~= orig + enc_digests(cur));
        }
    }
    proof {
        assert(s@.subrange(0, s@.len() as int) =~= s@);
    }
}


/// Splitting the last row off a non-empty run of base-field rows.
proof fn lemma_enc_b_rows_snoc(rows: Seq<Seq<u64>>)
    requires
        rows.len() > 0,
    ensures
        enc_b_rows(rows) == enc_b_rows(rows.subrange(0, rows.len() - 1)) + seq![
            (rows[rows.len() - 1].len() + 1) as u64,
            rows[rows.len() - 1].len() as u64,
        ] + rows[rows.len() - 1],
    decreases rows.len(),
{
    if rows.len() == 1 {
        assert(rows.subrange(0, 0) =~= Seq::<Seq<u64>>::empty());
        assert(rows.drop_first() =~= Seq::<Seq<u64>>::empty());
        assert(enc_b_rows(rows) =~= enc_b_rows(rows.subrange(0, 0)) + seq![
            (rows[0].len() + 1) as u64,
            rows[0].len() as u64,
        ] + rows[0]);
    } else {
        lemma_enc_b_rows_snoc(rows.drop_first());
        let init = rows.subrange(0, rows.len() - 1);
        assert(init.drop_first() =~= rows.drop_first().subrange(0, rows.drop_first().len() - 1));
        assert(enc_b_rows(rows) =~= enc_b_rows(init) + seq![
            (rows[rows.len() - 1].len() + 1) as u64,
            rows[rows.len() - 1].len() as u64,
        ] + rows[rows.len() - 1]);
    }
}

/// Splitting the last row off a non-empty run of extension-field rows.
proof fn lemma_enc_x_rows_snoc(rows: Seq<Seq<Xfe>>)
    requires
        rows.len() > 0,
    ensures
        enc_x_rows(rows) == enc_x_rows(rows.subrange(0, rows.len() - 1)) + seq![
            (3 * rows[rows.len() - 1].len() + 1) as u64,
            rows[rows.len() - 1].len() as u64,
        ] + enc_xfes(rows[rows.len() - 1]),
    decreases rows.len(),
{
    if rows.len() == 1 {
        assert(rows.subrange(0, 0) =~= Seq::<Seq<Xfe>>::empty());
        assert(rows.drop_first() =~= Seq::<Seq<Xfe>>::empty());
        assert(enc_x_rows(rows) =~= enc_x_rows(rows.subrange(0, 0)) + seq![
            (3 * rows[0].len() + 1) as u64,
            rows[0].len() as u64,
        ] + enc_xfes(rows[0]));
    } else {
        lemma_enc_x_rows_snoc(rows.drop_first());
        let init = rows.subrange(0, rows.len() - 1);
        assert(init.drop_first() =~= rows.drop_first().subrange(0, rows.drop_first().len() - 1));
        assert(enc_x_rows(rows) =~= enc_x_rows(init) + seq![
            (3 * rows[rows.len() - 1].len() + 1) as u64,
            rows[rows.len() - 1].len() as u64,
        ] + enc_xfes(rows[rows.len() - 1]));
    }
}

/// Splitting the last tuple off a non-empty run of quotient-segment tuples.
proof fn lemma_enc_quads_snoc(s: Seq<Seq<Xfe>>)
    requires
        s.len() > 0,
    ensures
        enc_quads(s) == enc_quads(s.subrange(0, s.len() - 1)) + enc_xfes(s[s.len() - 1]),
    decreases s.len(),
{
    if s.len() == 1 {
        assert(s.subrange(0, 0) =~= Seq::<Seq<Xfe>>::empty());
        assert(s.drop_first() =~= Seq::<Seq<Xfe>>::empty());
        assert(enc_quads(s) =~= enc_quads(s.subrange(0, 0)) + enc_xfes(s[0]));
    } else {
        lemma_enc_quads_snoc(s.drop_first());
        let init = s.subrange(0, s.len() - 1);
        assert(init.drop_first() =~= s.drop_first().subrange(0, s.drop_first().len() - 1));
        assert(enc_quads(s) =~= enc_quads(init) + enc_xfes(s[s.len() - 1]));
    }
}

/// Appends the encoding of one quotient-segment tuple to `out`.
fn push_quad(out: &mut Vec<u64>, q: &[Xfe; NUM_QUOTIENT_SEGMENTS])
    ensures
        final(out)@ == old(out)@ + enc_xfes(q@),
{
    out.push(q[0].0);
    out.push(q[0].1);
    out.push(q[0].2);
    out.push(q[1].0);
    out.push(q[1].1);
    out.push(q[1].2);
    out.push(q[2].0);
    out.push(q[2].1);
    out.push(q[2].2);
    out.push(q[3].0);
    out.push(q[3].1);
    out.push(q[3].2);
    proof {
        let v = q@;
        let v1 = v.drop_first();
        let v2 = v1.drop_first();
        let v3 = v2.drop_first();
        let v4 = v3.drop_first();
        assert(v4 =~= Seq::<Xfe>::empty());
        assert(enc_xfes(v4) =~= Seq::<u64>::empty());
        assert(enc_xfes(v3) =~= enc_xfe(v3[0]) + enc_xfes(v4));
        assert(enc_xfes(v2) =~= enc_xfe(v2[0]) + enc_xfes(v3));
        assert(enc_xfes(v1) =~= enc_xfe(v1[0]) + enc_xfes(v2));
        assert(enc_xfes(v) =~= enc_xfe(v[0]) + enc_xfes(v1));
        assert(v1[0] == v[1] && v2[0] == v[2] && v3[0] == v[3]);
        assert(out@ =~= old(out)@ + enc_xfes(v));
    }
}

/// The encoding of a vector of base-field rows, item-count prefix included.
fn encode_b_rows(rows: &Vec<Vec<u64>>) -> (r: Vec<u64>)
    ensures
        r@ == enc_vec_b_rows(rows@.map_values(|row: Vec<u64>| row@)),
{
    let ghost model = rows@.map_values(|row: Vec<u64>| row@);
    let mut out: Vec<u64> = Vec::new();
    out.push(rows.len() as u64);
    let mut i: usize = 0;
    while i < rows.len()
        invariant
            i <= rows@.len(),
            model == rows@.map_values(|row: Vec<u64>| row@),
            model.len() == rows@.len(),
            out@ == seq![rows@.len() as u64] + enc_b_rows(model.subrange(0, i as int)),
        decreases rows@.len() - i,
    {
        let mut body: Vec<u64> = Vec::new();
        body.push(rows[i].len() as u64);
        let mut j: usize = 0;
        while j < rows[i].len()
            invariant
                i < rows@.len(),
                j <= rows@[i as int]@.len(),
                body@ == seq![rows@[i as int]@.len() as u64] + rows@[i as int]@.subrange(
                    0,
                    j as int,
                ),
            decreases rows@[i as int]@.len() - j,
        {
            let v: u64 = rows[i][j];
            body.push(v);
            j = j + 1;
            proof {
                assert(rows@[i as int]@.subrange(0, j as int) =~= rows@[i as int]@.subrange(
                    0,
                    j - 1,
                ).push(rows@[i as int]@[j - 1]));
            }
        }
        proof {
            assert(rows@[i as int]@.subrange(0, rows@[i as int]@.len() as int) =~= rows@[
                i as int
            ]@);
        }
        out.push(body.len() as u64);
        let mut b = body;
        out.append(&mut b);
        i = i + 1;
        proof {
            let cur = model.subrange(0, i as int);
            assert(cur[i - 1] == rows@[i - 1]@);
            assert(cur.subrange(0, cur.len() - 1) =~= model.subrange(0, i - 1));
            lemma_enc_b_rows_snoc(cur);
            assert(out@ =~= seq![rows@.len() as u64] + enc_b_rows(cur));
        }
    }
    proof {
        assert(model.subrange(0, model.len() as int) =~= model);
    }
    out
}

/// The encoding of a vector of extension-field rows, item-count prefix
/// included.
fn encode_x_rows(rows: &Vec<Vec<Xfe>>) -> (r: Vec<u64>)
    ensures
        r@ == enc_vec_x_rows(rows@.map_values(|row: Vec<Xfe>| row@)),
{
    let ghost model = rows@.map_values(|row: Vec<Xfe>| row@);
    let mut out: Vec<u64> = Vec::new();
    out.push(rows.len() as u64);
    let mut i: usize = 0;
    while i < rows.len()
        invariant
            i <= rows@.len(),
            model == rows@.map_values(|row: Vec<Xfe>| row@),
            model.len() == rows@.len(),
            out@ == seq![rows@.len() as u64] + enc_x_rows(model.subrange(0, i as int)),
        decreases rows@.len() - i,
    {
        let mut body: Vec<u64> = Vec::new();
        body.push(rows[i].len() as u64);
        push_xfes(&mut body, &rows[i]);
        proof {
            lemma_enc_xfes_len(rows@[i as int]@);
        }
        out.push(body.len() as u64);
        let mut b = body;
        out.append(&mut b);
        i = i + 1;
        proof {
            let cur = model.subrange(0, i as int);
            assert(cur[i - 1] == rows@[i - 1]@);
            assert(cur.subrange(0, cur.len() - 1) =~= model.subrange(0, i - 1));
            lemma_enc_x_rows_snoc(cur);
            assert(out@ =~= seq![rows@.len() as u64] + enc_x_rows(cur));
        }
    }
    proof {
        assert(model.subrange(0, model.len() as int) =~= model);
    }
    out
}

/// The encoding of a FRI response: both fields, each with its element-count
/// prefix.
fn encode_fri_response(fr: &FriResponse) -> (r: Vec<u64>)
    ensures
        r@ == enc_fri_response(fr@),
{
    let mut auth: Vec<u64> = Vec::new();
    auth.push(fr.auth_structure.len() as u64);
    push_digests(&mut auth, &fr.auth_structure);
    let mut leaves: Vec<u64> = Vec::new();
    leaves.push(fr.revealed_leaves.len() as u64);
    push_xfes(&mut leaves, &fr.revealed_leaves);
    let mut out: Vec<u64> = Vec::new();
    out.push(auth.len() as u64);
    let mut a = auth;
    out.append(&mut a);
    out.push(leaves.len() as u64);
    let mut l = leaves;
    out.append(&mut l);
    proof {
        assert(out@ =~= enc_fri_response(fr@));
    }
    out
}

impl ProofItem {
    /// The canonical encoding of this item as a sequence of base-field
    /// elements.
    pub fn encode(&self) -> (r: Vec<u64>)
        ensures
            r@ == encoding_of(self@),
    {
        match self {
            ProofItem::AuthenticationStructure(v) => {
                let mut body: Vec<u64> = Vec::new();
                body.push(v.len() as u64);
                push_digests(&mut body, v);
                let mut out: Vec<u64> = Vec::new();
                out.push(1);
                out.push(body.len() as u64);
                let mut b = body;
                out.append(&mut b);
                proof {
                    assert(out@ =~= encoding_of(self@));
                }
                out
            },
            ProofItem::MasterBaseTableRows(rows) => {
                let body = encode_b_rows(rows);
                let mut out: Vec<u64> = Vec::new();
                out.push(2);
                out.push(body.len() as u64);
                let mut b = body;
                out.append(&mut b);
                proof {
                    assert(out@ =~= encoding_of(self@));
                }
                out
            },
            ProofItem::MasterExtTableRows(rows) => {
                let body = encode_x_rows(rows);
                let mut out: Vec<u64> = Vec::new();
                out.push(3);
                out.push(body.len() as u64);
                let mut b = body;
                out.append(&mut b);
                proof {
                    assert(out@ =~= encoding_of(self@));
                }
                out
            },
            ProofItem::OutOfDomainBaseRow(v) => {
                let mut body: Vec<u64> = Vec::new();
                body.push(v.len() as u64);
                push_xfes(&mut body, v);
                let mut out: Vec<u64> = Vec::new();
                out.push(4);
                out.push(body.len() as u64);
                let mut b = body;
                out.append(&mut b);
                proof {
                    assert(out@ =~= encoding_of(self@));
                }
                out
            },
            ProofItem::OutOfDomainExtRow(v) => {
                let mut body: Vec<u64> = Vec::new();
                body.push(v.len() as u64);
                push_xfes(&mut body, v);
                let mut out: Vec<u64> = Vec::new();
                out.push(5);
                out.push(body.len() as u64);
                let mut b = body;
                out.append(&mut b);
                proof {
                    assert(out@ =~= encoding_of(self@));
                }
                out
            },
            ProofItem::OutOfDomainQuotientSegments(q) => {
                let mut out: Vec<u64> = Vec::new();
                out.push(6);
                push_quad(&mut out, q);
                proof {
                    assert(out@ =~= encoding_of(self@));
                }
                out
            },
            ProofItem::MerkleRoot(d) => {
                let mut out: Vec<u64> = Vec::new();
                out.push(7);
                out.push(d.0);
                out.push(d.1);
                out.push(d.2);
                out.push(d.3);
                out.push(d.4);
                proof {
                    assert(out@ =~= encoding_of(self@));
                }
                out
            },
            ProofItem::Log2PaddedHeight(h) => {
                let mut out: Vec<u64> = Vec::new();
                out.push(8);
                out.push(*h as u64);
                proof {
                    assert(out@ =~= encoding_of(self@));
                }
                out
            },
            ProofItem::QuotientSegmentsElements(v) => {
                let ghost model = v@.map_values(|q: [Xfe; NUM_QUOTIENT_SEGMENTS]| q@);
                let mut body: Vec<u64> = Vec::new();
                body.push(v.len() as u64);
                let mut i: usize = 0;
                while i < v.len()
                    invariant
                        i <= v@.len(),
                        model == v@.map_values(|q: [Xfe; NUM_QUOTIENT_SEGMENTS]| q@),
                        model.len() == v@.len(),
                        body@ == seq![v@.len() as u64] + enc_quads(model.subrange(0, i as int)),
                    decreases v@.len() - i,
                {
                    push_quad(&mut body, &v[i]);
                    i = i + 1;
                    proof {
                        let cur = model.subrange(0, i as int);
                        assert(cur[i - 1] == v@[i - 1]@);
                        assert(cur.subrange(0, cur.len() - 1) =~= model.subrange(0, i - 1));
                        lemma_enc_quads_snoc(cur);
                        assert(body@ =~= seq![v@.len() as u64] + enc_quads(cur));
                    }
                }
                proof {
                    assert(model.subrange(0, model.len() as int) =~= model);
                }
                let mut out: Vec<u64> = Vec::new();
                out.push(9);
                out.push(body.len() as u64);
                let mut b = body;
                out.append(&mut b);
                proof {
                    assert(out@ =~= encoding_of(self@));
                }
                out
            },
            ProofItem::FriCodeword(v) => {
                let mut body: Vec<u64> = Vec::new();
                body.push(v.len() as u64);
                push_xfes(&mut body, v);
                let mut out: Vec<u64> = Vec::new();
                out.push(10);
                out.push(body.len() as u64);
                let mut b = body;
                out.append(&mut b);
                proof {
                    assert(out@ =~= encoding_of(self@));
                }
                out
            },
            ProofItem::FriResponse(fr) => {
                let body = encode_fri_response(fr);
                let mut out: Vec<u64> = Vec::new();
                out.push(11);
                out.push(body.len() as u64);
                let mut b = body;
                out.append(&mut b);
                proof {
                    assert(out@ =~= encoding_of(self@));
                }
                out
            },
        }
    }
}


/// The count a vector's prefix announces, as the number it denotes.
pub open spec fn count_of(p: u64) -> nat {
    p as nat
}

/// Decoding of a vector of extension elements: an item-count prefix, then
/// exactly three elements per item.
pub open spec fn dec_vec_xfes(s: Seq<u64>) -> Option<Seq<Xfe>> {
    if s.len() < 1 {
        None
    } else {
        let n = count_of(s[0]);
        if s.len() - 1 == 3 * n {
            Some(Seq::new(n, |j: int| Xfe(s[1 + 3 * j], s[1 + 3 * j + 1], s[1 + 3 * j + 2])))
        } else {
            None
        }
    }
}

/// Decoding of a vector of digests: an item-count prefix, then exactly five
/// elements per item.
pub open spec fn dec_vec_digests(s: Seq<u64>) -> Option<Seq<Digest>> {
    if s.len() < 1 {
        None
    } else {
        let n = count_of(s[0]);
        if s.len() - 1 == 5 * n {
            Some(
                Seq::new(
                    n,
                    |j: int| Digest(
                        s[1 + 5 * j],
                        s[1 + 5 * j + 1],
                        s[1 + 5 * j + 2],
                        s[1 + 5 * j + 3],
                        s[1 + 5 * j + 4],
                    ),
                ),
            )
        } else {
            None
        }
    }
}

/// Decoding of a vector of quotient-segment tuples: an item-count prefix,
/// then exactly twelve elements per item.
pub open spec fn dec_vec_quads(s: Seq<u64>) -> Option<Seq<Seq<Xfe>>> {
    if s.len() < 1 {
        None
    } else {
        let n = count_of(s[0]);
        if s.len() - 1 == 12 * n {
            Some(
                Seq::new(
                    n,
                    |j: int| Seq::new(
                        NUM_QUOTIENT_SEGMENTS as nat,
                        |k: int| Xfe(
                            s[1 + 12 * j + 3 * k],
                            s[1 + 12 * j + 3 * k + 1],
                            s[1 + 12 * j + 3 * k + 2],
                        ),
                    ),
                ),
            )
        } else {
            None
        }
    }
}

/// Decoding of a run of `n` base-field rows, each prefixed by the element
/// count of its own encoding and by its item count; the run must consume the
/// sequence exactly.
pub open spec fn dec_b_rows(s: Seq<u64>, n: nat) -> Option<Seq<Seq<u64>>>
    decreases n,
{
    if n == 0 {
        if s.len() == 0 {
            Some(Seq::empty())
        } else {
            None
        }
    } else if s.len() < 2 {
        None
    } else {
        let l = count_of(s[0]);
        let m = count_of(s[1]);
        if l != m + 1 || s.len() < 2 + m {
            None
        } else {
            match dec_b_rows(s.skip(2 + m as int), (n - 1) as nat) {
                Some(t) => Some(seq![s.subrange(2, 2 + m as int)] + t),
                None => None,
            }
        }
    }
}

/// Decoding of a vector of base-field rows: an item-count prefix, then the
/// rows.
pub open spec fn dec_vec_b_rows(s: Seq<u64>) -> Option<Seq<Seq<u64>>> {
    if s.len() < 1 {
        None
    } else {
        dec_b_rows(s.drop_first(), count_of(s[0]))
    }
}

/// Decoding of a run of `n` extension-field rows, each prefixed by the
/// element count of its own encoding and by its item count; the run must
/// consume the sequence exactly.
pub open spec fn dec_x_rows(s: Seq<u64>, n: nat) -> Option<Seq<Seq<Xfe>>>
    decreases n,
{
    if n == 0 {
        if s.len() == 0 {
            Some(Seq::empty())
        } else {
            None
        }
    } else if s.len() < 2 {
        None
    } else {
        let l = count_of(s[0]);
        let m = count_of(s[1]);
        if l != 3 * m + 1 || s.len() < 2 + 3 * m {
            None
        } else {
            let row = Seq::new(
                m,
                |j: int| Xfe(s[2 + 3 * j], s[2 + 3 * j + 1], s[2 + 3 * j + 2]),
            );
            match dec_x_rows(s.skip(2 + 3 * m as int), (n - 1) as nat) {
                Some(t) => Some(seq![row] + t),
                None => None,
            }
        }
    }
}

/// Decoding of a vector of extension-field rows: an item-count prefix, then
/// the rows.
pub open spec fn dec_vec_x_rows(s: Seq<u64>) -> Option<Seq<Seq<Xfe>>> {
    if s.len() < 1 {
        None
    } else {
        dec_x_rows(s.drop_first(), count_of(s[0]))
    }
}

/// Decoding of a FRI response: two variable-length fields, each introduced
/// by the element count of its encoding, together consuming the sequence
/// exactly.
pub open spec fn dec_fri_response(s: Seq<u64>) -> Option<FriResponseView> {
    if s.len() < 1 {
        None
    } else {
        let l1 = count_of(s[0]);
        if s.len() < 1 + l1 {
            None
        } else {
            match dec_vec_digests(s.subrange(1, 1 + l1 as int)) {
                Some(auth) => {
                    let t = s.skip(1 + l1 as int);
                    if t.len() < 1 || count_of(t[0]) != t.len() - 1 {
                        None
                    } else {
                        match dec_vec_xfes(t.drop_first()) {
                            Some(leaves) => Some(
                                FriResponseView { auth_structure: auth, revealed_leaves: leaves },
                            ),
                            None => None,
                        }
                    }
                },
                None => None,
            }
        }
    }
}

/// Decoding of one proof item from a sequence of base-field elements: the
/// inverse of `encoding_of` wherever one exists, and `None` everywhere else.
pub open spec fn spec_decode(s: Seq<u64>) -> Option<ProofItemView> {
    if s.len() == 0 {
        None
    } else {
        let rest = s.drop_first();
        if s[0] == 1 {
            if rest.len() >= 1 && count_of(rest[0]) == rest.len() - 1 {
                match dec_vec_digests(rest.drop_first()) {
                    Some(d) => Some(ProofItemView::AuthenticationStructure(d)),
                    None => None,
                }
            } else {
                None
            }
        } else if s[0] == 2 {
            if rest.len() >= 1 && count_of(rest[0]) == rest.len() - 1 {
                match dec_vec_b_rows(rest.drop_first()) {
                    Some(rows) => Some(ProofItemView::MasterBaseTableRows(rows)),
                    None => None,
                }
            } else {
                None
            }
        } else if s[0] == 3 {
            if rest.len() >= 1 && count_of(rest[0]) == rest.len() - 1 {
                match dec_vec_x_rows(rest.drop_first()) {
                    Some(rows) => Some(ProofItemView::MasterExtTableRows(rows)),
                    None => None,
                }
            } else {
                None
            }
        } else if s[0] == 4 {
            if rest.len() >= 1 && count_of(rest[0]) == rest.len() - 1 {
                match dec_vec_xfes(rest.drop_first()) {
                    Some(row) => Some(ProofItemView::OutOfDomainBaseRow(row)),
                    None => None,
                }
            } else {
                None
            }
        } else if s[0] == 5 {
            if rest.len() >= 1 && count_of(rest[0]) == rest.len() - 1 {
                match dec_vec_xfes(rest.drop_first()) {
                    Some(row) => Some(ProofItemView::OutOfDomainExtRow(row)),
                    None => None,
                }
            } else {
                None
            }
        } else if s[0] == 6 {
            if rest.len() == 3 * NUM_QUOTIENT_SEGMENTS {
                Some(
                    ProofItemView::OutOfDomainQuotientSegments(
                        Seq::new(
                            NUM_QUOTIENT_SEGMENTS as nat,
                            |k: int| Xfe(rest[3 * k], rest[3 * k + 1], rest[3 * k + 2]),
                        ),
                    ),
                )
            } else {
                None
            }
        } else if s[0] == 7 {
            if rest.len() == 5 {
                Some(ProofItemView::MerkleRoot(Digest(rest[0], rest[1], rest[2], rest[3], rest[4])))
            } else {
                None
            }
        } else if s[0] == 8 {
            if rest.len() == 1 && rest[0] <= u32::MAX as u64 {
                Some(ProofItemView::Log2PaddedHeight(rest[0] as u32))
            } else {
                None
            }
        } else if s[0] == 9 {
            if rest.len() >= 1 && count_of(rest[0]) == rest.len() - 1 {
                match dec_vec_quads(rest.drop_first()) {
                    Some(qs) => Some(ProofItemView::QuotientSegmentsElements(qs)),
                    None => None,
                }
            } else {
                None
            }
        } else if s[0] == 10 {
            if rest.len() >= 1 && count_of(rest[0]) == rest.len() - 1 {
                match dec_vec_xfes(rest.drop_first()) {
                    Some(cw) => Some(ProofItemView::FriCodeword(cw)),
                    None => None,
                }
            } else {
                None
            }
        } else if s[0] == 11 {
            if rest.len() >= 1 && count_of(rest[0]) == rest.len() - 1 {
                match dec_fri_response(rest.drop_first()) {
                    Some(fr) => Some(ProofItemView::FriResponse(fr)),
                    None => None,
                }
            } else {
                None
            }
        } else {
            None
        }
    }
}

/// The value of an item is small enough for every length prefix of its
/// encoding to fit in one base-field element slot. True of every item a
/// program can build; needed only because sequence lengths are unbounded
/// mathematical numbers.
pub open spec fn encodable(v: ProofItemView) -> bool {
    match v {
        ProofItemView::AuthenticationStructure(s) => 5 * s.len() + 1
            < 0x1_0000_0000_0000_0000,
        ProofItemView::MasterBaseTableRows(rows) => {
            &&& rows.len() < 0x1_0000_0000_0000_0000
            &&& enc_vec_b_rows(rows).len() < 0x1_0000_0000_0000_0000
            &&& forall|j: int|
                0 <= j < rows.len() ==> (#[trigger] rows[j]).len() + 1 < 0x1_0000_0000_0000_0000
        },
        ProofItemView::MasterExtTableRows(rows) => {
            &&& rows.len() < 0x1_0000_0000_0000_0000
            &&& enc_vec_x_rows(rows).len() < 0x1_0000_0000_0000_0000
            &&& forall|j: int|
                0 <= j < rows.len() ==> 3 * (#[trigger] rows[j]).len() + 1
                    < 0x1_0000_0000_0000_0000
        },
        ProofItemView::OutOfDomainBaseRow(s) => 3 * s.len() + 1 < 0x1_0000_0000_0000_0000,
        ProofItemView::OutOfDomainExtRow(s) => 3 * s.len() + 1 < 0x1_0000_0000_0000_0000,
        ProofItemView::OutOfDomainQuotientSegments(q) => q.len() == NUM_QUOTIENT_SEGMENTS,
        ProofItemView::MerkleRoot(_) => true,
        ProofItemView::Log2PaddedHeight(_) => true,
        ProofItemView::QuotientSegmentsElements(s) => {
            &&& 12 * s.len() + 1 < 0x1_0000_0000_0000_0000
            &&& forall|j: int| 0 <= j < s.len() ==> (#[trigger] s[j]).len() == NUM_QUOTIENT_SEGMENTS
        },
        ProofItemView::FriCodeword(s) => 3 * s.len() + 1 < 0x1_0000_0000_0000_0000,
        ProofItemView::FriResponse(fr) => {
            &&& 5 * fr.auth_structure.len() + 1 < 0x1_0000_0000_0000_0000
            &&& 3 * fr.revealed_leaves.len() + 1 < 0x1_0000_0000_0000_0000
            &&& enc_fri_response(fr).len() < 0x1_0000_0000_0000_0000
        },
    }
}

/// Round trip for vectors of extension elements.
proof fn lemma_rt_vec_xfes(v: Seq<Xfe>)
    requires
        v.len() < 0x1_0000_0000_0000_0000,
    ensures
        dec_vec_xfes(enc_vec_xfes(v)) == Some(v),
{
    lemma_enc_xfes_index(v);
    let s = enc_vec_xfes(v);
    assert(count_of(s[0]) == v.len());
    let w = dec_vec_xfes(s).unwrap();
    assert forall|j: int| 0 <= j < v.len() implies w[j] == v[j] by {
        assert(s[1 + 3 * j] == enc_xfes(v)[3 * j]);
        assert(s[1 + 3 * j + 1] == enc_xfes(v)[3 * j + 1]);
        assert(s[1 + 3 * j + 2] == enc_xfes(v)[3 * j + 2]);
        assert(enc_xfes(v)[3 * j] == enc_xfe(v[j])[0]);
        assert(enc_xfes(v)[3 * j + 1] == enc_xfe(v[j])[1]);
        assert(enc_xfes(v)[3 * j + 2] == enc_xfe(v[j])[2]);
    }
    assert(w =~= v);
}

/// Round trip for vectors of digests.
proof fn lemma_rt_vec_digests(v: Seq<Digest>)
    requires
        v.len() < 0x1_0000_0000_0000_0000,
    ensures
        dec_vec_digests(enc_vec_digests(v)) == Some(v),
{
    lemma_enc_digests_index(v);
    let s = enc_vec_digests(v);
    assert(count_of(s[0]) == v.len());
    let w = dec_vec_digests(s).unwrap();
    assert forall|j: int| 0 <= j < v.len() implies w[j] == v[j] by {
        assert forall|k: int| 0 <= k < 5 implies s[1 + 5 * j + k] == digest_seq(v[j])[k] by {
            assert(s[1 + 5 * j + k] == enc_digests(v)[5 * j + k]);
        }
        assert(digest_seq(v[j])[0] == v[j].0 && digest_seq(v[j])[1] == v[j].1 && digest_seq(
            v[j],
        )[2] == v[j].2 && digest_seq(v[j])[3] == v[j].3 && digest_seq(v[j])[4] == v[j].4);
    }
    assert(w =~= v);
}

/// Round trip for vectors of quotient-segment tuples.
proof fn lemma_rt_vec_quads(v: Seq<Seq<Xfe>>)
    requires
        v.len() < 0x1_0000_0000_0000_0000,
        forall|j: int| 0 <= j < v.len() ==> (#[trigger] v[j]).len() == NUM_QUOTIENT_SEGMENTS,
    ensures
        dec_vec_quads(enc_vec_quads(v)) == Some(v),
{
    lemma_enc_quads_index(v);
    let s = enc_vec_quads(v);
    assert(count_of(s[0]) == v.len());
    let w = dec_vec_quads(s).unwrap();
    assert forall|j: int| 0 <= j < v.len() implies w[j] == v[j] by {
        lemma_enc_xfes_index(v[j]);
        assert forall|k: int| 0 <= k < NUM_QUOTIENT_SEGMENTS implies w[j][k] == v[j][k] by {
            assert(s[1 + 12 * j + 3 * k] == enc_quads(v)[12 * j + 3 * k]);
            assert(s[1 + 12 * j + 3 * k + 1] == enc_quads(v)[12 * j + (3 * k + 1)]);
            assert(s[1 + 12 * j + 3 * k + 2] == enc_quads(v)[12 * j + (3 * k + 2)]);
            assert(enc_quads(v)[12 * j + 3 * k] == enc_xfes(v[j])[3 * k]);
            assert(enc_quads(v)[12 * j + (3 * k + 1)] == enc_xfes(v[j])[3 * k + 1]);
            assert(enc_quads(v)[12 * j + (3 * k + 2)] == enc_xfes(v[j])[3 * k + 2]);
            assert(enc_xfes(v[j])[3 * k] == enc_xfe(v[j][k])[0]);
            assert(enc_xfes(v[j])[3 * k + 1] == enc_xfe(v[j][k])[1]);
            assert(enc_xfes(v[j])[3 * k + 2] == enc_xfe(v[j][k])[2]);
        }
        assert(w[j] =~= v[j]);
    }
    assert(w =~= v);
}

/// Round trip for runs of base-field rows.
proof fn lemma_rt_b_rows(rows: Seq<Seq<u64>>)
    requires
        forall|j: int|
            0 <= j < rows.len() ==> (#[trigger] rows[j]).len() + 1 < 0x1_0000_0000_0000_0000,
    ensures
        dec_b_rows(enc_b_rows(rows), rows.len()) == Some(rows),
    decreases rows.len(),
{
    if rows.len() == 0 {
    } else {
        lemma_rt_b_rows(rows.drop_first());
        let s = enc_b_rows(rows);
        let m = rows[0].len();
        assert(count_of(s[0]) == m + 1);
        assert(count_of(s[1]) == m);
        assert(s.subrange(2, 2 + m as int) =~= rows[0]);
        assert(s.skip(2 + m as int) =~= enc_b_rows(rows.drop_first()));
        assert(seq![rows[0]] + rows.drop_first() =~= rows);
    }
}

/// Round trip for runs of extension-field rows.
proof fn lemma_rt_x_rows(rows: Seq<Seq<Xfe>>)
    requires
        forall|j: int|
            0 <= j < rows.len() ==> 3 * (#[trigger] rows[j]).len() + 1 < 0x1_0000_0000_0000_0000,
    ensures
        dec_x_rows(enc_x_rows(rows), rows.len()) == Some(rows),
    decreases rows.len(),
{
    if rows.len() == 0 {
    } else {
        lemma_rt_x_rows(rows.drop_first());
        let s = enc_x_rows(rows);
        let m = rows[0].len();
        lemma_enc_xfes_index(rows[0]);
        assert(count_of(s[0]) == 3 * m + 1);
        assert(count_of(s[1]) == m);
        let row = Seq::new(m, |j: int| Xfe(s[2 + 3 * j], s[2 + 3 * j + 1], s[2 + 3 * j + 2]));
        assert forall|j: int| 0 <= j < m implies row[j] == rows[0][j] by {
            assert(s[2 + 3 * j] == enc_xfes(rows[0])[3 * j]);
            assert(s[2 + 3 * j + 1] == enc_xfes(rows[0])[3 * j + 1]);
            assert(s[2 + 3 * j + 2] == enc_xfes(rows[0])[3 * j + 2]);
            assert(enc_xfes(rows[0])[3 * j] == enc_xfe(rows[0][j])[0]);
            assert(enc_xfes(rows[0])[3 * j + 1] == enc_xfe(rows[0][j])[1]);
            assert(enc_xfes(rows[0])[3 * j + 2] == enc_xfe(rows[0][j])[2]);
        }
        assert(row =~= rows[0]);
        assert(s.skip(2 + 3 * m as int) =~= enc_x_rows(rows.drop_first()));
        assert(seq![row] + rows.drop_first() =~= rows);
    }
}

/// Round trip for FRI responses.
proof fn lemma_rt_fri_response(fr: FriResponseView)
    requires
        5 * fr.auth_structure.len() + 1 < 0x1_0000_0000_0000_0000,
        3 * fr.revealed_leaves.len() + 1 < 0x1_0000_0000_0000_0000,
    ensures
        dec_fri_response(enc_fri_response(fr)) == Some(fr),
{
    let s = enc_fri_response(fr);
    let ea = enc_vec_digests(fr.auth_structure);
    let el = enc_vec_xfes(fr.revealed_leaves);
    lemma_enc_digests_len(fr.auth_structure);
    lemma_enc_xfes_len(fr.revealed_leaves);
    assert(count_of(s[0]) == ea.len());
    assert(s.subrange(1, 1 + ea.len() as int) =~= ea);
    lemma_rt_vec_digests(fr.auth_structure);
    let t = s.skip(1 + ea.len() as int);
    assert(t =~= seq![el.len() as u64] + el);
    assert(count_of(t[0]) == el.len());
    assert(t.drop_first() =~= el);
    lemma_rt_vec_xfes(fr.revealed_leaves);
}

/// The codec round trip: decoding the encoding of any proof item yields that
/// item back, exactly.
pub proof fn lemma_codec_round_trip(v: ProofItemView)
    requires
        encodable(v),
    ensures
        spec_decode(encoding_of(v)) == Some(v),
{
    let e = encoding_of(v);
    let rest = e.drop_first();
    match v {
        ProofItemView::AuthenticationStructure(s) => {
            lemma_enc_digests_len(s);
            assert(rest =~= seq![enc_vec_digests(s).len() as u64] + enc_vec_digests(s));
            assert(rest.drop_first() =~= enc_vec_digests(s));
            lemma_rt_vec_digests(s);
        },
        ProofItemView::MasterBaseTableRows(rows) => {
            assert(rest =~= seq![enc_vec_b_rows(rows).len() as u64] + enc_vec_b_rows(rows));
            assert(rest.drop_first() =~= enc_vec_b_rows(rows));
            assert(enc_vec_b_rows(rows).drop_first() =~= enc_b_rows(rows));
            lemma_rt_b_rows(rows);
        },
        ProofItemView::MasterExtTableRows(rows) => {
            assert(rest =~= seq![enc_vec_x_rows(rows).len() as u64] + enc_vec_x_rows(rows));
            assert(rest.drop_first() =~= enc_vec_x_rows(rows));
            assert(enc_vec_x_rows(rows).drop_first() =~= enc_x_rows(rows));
            lemma_rt_x_rows(rows);
        },
        ProofItemView::OutOfDomainBaseRow(s) => {
            lemma_enc_xfes_len(s);
            assert(rest =~= seq![enc_vec_xfes(s).len() as u64] + enc_vec_xfes(s));
            assert(rest.drop_first() =~= enc_vec_xfes(s));
            lemma_rt_vec_xfes(s);
        },
        ProofItemView::OutOfDomainExtRow(s) => {
            lemma_enc_xfes_len(s);
            assert(rest =~= seq![enc_vec_xfes(s).len() as u64] + enc_vec_xfes(s));
            assert(rest.drop_first() =~= enc_vec_xfes(s));
            lemma_rt_vec_xfes(s);
        },
        ProofItemView::OutOfDomainQuotientSegments(q) => {
            lemma_enc_xfes_index(q);
            assert(rest =~= enc_xfes(q));
            let w = Seq::new(
                NUM_QUOTIENT_SEGMENTS as nat,
                |k: int| Xfe(rest[3 * k], rest[3 * k + 1], rest[3 * k + 2]),
            );
            assert forall|k: int| 0 <= k < NUM_QUOTIENT_SEGMENTS implies w[k] == q[k] by {
                assert(enc_xfes(q)[3 * k] == enc_xfe(q[k])[0]);
                assert(enc_xfes(q)[3 * k + 1] == enc_xfe(q[k])[1]);
                assert(enc_xfes(q)[3 * k + 2] == enc_xfe(q[k])[2]);
            }
            assert(w =~= q);
        },
        ProofItemView::MerkleRoot(d) => {
            assert(rest =~= digest_seq(d));
        },
        ProofItemView::Log2PaddedHeight(h) => {
            assert(rest =~= seq![h as u64]);
        },
        ProofItemView::QuotientSegmentsElements(s) => {
            lemma_enc_quads_len(s);
            assert(rest =~= seq![enc_vec_quads(s).len() as u64] + enc_vec_quads(s));
            assert(rest.drop_first() =~= enc_vec_quads(s));
            lemma_rt_vec_quads(s);
        },
        ProofItemView::FriCodeword(s) => {
            lemma_enc_xfes_len(s);
            assert(rest =~= seq![enc_vec_xfes(s).len() as u64] + enc_vec_xfes(s));
            assert(rest.drop_first() =~= enc_vec_xfes(s));
            lemma_rt_vec_xfes(s);
        },
        ProofItemView::FriResponse(fr) => {
            assert(rest =~= seq![enc_fri_response(fr).len() as u64] + enc_fri_response(fr));
            assert(rest.drop_first() =~= enc_fri_response(fr));
            lemma_rt_fri_response(fr);
        },
    }
}


/// Prepends already-parsed base-field rows to the outcome of parsing the
/// remainder.
pub open spec fn glue_b(a: Seq<Seq<u64>>, o: Option<Seq<Seq<u64>>>) -> Option<Seq<Seq<u64>>> {
    match o {
        Some(t) => Some(a + t),
        None => None,
    }
}

/// Prepends already-parsed extension-field rows to the outcome of parsing
/// the remainder.
pub open spec fn glue_x(a: Seq<Seq<Xfe>>, o: Option<Seq<Seq<Xfe>>>) -> Option<Seq<Seq<Xfe>>> {
    match o {
        Some(t) => Some(a + t),
        None => None,
    }
}

/// Reads `n` extension elements, three sequence slots each, starting at
/// `lo`.
fn parse_xfes(s: &Vec<u64>, lo: usize, n: usize) -> (r: Vec<Xfe>)
    requires
        lo + 3 * n <= s@.len(),
    ensures
        r@ == Seq::new(
            n as nat,
            |j: int| Xfe(s@[lo + 3 * j], s@[lo + 3 * j + 1], s@[lo + 3 * j + 2]),
        ),
{
    let ghost goal = Seq::new(
        n as nat,
        |j: int| Xfe(s@[lo + 3 * j], s@[lo + 3 * j + 1], s@[lo + 3 * j + 2]),
    );
    let mut r: Vec<Xfe> = Vec::new();
    let slen: usize = s.len();
    let mut i: usize = 0;
    while i < n
        invariant
            i <= n,
            slen == s@.len(),
            lo + 3 * n <= slen,
            goal == Seq::new(
                n as nat,
                |j: int| Xfe(s@[lo + 3 * j], s@[lo + 3 * j + 1], s@[lo + 3 * j + 2]),
            ),
            r@ == goal.subrange(0, i as int),
        decreases n - i,
    {
        let base: usize = lo + 3 * i;
        r.push(Xfe(s[base], s[base + 1], s[base + 2]));
        i = i + 1;
        proof {
            assert(r@ =~= goal.subrange(0, i as int));
        }
    }
    proof {
        assert(goal.subrange(0, n as int) =~= goal);
    }
    r
}

/// Reads `n` digests, five sequence slots each, starting at `lo`.
fn parse_digests(s: &Vec<u64>, lo: usize, n: usize) -> (r: Vec<Digest>)
    requires
        lo + 5 * n <= s@.len(),
    ensures
        r@ == Seq::new(
            n as nat,
            |j: int| Digest(
                s@[lo + 5 * j],
                s@[lo + 5 * j + 1],
                s@[lo + 5 * j + 2],
                s@[lo + 5 * j + 3],
                s@[lo + 5 * j + 4],
            ),
        ),
{
    let ghost goal = Seq::new(
        n as nat,
        |j: int| Digest(
            s@[lo + 5 * j],
            s@[lo + 5 * j + 1],
            s@[lo + 5 * j + 2],
            s@[lo + 5 * j + 3],
            s@[lo + 5 * j + 4],
        ),
    );
    let mut r: Vec<Digest> = Vec::new();
    let slen: usize = s.len();
    let mut i: usize = 0;
    while i < n
        invariant
            i <= n,
            slen == s@.len(),
            lo + 5 * n <= slen,
            goal == Seq::new(
                n as nat,
                |j: int| Digest(
                    s@[lo + 5 * j],
                    s@[lo + 5 * j + 1],
                    s@[lo + 5 * j + 2],
                    s@[lo + 5 * j + 3],
                    s@[lo + 5 * j + 4],
                ),
            ),
            r@ == goal.subrange(0, i as int),
        decreases n - i,
    {
        let base: usize = lo + 5 * i;
        r.push(Digest(s[base], s[base + 1], s[base + 2], s[base + 3], s[base + 4]));
        i = i + 1;
        proof {
            assert(r@ =~= goal.subrange(0, i as int));
        }
    }
    proof {
        assert(goal.subrange(0, n as int) =~= goal);
    }
    r
}

/// Reads `n` quotient-segment tuples, twelve sequence slots each, starting
/// at `lo`.
fn parse_quads(s: &Vec<u64>, lo: usize, n: usize) -> (r: Vec<[Xfe; NUM_QUOTIENT_SEGMENTS]>)
    requires
        lo + 12 * n <= s@.len(),
    ensures
        r@.map_values(|q: [Xfe; NUM_QUOTIENT_SEGMENTS]| q@) == Seq::new(
            n as nat,
            |j: int| Seq::new(
                NUM_QUOTIENT_SEGMENTS as nat,
                |k: int| Xfe(
                    s@[lo + 12 * j + 3 * k],
                    s@[lo + 12 * j + 3 * k + 1],
                    s@[lo + 12 * j + 3 * k + 2],
                ),
            ),
        ),
{
    let ghost goal = Seq::new(
        n as nat,
        |j: int| Seq::new(
            NUM_QUOTIENT_SEGMENTS as nat,
            |k: int| Xfe(
                s@[lo + 12 * j + 3 * k],
                s@[lo + 12 * j + 3 * k + 1],
                s@[lo + 12 * j + 3 * k + 2],
            ),
        ),
    );
    let mut r: Vec<[Xfe; NUM_QUOTIENT_SEGMENTS]> = Vec::new();
    let slen: usize = s.len();
    let mut i: usize = 0;
    while i < n
        invariant
            i <= n,
            slen == s@.len(),
            lo + 12 * n <= slen,
            goal == Seq::new(
                n as nat,
                |j: int| Seq::new(
                    NUM_QUOTIENT_SEGMENTS as nat,
                    |k: int| Xfe(
                        s@[lo + 12 * j + 3 * k],
                        s@[lo + 12 * j + 3 * k + 1],
                        s@[lo + 12 * j + 3 * k + 2],
                    ),
                ),
            ),
            r@.len() == i,
            forall|t: int| 0 <= t < i ==> (#[trigger] r@[t])@ == goal[t],
        decreases n - i,
    {
        let base: usize = lo + 12 * i;
        let quad: [Xfe; NUM_QUOTIENT_SEGMENTS] = [
            Xfe(s[base], s[base + 1], s[base + 2]),
            Xfe(s[base + 3], s[base + 4], s[base + 5]),
            Xfe(s[base + 6], s[base + 7], s[base + 8]),
            Xfe(s[base + 9], s[base + 10], s[base + 11]),
        ];
        let ghost rold = r@;
        r.push(quad);
        i = i + 1;
        proof {
            let g = goal[i - 1];
            assert forall|k: int| 0 <= k < NUM_QUOTIENT_SEGMENTS implies quad@[k] == g[k] by {
                assert(g[k] == Xfe(
                    s@[lo + 12 * (i - 1) + 3 * k],
                    s@[lo + 12 * (i - 1) + 3 * k + 1],
                    s@[lo + 12 * (i - 1) + 3 * k + 2],
                ));
            }
            assert(quad@ =~= g);
            assert(r@ == rold.push(quad));
        }
    }
    proof {
        assert(r@.map_values(|q: [Xfe; NUM_QUOTIENT_SEGMENTS]| q@) =~= goal);
    }
    r
}

/// Reads a run of `n` length-prefixed base-field rows starting at `lo`, or
/// reports that the run is malformed or does not consume the rest exactly.
fn parse_b_rows(s: &Vec<u64>, lo: usize, n: u64) -> (r: Result<Vec<Vec<u64>>, ProofStreamError>)
    requires
        lo <= s@.len(),
    ensures
        dec_b_rows(s@.skip(lo as int), n as nat) matches Some(rows) ==> (r matches Ok(v)
            && v@.map_values(|row: Vec<u64>| row@) == rows),
        dec_b_rows(s@.skip(lo as int), n as nat) is None ==> r == Err::<
            Vec<Vec<u64>>,
            ProofStreamError,
        >(ProofStreamError::DecodingError),
{
    let ghost total = dec_b_rows(s@.skip(lo as int), n as nat);
    let slen: usize = s.len();
    let mut acc: Vec<Vec<u64>> = Vec::new();
    let mut cur: usize = lo;
    let mut k: u64 = 0;
    while k < n
        invariant
            slen == s@.len(),
            lo <= cur <= s@.len(),
            k <= n,
            total == dec_b_rows(s@.skip(lo as int), n as nat),
            glue_b(
                acc@.map_values(|row: Vec<u64>| row@),
                dec_b_rows(s@.skip(cur as int), (n - k) as nat),
            ) == total,
        decreases n - k,
    {
        let ghost pre = acc@.map_values(|row: Vec<u64>| row@);
        let ghost here = dec_b_rows(s@.skip(cur as int), (n - k) as nat);
        let rem: usize = s.len() - cur;
        if rem < 2 {
            proof {
                assert(here is None);
            }
            return Err(ProofStreamError::DecodingError);
        }
        let l: u64 = s[cur];
        let m64: u64 = s[cur + 1];
        if !(l >= 1 && l - 1 == m64) {
            proof {
                assert(here is None);
            }
            return Err(ProofStreamError::DecodingError);
        }
        if ((rem - 2) as u64) < m64 {
            proof {
                assert(s@.skip(cur as int).len() < 2 + m64 as nat);
                assert(here is None);
            }
            return Err(ProofStreamError::DecodingError);
        }
        let m: usize = m64 as usize;
        let mut row: Vec<u64> = Vec::new();
        let mut j: usize = 0;
        while j < m
            invariant
                slen == s@.len(),
                cur + 2 + m <= slen,
                j <= m,
                row@ == s@.subrange(cur + 2, cur + 2 + j as int),
            decreases m - j,
        {
            row.push(s[cur + 2 + j]);
            j = j + 1;
            proof {
                assert(row@ =~= s@.subrange(cur + 2, cur + 2 + j as int));
            }
        }
        acc.push(row);
        k = k + 1;
        let prev: usize = cur;
        cur = cur + 2 + m;
        proof {
            let win = s@.skip(prev as int);
            assert(win.subrange(2, 2 + m as int) =~= s@.subrange(prev + 2, prev + 2 + m as int));
            assert(win.skip(2 + m as int) =~= s@.skip(cur as int));
            let tail = dec_b_rows(s@.skip(cur as int), (n - k) as nat);
            if tail is Some {
                let t = tail.unwrap();
                assert(here == Some(seq![win.subrange(2, 2 + m as int)] + t));
                assert(acc@.map_values(|row: Vec<u64>| row@) =~= pre.push(
                    s@.subrange(prev + 2, prev + 2 + m as int),
                ));
                assert(pre + (seq![win.subrange(2, 2 + m as int)] + t) =~= acc@.map_values(
                    |row: Vec<u64>| row@,
                ) + t);
            } else {
                assert(here is None);
            }
        }
    }
    if cur == s.len() {
        proof {
            assert(s@.skip(cur as int).len() == 0);
            assert(dec_b_rows(s@.skip(cur as int), 0) == Some(Seq::<Seq<u64>>::empty()));
            let a = acc@.map_values(|row: Vec<u64>| row@);
            assert(a + Seq::<Seq<u64>>::empty() =~= a);
        }
        Ok(acc)
    } else {
        proof {
            assert(s@.skip(cur as int).len() > 0);
        }
        Err(ProofStreamError::DecodingError)
    }
}

/// Reads a run of `n` length-prefixed extension-field rows starting at `lo`,
/// or reports that the run is malformed or does not consume the rest
/// exactly.
fn parse_x_rows(s: &Vec<u64>, lo: usize, n: u64) -> (r: Result<Vec<Vec<Xfe>>, ProofStreamError>)
    requires
        lo <= s@.len(),
    ensures
        dec_x_rows(s@.skip(lo as int), n as nat) matches Some(rows) ==> (r matches Ok(v)
            && v@.map_values(|row: Vec<Xfe>| row@) == rows),
        dec_x_rows(s@.skip(lo as int), n as nat) is None ==> r == Err::<
            Vec<Vec<Xfe>>,
            ProofStreamError,
        >(ProofStreamError::DecodingError),
{
    let ghost total = dec_x_rows(s@.skip(lo as int), n as nat);
    let slen: usize = s.len();
    let mut acc: Vec<Vec<Xfe>> = Vec::new();
    let mut cur: usize = lo;
    let mut k: u64 = 0;
    while k < n
        invariant
            slen == s@.len(),
            lo <= cur <= s@.len(),
            k <= n,
            total == dec_x_rows(s@.skip(lo as int), n as nat),
            glue_x(
                acc@.map_values(|row: Vec<Xfe>| row@),
                dec_x_rows(s@.skip(cur as int), (n - k) as nat),
            ) == total,
        decreases n - k,
    {
        let ghost pre = acc@.map_values(|row: Vec<Xfe>| row@);
        let ghost here = dec_x_rows(s@.skip(cur as int), (n - k) as nat);
        let rem: usize = s.len() - cur;
        if rem < 2 {
            proof {
                assert(here is None);
            }
            return Err(ProofStreamError::DecodingError);
        }
        let l: u64 = s[cur];
        let m64: u64 = s[cur + 1];
        let rem_items: usize = rem - 2;
        if l as u128 != 3u128 * (m64 as u128) + 1 {
            proof {
                assert(count_of(l) != 3 * (m64 as nat) + 1);
                assert(here is None);
            }
            return Err(ProofStreamError::DecodingError);
        }
        if (rem_items as u128) < 3u128 * (m64 as u128) {
            proof {
                assert(s@.skip(cur as int).len() < 2 + 3 * (m64 as nat));
                assert(here is None);
            }
            return Err(ProofStreamError::DecodingError);
        }
        let m: usize = m64 as usize;
        let row = parse_xfes(s, cur + 2, m);
        acc.push(row);
        k = k + 1;
        let prev: usize = cur;
        cur = cur + 2 + 3 * m;
        proof {
            let win = s@.skip(prev as int);
            let srow = Seq::new(
                m64 as nat,
                |j: int| Xfe(win[2 + 3 * j], win[2 + 3 * j + 1], win[2 + 3 * j + 2]),
            );
            let prow = Seq::new(
                m as nat,
                |j: int| Xfe(
                    s@[prev + 2 + 3 * j],
                    s@[prev + 2 + 3 * j + 1],
                    s@[prev + 2 + 3 * j + 2],
                ),
            );
            assert forall|j: int| 0 <= j < m implies srow[j] == prow[j] by {
                assert(win[2 + 3 * j] == s@[prev + 2 + 3 * j]);
                assert(win[2 + 3 * j + 1] == s@[prev + 2 + 3 * j + 1]);
                assert(win[2 + 3 * j + 2] == s@[prev + 2 + 3 * j + 2]);
            }
            assert(srow =~= prow);
            assert(win.skip(2 + 3 * (m64 as nat) as int) =~= s@.skip(cur as int));
            let tail = dec_x_rows(s@.skip(cur as int), (n - k) as nat);
            if tail is Some {
                let t = tail.unwrap();
                assert(here == Some(seq![srow] + t));
                assert(acc@.map_values(|row: Vec<Xfe>| row@) =~= pre.push(prow));
                assert(pre + (seq![srow] + t) =~= acc@.map_values(|row: Vec<Xfe>| row@) + t);
            } else {
                assert(here is None);
            }
        }
    }
    if cur == s.len() {
        proof {
            assert(s@.skip(cur as int).len() == 0);
            assert(dec_x_rows(s@.skip(cur as int), 0) == Some(Seq::<Seq<Xfe>>::empty()));
            let a = acc@.map_values(|row: Vec<Xfe>| row@);
            assert(a + Seq::<Seq<Xfe>>::empty() =~= a);
        }
        Ok(acc)
    } else {
        proof {
            assert(s@.skip(cur as int).len() > 0);
        }
        Err(ProofStreamError::DecodingError)
    }
}


impl ProofItem {
    /// Decodes one proof item from a sequence of base-field elements:
    /// succeeds exactly on the sequences that are the encoding of an item,
    /// and returns that item.
    #[verifier::rlimit(100)]
    pub fn decode(s: &Vec<u64>) -> (r: Result<ProofItem, ProofStreamError>)
        ensures
            spec_decode(s@) matches Some(v) ==> (r matches Ok(it) && it@ == v),
            spec_decode(s@) is None ==> r == Err::<ProofItem, ProofStreamError>(
                ProofStreamError::DecodingError,
            ),
    {
        let slen: usize = s.len();
        if slen == 0 {
            return Err(ProofStreamError::DecodingError);
        }
        let disc: u64 = s[0];
        proof {
            assert(s@.drop_first().len() == slen - 1);
            assert forall|i: int| 0 <= i < slen - 1 implies #[trigger] s@.drop_first()[i] == s@[
                i + 1
            ] by {}
        }
        if disc == 1 {
            if slen < 2 || s[1] != (slen - 2) as u64 {
                return Err(ProofStreamError::DecodingError);
            }
            if slen < 3 {
                return Err(ProofStreamError::DecodingError);
            }
            let n64: u64 = s[2];
            let rem: usize = slen - 3;
            proof {
                assert(s@.drop_first().drop_first() =~= s@.skip(2));
            }
            if rem % 5 != 0 || (rem / 5) as u64 != n64 {
                proof {
                    assert(s@.skip(2).len() - 1 != 5 * count_of(n64));
                }
                return Err(ProofStreamError::DecodingError);
            }
            let n: usize = rem / 5;
            let v = parse_digests(s, 3, n);
            proof {
                let t = s@.skip(2);
                let w = dec_vec_digests(t).unwrap();
                assert forall|j: int| 0 <= j < n implies v@[j] == w[j] by {
                    assert(t[1 + 5 * j] == s@[3 + 5 * j]);
                    assert(t[1 + 5 * j + 1] == s@[3 + 5 * j + 1]);
                    assert(t[1 + 5 * j + 2] == s@[3 + 5 * j + 2]);
                    assert(t[1 + 5 * j + 3] == s@[3 + 5 * j + 3]);
                    assert(t[1 + 5 * j + 4] == s@[3 + 5 * j + 4]);
                }
                assert(v@ =~= w);
            }
            Ok(ProofItem::AuthenticationStructure(v))
        } else if disc == 2 {
            if slen < 2 || s[1] != (slen - 2) as u64 {
                return Err(ProofStreamError::DecodingError);
            }
            if slen < 3 {
                return Err(ProofStreamError::DecodingError);
            }
            let n64: u64 = s[2];
            proof {
                assert(s@.drop_first().drop_first() =~= s@.skip(2));
                assert(s@.skip(2).drop_first() =~= s@.skip(3));
            }
            match parse_b_rows(s, 3, n64) {
                Ok(rows) => Ok(ProofItem::MasterBaseTableRows(rows)),
                Err(_) => Err(ProofStreamError::DecodingError),
            }
        } else if disc == 3 {
            if slen < 2 || s[1] != (slen - 2) as u64 {
                return Err(ProofStreamError::DecodingError);
            }
            if slen < 3 {
                return Err(ProofStreamError::DecodingError);
            }
            let n64: u64 = s[2];
            proof {
                assert(s@.drop_first().drop_first() =~= s@.skip(2));
                assert(s@.skip(2).drop_first() =~= s@.skip(3));
            }
            match parse_x_rows(s, 3, n64) {
                Ok(rows) => Ok(ProofItem::MasterExtTableRows(rows)),
                Err(_) => Err(ProofStreamError::DecodingError),
            }
        } else if disc == 4 || disc == 5 || disc == 10 {
            if slen < 2 || s[1] != (slen - 2) as u64 {
                return Err(ProofStreamError::DecodingError);
            }
            if slen < 3 {
                return Err(ProofStreamError::DecodingError);
            }
            let n64: u64 = s[2];
            let rem: usize = slen - 3;
            proof {
                assert(s@.drop_first().drop_first() =~= s@.skip(2));
            }
            if rem % 3 != 0 || (rem / 3) as u64 != n64 {
                proof {
                    assert(s@.skip(2).len() - 1 != 3 * count_of(n64));
                }
                return Err(ProofStreamError::DecodingError);
            }
            let n: usize = rem / 3;
            let v = parse_xfes(s, 3, n);
            proof {
                let t = s@.skip(2);
                let w = dec_vec_xfes(t).unwrap();
                assert forall|j: int| 0 <= j < n implies v@[j] == w[j] by {
                    assert(t[1 + 3 * j] == s@[3 + 3 * j]);
                    assert(t[1 + 3 * j + 1] == s@[3 + 3 * j + 1]);
                    assert(t[1 + 3 * j + 2] == s@[3 + 3 * j + 2]);
                }
                assert(v@ =~= w);
            }
            if disc == 4 {
                Ok(ProofItem::OutOfDomainBaseRow(v))
            } else if disc == 5 {
                Ok(ProofItem::OutOfDomainExtRow(v))
            } else {
                Ok(ProofItem::FriCodeword(v))
            }
        } else if disc == 6 {
            if slen != 1 + 3 * NUM_QUOTIENT_SEGMENTS {
                return Err(ProofStreamError::DecodingError);
            }
            let quad: [Xfe; NUM_QUOTIENT_SEGMENTS] = [
                Xfe(s[1], s[2], s[3]),
                Xfe(s[4], s[5], s[6]),
                Xfe(s[7], s[8], s[9]),
                Xfe(s[10], s[11], s[12]),
            ];
            proof {
                let rest = s@.drop_first();
                let w = Seq::new(
                    NUM_QUOTIENT_SEGMENTS as nat,
                    |k: int| Xfe(rest[3 * k], rest[3 * k + 1], rest[3 * k + 2]),
                );
                assert forall|k: int| 0 <= k < NUM_QUOTIENT_SEGMENTS implies quad@[k] == w[k] by {
                    assert(rest[3 * k] == s@[1 + 3 * k]);
                    assert(rest[3 * k + 1] == s@[1 + 3 * k + 1]);
                    assert(rest[3 * k + 2] == s@[1 + 3 * k + 2]);
                }
                assert(quad@ =~= w);
            }
            Ok(ProofItem::OutOfDomainQuotientSegments(quad))
        } else if disc == 7 {
            if slen != 6 {
                return Err(ProofStreamError::DecodingError);
            }
            Ok(ProofItem::MerkleRoot(Digest(s[1], s[2], s[3], s[4], s[5])))
        } else if disc == 8 {
            if slen != 2 || s[1] > u32::MAX as u64 {
                return Err(ProofStreamError::DecodingError);
            }
            Ok(ProofItem::Log2PaddedHeight(s[1] as u32))
        } else if disc == 9 {
            if slen < 2 || s[1] != (slen - 2) as u64 {
                return Err(ProofStreamError::DecodingError);
            }
            if slen < 3 {
                return Err(ProofStreamError::DecodingError);
            }
            let n64: u64 = s[2];
            let rem: usize = slen - 3;
            proof {
                assert(s@.drop_first().drop_first() =~= s@.skip(2));
            }
            if rem % 12 != 0 || (rem / 12) as u64 != n64 {
                proof {
                    assert(s@.skip(2).len() - 1 != 12 * count_of(n64));
                }
                return Err(ProofStreamError::DecodingError);
            }
            let n: usize = rem / 12;
            let v = parse_quads(s, 3, n);
            proof {
                let t = s@.skip(2);
                let w = dec_vec_quads(t).unwrap();
                let m = v@.map_values(|q: [Xfe; NUM_QUOTIENT_SEGMENTS]| q@);
                assert forall|j: int| 0 <= j < n implies m[j] == w[j] by {
                    assert forall|k: int| 0 <= k < NUM_QUOTIENT_SEGMENTS implies m[j][k] == w[j][k] by {
                        assert(t[1 + 12 * j + 3 * k] == s@[3 + 12 * j + 3 * k]);
                        assert(t[1 + 12 * j + 3 * k + 1] == s@[3 + 12 * j + 3 * k + 1]);
                        assert(t[1 + 12 * j + 3 * k + 2] == s@[3 + 12 * j + 3 * k + 2]);
                    }
                    assert(m[j] =~= w[j]);
                }
                assert(m =~= w);
            }
            Ok(ProofItem::QuotientSegmentsElements(v))
        } else if disc == 11 {
            if slen < 2 || s[1] != (slen - 2) as u64 {
                return Err(ProofStreamError::DecodingError);
            }
            proof {
                assert(s@.drop_first().drop_first() =~= s@.skip(2));
            }
            if slen < 3 {
                return Err(ProofStreamError::DecodingError);
            }
            let l1: u64 = s[2];
            let avail: usize = slen - 3;
            if (avail as u64) < l1 {
                proof {
                    assert(s@.skip(2).len() < 1 + count_of(l1));
                }
                return Err(ProofStreamError::DecodingError);
            }
            let l1u: usize = l1 as usize;
            proof {
                assert(s@.skip(2).subrange(1, 1 + l1 as int) =~= s@.subrange(3, 3 + l1 as int));
            }
            if l1u < 1 {
                return Err(ProofStreamError::DecodingError);
            }
            let n1: u64 = s[3];
            let rem1: usize = l1u - 1;
            if rem1 % 5 != 0 || (rem1 / 5) as u64 != n1 {
                proof {
                    assert(s@.subrange(3, 3 + l1 as int).len() - 1 != 5 * count_of(n1));
                }
                return Err(ProofStreamError::DecodingError);
            }
            let na: usize = rem1 / 5;
            let auth = parse_digests(s, 4, na);
            proof {
                let t = s@.subrange(3, 3 + l1 as int);
                let w = dec_vec_digests(t).unwrap();
                assert forall|j: int| 0 <= j < na implies auth@[j] == w[j] by {
                    assert(t[1 + 5 * j] == s@[4 + 5 * j]);
                    assert(t[1 + 5 * j + 1] == s@[4 + 5 * j + 1]);
                    assert(t[1 + 5 * j + 2] == s@[4 + 5 * j + 2]);
                    assert(t[1 + 5 * j + 3] == s@[4 + 5 * j + 3]);
                    assert(t[1 + 5 * j + 4] == s@[4 + 5 * j + 4]);
                }
                assert(auth@ =~= w);
            }
            let pos: usize = 3 + l1u;
            proof {
                assert(s@.skip(2).skip(1 + l1 as int) =~= s@.skip(pos as int));
            }
            if slen - pos < 1 {
                return Err(ProofStreamError::DecodingError);
            }
            let l2: u64 = s[pos];
            if l2 != (slen - pos - 1) as u64 {
                return Err(ProofStreamError::DecodingError);
            }
            proof {
                assert(s@.skip(pos as int).drop_first() =~= s@.skip(pos + 1));
            }
            if slen - pos < 2 {
                return Err(ProofStreamError::DecodingError);
            }
            let n2: u64 = s[pos + 1];
            let rem2: usize = slen - pos - 2;
            if rem2 % 3 != 0 || (rem2 / 3) as u64 != n2 {
                proof {
                    assert(s@.skip(pos + 1).len() - 1 != 3 * count_of(n2));
                }
                return Err(ProofStreamError::DecodingError);
            }
            let nl: usize = rem2 / 3;
            let leaves = parse_xfes(s, pos + 2, nl);
            proof {
                let t = s@.skip(pos + 1);
                let w = dec_vec_xfes(t).unwrap();
                assert forall|j: int| 0 <= j < nl implies leaves@[j] == w[j] by {
                    assert(t[1 + 3 * j] == s@[pos + 1 + 1 + 3 * j]);
                    assert(t[1 + 3 * j + 1] == s@[pos + 1 + 1 + 3 * j + 1]);
                    assert(t[1 + 3 * j + 2] == s@[pos + 1 + 1 + 3 * j + 2]);
                }
                assert(leaves@ =~= w);
            }
            Ok(ProofItem::FriResponse(FriResponse { auth_structure: auth, revealed_leaves: leaves }))
        } else {
            Err(ProofStreamError::DecodingError)
        }
    }
}

} // verus!
