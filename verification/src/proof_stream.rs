//! The non-interactive transcript.
//!
//! The prover enqueues proof items; the verifier dequeues them. Items that
//! carry fresh commitments are folded into the Fiat-Shamir sponge by both
//! sides, through one and the same deterministic update, so that after the
//! k-th dequeue the verifier's sponge state equals the prover's after the
//! k-th enqueue. The serialized form of a stream — the proof — encodes the
//! items alone: neither the read cursor nor the sponge state travels.

use vstd::prelude::*;

verus! {

use crate::codec::encoding_of;
use crate::codec::encodable;
use crate::codec::lemma_codec_round_trip;
use crate::codec::spec_decode;
use crate::proof_item::ProofItem;
use crate::proof_item::ProofItemView;
use crate::proof_item::ProofStreamError;
use crate::proof_item::included_in_fiat_shamir;
use crate::tip5::RATE;
use crate::tip5::STATE_SIZE;
use crate::tip5::sponge_init;
use crate::tip5::sponge_absorb;
use crate::tip5::sponge_sample_indices;
use crate::tip5::sponge_sample_scalars;
use crate::tip5::tip5_absorb_of;
use crate::tip5::tip5_indices_of;
use crate::tip5::tip5_scalars_of;
use crate::xfield::Xfe;

/// A serialized transcript: the encoding of the stream's items as one
/// vector of base-field elements.
#[derive(Debug, Clone, PartialEq, Eq)]
pub struct Proof(pub Vec<u64>);

/// The prover-verifier transcript: the items sent so far, the verifier's
/// read cursor (always zero on the prover's side), and the Fiat-Shamir
/// sponge state.
#[derive(Debug, Clone)]
pub struct ProofStream {
    pub items: Vec<ProofItem>,
    pub items_index: usize,
    pub sponge_state: Vec<u64>,
}

/// The sponge state every transcript starts from.
pub open spec fn initial_sponge() -> Seq<u64> {
    Seq::new(STATE_SIZE as nat, |i: int| 0u64)
}

/// The absorption padding: the encoding, then a single one, then as many
/// zeros as it takes to reach a multiple of the sponge's rate.
pub open spec fn pad_encoding(e: Seq<u64>) -> Seq<u64> {
    let tail = (e.len() + 1) % (RATE as nat);
    let zeros = if tail == 0 {
        0nat
    } else {
        (RATE as nat - tail) as nat
    };
    e + seq![1u64] + Seq::new(zeros, |i: int| 0u64)
}

/// Absorption of a padded run into the sponge, one rate-sized block at a
/// time.
pub open spec fn absorb_chunks(state: Seq<u64>, data: Seq<u64>) -> Seq<u64>
    decreases data.len(),
{
    if data.len() < RATE {
        state
    } else {
        absorb_chunks(tip5_absorb_of(state, data.take(RATE as int)), data.skip(RATE as int))
    }
}

/// How one item moves the sponge: items that carry fresh commitments are
/// absorbed, padded; all others leave the sponge untouched.
pub open spec fn fs_update(state: Seq<u64>, v: ProofItemView) -> Seq<u64> {
    if included_in_fiat_shamir(v) {
        absorb_chunks(state, pad_encoding(encoding_of(v)))
    } else {
        state
    }
}

/// The sponge state after processing a run of items in order, starting from
/// `state`: the one fold both the prover and the verifier compute.
pub open spec fn fs_fold(state: Seq<u64>, items: Seq<ProofItemView>) -> Seq<u64>
    decreases items.len(),
{
    if items.len() == 0 {
        state
    } else {
        fs_fold(fs_update(state, items[0]), items.drop_first())
    }
}

/// The items a stream holds, as mathematical values.
pub open spec fn items_view(items: Seq<ProofItem>) -> Seq<ProofItemView> {
    items.map_values(|it: ProofItem| it@)
}

/// The encoding of a run of items, each prefixed by the element count of
/// its encoding.
pub open spec fn enc_items(items: Seq<ProofItemView>) -> Seq<u64>
    decreases items.len(),
{
    if items.len() == 0 {
        Seq::empty()
    } else {
        seq![encoding_of(items[0]).len() as u64] + encoding_of(items[0]) + enc_items(
            items.drop_first(),
        )
    }
}

/// The serialized form of a stream: an item-count prefix, then the items.
pub open spec fn proof_encoding(items: Seq<ProofItemView>) -> Seq<u64> {
    seq![items.len() as u64] + enc_items(items)
}

/// Decoding of a run of `n` length-prefixed items, consuming the sequence
/// exactly.
pub open spec fn dec_items(s: Seq<u64>, n: nat) -> Option<Seq<ProofItemView>>
    decreases n,
{
    if n == 0 {
        if s.len() == 0 {
            Some(Seq::empty())
        } else {
            None
        }
    } else if s.len() < 1 {
        None
    } else {
        let l = s[0] as nat;
        if s.len() < 1 + l {
            None
        } else {
            match spec_decode(s.subrange(1, 1 + l as int)) {
                Some(v) => match dec_items(s.skip(1 + l as int), (n - 1) as nat) {
                    Some(t) => Some(seq![v] + t),
                    None => None,
                },
                None => None,
            }
        }
    }
}

/// Decoding of a serialized transcript back into its items.
pub open spec fn proof_decode(s: Seq<u64>) -> Option<Seq<ProofItemView>> {
    if s.len() < 1 {
        None
    } else {
        dec_items(s.drop_first(), s[0] as nat)
    }
}

/// Every item of the run is small enough to encode, and its encoding small
/// enough for a one-element length prefix.
pub open spec fn all_encodable(items: Seq<ProofItemView>) -> bool {
    forall|j: int|
        0 <= j < items.len() ==> encodable(#[trigger] items[j]) && encoding_of(items[j]).len()
            < 0x1_0000_0000_0000_0000
}

/// Serialization round trip for a run of items: decoding the encoding gives
/// the run back.
proof fn lemma_rt_items(items: Seq<ProofItemView>)
    requires
        all_encodable(items),
    ensures
        dec_items(enc_items(items), items.len()) == Some(items),
    decreases items.len(),
{
    if items.len() > 0 {
        lemma_rt_items(items.drop_first());
        let s = enc_items(items);
        let e = encoding_of(items[0]);
        assert(s[0] as nat == e.len());
        assert(s.subrange(1, 1 + e.len() as int) =~= e);
        lemma_codec_round_trip(items[0]);
        assert(s.skip(1 + e.len() as int) =~= enc_items(items.drop_first()));
        assert(seq![items[0]] + items.drop_first() =~= items);
    }
}

/// The transcript round trip: a proof built from a run of items decodes to
/// exactly that run. Together with the contracts of `enqueue` and `dequeue`,
/// which move the sponge by the same `fs_update`, it gives the lock-step of
/// prover and verifier: the verifier dequeues exactly what the prover
/// enqueued, so after the k-th dequeue its sponge state equals the prover's
/// after the k-th enqueue.
pub proof fn lemma_stream_round_trip(items: Seq<ProofItemView>)
    requires
        all_encodable(items),
        items.len() < 0x1_0000_0000_0000_0000,
    ensures
        proof_decode(proof_encoding(items)) == Some(items),
        forall|k: int|
            0 <= k <= items.len() ==> fs_fold(initial_sponge(), items.subrange(0, k)) == fs_fold(
                initial_sponge(),
                proof_decode(proof_encoding(items)).unwrap().subrange(0, k),
            ),
{
    let s = proof_encoding(items);
    assert(s[0] as nat == items.len());
    assert(s.drop_first() =~= enc_items(items));
    lemma_rt_items(items);
}

impl ProofStream {
    /// The stream's bookkeeping is sound: its sponge state has full width.
    pub open spec fn wf(self) -> bool {
        self.sponge_state@.len() == STATE_SIZE
    }

    /// A fresh transcript: no items, cursor at the start, sponge in the
    /// initial state.
    pub fn new() -> (r: ProofStream)
        ensures
            r.wf(),
            r.items@.len() == 0,
            r.items_index == 0,
            r.sponge_state@ == initial_sponge(),
    {
        let stream = ProofStream { items: Vec::new(), items_index: 0, sponge_state: sponge_init() };
        proof {
            assert(stream.sponge_state@ =~= initial_sponge());
        }
        stream
    }

    /// The padded absorption encoding of one item.
    fn encode_and_pad_item(item: &ProofItem) -> (r: Vec<u64>)
        ensures
            r@ == pad_encoding(encoding_of(item@)),
            r@.len() % (RATE as nat) == 0,
    {
        let mut out = item.encode();
        let ghost e = encoding_of(item@);
        out.push(1);
        let ghost zeros: nat = (pad_encoding(e).len() - e.len() - 1) as nat;
        proof {
            assert(pad_encoding(e).len() == e.len() + 1 + zeros);
            assert((e.len() + 1 + zeros) % (RATE as nat) == 0);
            assert(zeros < RATE);
        }
        while out.len() % RATE != 0
            invariant
                e.len() + 1 <= out@.len() <= e.len() + 1 + zeros,
                (e.len() + 1 + zeros) % (RATE as nat) == 0,
                zeros < RATE,
                out@.subrange(0, e.len() as int) == e,
                out@[e.len() as int] == 1u64,
                forall|i: int| e.len() + 1 <= i < out@.len() ==> out@[i] == 0u64,
            decreases e.len() + 1 + zeros - out@.len(),
        {
            out.push(0);
        }
        proof {
            assert(out@ =~= pad_encoding(e));
        }
        out
    }

    /// Absorbs the padded encoding of the given item into the sponge. Does
    /// not record the item in the stream: this is for values, such as the
    /// public claim, that both parties know and that must still bind the
    /// transcript.
    pub fn alter_fiat_shamir_state_with(&mut self, item: &ProofItem)
        requires
            old(self).wf(),
        ensures
            final(self).wf(),
            final(self).items == old(self).items,
            final(self).items_index == old(self).items_index,
            final(self).sponge_state@ == absorb_chunks(
                old(self).sponge_state@,
                pad_encoding(encoding_of(item@)),
            ),
    {
        let data = Self::encode_and_pad_item(item);
        let dlen: usize = data.len();
        let ghost orig = self.sponge_state@;
        let mut i: usize = 0;
        proof {
            assert(data@.skip(0) =~= data@);
        }
        while i < dlen
            invariant
                self.wf(),
                self.items == old(self).items,
                self.items_index == old(self).items_index,
                dlen == data@.len(),
                i <= dlen,
                i % RATE == 0,
                data@.len() % (RATE as nat) == 0,
                absorb_chunks(orig, data@) == absorb_chunks(
                    self.sponge_state@,
                    data@.skip(i as int),
                ),
            decreases data@.len() - i,
        {
            proof {
                assert((dlen - i) % (RATE as int) == 0);
                assert(i + RATE <= dlen);
            }
            let mut chunk: Vec<u64> = Vec::new();
            let mut j: usize = 0;
            while j < RATE
                invariant
                    dlen == data@.len(),
                    i + RATE <= dlen,
                    j <= RATE,
                    chunk@ == data@.subrange(i as int, i + j as int),
                decreases RATE - j,
            {
                chunk.push(data[i + j]);
                j = j + 1;
                proof {
                    assert(chunk@ =~= data@.subrange(i as int, i + j as int));
                }
            }
            let ghost pre = self.sponge_state@;
            sponge_absorb(&mut self.sponge_state, &chunk);
            i = i + RATE;
            proof {
                let win = data@.skip(i - RATE);
                assert(win.take(RATE as int) =~= data@.subrange(i - RATE, i as int));
                assert(win.skip(RATE as int) =~= data@.skip(i as int));
                assert(absorb_chunks(pre, win) == absorb_chunks(
                    tip5_absorb_of(pre, chunk@),
                    data@.skip(i as int),
                ));
            }
        }
        proof {
            assert(data@.skip(data@.len() as int).len() == 0);
        }
    }

    /// Sends a proof item from prover to verifier: folds it into the sponge
    /// if it is of the kinds considered in the Fiat-Shamir heuristic, and
    /// appends it to the stream.
    pub fn enqueue(&mut self, item: ProofItem)
        requires
            old(self).wf(),
        ensures
            final(self).wf(),
            final(self).items@ == old(self).items@.push(item),
            final(self).items_index == old(self).items_index,
            final(self).sponge_state@ == fs_update(old(self).sponge_state@, item@),
    {
        if item.include_in_fiat_shamir_heuristic() {
            self.alter_fiat_shamir_state_with(&item);
        }
        self.items.push(item);
    }

    /// Receives a proof item as the verifier: reads the item under the
    /// cursor, folds it into the sponge exactly as `enqueue` did, and
    /// advances the cursor. Fails with `EmptyQueue` exactly when the cursor
    /// is already past the end.
    pub fn dequeue(&mut self) -> (r: Result<ProofItem, ProofStreamError>)
        requires
            old(self).wf(),
        ensures
            final(self).wf(),
            final(self).items == old(self).items,
            old(self).items_index >= old(self).items@.len() ==> r == Err::<
                ProofItem,
                ProofStreamError,
            >(ProofStreamError::EmptyQueue) && final(self).items_index == old(self).items_index
                && final(self).sponge_state@ == old(self).sponge_state@,
            old(self).items_index < old(self).items@.len() ==> (r matches Ok(it)
                && it@ == old(self).items@[old(self).items_index as int]@ && final(self).items_index
                == old(self).items_index + 1 && final(self).sponge_state@ == fs_update(
                old(self).sponge_state@,
                it@,
            )),
    {
        if self.items_index >= self.items.len() {
            return Err(ProofStreamError::EmptyQueue);
        }
        let item = self.items[self.items_index].duplicate();
        if item.include_in_fiat_shamir_heuristic() {
            self.alter_fiat_shamir_state_with(&item);
        }
        self.items_index = self.items_index + 1;
        Ok(item)
    }

    /// The number of base-field elements required to encode the proof.
    pub fn transcript_length(&self) -> (r: usize)
        ensures
            r == proof_encoding(items_view(self.items@)).len(),
    {
        let proof_data = self.to_proof();
        proof_data.0.len()
    }

    /// Serializes the stream: the items alone, cursor and sponge state
    /// excluded.
    pub fn to_proof(&self) -> (r: Proof)
        ensures
            r.0@ == proof_encoding(items_view(self.items@)),
    {
        let ghost model = items_view(self.items@);
        let mut out: Vec<u64> = Vec::new();
        out.push(self.items.len() as u64);
        let mut i: usize = 0;
        while i < self.items.len()
            invariant
                i <= self.items@.len(),
                model == items_view(self.items@),
                model.len() == self.items@.len(),
                out@ == seq![self.items@.len() as u64] + enc_items(model.subrange(0, i as int)),
            decreases self.items@.len() - i,
        {
            let body = self.items[i].encode();
            out.push(body.len() as u64);
            let mut b = body;
            out.append(&mut b);
            i = i + 1;
            proof {
                let cur = model.subrange(0, i as int);
                assert(cur[i - 1] == self.items@[i - 1]@);
                assert(cur.subrange(0, cur.len() - 1) =~= model.subrange(0, i - 1));
                lemma_enc_items_snoc(cur);
                assert(out@ =~= seq![self.items@.len() as u64] + enc_items(cur));
            }
        }
        proof {
            assert(model.subrange(0, model.len() as int) =~= model);
        }
        Proof(out)
    }

    /// Deserializes a proof into a fresh stream: the decoded items, the
    /// cursor at the start, the sponge in the initial state. Succeeds
    /// exactly on the proofs that are the encoding of a run of items.
    pub fn from_proof(encoded: &Proof) -> (r: Result<ProofStream, ProofStreamError>)
        ensures
            proof_decode(encoded.0@) matches Some(vs) ==> (r matches Ok(stream) && stream.wf()
                && items_view(stream.items@) == vs && stream.items_index == 0
                && stream.sponge_state@ == initial_sponge()),
            proof_decode(encoded.0@) is None ==> r == Err::<ProofStream, ProofStreamError>(
                ProofStreamError::DecodingError,
            ),
    {
        let s = &encoded.0;
        let slen: usize = s.len();
        if slen < 1 {
            return Err(ProofStreamError::DecodingError);
        }
        let n: u64 = s[0];
        proof {
            assert(s@.drop_first() =~= s@.skip(1));
        }
        let ghost total = dec_items(s@.skip(1), n as nat);
        proof {
            assert(total == proof_decode(encoded.0@));
        }
        let mut items: Vec<ProofItem> = Vec::new();
        let mut cur: usize = 1;
        let mut k: u64 = 0;
        while k < n
            invariant
                slen == s@.len(),
                1 <= cur <= slen,
                k <= n,
                total == dec_items(s@.skip(1), n as nat),
                total == proof_decode(encoded.0@),
                glue_items(items_view(items@), dec_items(s@.skip(cur as int), (n - k) as nat))
                    == total,
            decreases n - k,
        {
            let ghost pre = items_view(items@);
            let ghost here = dec_items(s@.skip(cur as int), (n - k) as nat);
            let rem: usize = slen - cur;
            if rem < 1 {
                proof {
                    assert(here is None);
                }
                return Err(ProofStreamError::DecodingError);
            }
            let l: u64 = s[cur];
            if ((rem - 1) as u64) < l {
                proof {
                    assert(s@.skip(cur as int).len() < 1 + (l as nat));
                    assert(here is None);
                }
                return Err(ProofStreamError::DecodingError);
            }
            let lu: usize = l as usize;
            let mut window: Vec<u64> = Vec::new();
            let mut j: usize = 0;
            while j < lu
                invariant
                    slen == s@.len(),
                    cur + 1 + lu <= slen,
                    j <= lu,
                    window@ == s@.subrange(cur + 1, cur + 1 + j as int),
                decreases lu - j,
            {
                window.push(s[cur + 1 + j]);
                j = j + 1;
                proof {
                    assert(window@ =~= s@.subrange(cur + 1, cur + 1 + j as int));
                }
            }
            proof {
                assert(s@.skip(cur as int).subrange(1, 1 + l as int) =~= s@.subrange(
                    cur + 1,
                    cur + 1 + lu as int,
                ));
            }
            let item = match ProofItem::decode(&window) {
                Ok(it) => it,
                Err(_) => {
                    proof {
                        assert(here is None);
                    }
                    return Err(ProofStreamError::DecodingError);
                },
            };
            items.push(item);
            k = k + 1;
            let prev: usize = cur;
            cur = cur + 1 + lu;
            proof {
                let win = s@.skip(prev as int);
                assert(win.skip(1 + l as int) =~= s@.skip(cur as int));
                let tail = dec_items(s@.skip(cur as int), (n - k) as nat);
                if tail is Some {
                    let t = tail.unwrap();
                    assert(here == Some(seq![item@] + t));
                    assert(items_view(items@) =~= pre.push(item@));
                    assert(pre + (seq![item@] + t) =~= items_view(items@) + t);
                } else {
                    assert(here is None);
                }
            }
        }
        if cur != slen {
            proof {
                assert(s@.skip(cur as int).len() > 0);
            }
            return Err(ProofStreamError::DecodingError);
        }
        proof {
            assert(s@.skip(cur as int).len() == 0);
            assert(dec_items(s@.skip(cur as int), 0) == Some(Seq::<ProofItemView>::empty()));
            let a = items_view(items@);
            assert(a + Seq::<ProofItemView>::empty() =~= a);
        }
        let stream = ProofStream { items, items_index: 0, sponge_state: sponge_init() };
        proof {
            assert(stream.sponge_state@ =~= initial_sponge());
        }
        Ok(stream)
    }

    /// Given an upper bound that is a power of two, samples `count` numbers
    /// below it from the sponge.
    pub fn sample_indices(&mut self, upper_bound: usize, num_indices: usize) -> (r: Vec<usize>)
        requires
            old(self).wf(),
            vstd::arithmetic::power2::is_pow2(upper_bound as int),
            upper_bound <= u32::MAX as usize,
        ensures
            final(self).wf(),
            final(self).items == old(self).items,
            final(self).items_index == old(self).items_index,
            r@ == tip5_indices_of(
                old(self).sponge_state@,
                upper_bound as u32,
                num_indices as nat,
            ).0.map_values(|x: u32| x as usize),
            final(self).sponge_state@ == tip5_indices_of(
                old(self).sponge_state@,
                upper_bound as u32,
                num_indices as nat,
            ).1,
            r@.len() == num_indices,
            forall|i: int| 0 <= i < r@.len() ==> #[trigger] r@[i] < upper_bound,
    {
        let raw = sponge_sample_indices(&mut self.sponge_state, upper_bound as u32, num_indices);
        let mut out: Vec<usize> = Vec::new();
        let mut i: usize = 0;
        while i < raw.len()
            invariant
                i <= raw@.len(),
                out@ == raw@.subrange(0, i as int).map_values(|x: u32| x as usize),
            decreases raw@.len() - i,
        {
            out.push(raw[i] as usize);
            i = i + 1;
            proof {
                assert(out@ =~= raw@.subrange(0, i as int).map_values(|x: u32| x as usize));
            }
        }
        proof {
            assert(raw@.subrange(0, raw@.len() as int) =~= raw@);
        }
        out
    }

    /// Samples `count` extension-field elements from the sponge.
    pub fn sample_scalars(&mut self, num_scalars: usize) -> (r: Vec<Xfe>)
        requires
            old(self).wf(),
        ensures
            final(self).wf(),
            final(self).items == old(self).items,
            final(self).items_index == old(self).items_index,
            r@ == tip5_scalars_of(old(self).sponge_state@, num_scalars as nat).0,
            final(self).sponge_state@ == tip5_scalars_of(
                old(self).sponge_state@,
                num_scalars as nat,
            ).1,
            r@.len() == num_scalars,
    {
        sponge_sample_scalars(&mut self.sponge_state, num_scalars)
    }
}

/// Prepends already-decoded items to the outcome of decoding the remainder.
pub open spec fn glue_items(a: Seq<ProofItemView>, o: Option<Seq<ProofItemView>>) -> Option<
    Seq<ProofItemView>,
> {
    match o {
        Some(t) => Some(a + t),
        None => None,
    }
}

/// Splitting the last item off a non-empty encoded run of items.
proof fn lemma_enc_items_snoc(items: Seq<ProofItemView>)
    requires
        items.len() > 0,
    ensures
        enc_items(items) == enc_items(items.subrange(0, items.len() - 1)) + seq![
            encoding_of(items[items.len() - 1]).len() as u64,
        ] + encoding_of(items[items.len() - 1]),
    decreases items.len(),
{
    if items.len() == 1 {
        assert(items.subrange(0, 0) =~= Seq::<ProofItemView>::empty());
        assert(items.drop_first() =~= Seq::<ProofItemView>::empty());
        assert(enc_items(items) =~= enc_items(items.subrange(0, 0)) + seq![
            encoding_of(items[0]).len() as u64,
        ] + encoding_of(items[0]));
    } else {
        lemma_enc_items_snoc(items.drop_first());
        let init = items.subrange(0, items.len() - 1);
        assert(init.drop_first() =~= items.drop_first().subrange(0, items.drop_first().len() - 1));
        assert(enc_items(items) =~= enc_items(init) + seq![
            encoding_of(items[items.len() - 1]).len() as u64,
        ] + encoding_of(items[items.len() - 1]));
    }
}


} // verus!
