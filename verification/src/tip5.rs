//! The sponge primitive of the transcript, and the digests it produces.
//!
//! The permutation itself lives in the `twenty_first` crate; this module
//! carries its state as a plain vector of canonical base-field elements and
//! names the permutation's results, so that everything built on top of the
//! sponge — absorption padding, Fiat-Shamir lock-step — is verified against
//! a deterministic function of the state.

use vstd::prelude::*;

verus! {

use crate::bfield::all_b_valid;
use crate::bfield::b_valid;
use crate::xfield::all_x_valid;
use crate::xfield::Xfe;
use twenty_first::prelude::Tip5;
use twenty_first::prelude::BFieldElement;
use twenty_first::util_types::sponge::Sponge;

/// The number of base-field elements in a sponge state.
pub const STATE_SIZE: usize = 16;

/// The number of base-field elements absorbed or squeezed per permutation.
pub const RATE: usize = 10;

/// The number of base-field elements in a digest.
pub const DIGEST_LENGTH: usize = 5;

/// The output of the hash function: a fixed-width tuple of base-field
/// elements.
#[derive(Debug, Clone, Copy, PartialEq, Eq, Hash, Structural)]
pub struct Digest(pub u64, pub u64, pub u64, pub u64, pub u64);

impl Default for Digest {
    /// The all-zero digest.
    fn default() -> (r: Digest)
        ensures
            r == Digest(0u64, 0u64, 0u64, 0u64, 0u64),
    {
        Digest(0, 0, 0, 0, 0)
    }
}

/// The five coordinates of a digest, in order.
pub open spec fn digest_seq(d: Digest) -> Seq<u64> {
    seq![d.0, d.1, d.2, d.3, d.4]
}

/// All five coordinates are canonical base-field elements.
pub open spec fn digest_valid(d: Digest) -> bool {
    &&& b_valid(d.0)
    &&& b_valid(d.1)
    &&& b_valid(d.2)
    &&& b_valid(d.3)
    &&& b_valid(d.4)
}

/// Every entry of the sequence is a canonical digest.
pub open spec fn all_digests_valid(s: Seq<Digest>) -> bool {
    forall|i: int| 0 <= i < s.len() ==> digest_valid(#[trigger] s[i])
}

/// A sponge state is a full-width vector of canonical elements.
pub open spec fn sponge_wf(s: Seq<u64>) -> bool {
    s.len() == STATE_SIZE && all_b_valid(s)
}

/// What `Tip5`'s `absorb` turns a state into: the permutation applied to the
/// state with its rate portion overwritten by the input. A function of the
/// state and the input alone.
pub uninterp spec fn tip5_absorb_of(state: Seq<u64>, input: Seq<u64>) -> Seq<u64>;

/// What `Tip5`'s `sample_indices` returns, and the state it leaves behind:
/// both are functions of the state, the bound and the count alone.
pub uninterp spec fn tip5_indices_of(state: Seq<u64>, upper_bound: u32, count: nat) -> (
    Seq<u32>,
    Seq<u64>,
);

/// What `Tip5`'s `sample_scalars` returns, and the state it leaves behind:
/// both are functions of the state and the count alone.
pub uninterp spec fn tip5_scalars_of(state: Seq<u64>, count: nat) -> (Seq<Xfe>, Seq<u64>);

/// What `Tip5`'s `hash_varlen` digests an input to: a function of the input
/// alone.
pub uninterp spec fn tip5_hash_of(input: Seq<u64>) -> Seq<u64>;

/// Relies on `Tip5::init`: the sponge state for variable-length hashing
/// starts as all zeros.
#[verifier::external_body]
pub fn sponge_init() -> (r: Vec<u64>)
    ensures
        r@.len() == STATE_SIZE,
        forall|i: int| 0 <= i < STATE_SIZE ==> r@[i] == 0u64,
{
    Tip5::init().state.iter().map(|b| b.value()).collect()
}

/// Relies on `Tip5::absorb`: overwrites the rate portion of the state with
/// the input and applies the permutation. The result is a function of state
/// and input alone, here named `tip5_absorb_of`.
#[verifier::external_body]
pub fn sponge_absorb(state: &mut Vec<u64>, chunk: &Vec<u64>)
    requires
        old(state)@.len() == STATE_SIZE,
        chunk@.len() == RATE,
    ensures
        final(state)@ == tip5_absorb_of(old(state)@, chunk@),
        sponge_wf(final(state)@),
{
    let mut sponge = Tip5::init();
    for (slot, v) in sponge.state.iter_mut().zip(state.iter()) {
        *slot = BFieldElement::new(*v);
    }
    let mut input = [BFieldElement::new(0); 10];
    for (slot, v) in input.iter_mut().zip(chunk.iter()) {
        *slot = BFieldElement::new(*v);
    }
    sponge.absorb(input);
    *state = sponge.state.iter().map(|b| b.value()).collect();
}

/// Relies on `Tip5::sample_indices`: squeezes the sponge until `count`
/// numbers below `upper_bound` (a power of two) have been drawn by rejection
/// sampling. Results and final state are functions of the arguments alone,
/// here named `tip5_indices_of`.
#[verifier::external_body]
pub fn sponge_sample_indices(state: &mut Vec<u64>, upper_bound: u32, count: usize) -> (r: Vec<
    u32,
>)
    requires
        old(state)@.len() == STATE_SIZE,
        vstd::arithmetic::power2::is_pow2(upper_bound as int),
    ensures
        r@ == tip5_indices_of(old(state)@, upper_bound, count as nat).0,
        final(state)@ == tip5_indices_of(old(state)@, upper_bound, count as nat).1,
        sponge_wf(final(state)@),
        r@.len() == count,
        forall|i: int| 0 <= i < r@.len() ==> #[trigger] r@[i] < upper_bound,
{
    let mut sponge = Tip5::init();
    for (slot, v) in sponge.state.iter_mut().zip(state.iter()) {
        *slot = BFieldElement::new(*v);
    }
    let indices = sponge.sample_indices(upper_bound, count);
    *state = sponge.state.iter().map(|b| b.value()).collect();
    indices
}

/// Relies on `Tip5::sample_scalars`: squeezes the sponge for `count`
/// extension-field elements. Results and final state are functions of the
/// arguments alone, here named `tip5_scalars_of`.
#[verifier::external_body]
pub fn sponge_sample_scalars(state: &mut Vec<u64>, count: usize) -> (r: Vec<Xfe>)
    requires
        old(state)@.len() == STATE_SIZE,
    ensures
        r@ == tip5_scalars_of(old(state)@, count as nat).0,
        final(state)@ == tip5_scalars_of(old(state)@, count as nat).1,
        sponge_wf(final(state)@),
        r@.len() == count,
        all_x_valid(r@),
{
    let mut sponge = Tip5::init();
    for (slot, v) in sponge.state.iter_mut().zip(state.iter()) {
        *slot = BFieldElement::new(*v);
    }
    let scalars = sponge.sample_scalars(count);
    *state = sponge.state.iter().map(|b| b.value()).collect();
    scalars
        .iter()
        .map(|x| Xfe(x.coefficients[0].value(), x.coefficients[1].value(), x.coefficients[2].value()))
        .collect()
}

/// Relies on `Tip5::hash_varlen`: pads the input, absorbs it into a fresh
/// sponge and reads off a digest. The result is a function of the input
/// alone, here named `tip5_hash_of`.
#[verifier::external_body]
pub fn hash_varlen(input: &Vec<u64>) -> (r: Digest)
    ensures
        digest_seq(r) == tip5_hash_of(input@),
        digest_valid(r),
{
    let elements: Vec<BFieldElement> = input.iter().map(|v| BFieldElement::new(*v)).collect();
    let d = Tip5::hash_varlen(&elements).0;
    Digest(d[0].value(), d[1].value(), d[2].value(), d[3].value(), d[4].value())
}

} // verus!
