//! The base field: integers modulo the prime 2^64 - 2^32 + 1.
//!
//! A field element is carried as its canonical representative, a `u64`
//! strictly below the modulus. The ring operations are implemented here and
//! proved against their mathematical definitions; inversion and batched
//! inversion, whose correctness rests on number theory, are delegated to the
//! `twenty_first` crate behind trusted wrappers with exact contracts.

use vstd::prelude::*;

verus! {

use vstd::arithmetic::power::pow;
use twenty_first::math::traits::FiniteField;
use twenty_first::math::traits::PrimitiveRootOfUnity;
use twenty_first::prelude::BFieldElement;
use vstd::arithmetic::div_mod::lemma_small_mod;
use vstd::arithmetic::div_mod::lemma_mod_sub_multiples_vanish;

/// The prime modulus of the base field: 2^64 - 2^32 + 1.
pub const MODULUS: u64 = 0xffff_ffff_0000_0001u64;

/// A canonical base-field element: strictly below the modulus.
pub open spec fn b_valid(v: u64) -> bool {
    v < MODULUS
}

/// Every entry of the sequence is a canonical base-field element.
pub open spec fn all_b_valid(s: Seq<u64>) -> bool {
    forall|i: int| 0 <= i < s.len() ==> b_valid(#[trigger] s[i])
}

/// Addition in the base field.
pub open spec fn madd(a: int, b: int) -> int {
    (a + b) % (MODULUS as int)
}

/// Subtraction in the base field.
pub open spec fn msub(a: int, b: int) -> int {
    (a - b) % (MODULUS as int)
}

/// Multiplication in the base field.
pub open spec fn mmul(a: int, b: int) -> int {
    (a * b) % (MODULUS as int)
}

/// Exponentiation in the base field.
pub open spec fn mpow(b: int, e: nat) -> int {
    pow(b, e) % (MODULUS as int)
}

/// Addition of two canonical elements.
pub fn bfe_add(a: u64, b: u64) -> (r: u64)
    requires
        b_valid(a),
        b_valid(b),
    ensures
        b_valid(r),
        r == madd(a as int, b as int),
{
    let s: u128 = a as u128 + b as u128;
    if s >= MODULUS as u128 {
        proof {
            lemma_mod_sub_multiples_vanish(a + b, MODULUS as int);
            lemma_small_mod((a + b - MODULUS) as nat, MODULUS as nat);
        }
        (s - MODULUS as u128) as u64
    } else {
        proof {
            lemma_small_mod((a + b) as nat, MODULUS as nat);
        }
        s as u64
    }
}

/// Subtraction of two canonical elements.
pub fn bfe_sub(a: u64, b: u64) -> (r: u64)
    requires
        b_valid(a),
        b_valid(b),
    ensures
        b_valid(r),
        r == msub(a as int, b as int),
{
    if a >= b {
        proof {
            lemma_small_mod((a - b) as nat, MODULUS as nat);
        }
        a - b
    } else {
        proof {
            lemma_mod_sub_multiples_vanish(a - b + MODULUS, MODULUS as int);
            lemma_small_mod((a - b + MODULUS) as nat, MODULUS as nat);
        }
        a + (MODULUS - b)
    }
}

/// Multiplication of two canonical elements.
pub fn bfe_mul(a: u64, b: u64) -> (r: u64)
    requires
        b_valid(a),
        b_valid(b),
    ensures
        b_valid(r),
        r == mmul(a as int, b as int),
{
    proof {
        assert((a as int) * (b as int) <= (MODULUS - 1) * (MODULUS - 1)) by (nonlinear_arith)
            requires
                a < MODULUS,
                b < MODULUS,
        ;
    }
    ((a as u128 * b as u128) % (MODULUS as u128)) as u64
}

/// Evaluation of a polynomial, given by its coefficients in ascending order
/// of degree, at a point of the base field (Horner's rule).
pub open spec fn poly_eval(c: Seq<u64>, x: int) -> int
    decreases c.len(),
{
    if c.len() == 0 {
        0
    } else {
        madd(c[0] as int, mmul(x, poly_eval(c.subrange(1, c.len() as int), x)))
    }
}

/// Evaluates the polynomial with coefficients `c` at the point `x`.
pub fn poly_evaluate(c: &Vec<u64>, x: u64) -> (r: u64)
    requires
        all_b_valid(c@),
        b_valid(x),
    ensures
        b_valid(r),
        r == poly_eval(c@, x as int),
{
    let mut acc: u64 = 0;
    let mut i: usize = c.len();
    proof {
        assert(c@.subrange(c@.len() as int, c@.len() as int) =~= Seq::<u64>::empty());
    }
    while i > 0
        invariant
            i <= c@.len(),
            all_b_valid(c@),
            b_valid(x),
            b_valid(acc),
            acc == poly_eval(c@.subrange(i as int, c@.len() as int), x as int),
        decreases i,
    {
        i = i - 1;
        let t: u64 = bfe_mul(x, acc);
        acc = bfe_add(c[i], t);
        proof {
            let tail = c@.subrange(i + 1, c@.len() as int);
            let whole = c@.subrange(i as int, c@.len() as int);
            assert(whole[0] == c@[i as int]);
            assert(whole.subrange(1, whole.len() as int) =~= tail);
        }
    }
    proof {
        assert(c@.subrange(0, c@.len() as int) =~= c@);
    }
    acc
}

/// Relies on `twenty_first`'s `BFieldElement::inverse`: the multiplicative
/// inverse of a non-zero field element.
#[verifier::external_body]
pub fn bfe_inverse(a: u64) -> (r: u64)
    requires
        b_valid(a),
        a != 0,
    ensures
        b_valid(r),
        mmul(r as int, a as int) == 1,
{
    BFieldElement::new(a).inverse().value()
}

/// Relies on `twenty_first`'s `FiniteField::batch_inversion` for
/// `BFieldElement`: inverts every element of a vector of non-zero field
/// elements.
#[verifier::external_body]
pub fn bfe_batch_inverse(v: &Vec<u64>) -> (r: Vec<u64>)
    requires
        all_b_valid(v@),
        forall|i: int| 0 <= i < v@.len() ==> v@[i] != 0,
    ensures
        r@.len() == v@.len(),
        all_b_valid(r@),
        forall|i: int| 0 <= i < r@.len() ==> mmul(#[trigger] r@[i] as int, v@[i] as int) == 1,
{
    let elements: Vec<BFieldElement> = v.iter().map(|x| BFieldElement::new(*x)).collect();
    let inverses = BFieldElement::batch_inversion(elements);
    inverses.iter().map(|x| x.value()).collect()
}

/// Relies on `twenty_first`'s `BFieldElement::mod_pow`: raises a field
/// element to a power.
#[verifier::external_body]
pub fn bfe_mod_pow(b: u64, e: u64) -> (r: u64)
    requires
        b_valid(b),
    ensures
        b_valid(r),
        r == mpow(b as int, e as nat),
{
    BFieldElement::new(b).mod_pow(e).value()
}

/// The root of unity that `twenty_first` publishes for each power-of-two
/// order up to 2^32: the one its number-theoretic transforms are built on.
pub uninterp spec fn root_of_unity(order: u64) -> u64;

/// Relies on `twenty_first`'s `PrimitiveRootOfUnity::primitive_root_of_unity`
/// for `BFieldElement`: for a power of two up to 2^32 it returns the root of
/// unity of exactly that multiplicative order from the crate's fixed table.
#[verifier::external_body]
pub fn bfe_primitive_root_of_unity(order: u64) -> (r: u64)
    requires
        vstd::arithmetic::power2::is_pow2(order as int),
        order <= 0x1_0000_0000u64,
    ensures
        r == root_of_unity(order),
        b_valid(r),
        r != 0,
        mpow(r as int, order as nat) == 1,
        forall|k: nat| 0 < k < order ==> mpow(r as int, k) != 1,
{
    BFieldElement::primitive_root_of_unity(order)
        .unwrap()
        .value()
}

/// Relies on `rand::random` and `twenty_first`'s uniform `Distribution` for
/// `BFieldElement`: one field element drawn at random. Nothing is assumed of
/// the draw beyond canonicity.
#[verifier::external_body]
pub fn bfe_random() -> (r: u64)
    ensures
        b_valid(r),
{
    rand::random::<BFieldElement>().value()
}

} // verus!
