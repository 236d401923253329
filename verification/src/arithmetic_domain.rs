//! A multiplicative coset of a power-of-two subgroup of the base field:
//! the set { offset * generator^i : 0 <= i < length }, with the generator of
//! multiplicative order exactly `length`. A domain interpolates values over
//! itself into a polynomial and evaluates polynomials over itself, through
//! the number-theoretic transforms of the `twenty_first` crate, compensating
//! for the offset by scaling coefficients.

use vstd::prelude::*;

verus! {

use crate::bfield::MODULUS;
use crate::bfield::all_b_valid;
use crate::bfield::b_valid;
use crate::bfield::bfe_inverse;
use crate::bfield::bfe_mod_pow;
use crate::bfield::bfe_mul;
use crate::bfield::bfe_primitive_root_of_unity;
use crate::bfield::madd;
use crate::bfield::mmul;
use crate::bfield::mpow;
use crate::bfield::poly_eval;
use crate::bfield::root_of_unity;
use crate::xfield::Xfe;
use crate::xfield::all_x_valid;
use crate::xfield::x_model;
use crate::xfield::x_valid;
use crate::xfield::xc0;
use crate::xfield::xc1;
use crate::xfield::xc2;
use crate::xfield::xfe_scalar_mul;
use crate::xfield::xmul;
use crate::xfield::xpoly_eval;
use twenty_first::prelude::XFieldElement;
use twenty_first::prelude::BFieldElement;
use vstd::arithmetic::div_mod::lemma_mul_mod_noop_general;
use vstd::arithmetic::div_mod::lemma_add_mod_noop;
use vstd::arithmetic::div_mod::lemma_small_mod;
use vstd::arithmetic::mul::lemma_mul_is_associative;
use vstd::arithmetic::mul::lemma_mul_is_distributive_add;
use vstd::arithmetic::power::pow;
use vstd::arithmetic::power::lemma_pow_adds;
use vstd::arithmetic::power::lemma_pow_multiplies;
use vstd::arithmetic::power::lemma_pow_mod_noop;
use vstd::arithmetic::power2::is_pow2;

/// Multiplication in the field commutes.
pub proof fn lemma_mmul_comm(a: int, b: int)
    ensures
        mmul(a, b) == mmul(b, a),
{
}

/// Multiplication in the field is associative.
pub proof fn lemma_mmul_assoc(a: int, b: int, c: int)
    ensures
        mmul(mmul(a, b), c) == mmul(a, mmul(b, c)),
{
    lemma_mul_mod_noop_general(a * b, c, MODULUS as int);
    lemma_mul_is_associative(a, b, c);
    lemma_mul_mod_noop_general(a, b * c, MODULUS as int);
}

/// Multiplication distributes over addition in the field.
pub proof fn lemma_mmul_madd_dist(k: int, a: int, b: int)
    ensures
        mmul(k, madd(a, b)) == madd(mmul(k, a), mmul(k, b)),
{
    lemma_mul_mod_noop_general(k, a + b, MODULUS as int);
    lemma_mul_is_distributive_add(k, a, b);
    lemma_add_mod_noop(k * a, k * b, MODULUS as int);
}

/// A reduced value is its own remainder.
pub proof fn lemma_reduced(x: int)
    requires
        0 <= x < MODULUS,
    ensures
        x % (MODULUS as int) == x,
{
    lemma_small_mod(x as nat, MODULUS as nat);
}

/// One more power: g^(e+1) = g^e * g.
pub proof fn lemma_mpow_step(g: int, e: nat)
    ensures
        mpow(g, e + 1) == mmul(mpow(g, e), g),
{
    lemma_pow_adds(g, e, 1);
    vstd::arithmetic::power::lemma_pow1(g);
    lemma_mul_mod_noop_general(pow(g, e), g, MODULUS as int);
}

/// Powers add: g^(a+b) = g^a * g^b, in the field.
pub proof fn lemma_mpow_adds(g: int, a: nat, b: nat)
    ensures
        mpow(g, a + b) == mmul(mpow(g, a), mpow(g, b)),
{
    lemma_pow_adds(g, a, b);
    lemma_mul_mod_noop_general(pow(g, a), pow(g, b), MODULUS as int);
}

/// Iterated powers multiply: (g^a)^b = g^(a*b), in the field.
pub proof fn lemma_mpow_multiplies(g: int, a: nat, b: nat)
    ensures
        mpow(mpow(g, a), b) == mpow(g, a * b),
{
    lemma_pow_mod_noop(pow(g, a), b, MODULUS as int);
    lemma_pow_multiplies(g, a, b);
}

/// A generator of order exactly `n` takes pairwise distinct values on
/// exponents below `n`.
pub proof fn lemma_mpow_injective(g: int, n: nat, i: nat, j: nat)
    requires
        0 <= g < MODULUS,
        mpow(g, n) == 1,
        forall|k: nat| 0 < k < n ==> mpow(g, k) != 1,
        i < j < n,
    ensures
        mpow(g, i) != mpow(g, j),
{
    if mpow(g, i) == mpow(g, j) {
        lemma_mpow_adds(g, i, (n - i) as nat);
        lemma_mpow_adds(g, j, (n - i) as nat);
        lemma_mpow_adds(g, n, (j - i) as nat);
        assert(mpow(g, (i + (n - i)) as nat) == mpow(g, n));
        assert(mmul(mpow(g, j), mpow(g, (n - i) as nat)) == mpow(g, (j + n - i) as nat));
        assert(mpow(g, (j + n - i) as nat) == mmul(mpow(g, n), mpow(g, (j - i) as nat)));
        assert(mpow(g, n) == 1);
        lemma_pow_mod_noop(g, (j - i) as nat, MODULUS as int);
        assert(0 <= mpow(g, (j - i) as nat) < MODULUS) by {
            vstd::arithmetic::div_mod::lemma_mod_bound(
                pow(g, (j - i) as nat),
                MODULUS as int,
            );
        }
        assert(mmul(1, mpow(g, (j - i) as nat)) == mpow(g, (j - i) as nat)) by {
            lemma_reduced(mpow(g, (j - i) as nat));
        }
        assert(mpow(g, (j - i) as nat) == 1);
        assert(false);
    }
}

/// A multiplicative coset of a power-of-two subgroup of the base field.
#[derive(Debug, Clone, Copy, PartialEq, Eq, Hash, Structural)]
pub struct ArithmeticDomain {
    pub offset: u64,
    pub generator: u64,
    pub length: usize,
}

impl ArithmeticDomain {
    /// The domain is sound: its length is a power of two within the range
    /// the number-theoretic transforms support, its generator is the
    /// crate's root of unity of that exact order, and its offset is an
    /// invertible field element.
    pub open spec fn wf(self) -> bool {
        &&& 1 <= self.length <= 0x8000_0000
        &&& is_pow2(self.length as int)
        &&& self.generator == root_of_unity(self.length as u64)
        &&& b_valid(self.generator)
        &&& self.generator != 0
        &&& mpow(self.generator as int, self.length as nat) == 1
        &&& (forall|k: nat| 0 < k < self.length ==> mpow(self.generator as int, k) != 1)
        &&& b_valid(self.offset)
        &&& self.offset != 0
    }

    /// The i-th element of the domain: offset * generator^i.
    pub open spec fn value_at(self, i: nat) -> int {
        mmul(self.offset as int, mpow(self.generator as int, i))
    }

    /// The domain of the given power-of-two length, with unit offset.
    pub fn of_length(length: usize) -> (r: ArithmeticDomain)
        requires
            1 <= length <= 0x8000_0000,
            is_pow2(length as int),
        ensures
            r.wf(),
            r.length == length,
            r.offset == 1,
            r.generator == root_of_unity(length as u64),
    {
        let generator = bfe_primitive_root_of_unity(length as u64);
        ArithmeticDomain { offset: 1, generator, length }
    }

    /// The same subgroup, shifted to the given coset offset.
    pub fn with_offset(self, offset: u64) -> (r: ArithmeticDomain)
        requires
            self.wf(),
            b_valid(offset),
            offset != 0,
        ensures
            r.wf(),
            r.length == self.length,
            r.generator == self.generator,
            r.offset == offset,
    {
        ArithmeticDomain { offset, generator: self.generator, length: self.length }
    }

    /// The i-th element of the domain, computed.
    pub fn domain_value(&self, index: u32) -> (r: u64)
        requires
            self.wf(),
        ensures
            b_valid(r),
            r == self.value_at(index as nat),
    {
        let p = bfe_mod_pow(self.generator, index as u64);
        bfe_mul(self.offset, p)
    }

    /// All elements of the domain, in order.
    pub fn domain_values(&self) -> (r: Vec<u64>)
        requires
            self.wf(),
        ensures
            r@.len() == self.length,
            all_b_valid(r@),
            forall|i: int| 0 <= i < r@.len() ==> #[trigger] r@[i] == self.value_at(i as nat),
    {
        let mut out: Vec<u64> = Vec::new();
        let mut cur: u64 = self.offset;
        proof {
            vstd::arithmetic::power::lemma_pow0(self.generator as int);
            lemma_reduced(1);
            lemma_reduced(self.offset as int);
            assert(cur == self.value_at(0));
        }
        let mut i: usize = 0;
        while i < self.length
            invariant
                self.wf(),
                i <= self.length,
                out@.len() == i,
                all_b_valid(out@),
                b_valid(cur),
                cur == self.value_at(i as nat),
                forall|j: int| 0 <= j < i ==> #[trigger] out@[j] == self.value_at(j as nat),
            decreases self.length - i,
        {
            out.push(cur);
            cur = bfe_mul(cur, self.generator);
            i = i + 1;
            proof {
                let g = self.generator as int;
                let o = self.offset as int;
                lemma_mpow_step(g, (i - 1) as nat);
                lemma_mmul_assoc(o, mpow(g, (i - 1) as nat), g);
            }
        }
        out
    }
}


/// The product of two field values is a reduced value.
pub proof fn lemma_mmul_bound(a: int, b: int)
    ensures
        0 <= mmul(a, b) < MODULUS,
{
    vstd::arithmetic::div_mod::lemma_mod_bound(a * b, MODULUS as int);
}

/// Relies on `twenty_first`'s `ntt`: the forward number-theoretic transform,
/// which evaluates the polynomial with the given coefficients at the powers
/// of the crate's canonical root of unity of the matching order. The crate
/// casts the length to `u32` internally and supports at most 2^31 on 64-bit
/// machines; longer inputs are not admitted.
#[verifier::external_body]
pub fn b_ntt(values: &Vec<u64>) -> (r: Vec<u64>)
    requires
        1 <= values@.len() <= 0x8000_0000,
        is_pow2(values@.len() as int),
        all_b_valid(values@),
    ensures
        r@.len() == values@.len(),
        all_b_valid(r@),
        forall|i: int|
            0 <= i < r@.len() ==> #[trigger] r@[i] == poly_eval(
                values@,
                mpow(root_of_unity(values@.len() as u64) as int, i as nat),
            ),
{
    let mut elements: Vec<BFieldElement> = values.iter().map(|v| BFieldElement::new(*v)).collect();
    twenty_first::math::ntt::ntt(&mut elements);
    elements.iter().map(|b| b.value()).collect()
}

/// Relies on `twenty_first`'s `intt`: the inverse number-theoretic
/// transform, which returns the coefficients of the polynomial taking the
/// given values at the powers of the crate's canonical root of unity of the
/// matching order.
#[verifier::external_body]
pub fn b_intt(values: &Vec<u64>) -> (r: Vec<u64>)
    requires
        1 <= values@.len() <= 0x8000_0000,
        is_pow2(values@.len() as int),
        all_b_valid(values@),
    ensures
        r@.len() == values@.len(),
        all_b_valid(r@),
        forall|i: int|
            0 <= i < values@.len() ==> poly_eval(
                r@,
                mpow(root_of_unity(values@.len() as u64) as int, i as nat),
            ) == #[trigger] values@[i],
{
    let mut elements: Vec<BFieldElement> = values.iter().map(|v| BFieldElement::new(*v)).collect();
    twenty_first::math::ntt::intt(&mut elements);
    elements.iter().map(|b| b.value()).collect()
}

/// Relies on `twenty_first`'s `ntt` over `XFieldElement`: the forward
/// transform with extension-field coefficients, evaluated at the same
/// base-field roots of unity, embedded.
#[verifier::external_body]
pub fn x_ntt(values: &Vec<Xfe>) -> (r: Vec<Xfe>)
    requires
        1 <= values@.len() <= 0x8000_0000,
        is_pow2(values@.len() as int),
        all_x_valid(values@),
    ensures
        r@.len() == values@.len(),
        all_x_valid(r@),
        forall|i: int|
            0 <= i < r@.len() ==> x_model(#[trigger] r@[i]) == xpoly_eval(
                values@,
                (mpow(root_of_unity(values@.len() as u64) as int, i as nat), 0int, 0int),
            ),
{
    let mut elements: Vec<XFieldElement> = values
        .iter()
        .map(
            |x| XFieldElement::new(
                [BFieldElement::new(x.0), BFieldElement::new(x.1), BFieldElement::new(x.2)],
            ),
        )
        .collect();
    twenty_first::math::ntt::ntt(&mut elements);
    elements
        .iter()
        .map(|x| Xfe(x.coefficients[0].value(), x.coefficients[1].value(), x.coefficients[2].value()))
        .collect()
}

/// Relies on `twenty_first`'s `intt` over `XFieldElement`: the inverse
/// transform with extension-field coefficients, interpolating at the same
/// base-field roots of unity, embedded.
#[verifier::external_body]
pub fn x_intt(values: &Vec<Xfe>) -> (r: Vec<Xfe>)
    requires
        1 <= values@.len() <= 0x8000_0000,
        is_pow2(values@.len() as int),
        all_x_valid(values@),
    ensures
        r@.len() == values@.len(),
        all_x_valid(r@),
        forall|i: int|
            0 <= i < values@.len() ==> xpoly_eval(
                r@,
                (mpow(root_of_unity(values@.len() as u64) as int, i as nat), 0int, 0int),
            ) == x_model(#[trigger] values@[i]),
{
    let mut elements: Vec<XFieldElement> = values
        .iter()
        .map(
            |x| XFieldElement::new(
                [BFieldElement::new(x.0), BFieldElement::new(x.1), BFieldElement::new(x.2)],
            ),
        )
        .collect();
    twenty_first::math::ntt::intt(&mut elements);
    elements
        .iter()
        .map(|x| Xfe(x.coefficients[0].value(), x.coefficients[1].value(), x.coefficients[2].value()))
        .collect()
}

/// Coefficient-wise scaling carries through evaluation as a scalar factor.
proof fn lemma_poly_eval_scalar(t: Seq<u64>, tp: Seq<u64>, k: int, x: int)
    requires
        tp.len() == t.len(),
        forall|j: int| 0 <= j < t.len() ==> #[trigger] tp[j] as int == mmul(t[j] as int, k),
    ensures
        poly_eval(tp, x) == mmul(k, poly_eval(t, x)),
    decreases t.len(),
{
    if t.len() == 0 {
        assert(mmul(k, 0) == 0) by {
            lemma_reduced(0);
        }
    } else {
        let tr = t.subrange(1, t.len() as int);
        let tpr = tp.subrange(1, tp.len() as int);
        lemma_poly_eval_scalar(tr, tpr, k, x);
        let e = poly_eval(tr, x);
        assert(tp[0] as int == mmul(t[0] as int, k));
        lemma_mmul_assoc(x, k, e);
        lemma_mmul_comm(x, k);
        lemma_mmul_assoc(k, x, e);
        lemma_mmul_comm(t[0] as int, k);
        lemma_mmul_madd_dist(k, t[0] as int, mmul(x, e));
    }
}

/// Scaling the j-th coefficient by s^j moves the evaluation point by a
/// factor of s.
proof fn lemma_poly_eval_shift(c: Seq<u64>, r: Seq<u64>, s: int, x: int)
    requires
        r.len() == c.len(),
        all_b_valid(c),
        forall|j: int| 0 <= j < c.len() ==> #[trigger] r[j] as int == mmul(c[j] as int, mpow(s, j as nat)),
    ensures
        poly_eval(r, x) == poly_eval(c, mmul(s, x)),
    decreases c.len(),
{
    if c.len() > 0 {
        let cr = c.subrange(1, c.len() as int);
        let rr = r.subrange(1, r.len() as int);
        let q = Seq::new((c.len() - 1) as nat, |j: int| (mmul(cr[j] as int, mpow(s, j as nat)) as u64));
        assert forall|j: int| 0 <= j < q.len() implies #[trigger] q[j] as int == mmul(
            cr[j] as int,
            mpow(s, j as nat),
        ) by {
            lemma_mmul_bound(cr[j] as int, mpow(s, j as nat));
        }
        lemma_poly_eval_shift(cr, q, s, x);
        assert forall|j: int| 0 <= j < rr.len() implies #[trigger] rr[j] as int == mmul(
            q[j] as int,
            s,
        ) by {
            assert(rr[j] == r[j + 1]);
            assert(r[j + 1] as int == mmul(c[j + 1] as int, mpow(s, (j + 1) as nat)));
            lemma_mpow_step(s, j as nat);
            lemma_mmul_comm(mpow(s, j as nat), s);
            lemma_mmul_assoc(cr[j] as int, s, mpow(s, j as nat));
            lemma_mmul_comm(cr[j] as int, s);
            lemma_mmul_assoc(s, cr[j] as int, mpow(s, j as nat));
            lemma_mmul_comm(s, mmul(cr[j] as int, mpow(s, j as nat)));
        }
        lemma_poly_eval_scalar(q, rr, s, x);
        let e = poly_eval(cr, mmul(s, x));
        assert(poly_eval(q, x) == e);
        assert(poly_eval(rr, x) == mmul(s, e));
        assert(r[0] as int == mmul(c[0] as int, mpow(s, 0)));
        assert(mpow(s, 0) == 1) by {
            vstd::arithmetic::power::lemma_pow0(s);
            lemma_reduced(1);
        }
        assert(r[0] as int == mmul(c[0] as int, 1));
        assert(r[0] as int == c[0] as int) by {
            lemma_reduced(c[0] as int);
        }
        lemma_mmul_assoc(x, s, e);
        lemma_mmul_comm(x, s);
        lemma_mmul_assoc(s, x, e);
        assert(mmul(x, mmul(s, e)) == mmul(mmul(s, x), e));
    }
}

/// A polynomial evaluates through trailing zero coefficients unchanged.
proof fn lemma_poly_eval_pad(c: Seq<u64>, p: Seq<u64>, x: int)
    requires
        p.len() >= c.len(),
        forall|j: int| 0 <= j < c.len() ==> #[trigger] p[j] == c[j],
        forall|j: int| c.len() <= j < p.len() ==> #[trigger] p[j] == 0u64,
    ensures
        poly_eval(p, x) == poly_eval(c, x),
    decreases p.len(),
{
    if c.len() == 0 {
        if p.len() > 0 {
            let pr = p.subrange(1, p.len() as int);
            lemma_poly_eval_pad(c, pr, x);
            assert(poly_eval(pr, x) == 0);
            assert(mmul(x, 0) == 0) by {
                lemma_reduced(0);
            }
            assert(madd(0, 0) == 0) by {
                lemma_reduced(0);
            }
        }
    } else {
        let pr = p.subrange(1, p.len() as int);
        let cr = c.subrange(1, c.len() as int);
        lemma_poly_eval_pad(cr, pr, x);
    }
}

impl ArithmeticDomain {
    /// The unique polynomial of degree below the domain length that takes
    /// the given values on this domain, as its coefficients in ascending
    /// order of degree. Uses the inverse transform over the subgroup and
    /// compensates for the offset by scaling coefficients.
    pub fn interpolate(&self, values: &Vec<u64>) -> (r: Vec<u64>)
        requires
            self.wf(),
            values@.len() == self.length,
            all_b_valid(values@),
        ensures
            r@.len() == self.length,
            all_b_valid(r@),
            forall|i: int|
                0 <= i < self.length ==> poly_eval(r@, self.value_at(i as nat)) == #[trigger] values@[i],
    {
        let c = b_intt(values);
        let oinv = bfe_inverse(self.offset);
        let mut r: Vec<u64> = Vec::new();
        let mut pw: u64 = 1;
        proof {
            vstd::arithmetic::power::lemma_pow0(oinv as int);
            lemma_reduced(1);
        }
        let mut j: usize = 0;
        while j < c.len()
            invariant
                self.wf(),
                b_valid(oinv),
                mmul(oinv as int, self.offset as int) == 1,
                c@.len() == self.length,
                all_b_valid(c@),
                forall|i: int|
                    0 <= i < self.length ==> poly_eval(
                        c@,
                        mpow(self.generator as int, i as nat),
                    ) == #[trigger] values@[i],
                j <= c@.len(),
                r@.len() == j,
                all_b_valid(r@),
                b_valid(pw),
                pw == mpow(oinv as int, j as nat),
                forall|t: int|
                    0 <= t < j ==> #[trigger] r@[t] as int == mmul(
                        c@[t] as int,
                        mpow(oinv as int, t as nat),
                    ),
            decreases c@.len() - j,
        {
            r.push(bfe_mul(c[j], pw));
            pw = bfe_mul(pw, oinv);
            j = j + 1;
            proof {
                lemma_mpow_step(oinv as int, (j - 1) as nat);
                lemma_mmul_comm(mpow(oinv as int, (j - 1) as nat), oinv as int);
                lemma_mmul_comm(c@[j - 1] as int, mpow(oinv as int, (j - 1) as nat));
            }
        }
        proof {
            assert forall|i: int| 0 <= i < self.length implies poly_eval(
                r@,
                self.value_at(i as nat),
            ) == values@[i] by {
                let g = self.generator as int;
                let o = self.offset as int;
                let p = mpow(g, i as nat);
                lemma_poly_eval_shift(c@, r@, oinv as int, self.value_at(i as nat));
                lemma_mmul_assoc(oinv as int, o, p);
                vstd::arithmetic::div_mod::lemma_mod_bound(
                    pow(g, i as nat),
                    MODULUS as int,
                );
                lemma_reduced(p);
                assert(mmul(1, p) == p);
            }
        }
        r
    }

    /// The values the polynomial with the given coefficients takes on this
    /// domain. Scales the coefficients onto the coset and runs the forward
    /// transform.
    pub fn evaluate(&self, poly: &Vec<u64>) -> (r: Vec<u64>)
        requires
            self.wf(),
            poly@.len() <= self.length,
            all_b_valid(poly@),
        ensures
            r@.len() == self.length,
            all_b_valid(r@),
            forall|i: int|
                0 <= i < self.length ==> #[trigger] r@[i] == poly_eval(
                    poly@,
                    self.value_at(i as nat),
                ),
    {
        let mut w: Vec<u64> = Vec::new();
        let mut pw: u64 = 1;
        proof {
            vstd::arithmetic::power::lemma_pow0(self.offset as int);
            lemma_reduced(1);
        }
        let ghost padded = Seq::new(
            self.length as nat,
            |j: int| if j < poly@.len() {
                poly@[j]
            } else {
                0u64
            },
        );
        let mut j: usize = 0;
        while j < self.length
            invariant
                self.wf(),
                poly@.len() <= self.length,
                all_b_valid(poly@),
                padded == Seq::new(
                    self.length as nat,
                    |t: int| if t < poly@.len() {
                        poly@[t]
                    } else {
                        0u64
                    },
                ),
                j <= self.length,
                w@.len() == j,
                all_b_valid(w@),
                b_valid(pw),
                pw == mpow(self.offset as int, j as nat),
                forall|t: int|
                    0 <= t < j ==> #[trigger] w@[t] as int == mmul(
                        padded[t] as int,
                        mpow(self.offset as int, t as nat),
                    ),
            decreases self.length - j,
        {
            if j < poly.len() {
                w.push(bfe_mul(poly[j], pw));
            } else {
                w.push(0);
                proof {
                    lemma_reduced(0);
                }
            }
            pw = bfe_mul(pw, self.offset);
            j = j + 1;
            proof {
                lemma_mpow_step(self.offset as int, (j - 1) as nat);
                lemma_mmul_comm(mpow(self.offset as int, (j - 1) as nat), self.offset as int);
                lemma_mmul_comm(padded[j - 1] as int, mpow(self.offset as int, (j - 1) as nat));
            }
        }
        let out = b_ntt(&w);
        proof {
            assert forall|i: int| 0 <= i < self.length implies out@[i] == poly_eval(
                poly@,
                self.value_at(i as nat),
            ) by {
                let g = self.generator as int;
                let p = mpow(g, i as nat);
                lemma_poly_eval_shift(padded, w@, self.offset as int, p);
                lemma_poly_eval_pad(poly@, padded, self.value_at(i as nat));
            }
        }
        out
    }
}


/// At a base-field point (embedded into the extension), evaluation of a
/// polynomial with extension-field coefficients happens coefficient-wise:
/// each coordinate is the base-field evaluation of that coordinate's
/// coefficient sequence.
proof fn lemma_xpoly_eval_embed(c: Seq<Xfe>, v: int)
    ensures
        xpoly_eval(c, (v, 0int, 0int)) == (
            poly_eval(xc0(c), v),
            poly_eval(xc1(c), v),
            poly_eval(xc2(c), v),
        ),
    decreases c.len(),
{
    if c.len() == 0 {
        assert(xc0(c) =~= Seq::<u64>::empty());
        assert(xc1(c) =~= Seq::<u64>::empty());
        assert(xc2(c) =~= Seq::<u64>::empty());
    } else {
        let cr = c.subrange(1, c.len() as int);
        lemma_xpoly_eval_embed(cr, v);
        assert(xc0(cr) =~= xc0(c).subrange(1, c.len() as int));
        assert(xc1(cr) =~= xc1(c).subrange(1, c.len() as int));
        assert(xc2(cr) =~= xc2(c).subrange(1, c.len() as int));
        let e = xpoly_eval(cr, (v, 0int, 0int));
        let m = xmul((v, 0int, 0int), e);
        assert(mmul(0, e.0) == 0 && mmul(0, e.1) == 0 && mmul(0, e.2) == 0) by {
            lemma_reduced(0);
        }
        lemma_mmul_bound(v, e.0);
        lemma_mmul_bound(v, e.1);
        lemma_mmul_bound(v, e.2);
        assert(madd(mmul(v, e.1), 0) == mmul(v, e.1)) by {
            lemma_reduced(mmul(v, e.1));
        }
        assert(madd(madd(mmul(v, e.2), 0), 0) == mmul(v, e.2)) by {
            lemma_reduced(mmul(v, e.2));
            lemma_reduced(madd(mmul(v, e.2), 0));
        }
        assert(madd(0, 0) == 0) by {
            lemma_reduced(0);
        }
        assert(m.0 == mmul(v, e.0)) by {
            lemma_mmul_bound(v, e.0);
            lemma_reduced(mmul(v, e.0));
        }
        assert(m.1 == mmul(v, e.1)) by {
            lemma_reduced(mmul(v, e.1));
        }
        assert(m.2 == mmul(v, e.2)) by {
            lemma_reduced(madd(mmul(v, e.2), 0));
        }
    }
}

impl ArithmeticDomain {
    /// `interpolate`, for values in the extension field: coordinate-wise
    /// the same computation, done in one pass by the extension-field
    /// inverse transform.
    pub fn interpolate_xfe(&self, values: &Vec<Xfe>) -> (r: Vec<Xfe>)
        requires
            self.wf(),
            values@.len() == self.length,
            all_x_valid(values@),
        ensures
            r@.len() == self.length,
            all_x_valid(r@),
            forall|i: int|
                0 <= i < self.length ==> xpoly_eval(
                    r@,
                    (self.value_at(i as nat), 0int, 0int),
                ) == x_model(#[trigger] values@[i]),
    {
        let c = x_intt(values);
        let oinv = bfe_inverse(self.offset);
        let mut r: Vec<Xfe> = Vec::new();
        let mut pw: u64 = 1;
        proof {
            vstd::arithmetic::power::lemma_pow0(oinv as int);
            lemma_reduced(1);
        }
        let mut j: usize = 0;
        while j < c.len()
            invariant
                self.wf(),
                b_valid(oinv),
                mmul(oinv as int, self.offset as int) == 1,
                c@.len() == self.length,
                all_x_valid(c@),
                forall|i: int|
                    0 <= i < self.length ==> xpoly_eval(
                        c@,
                        (mpow(self.generator as int, i as nat), 0int, 0int),
                    ) == x_model(#[trigger] values@[i]),
                j <= c@.len(),
                r@.len() == j,
                all_x_valid(r@),
                b_valid(pw),
                pw == mpow(oinv as int, j as nat),
                forall|t: int|
                    0 <= t < j ==> (#[trigger] r@[t].0 as int == mmul(
                        c@[t].0 as int,
                        mpow(oinv as int, t as nat),
                    ) && r@[t].1 as int == mmul(c@[t].1 as int, mpow(oinv as int, t as nat))
                        && r@[t].2 as int == mmul(c@[t].2 as int, mpow(oinv as int, t as nat))),
            decreases c@.len() - j,
        {
            r.push(xfe_scalar_mul(&c[j], pw));
            pw = bfe_mul(pw, oinv);
            j = j + 1;
            proof {
                lemma_mpow_step(oinv as int, (j - 1) as nat);
                lemma_mmul_comm(mpow(oinv as int, (j - 1) as nat), oinv as int);
                lemma_mmul_comm(c@[j - 1].0 as int, mpow(oinv as int, (j - 1) as nat));
                lemma_mmul_comm(c@[j - 1].1 as int, mpow(oinv as int, (j - 1) as nat));
                lemma_mmul_comm(c@[j - 1].2 as int, mpow(oinv as int, (j - 1) as nat));
            }
        }
        proof {
            assert forall|i: int| 0 <= i < self.length implies xpoly_eval(
                r@,
                (self.value_at(i as nat), 0int, 0int),
            ) == x_model(values@[i]) by {
                let g = self.generator as int;
                let o = self.offset as int;
                let p = mpow(g, i as nat);
                let x = self.value_at(i as nat);
                lemma_xpoly_eval_embed(r@, x);
                lemma_xpoly_eval_embed(c@, p);
                assert(xc0(r@).len() == xc0(c@).len());
                assert forall|t: int| 0 <= t < xc0(c@).len() implies #[trigger] xc0(r@)[t] as int
                    == mmul(xc0(c@)[t] as int, mpow(oinv as int, t as nat)) by {}
                assert forall|t: int| 0 <= t < xc1(c@).len() implies #[trigger] xc1(r@)[t] as int
                    == mmul(xc1(c@)[t] as int, mpow(oinv as int, t as nat)) by {}
                assert forall|t: int| 0 <= t < xc2(c@).len() implies #[trigger] xc2(r@)[t] as int
                    == mmul(xc2(c@)[t] as int, mpow(oinv as int, t as nat)) by {}
                assert(all_b_valid(xc0(c@)) && all_b_valid(xc1(c@)) && all_b_valid(xc2(c@)));
                lemma_poly_eval_shift(xc0(c@), xc0(r@), oinv as int, x);
                lemma_poly_eval_shift(xc1(c@), xc1(r@), oinv as int, x);
                lemma_poly_eval_shift(xc2(c@), xc2(r@), oinv as int, x);
                lemma_mmul_assoc(oinv as int, o, p);
                vstd::arithmetic::div_mod::lemma_mod_bound(pow(g, i as nat), MODULUS as int);
                lemma_reduced(p);
                assert(mmul(1, p) == p);
            }
        }
        r
    }

    /// `evaluate`, for polynomials with extension-field coefficients.
    pub fn evaluate_xfe(&self, poly: &Vec<Xfe>) -> (r: Vec<Xfe>)
        requires
            self.wf(),
            poly@.len() <= self.length,
            all_x_valid(poly@),
        ensures
            r@.len() == self.length,
            all_x_valid(r@),
            forall|i: int|
                0 <= i < self.length ==> x_model(#[trigger] r@[i]) == xpoly_eval(
                    poly@,
                    (self.value_at(i as nat), 0int, 0int),
                ),
    {
        let mut w: Vec<Xfe> = Vec::new();
        let mut pw: u64 = 1;
        proof {
            vstd::arithmetic::power::lemma_pow0(self.offset as int);
            lemma_reduced(1);
        }
        let ghost padded = Seq::new(
            self.length as nat,
            |j: int| if j < poly@.len() {
                poly@[j]
            } else {
                Xfe(0, 0, 0)
            },
        );
        let mut j: usize = 0;
        while j < self.length
            invariant
                self.wf(),
                poly@.len() <= self.length,
                all_x_valid(poly@),
                padded == Seq::new(
                    self.length as nat,
                    |t: int| if t < poly@.len() {
                        poly@[t]
                    } else {
                        Xfe(0, 0, 0)
                    },
                ),
                j <= self.length,
                w@.len() == j,
                all_x_valid(w@),
                b_valid(pw),
                pw == mpow(self.offset as int, j as nat),
                forall|t: int|
                    0 <= t < j ==> (#[trigger] w@[t].0 as int == mmul(
                        padded[t].0 as int,
                        mpow(self.offset as int, t as nat),
                    ) && w@[t].1 as int == mmul(padded[t].1 as int, mpow(self.offset as int, t as nat))
                        && w@[t].2 as int == mmul(
                        padded[t].2 as int,
                        mpow(self.offset as int, t as nat),
                    )),
            decreases self.length - j,
        {
            if j < poly.len() {
                w.push(xfe_scalar_mul(&poly[j], pw));
            } else {
                w.push(Xfe(0, 0, 0));
                proof {
                    lemma_reduced(0);
                }
            }
            pw = bfe_mul(pw, self.offset);
            j = j + 1;
            proof {
                lemma_mpow_step(self.offset as int, (j - 1) as nat);
                lemma_mmul_comm(mpow(self.offset as int, (j - 1) as nat), self.offset as int);
                lemma_mmul_comm(padded[j - 1].0 as int, mpow(self.offset as int, (j - 1) as nat));
                lemma_mmul_comm(padded[j - 1].1 as int, mpow(self.offset as int, (j - 1) as nat));
                lemma_mmul_comm(padded[j - 1].2 as int, mpow(self.offset as int, (j - 1) as nat));
            }
        }
        let out = x_ntt(&w);
        proof {
            assert forall|i: int| 0 <= i < self.length implies x_model(out@[i]) == xpoly_eval(
                poly@,
                (self.value_at(i as nat), 0int, 0int),
            ) by {
                let g = self.generator as int;
                let o = self.offset as int;
                let p = mpow(g, i as nat);
                let x = self.value_at(i as nat);
                lemma_xpoly_eval_embed(w@, p);
                lemma_xpoly_eval_embed(padded, x);
                lemma_xpoly_eval_embed(poly@, x);
                assert forall|t: int| 0 <= t < xc0(padded).len() implies #[trigger] xc0(w@)[t] as int
                    == mmul(xc0(padded)[t] as int, mpow(o, t as nat)) by {}
                assert forall|t: int| 0 <= t < xc1(padded).len() implies #[trigger] xc1(w@)[t] as int
                    == mmul(xc1(padded)[t] as int, mpow(o, t as nat)) by {}
                assert forall|t: int| 0 <= t < xc2(padded).len() implies #[trigger] xc2(w@)[t] as int
                    == mmul(xc2(padded)[t] as int, mpow(o, t as nat)) by {}
                assert(all_b_valid(xc0(padded)) && all_b_valid(xc1(padded)) && all_b_valid(
                    xc2(padded),
                ));
                lemma_poly_eval_shift(xc0(padded), xc0(w@), o, p);
                lemma_poly_eval_shift(xc1(padded), xc1(w@), o, p);
                lemma_poly_eval_shift(xc2(padded), xc2(w@), o, p);
                lemma_poly_eval_pad(xc0(poly@), xc0(padded), x);
                lemma_poly_eval_pad(xc1(poly@), xc1(padded), x);
                lemma_poly_eval_pad(xc2(poly@), xc2(padded), x);
            }
        }
        out
    }
}

} // verus!
