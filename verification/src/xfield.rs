//! The degree-3 extension of the base field, modulo the polynomial
//! x^3 - x + 1. An element is a triple of canonical base-field coefficients,
//! constant term first; the base field embeds as the constant term.

use vstd::prelude::*;

verus! {

use crate::bfield::all_b_valid;
use crate::bfield::b_valid;
use crate::bfield::bfe_add;
use crate::bfield::bfe_mul;
use crate::bfield::bfe_sub;
use crate::bfield::madd;
use crate::bfield::mmul;
use crate::bfield::msub;

/// An extension-field element: coefficients of 1, x, x^2, in that order.
#[derive(Debug, Clone, Copy, PartialEq, Eq, Hash, Structural)]
pub struct Xfe(pub u64, pub u64, pub u64);

impl DeepView for Xfe {
    type V = Xfe;

    open spec fn deep_view(&self) -> Xfe {
        *self
    }
}

/// All three coefficients are canonical base-field elements.
pub open spec fn x_valid(x: Xfe) -> bool {
    &&& b_valid(x.0)
    &&& b_valid(x.1)
    &&& b_valid(x.2)
}

/// Every entry of the sequence is a canonical extension-field element.
pub open spec fn all_x_valid(s: Seq<Xfe>) -> bool {
    forall|i: int| 0 <= i < s.len() ==> x_valid(#[trigger] s[i])
}

/// The mathematical value of an element: its three coefficients as integers.
pub open spec fn x_model(x: Xfe) -> (int, int, int) {
    (x.0 as int, x.1 as int, x.2 as int)
}

/// Addition in the extension field: coefficient-wise.
pub open spec fn xadd(a: (int, int, int), b: (int, int, int)) -> (int, int, int) {
    (madd(a.0, b.0), madd(a.1, b.1), madd(a.2, b.2))
}

/// Multiplication in the extension field: the polynomial product reduced by
/// x^3 = x - 1 (and hence x^4 = x^2 - x).
pub open spec fn xmul(a: (int, int, int), b: (int, int, int)) -> (int, int, int) {
    let d0 = mmul(a.0, b.0);
    let d1 = madd(mmul(a.0, b.1), mmul(a.1, b.0));
    let d2 = madd(madd(mmul(a.0, b.2), mmul(a.1, b.1)), mmul(a.2, b.0));
    let d3 = madd(mmul(a.1, b.2), mmul(a.2, b.1));
    let d4 = mmul(a.2, b.2);
    (msub(d0, d3), msub(madd(d1, d3), d4), madd(d2, d4))
}

/// Multiplication of an extension element by a base-field scalar.
pub open spec fn xscale(a: (int, int, int), s: int) -> (int, int, int) {
    (mmul(a.0, s), mmul(a.1, s), mmul(a.2, s))
}

/// Evaluation of a polynomial with extension-field coefficients, ascending
/// order of degree, at an extension-field point (Horner's rule).
pub open spec fn xpoly_eval(c: Seq<Xfe>, x: (int, int, int)) -> (int, int, int)
    decreases c.len(),
{
    if c.len() == 0 {
        (0, 0, 0)
    } else {
        xadd(x_model(c[0]), xmul(x, xpoly_eval(c.subrange(1, c.len() as int), x)))
    }
}

/// The extension element with the given constant term: the embedding of the
/// base field.
pub fn xfe_lift(b: u64) -> (r: Xfe)
    requires
        b_valid(b),
    ensures
        x_valid(r),
        x_model(r) == (b as int, 0int, 0int),
{
    Xfe(b, 0, 0)
}

/// Multiplies an extension element by a base-field scalar, coefficient-wise.
pub fn xfe_scalar_mul(a: &Xfe, s: u64) -> (r: Xfe)
    requires
        x_valid(*a),
        b_valid(s),
    ensures
        x_valid(r),
        x_model(r) == xscale(x_model(*a), s as int),
{
    Xfe(bfe_mul(a.0, s), bfe_mul(a.1, s), bfe_mul(a.2, s))
}

/// Relies on `rand::random` and `twenty_first`'s uniform `Distribution` for
/// `XFieldElement`: one extension-field element drawn at random. Nothing is
/// assumed of the draw beyond canonicity.
#[verifier::external_body]
pub fn xfe_random() -> (r: Xfe)
    ensures
        x_valid(r),
{
    let x = rand::random::<twenty_first::prelude::XFieldElement>();
    Xfe(x.coefficients[0].value(), x.coefficients[1].value(), x.coefficients[2].value())
}


/// The constant coefficients of a sequence of extension elements.
pub open spec fn xc0(s: Seq<Xfe>) -> Seq<u64> {
    s.map_values(|x: Xfe| x.0)
}

/// The linear coefficients of a sequence of extension elements.
pub open spec fn xc1(s: Seq<Xfe>) -> Seq<u64> {
    s.map_values(|x: Xfe| x.1)
}

/// The quadratic coefficients of a sequence of extension elements.
pub open spec fn xc2(s: Seq<Xfe>) -> Seq<u64> {
    s.map_values(|x: Xfe| x.2)
}

/// Addition of two extension elements.
pub fn xfe_add(a: &Xfe, b: &Xfe) -> (r: Xfe)
    requires
        x_valid(*a),
        x_valid(*b),
    ensures
        x_valid(r),
        x_model(r) == xadd(x_model(*a), x_model(*b)),
{
    Xfe(bfe_add(a.0, b.0), bfe_add(a.1, b.1), bfe_add(a.2, b.2))
}

/// Multiplication of two extension elements: the polynomial product reduced
/// by x^3 = x - 1.
pub fn xfe_mul(a: &Xfe, b: &Xfe) -> (r: Xfe)
    requires
        x_valid(*a),
        x_valid(*b),
    ensures
        x_valid(r),
        x_model(r) == xmul(x_model(*a), x_model(*b)),
{
    let d0 = bfe_mul(a.0, b.0);
    let d1 = bfe_add(bfe_mul(a.0, b.1), bfe_mul(a.1, b.0));
    let d2 = bfe_add(bfe_add(bfe_mul(a.0, b.2), bfe_mul(a.1, b.1)), bfe_mul(a.2, b.0));
    let d3 = bfe_add(bfe_mul(a.1, b.2), bfe_mul(a.2, b.1));
    let d4 = bfe_mul(a.2, b.2);
    Xfe(bfe_sub(d0, d3), bfe_sub(bfe_add(d1, d3), d4), bfe_add(d2, d4))
}

/// Evaluates the polynomial with extension-field coefficients `c` at the
/// point `x` (Horner's rule).
pub fn xfe_poly_evaluate(c: &Vec<Xfe>, x: &Xfe) -> (r: Xfe)
    requires
        all_x_valid(c@),
        x_valid(*x),
    ensures
        x_valid(r),
        x_model(r) == xpoly_eval(c@, x_model(*x)),
{
    let mut acc: Xfe = Xfe(0, 0, 0);
    let mut i: usize = c.len();
    proof {
        assert(c@.subrange(c@.len() as int, c@.len() as int) =~= Seq::<Xfe>::empty());
    }
    while i > 0
        invariant
            i <= c@.len(),
            all_x_valid(c@),
            x_valid(*x),
            x_valid(acc),
            x_model(acc) == xpoly_eval(c@.subrange(i as int, c@.len() as int), x_model(*x)),
        decreases i,
    {
        i = i - 1;
        let t = xfe_mul(x, &acc);
        acc = xfe_add(&c[i], &t);
        proof {
            let tail = c@.subrange(i + 1, c@.len() as int);
            let whole = c@.subrange(i as int, c@.len() as int);
            assert(whole[0] == c@[i as int]);
            assert(whole.subrange(1, whole.len() as int) =~= tail);
        }
    }
    proof {
        assert(c@.subrange(0, c@.len() as int) =~= c@);
    }
    acc
}

} // verus!
