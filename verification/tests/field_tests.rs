use twenty_first::prelude::BFieldElement;
use twenty_first::prelude::Tip5;
use twenty_first::util_types::sponge::Sponge;

use triton_vm::arithmetic_domain::ArithmeticDomain;
use triton_vm::merkle::merkle_root;
use triton_vm::merkle::merkle_tree_from_digests;
use triton_vm::bfield::MODULUS;
use triton_vm::bfield::bfe_add;
use triton_vm::bfield::bfe_inverse;
use triton_vm::bfield::bfe_mod_pow;
use triton_vm::bfield::bfe_mul;
use triton_vm::bfield::bfe_sub;
use triton_vm::bfield::poly_evaluate;
use triton_vm::proof_item::ProofItem;
use triton_vm::proof_stream::ProofStream;
use triton_vm::tip5::Digest;
use triton_vm::tip5::hash_varlen;
use triton_vm::xfield::Xfe;
use triton_vm::xfield::xfe_mul;

#[test]
fn base_field_arithmetic_has_the_expected_values() {
    assert_eq!(0, bfe_add(MODULUS - 1, 1));
    assert_eq!(MODULUS - 1, bfe_sub(0, 1));
    assert_eq!(6, bfe_mul(2, 3));
    assert_eq!(14757395255531667457, bfe_inverse(5));
    assert_eq!(1, bfe_mul(bfe_inverse(5), 5));
    assert_eq!(13841287201, bfe_mod_pow(7, 12));
}

#[test]
fn extension_field_multiplication_reduces_by_the_shah_polynomial() {
    // x * x^2 = x^3 = x - 1
    let x = Xfe(0, 1, 0);
    let xx = Xfe(0, 0, 1);
    assert_eq!(Xfe(MODULUS - 1, 1, 0), xfe_mul(&x, &xx));

    // cross-check against the outside crate
    let a = Xfe(12, 34, 56);
    let b = Xfe(78, 90, 123);
    let lifted = |v: &Xfe| {
        twenty_first::prelude::XFieldElement::new([
            BFieldElement::new(v.0),
            BFieldElement::new(v.1),
            BFieldElement::new(v.2),
        ])
    };
    let product = lifted(&a) * lifted(&b);
    let mine = xfe_mul(&a, &b);
    assert_eq!(product.coefficients[0].value(), mine.0);
    assert_eq!(product.coefficients[1].value(), mine.1);
    assert_eq!(product.coefficients[2].value(), mine.2);
}

#[test]
fn horner_evaluation_has_the_expected_value() {
    // 2 + 3x at x = 10
    assert_eq!(32, poly_evaluate(&vec![2, 3], 10));
}

#[test]
fn domain_values_are_the_powers_of_the_canonical_root() {
    let domain = ArithmeticDomain::of_length(4);
    assert_eq!(
        vec![
            1,
            281474976710656,
            18446744069414584320,
            18446462594437873665,
        ],
        domain.domain_values()
    );
    assert_eq!(281474976710656, domain.domain_value(1));
}

#[test]
fn interpolation_and_evaluation_are_inverse_on_the_domain() {
    let domain = ArithmeticDomain::of_length(8).with_offset(7);
    let values: Vec<u64> = vec![5, 12, 99, 0, 7, 7, 123456789, 1];
    let poly = domain.interpolate(&values);
    let evaluated = domain.evaluate(&poly);
    assert_eq!(values, evaluated);
    for (i, &v) in values.iter().enumerate() {
        assert_eq!(v, poly_evaluate(&poly, domain.domain_value(i as u32)));
    }
}

#[test]
fn hash_wrapper_matches_the_outside_hash() {
    let input: Vec<u64> = vec![1, 2, 3, 4, 5, 6, 7];
    let digest = hash_varlen(&input);
    let outside_input: Vec<BFieldElement> =
        input.iter().map(|&v| BFieldElement::new(v)).collect();
    let outside = Tip5::hash_varlen(&outside_input);
    assert_eq!(outside.0[0].value(), digest.0);
    assert_eq!(outside.0[1].value(), digest.1);
    assert_eq!(outside.0[2].value(), digest.2);
    assert_eq!(outside.0[3].value(), digest.3);
    assert_eq!(outside.0[4].value(), digest.4);
}

#[test]
fn merkle_commitment_matches_the_outside_tree() {
    let leafs: Vec<Digest> = (0..8u64).map(|i| Digest(i, 0, 0, 0, 0)).collect();
    let tree = merkle_tree_from_digests(&leafs);
    let root = merkle_root(&tree);

    let outside_leafs: Vec<twenty_first::prelude::Digest> = (0..8u64)
        .map(|i| {
            twenty_first::prelude::Digest::new([
                BFieldElement::new(i),
                BFieldElement::new(0),
                BFieldElement::new(0),
                BFieldElement::new(0),
                BFieldElement::new(0),
            ])
        })
        .collect();
    let outside_tree = twenty_first::prelude::MerkleTree::par_new(&outside_leafs).unwrap();
    let outside_root = outside_tree.root();
    assert_eq!(outside_root.0[0].value(), root.0);
    assert_eq!(outside_root.0[1].value(), root.1);
    assert_eq!(outside_root.0[2].value(), root.2);
    assert_eq!(outside_root.0[3].value(), root.3);
    assert_eq!(outside_root.0[4].value(), root.4);
}

#[test]
fn absorption_padding_matches_the_outside_sponge() {
    let item = ProofItem::MerkleRoot(Digest(11, 22, 33, 44, 55));
    let mut stream = ProofStream::new();
    stream.enqueue(item.clone());

    let encoding: Vec<BFieldElement> =
        item.encode().iter().map(|&v| BFieldElement::new(v)).collect();
    let mut sponge = Tip5::init();
    sponge.pad_and_absorb_all(&encoding);

    let outside_state: Vec<u64> = sponge.state.iter().map(|b| b.value()).collect();
    assert_eq!(outside_state, stream.sponge_state);
}
