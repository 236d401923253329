use rand::Rng;
use rand::SeedableRng;
use rand::rngs::StdRng;
use twenty_first::prelude::BFieldElement;
use twenty_first::prelude::MerkleTree;
use twenty_first::prelude::MerkleTreeInclusionProof;
use twenty_first::prelude::XFieldElement;

use triton_vm::bfield::MODULUS;
use triton_vm::master_table::NUM_BASE_COLUMNS;
use triton_vm::master_table::NUM_EXT_COLUMNS;
use triton_vm::proof_item::FriResponse;
use triton_vm::proof_item::ProofItem;
use triton_vm::proof_item::ProofStreamError;
use triton_vm::proof_stream::Proof;
use triton_vm::proof_stream::ProofStream;
use triton_vm::tip5::Digest;
use triton_vm::xfield::Xfe;

fn random_bfes(rng: &mut StdRng, n: usize) -> Vec<u64> {
    (0..n).map(|_| rng.next_u64() % MODULUS).collect()
}

fn random_xfes(rng: &mut StdRng, n: usize) -> Vec<Xfe> {
    (0..n)
        .map(|_| {
            Xfe(
                rng.next_u64() % MODULUS,
                rng.next_u64() % MODULUS,
                rng.next_u64() % MODULUS,
            )
        })
        .collect()
}

fn to_outside_digest(d: &Digest) -> twenty_first::prelude::Digest {
    twenty_first::prelude::Digest::new([
        BFieldElement::new(d.0),
        BFieldElement::new(d.1),
        BFieldElement::new(d.2),
        BFieldElement::new(d.3),
        BFieldElement::new(d.4),
    ])
}

fn from_outside_digest(d: &twenty_first::prelude::Digest) -> Digest {
    Digest(
        d.0[0].value(),
        d.0[1].value(),
        d.0[2].value(),
        d.0[3].value(),
        d.0[4].value(),
    )
}

#[test]
fn test_serialize_proof_with_fiat_shamir() {
    let seed = rand::random::<u64>();
    let mut rng = StdRng::seed_from_u64(seed);
    println!("seed: {seed}");

    let base_rows = vec![
        random_bfes(&mut rng, NUM_BASE_COLUMNS),
        random_bfes(&mut rng, NUM_BASE_COLUMNS),
    ];
    let ext_rows = vec![
        random_xfes(&mut rng, NUM_EXT_COLUMNS),
        random_xfes(&mut rng, NUM_EXT_COLUMNS),
    ];

    let codeword_len = 32;
    let fri_codeword = random_xfes(&mut rng, codeword_len);
    let fri_codeword_digests: Vec<twenty_first::prelude::Digest> = fri_codeword
        .iter()
        .map(|x| {
            XFieldElement::new([
                BFieldElement::new(x.0),
                BFieldElement::new(x.1),
                BFieldElement::new(x.2),
            ])
            .into()
        })
        .collect();
    let merkle_tree = MerkleTree::par_new(&fri_codeword_digests).unwrap();
    let root = from_outside_digest(&merkle_tree.root());

    let num_revealed_indices = 1 + (rng.next_u64() as usize) % codeword_len;
    let revealed_indices: Vec<usize> = (0..num_revealed_indices)
        .map(|_| (rng.next_u64() as usize) % codeword_len)
        .collect();
    let auth_structure: Vec<Digest> = merkle_tree
        .authentication_structure(&revealed_indices)
        .unwrap()
        .iter()
        .map(from_outside_digest)
        .collect();

    let ood_base_row = random_xfes(&mut rng, NUM_BASE_COLUMNS);
    let ood_ext_row = random_xfes(&mut rng, NUM_EXT_COLUMNS);
    let quot_elements: Vec<[Xfe; 4]> = (0..5)
        .map(|_| {
            let mut xs = random_xfes(&mut rng, 4);
            [
                xs.remove(0),
                xs.remove(0),
                xs.remove(0),
                xs.remove(0),
            ]
        })
        .collect();

    let revealed_leaves: Vec<Xfe> = revealed_indices
        .iter()
        .map(|&idx| fri_codeword[idx])
        .collect();
    let fri_response = FriResponse {
        auth_structure: auth_structure.clone(),
        revealed_leaves,
    };

    let items = vec![
        ProofItem::AuthenticationStructure(auth_structure),
        ProofItem::MasterBaseTableRows(base_rows),
        ProofItem::MasterExtTableRows(ext_rows),
        ProofItem::OutOfDomainBaseRow(ood_base_row),
        ProofItem::OutOfDomainExtRow(ood_ext_row),
        ProofItem::MerkleRoot(root),
        ProofItem::QuotientSegmentsElements(quot_elements),
        ProofItem::FriCodeword(fri_codeword),
        ProofItem::FriResponse(fri_response),
    ];

    let mut sponge_states = Vec::new();
    let mut proof_stream = ProofStream::new();
    sponge_states.push(proof_stream.sponge_state.clone());
    for item in &items {
        proof_stream.enqueue(item.clone());
        sponge_states.push(proof_stream.sponge_state.clone());
    }

    // Exactly the commitments and out-of-domain rows moved the sponge.
    for (k, item) in items.iter().enumerate() {
        let moved = sponge_states[k] != sponge_states[k + 1];
        assert_eq!(item.include_in_fiat_shamir_heuristic(), moved);
    }

    let proof: Proof = proof_stream.to_proof();
    let mut proof_stream = ProofStream::from_proof(&proof).unwrap();

    let mut replayed_states = Vec::new();
    replayed_states.push(proof_stream.sponge_state.clone());
    let mut replayed_items = Vec::new();
    for _ in 0..items.len() {
        let item = proof_stream.dequeue().unwrap();
        replayed_items.push(item);
        replayed_states.push(proof_stream.sponge_state.clone());
    }

    assert_eq!(items, replayed_items);
    assert_eq!(sponge_states, replayed_states);
}

#[test]
fn enqueue_dequeue_verify_partial_authentication_structure() {
    let seed = rand::random::<u64>();
    let mut rng = StdRng::seed_from_u64(seed);
    println!("seed: {seed}");

    let tree_height = 8;
    let num_leaves = 1 << tree_height;
    let leaf_values = random_xfes(&mut rng, num_leaves);
    let leaf_digests: Vec<twenty_first::prelude::Digest> = leaf_values
        .iter()
        .map(|x| {
            XFieldElement::new([
                BFieldElement::new(x.0),
                BFieldElement::new(x.1),
                BFieldElement::new(x.2),
            ])
            .into()
        })
        .collect();
    let merkle_tree = MerkleTree::par_new(&leaf_digests).unwrap();
    let indices_to_check = vec![5, 173, 175, 167, 228, 140, 252, 149, 232, 182, 5, 5, 182];
    let auth_structure: Vec<Digest> = merkle_tree
        .authentication_structure(&indices_to_check)
        .unwrap()
        .iter()
        .map(from_outside_digest)
        .collect();
    let revealed_leaves: Vec<Xfe> = indices_to_check
        .iter()
        .map(|&idx| leaf_values[idx])
        .collect();
    let fri_response = FriResponse {
        auth_structure,
        revealed_leaves,
    };

    let mut proof_stream = ProofStream::new();
    proof_stream.enqueue(ProofItem::FriResponse(fri_response));

    let proof = proof_stream.to_proof();
    let mut proof_stream = ProofStream::from_proof(&proof).unwrap();

    let maybe_same_fri_response = proof_stream.dequeue().unwrap().as_fri_response().unwrap();
    let FriResponse {
        auth_structure,
        revealed_leaves,
    } = maybe_same_fri_response;
    let indexed_leafs = indices_to_check
        .iter()
        .zip(revealed_leaves.iter())
        .map(|(&idx, x)| {
            let xfe = XFieldElement::new([
                BFieldElement::new(x.0),
                BFieldElement::new(x.1),
                BFieldElement::new(x.2),
            ]);
            (idx, xfe.into())
        })
        .collect();

    let inclusion_proof = MerkleTreeInclusionProof {
        tree_height,
        indexed_leafs,
        authentication_structure: auth_structure.iter().map(to_outside_digest).collect(),
    };
    let verdict = inclusion_proof.verify(merkle_tree.root());
    assert!(verdict);
}

#[test]
fn dequeuing_from_empty_stream_fails() {
    let mut proof_stream = ProofStream::new();
    assert_eq!(Err(ProofStreamError::EmptyQueue), proof_stream.dequeue());
}

#[test]
fn dequeuing_more_items_than_have_been_enqueued_fails() {
    let mut proof_stream = ProofStream::new();
    proof_stream.enqueue(ProofItem::FriCodeword(vec![]));
    proof_stream.enqueue(ProofItem::Log2PaddedHeight(7));

    assert!(proof_stream.dequeue().is_ok());
    assert!(proof_stream.dequeue().is_ok());
    assert_eq!(Err(ProofStreamError::EmptyQueue), proof_stream.dequeue());
}

#[test]
fn transcript_length_counts_the_encoded_proof() {
    let mut proof_stream = ProofStream::new();
    proof_stream.enqueue(ProofItem::Log2PaddedHeight(7));
    let proof = proof_stream.to_proof();
    assert_eq!(proof.0.len(), proof_stream.transcript_length());
    // item count, then one length-prefixed two-element item
    assert_eq!(vec![1u64, 2, 8, 7], proof.0);
}

#[test]
fn altering_the_fiat_shamir_state_changes_samples_but_not_items() {
    let mut one = ProofStream::new();
    let mut other = ProofStream::new();
    other.alter_fiat_shamir_state_with(&ProofItem::Log2PaddedHeight(4));
    assert_eq!(0, other.items_index);
    assert_ne!(one.sponge_state, other.sponge_state);

    let from_one = one.sample_scalars(3);
    let from_other = other.sample_scalars(3);
    assert_eq!(3, from_one.len());
    assert_eq!(3, from_other.len());
    assert_ne!(from_one, from_other);

    let indices = one.sample_indices(64, 10);
    assert_eq!(10, indices.len());
    assert!(indices.iter().all(|&i| i < 64));
}

#[test]
fn a_proof_that_is_not_an_encoding_of_items_is_rejected() {
    assert!(matches!(
        ProofStream::from_proof(&Proof(vec![])),
        Err(ProofStreamError::DecodingError)
    ));
    assert!(matches!(
        ProofStream::from_proof(&Proof(vec![1])),
        Err(ProofStreamError::DecodingError)
    ));
    assert!(matches!(
        ProofStream::from_proof(&Proof(vec![1, 2, 8, 7, 99])),
        Err(ProofStreamError::DecodingError)
    ));
}
