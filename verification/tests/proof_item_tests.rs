use triton_vm::proof_item::FriResponse;
use triton_vm::proof_item::ProofItem;
use triton_vm::proof_item::ProofStreamError;
use triton_vm::tip5::Digest;
use triton_vm::xfield::Xfe;

#[test]
fn interpreting_a_merkle_root_as_anything_else_gives_appropriate_error() {
    let fake_root = Digest::default();
    let proof_item = ProofItem::MerkleRoot(fake_root);
    assert!(matches!(
        proof_item.as_authentication_structure(),
        Err(ProofStreamError::UnexpectedItem(_, _))
    ));
    assert!(matches!(
        proof_item.as_fri_response(),
        Err(ProofStreamError::UnexpectedItem(_, _))
    ));
    assert!(matches!(
        proof_item.as_master_base_table_rows(),
        Err(ProofStreamError::UnexpectedItem(_, _))
    ));
    assert!(matches!(
        proof_item.as_master_ext_table_rows(),
        Err(ProofStreamError::UnexpectedItem(_, _))
    ));
    assert!(matches!(
        proof_item.as_out_of_domain_base_row(),
        Err(ProofStreamError::UnexpectedItem(_, _))
    ));
    assert!(matches!(
        proof_item.as_out_of_domain_ext_row(),
        Err(ProofStreamError::UnexpectedItem(_, _))
    ));
    assert!(matches!(
        proof_item.as_out_of_domain_quotient_segments(),
        Err(ProofStreamError::UnexpectedItem(_, _))
    ));
    assert!(matches!(
        proof_item.as_log2_padded_height(),
        Err(ProofStreamError::UnexpectedItem(_, _))
    ));
    assert!(matches!(
        proof_item.as_quotient_segments_elements(),
        Err(ProofStreamError::UnexpectedItem(_, _))
    ));
    assert!(matches!(
        proof_item.as_fri_codeword(),
        Err(ProofStreamError::UnexpectedItem(_, _))
    ));
    assert!(matches!(
        proof_item.as_fri_response(),
        Err(ProofStreamError::UnexpectedItem(_, _))
    ));
}

#[test]
fn merkle_root_extractor_returns_the_root() {
    let root = Digest(1, 2, 3, 4, 5);
    let item = ProofItem::MerkleRoot(root);
    assert_eq!(Ok(root), item.as_merkle_root());
}

#[test]
fn fiat_shamir_inclusion_is_exactly_the_four_commitment_kinds() {
    let included = [
        ProofItem::MerkleRoot(Digest(0, 0, 0, 0, 0)),
        ProofItem::OutOfDomainBaseRow(vec![Xfe(1, 2, 3)]),
        ProofItem::OutOfDomainExtRow(vec![Xfe(4, 5, 6)]),
        ProofItem::OutOfDomainQuotientSegments([
            Xfe(0, 0, 0),
            Xfe(0, 0, 0),
            Xfe(0, 0, 0),
            Xfe(0, 0, 0),
        ]),
    ];
    for item in &included {
        assert!(item.include_in_fiat_shamir_heuristic());
    }
    let excluded = [
        ProofItem::AuthenticationStructure(vec![Digest(1, 1, 1, 1, 1)]),
        ProofItem::MasterBaseTableRows(vec![vec![7]]),
        ProofItem::MasterExtTableRows(vec![vec![Xfe(7, 8, 9)]]),
        ProofItem::Log2PaddedHeight(9),
        ProofItem::QuotientSegmentsElements(vec![]),
        ProofItem::FriCodeword(vec![]),
        ProofItem::FriResponse(FriResponse {
            auth_structure: vec![],
            revealed_leaves: vec![],
        }),
    ];
    for item in &excluded {
        assert!(!item.include_in_fiat_shamir_heuristic());
    }
}

#[test]
fn exact_encodings_of_fixed_width_items() {
    let item = ProofItem::Log2PaddedHeight(7);
    assert_eq!(vec![8u64, 7], item.encode());

    let item = ProofItem::MerkleRoot(Digest(1, 2, 3, 4, 5));
    assert_eq!(vec![7u64, 1, 2, 3, 4, 5], item.encode());

    let item = ProofItem::FriCodeword(vec![Xfe(10, 11, 12)]);
    assert_eq!(vec![10u64, 4, 1, 10, 11, 12], item.encode());

    let item = ProofItem::OutOfDomainQuotientSegments([
        Xfe(1, 2, 3),
        Xfe(4, 5, 6),
        Xfe(7, 8, 9),
        Xfe(10, 11, 12),
    ]);
    assert_eq!(vec![6u64, 1, 2, 3, 4, 5, 6, 7, 8, 9, 10, 11, 12], item.encode());
}

#[test]
fn every_variant_survives_the_codec_round_trip() {
    let items = vec![
        ProofItem::AuthenticationStructure(vec![Digest(1, 2, 3, 4, 5), Digest(6, 7, 8, 9, 10)]),
        ProofItem::MasterBaseTableRows(vec![vec![1, 2, 3], vec![], vec![4]]),
        ProofItem::MasterExtTableRows(vec![vec![Xfe(1, 2, 3)], vec![Xfe(4, 5, 6), Xfe(7, 8, 9)]]),
        ProofItem::OutOfDomainBaseRow(vec![Xfe(11, 12, 13)]),
        ProofItem::OutOfDomainExtRow(vec![]),
        ProofItem::OutOfDomainQuotientSegments([
            Xfe(1, 0, 0),
            Xfe(0, 1, 0),
            Xfe(0, 0, 1),
            Xfe(2, 2, 2),
        ]),
        ProofItem::MerkleRoot(Digest(5, 4, 3, 2, 1)),
        ProofItem::Log2PaddedHeight(32),
        ProofItem::QuotientSegmentsElements(vec![[
            Xfe(1, 2, 3),
            Xfe(4, 5, 6),
            Xfe(7, 8, 9),
            Xfe(10, 11, 12),
        ]]),
        ProofItem::FriCodeword(vec![Xfe(9, 8, 7), Xfe(6, 5, 4)]),
        ProofItem::FriResponse(FriResponse {
            auth_structure: vec![Digest(1, 1, 2, 3, 5)],
            revealed_leaves: vec![Xfe(8, 13, 21), Xfe(34, 55, 89)],
        }),
    ];
    for item in items {
        let encoding = item.encode();
        let decoded = ProofItem::decode(&encoding).unwrap();
        assert_eq!(item, decoded);
    }
}

#[test]
fn malformed_sequences_do_not_decode() {
    assert_eq!(
        Err(ProofStreamError::DecodingError),
        ProofItem::decode(&vec![])
    );
    // unknown discriminant
    assert_eq!(
        Err(ProofStreamError::DecodingError),
        ProofItem::decode(&vec![12, 0])
    );
    // truncated digest
    assert_eq!(
        Err(ProofStreamError::DecodingError),
        ProofItem::decode(&vec![7, 1, 2, 3, 4])
    );
    // trailing element after a full digest
    assert_eq!(
        Err(ProofStreamError::DecodingError),
        ProofItem::decode(&vec![7, 1, 2, 3, 4, 5, 6])
    );
    // length prefix disagrees with the remainder
    assert_eq!(
        Err(ProofStreamError::DecodingError),
        ProofItem::decode(&vec![10, 5, 1, 10, 11, 12])
    );
    // a log2 padded height that does not fit a u32
    assert_eq!(
        Err(ProofStreamError::DecodingError),
        ProofItem::decode(&vec![8, 0x1_0000_0000])
    );
}
