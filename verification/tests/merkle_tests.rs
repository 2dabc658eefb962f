use privacy_bridge::error::ProtocolError;
use privacy_bridge::merkle_tree::{
    calculate_root, generate_proof, hash_pair, verify_proof, TREE_DEPTH,
};
use privacy_bridge::simple_hash::digest_eq;

#[test]
fn test_hash_pair() {
    let left = [1u8; 32];
    let right = [2u8; 32];
    let hash = hash_pair(&left, &right);

    assert_eq!(hash, hash_pair(&left, &right));
}

#[test]
fn test_calculate_root_single_leaf() {
    let leaves = vec![[1u8; 32]];
    let root = calculate_root(&leaves);
    assert_eq!(root, leaves[0]);
}

#[test]
fn test_calculate_root_two_leaves() {
    let leaves = vec![[1u8; 32], [2u8; 32]];
    let root = calculate_root(&leaves);
    let expected = hash_pair(&leaves[0], &leaves[1]);
    assert_eq!(root, expected);
}

#[test]
fn test_calculate_root_multiple_leaves() {
    let leaves = vec![[1u8; 32], [2u8; 32], [3u8; 32], [4u8; 32]];
    let root = calculate_root(&leaves);

    let h01 = hash_pair(&leaves[0], &leaves[1]);
    let h23 = hash_pair(&leaves[2], &leaves[3]);
    let expected = hash_pair(&h01, &h23);

    assert_eq!(root, expected);
}

#[test]
fn test_generate_and_verify_proof() {
    let leaves = vec![[1u8; 32], [2u8; 32], [3u8; 32], [4u8; 32]];

    let root = calculate_root(&leaves);

    for (i, leaf) in leaves.iter().enumerate() {
        let proof = generate_proof(&leaves, i).unwrap();
        assert!(verify_proof(leaf, &proof, i, &root), "Proof should verify for leaf {}", i);
    }
}

#[test]
fn test_verify_proof_fails_for_wrong_leaf() {
    let leaves = vec![[1u8; 32], [2u8; 32]];

    let root = calculate_root(&leaves);
    let proof = generate_proof(&leaves, 0).unwrap();

    let wrong_leaf = [99u8; 32];
    assert!(!verify_proof(&wrong_leaf, &proof, 0, &root), "Proof should fail for wrong leaf");
}

#[test]
fn test_verify_proof_fails_for_wrong_root() {
    let leaves = vec![[1u8; 32], [2u8; 32]];

    let root = calculate_root(&leaves);
    let proof = generate_proof(&leaves, 0).unwrap();

    let wrong_root = [99u8; 32];
    assert!(!verify_proof(&leaves[0], &proof, 0, &wrong_root), "Proof should fail for wrong root");
    assert!(verify_proof(&leaves[0], &proof, 0, &root));
}

#[test]
fn test_incremental_root_updates() {
    let leaf1 = [1u8; 32];
    let leaf2 = [2u8; 32];
    let leaf3 = [3u8; 32];

    let root1 = calculate_root(&[leaf1]);
    let root2 = calculate_root(&[leaf1, leaf2]);
    let root3 = calculate_root(&[leaf1, leaf2, leaf3]);

    assert_ne!(root1, root2);
    assert_ne!(root2, root3);
    assert_ne!(root1, root3);

    let proof_leaf1_in_tree3 = generate_proof(&[leaf1, leaf2, leaf3], 0).unwrap();
    assert!(verify_proof(&leaf1, &proof_leaf1_in_tree3, 0, &root3));
}

fn distinct_leaves(count: usize) -> Vec<[u8; 32]> {
    let mut leaves = Vec::new();
    for i in 0..count {
        let mut leaf = [0u8; 32];
        for lane in 0..32 {
            leaf[lane] = ((i * 31 + lane * 7 + 1) % 251) as u8;
        }
        leaf[0] = (i % 256) as u8;
        leaf[1] = (i / 256) as u8;
        leaves.push(leaf);
    }
    leaves
}

#[test]
fn depth_is_twenty() {
    assert_eq!(TREE_DEPTH, 20);
}

#[test]
fn hash_pair_is_the_bytewise_xor() {
    assert_eq!(hash_pair(&[1u8; 32], &[2u8; 32]), [3u8; 32]);
    let mut left = [0u8; 32];
    left[31] = 0xf0;
    let mut right = [0u8; 32];
    right[31] = 0x3c;
    right[0] = 9;
    let mut expected = [0u8; 32];
    expected[31] = 0xcc;
    expected[0] = 9;
    assert_eq!(hash_pair(&left, &right), expected);
}

#[test]
fn root_of_no_leaves_is_zero() {
    assert_eq!(calculate_root(&[]), [0u8; 32]);
}

#[test]
fn root_pads_an_odd_level_with_zero() {
    let leaves = vec![[1u8; 32], [2u8; 32], [4u8; 32]];
    let left = hash_pair(&leaves[0], &leaves[1]);
    let right = hash_pair(&leaves[2], &[0u8; 32]);
    assert_eq!(calculate_root(&leaves), hash_pair(&left, &right));
    assert_eq!(calculate_root(&leaves), [7u8; 32]);
}

#[test]
fn four_leaf_scenario() {
    let l1 = [0x11u8; 32];
    let l2 = [0x22u8; 32];
    let l3 = [0x44u8; 32];
    let l4 = [0x88u8; 32];
    let leaves = vec![l1, l2, l3, l4];
    let root = calculate_root(&leaves);
    assert_eq!(root, hash_pair(&hash_pair(&l1, &l2), &hash_pair(&l3, &l4)));
    assert_eq!(root, [0xffu8; 32]);
    let proof = generate_proof(&leaves, 2).unwrap();
    assert_eq!(proof, vec![l4, hash_pair(&l1, &l2)]);
}

#[test]
fn proof_of_a_leaf_without_partner_holds_zero() {
    let leaves = vec![[1u8; 32], [2u8; 32], [4u8; 32]];
    let proof = generate_proof(&leaves, 2).unwrap();
    assert_eq!(proof, vec![[0u8; 32], [3u8; 32]]);
    let proof = generate_proof(&leaves, 1).unwrap();
    assert_eq!(proof, vec![[1u8; 32], [4u8; 32]]);
}

#[test]
fn proof_of_the_only_leaf_is_empty() {
    let leaves = vec![[5u8; 32]];
    let proof = generate_proof(&leaves, 0).unwrap();
    assert!(proof.is_empty());
    assert!(verify_proof(&leaves[0], &proof, 0, &calculate_root(&leaves)));
}

#[test]
fn proof_for_a_missing_leaf_is_refused() {
    let leaves = vec![[1u8; 32], [2u8; 32]];
    assert_eq!(generate_proof(&leaves, 2), Err(ProtocolError::IndexOutOfBounds));
    assert_eq!(generate_proof(&leaves, usize::MAX), Err(ProtocolError::IndexOutOfBounds));
    assert_eq!(generate_proof(&[], 0), Err(ProtocolError::IndexOutOfBounds));
}

#[test]
fn every_proof_verifies_for_many_sizes() {
    for count in 1..40 {
        let leaves = distinct_leaves(count);
        let root = calculate_root(&leaves);
        for (i, leaf) in leaves.iter().enumerate() {
            let proof = generate_proof(&leaves, i).unwrap();
            assert!(verify_proof(leaf, &proof, i, &root));
            let mut levels = 0;
            let mut width = count;
            while width > 1 {
                width = (width + 1) / 2;
                levels += 1;
            }
            assert_eq!(proof.len(), levels);
        }
    }
}

#[test]
fn wrong_leaf_or_root_never_verifies() {
    let leaves = distinct_leaves(11);
    let root = calculate_root(&leaves);
    for i in 0..leaves.len() {
        let proof = generate_proof(&leaves, i).unwrap();
        let mut wrong_leaf = leaves[i];
        wrong_leaf[i % 32] ^= 1;
        assert!(!verify_proof(&wrong_leaf, &proof, i, &root));
        let mut wrong_root = root;
        wrong_root[31 - (i % 32)] ^= 0x40;
        assert!(!verify_proof(&leaves[i], &proof, i, &wrong_root));
    }
}

#[test]
fn verification_of_an_empty_proof_compares_leaf_and_root() {
    let leaf = [3u8; 32];
    assert!(verify_proof(&leaf, &[], 5, &leaf));
    assert!(!verify_proof(&leaf, &[], 5, &[4u8; 32]));
}

#[test]
fn parent_is_the_same_in_either_order() {
    let a = [0x5au8; 32];
    let b = [0x0fu8; 32];
    assert_eq!(hash_pair(&a, &b), hash_pair(&b, &a));
}

#[test]
fn digests_compare_by_bytes() {
    let a = [1u8; 32];
    let mut b = [1u8; 32];
    assert!(digest_eq(&a, &b));
    b[31] = 2;
    assert!(!digest_eq(&a, &b));
}

#[test]
fn leaf_beyond_the_capacity_is_not_under_the_root() {
    let capacity = 1usize << TREE_DEPTH;
    let mut leaves = vec![[0u8; 32]; capacity + 1];
    leaves[capacity] = [1u8; 32];
    let root = calculate_root(&leaves);
    assert_eq!(root, [0u8; 32]);

    let inside = generate_proof(&leaves, capacity - 1).unwrap();
    assert_eq!(inside.len(), TREE_DEPTH);
    assert!(verify_proof(&leaves[capacity - 1], &inside, capacity - 1, &root));

    let outside = generate_proof(&leaves, capacity).unwrap();
    assert_eq!(outside.len(), TREE_DEPTH);
    assert!(!verify_proof(&leaves[capacity], &outside, capacity, &root));
}
