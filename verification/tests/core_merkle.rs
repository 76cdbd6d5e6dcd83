use relyo::crypto::sha3_256;
use relyo::merkle::MerkleTree;

#[test]
fn test_single_leaf() {
    let tree = MerkleTree::from_leaves(&[b"hello".as_slice()]);
    let root = tree.root();
    assert_ne!(root, [0u8; 32]);
    assert_eq!(tree.leaf_count(), 1);
}

#[test]
fn test_two_leaves() {
    let tree = MerkleTree::from_leaves(&[b"hello".as_slice(), b"world".as_slice()]);
    let root = tree.root();
    let h1 = sha3_256(b"hello");
    let h2 = sha3_256(b"world");
    let mut combined = [0u8; 64];
    combined[..32].copy_from_slice(&h1);
    combined[32..].copy_from_slice(&h2);
    let expected_root = sha3_256(&combined);
    assert_eq!(root, expected_root);
}

#[test]
fn test_proof_verification() {
    let leaves: Vec<&[u8]> = vec![b"alpha", b"beta", b"gamma", b"delta"];
    let tree = MerkleTree::from_leaves(&leaves);
    let root = tree.root();
    for i in 0..leaves.len() {
        let proof = tree.inclusion_proof(i).expect("should have proof");
        assert!(proof.verify(&root), "proof for leaf {} should verify", i);
    }
}

#[test]
fn test_proof_fails_wrong_root() {
    let tree = MerkleTree::from_leaves(&[b"a".as_slice(), b"b".as_slice(), b"c".as_slice(), b"d".as_slice()]);
    let proof = tree.inclusion_proof(0).unwrap();
    let wrong_root = [0xFFu8; 32];
    assert!(!proof.verify(&wrong_root));
}

#[test]
fn test_odd_number_of_leaves() {
    let leaves: Vec<&[u8]> = vec![b"one", b"two", b"three"];
    let tree = MerkleTree::from_leaves(&leaves);
    let root = tree.root();
    assert_ne!(root, [0u8; 32]);
    assert_eq!(tree.leaf_count(), 3);
    for i in 0..3 {
        let proof = tree.inclusion_proof(i).unwrap();
        assert!(proof.verify(&root));
    }
}

#[test]
fn test_empty_tree() {
    let tree = MerkleTree::from_leaves(&[]);
    assert_eq!(tree.leaf_count(), 0);
}

#[test]
fn test_large_tree() {
    let data: Vec<Vec<u8>> = (0..100u32).map(|i| i.to_le_bytes().to_vec()).collect();
    let leaves: Vec<&[u8]> = data.iter().map(|d| d.as_slice()).collect();
    let tree = MerkleTree::from_leaves(&leaves);
    let root = tree.root();
    assert_eq!(tree.leaf_count(), 100);
    for &i in &[0, 1, 50, 99] {
        let proof = tree.inclusion_proof(i).unwrap();
        assert!(proof.verify(&root), "proof for leaf {} failed", i);
    }
}

#[test]
fn test_deterministic_root() {
    let tree1 = MerkleTree::from_leaves(&[b"x".as_slice(), b"y".as_slice()]);
    let tree2 = MerkleTree::from_leaves(&[b"x".as_slice(), b"y".as_slice()]);
    assert_eq!(tree1.root(), tree2.root());
}

#[test]
fn proof_out_of_range_is_none() {
    let tree = MerkleTree::from_leaves(&[b"a".as_slice(), b"b".as_slice()]);
    assert!(tree.inclusion_proof(2).is_none());
    let empty = MerkleTree::from_leaves(&[]);
    assert!(empty.inclusion_proof(0).is_none());
    assert_eq!(empty.root(), [0u8; 32]);
}

#[test]
fn odd_leaf_is_paired_with_a_zero_hash() {
    let tree = MerkleTree::from_leaves(&[b"one".as_slice(), b"two".as_slice(), b"three".as_slice()]);
    let h1 = sha3_256(b"one");
    let h2 = sha3_256(b"two");
    let h3 = sha3_256(b"three");
    let pair = |a: [u8; 32], b: [u8; 32]| {
        let mut c = [0u8; 64];
        c[..32].copy_from_slice(&a);
        c[32..].copy_from_slice(&b);
        sha3_256(&c)
    };
    let expected = pair(pair(h1, h2), pair(h3, [0u8; 32]));
    assert_eq!(tree.root(), expected);
}
