use publish_core::merkle::digest;
use publish_core::merkle::digest_chunks;
use publish_core::merkle::verify_chunk;
use publish_core::merkle::verify_digest;
use publish_core::merkle::ChunkTree;

fn hex(bytes: &[u8]) -> String {
    let mut text = String::new();
    for byte in bytes {
        text.push_str(&format!("{:02x}", byte));
    }
    text
}

fn joined(left: &[u8; 32], right: &[u8; 32]) -> Vec<u8> {
    let mut both = left.to_vec();
    both.extend_from_slice(right);
    both
}

#[test]
fn digest_is_sha256() {
    assert_eq!(
        hex(&digest(b"")),
        "e3b0c44298fc1c149afbf4c8996fb92427ae41e4649b934ca495991b7852b855"
    );
    assert_eq!(
        hex(&digest(b"abc")),
        "ba7816bf8f01cfea414140de5dae2223b00361a396177a9cb410ff61f20015ad"
    );
}

#[test]
fn one_digest_per_chunk_in_order() {
    let chunks = vec![b"a".to_vec(), b"bc".to_vec(), Vec::new()];
    let digests = digest_chunks(&chunks);
    assert_eq!(digests, vec![digest(b"a"), digest(b"bc"), digest(b"")]);
    assert_eq!(digest_chunks(&Vec::new()).len(), 0);
}

#[test]
fn no_tree_over_no_digests() {
    assert!(ChunkTree::build(&Vec::new()).is_none());
}

#[test]
fn root_of_one_leaf_is_the_leaf() {
    let leaf = digest(b"only");
    let tree = ChunkTree::build(&vec![leaf]).unwrap();
    assert_eq!(tree.root(), leaf);
    assert_eq!(tree.leaf_count(), 1);
    assert_eq!(tree.prove(0), Some(Vec::new()));
    assert!(verify_chunk(&leaf, 0, b"only", &[], 1));
}

#[test]
fn root_of_two_leaves_is_the_digest_of_both() {
    let left = digest(b"left");
    let right = digest(b"right");
    let tree = ChunkTree::build(&vec![left, right]).unwrap();
    assert_eq!(tree.root(), digest(&joined(&left, &right)));
    assert_eq!(tree.prove(0), Some(right.to_vec()));
    assert_eq!(tree.prove(1), Some(left.to_vec()));
}

#[test]
fn a_leaf_without_sibling_is_carried_up() {
    let a = digest(b"a");
    let b = digest(b"b");
    let c = digest(b"c");
    let tree = ChunkTree::build(&vec![a, b, c]).unwrap();
    let ab = digest(&joined(&a, &b));
    assert_eq!(tree.root(), digest(&joined(&ab, &c)));
    assert_eq!(tree.prove(2), Some(ab.to_vec()));
    assert_eq!(tree.prove(0), Some(joined(&b, &c)));
}

#[test]
fn the_order_of_the_leaves_counts() {
    let a = digest(b"a");
    let b = digest(b"b");
    let forward = ChunkTree::build(&vec![a, b]).unwrap();
    let backward = ChunkTree::build(&vec![b, a]).unwrap();
    assert_ne!(forward.root(), backward.root());
}

#[test]
fn no_proof_for_an_index_out_of_range() {
    let tree = ChunkTree::build(&vec![digest(b"a"), digest(b"b")]).unwrap();
    assert_eq!(tree.prove(2), None);
    assert_eq!(tree.prove(usize::MAX), None);
}

#[test]
fn every_proof_verifies_and_only_for_its_own_chunk() {
    let chunks: Vec<Vec<u8>> = (0u8..7).map(|i| vec![i; 3]).collect();
    let tree = ChunkTree::build(&digest_chunks(&chunks)).unwrap();
    let root = tree.root();
    for i in 0..chunks.len() {
        let proof = tree.prove(i).unwrap();
        assert!(verify_chunk(&root, i, &chunks[i], &proof, chunks.len()));
        let other = (i + 1) % chunks.len();
        assert!(!verify_chunk(&root, i, &chunks[other], &proof, chunks.len()));
        assert!(!verify_chunk(&root, other, &chunks[i], &proof, chunks.len()));
    }
}

#[test]
fn verification_rejects_what_does_not_fit() {
    let chunks = vec![b"one".to_vec(), b"two".to_vec()];
    let tree = ChunkTree::build(&digest_chunks(&chunks)).unwrap();
    let root = tree.root();
    let proof = tree.prove(0).unwrap();
    assert!(verify_chunk(&root, 0, b"one", &proof, 2));
    // an index beyond the leaf count
    assert!(!verify_chunk(&root, 2, b"one", &proof, 2));
    assert!(!verify_chunk(&root, 0, b"one", &proof, 0));
    // proof bytes that are no whole number of digests
    assert!(!verify_chunk(&root, 0, b"one", &proof[..31], 2));
    // a proof that is too short
    assert!(!verify_chunk(&root, 0, b"one", &[], 2));
    // another root
    assert!(!verify_chunk(&digest(b"x"), 0, b"one", &proof, 2));
    // another leaf count
    assert!(!verify_chunk(&root, 0, b"one", &proof, 5));
}

#[test]
fn a_digest_verifies_like_its_chunk() {
    let chunks = vec![b"one".to_vec(), b"two".to_vec(), b"three".to_vec()];
    let digests = digest_chunks(&chunks);
    let tree = ChunkTree::build(&digests).unwrap();
    let root = tree.root();
    for i in 0..3 {
        let proof = tree.prove(i).unwrap();
        assert!(verify_digest(&root, i, &digests[i], &proof, 3));
        assert!(!verify_digest(&root, i, &digests[(i + 1) % 3], &proof, 3));
        assert!(!verify_digest(&root, 3, &digests[i], &proof, 3));
    }
}
