//! Chunk digests, the Merkle tree over them and inclusion proofs.
//!
//! Leaf `i` of the tree is the digest of chunk `i`. A node without a sibling
//! on its level is carried up unchanged. A proof is the flat list of the
//! sibling digests on the path from its leaf to the root; which side each
//! sibling stands on follows from the leaf's index and the number of leaves,
//! both of which verification takes as arguments.

use vstd::prelude::*;
use rs_merkle::algorithms::Sha256;
use rs_merkle::Hasher;
use rs_merkle::MerkleProof;
use rs_merkle::MerkleTree;

verus! {

/// Width of a digest in bytes.
pub const DIGEST_SIZE: usize = 32;

/// The tree of `rs_merkle` over SHA-256 digests. The verifier sees nothing
/// of what it holds; `tree_leaves` names its leaves.
#[verifier::external_body]
pub struct DigestTree {
    tree: MerkleTree<Sha256>,
}

/// The proof of `rs_merkle` over SHA-256 digests: a list of digests. The
/// verifier sees nothing of what it holds; `path_digests` names the digests.
#[verifier::external_body]
pub struct ProofPath {
    path: MerkleProof<Sha256>,
}

/// The SHA-256 digest of `data`.
pub uninterp spec fn sha256(data: Seq<u8>) -> Seq<u8>;

/// The leaves that a tree was built over, in order.
pub uninterp spec fn tree_leaves(tree: DigestTree) -> Seq<Seq<u8>>;

/// The root of the tree over `leaves`, where it has one.
pub uninterp spec fn merkle_root(leaves: Seq<Seq<u8>>) -> Option<Seq<u8>>;

/// The digests that a proof holds, in order.
pub uninterp spec fn path_digests(path: ProofPath) -> Seq<Seq<u8>>;

/// The digests of the inclusion proof of leaf `index` in the tree over
/// `leaves`.
pub uninterp spec fn merkle_path(leaves: Seq<Seq<u8>>, index: int) -> Seq<Seq<u8>>;

/// Whether the digests of a proof lead from `leaf` at `index`, in a tree of
/// `leaf_count` leaves, to `root`.
pub uninterp spec fn merkle_accepts(
    path: Seq<Seq<u8>>,
    root: Seq<u8>,
    index: int,
    leaf: Seq<u8>,
    leaf_count: int,
) -> bool;

/// The serialized inclusion proof of leaf `index` in the tree over `leaves`:
/// its digests one after the other.
pub open spec fn merkle_proof(leaves: Seq<Seq<u8>>, index: int) -> Seq<u8> {
    merkle_path(leaves, index).flatten()
}

/// The digests that serialized proof bytes hold: the bytes cut into pieces
/// of the width of a digest.
pub open spec fn digest_pieces(bytes: Seq<u8>) -> Seq<Seq<u8>> {
    Seq::new(
        bytes.len() / (DIGEST_SIZE as nat),
        |i: int| bytes.subrange(DIGEST_SIZE * i, DIGEST_SIZE * i + DIGEST_SIZE),
    )
}

/// Whether bytes are a serialized proof: a whole number of digests.
pub open spec fn is_proof(bytes: Seq<u8>) -> bool {
    bytes.len() % (DIGEST_SIZE as nat) == 0
}

/// The views of a vector of digests, in order.
pub open spec fn digests_view(digests: Seq<[u8; 32]>) -> Seq<Seq<u8>> {
    Seq::new(digests.len(), |i: int| digests[i]@)
}

/// The digest of each chunk, in order.
pub open spec fn chunk_digests(chunks: Seq<Seq<u8>>) -> Seq<Seq<u8>> {
    Seq::new(chunks.len(), |i: int| sha256(chunks[i]))
}

/// Whether `proof` shows that `leaf` is the leaf at `index` of the tree of
/// `leaf_count` leaves with this `root`: the index is one of the tree's, the
/// proof bytes are a whole number of digests, and those digests lead from
/// the leaf to the root.
pub open spec fn digest_verifies(
    root: Seq<u8>,
    index: int,
    leaf: Seq<u8>,
    proof: Seq<u8>,
    leaf_count: int,
) -> bool {
    &&& 0 <= index < leaf_count
    &&& is_proof(proof)
    &&& merkle_accepts(digest_pieces(proof), root, index, leaf, leaf_count)
}

/// Whether `proof` shows that `chunk` is the chunk at `index` of the file of
/// `leaf_count` chunks whose content identifier is `root`.
pub open spec fn chunk_verifies(
    root: Seq<u8>,
    index: int,
    chunk: Seq<u8>,
    proof: Seq<u8>,
    leaf_count: int,
) -> bool {
    digest_verifies(root, index, sha256(chunk), proof, leaf_count)
}

/// `rs_merkle::Hasher::hash` of `rs_merkle::algorithms::Sha256`: the result is
/// the SHA-256 digest of the bytes given, a function of those bytes alone.
#[verifier::external_body]
fn sha256_digest(data: &[u8]) -> (digest: [u8; 32])
    ensures
        digest@ == sha256(data@),
{
    Sha256::hash(data)
}

/// `rs_merkle::MerkleTree::from_leaves`: the tree holds the leaves given, in
/// the order given.
#[verifier::external_body]
fn tree_from_leaves(leaves: &Vec<[u8; 32]>) -> (tree: DigestTree)
    ensures
        tree_leaves(tree) == digests_view(leaves@),
{
    DigestTree { tree: MerkleTree::<Sha256>::from_leaves(leaves.as_slice()) }
}

/// `rs_merkle::MerkleTree::root`: the top digest of the tree, a function of
/// its leaves alone; nothing is claimed about when there is none.
#[verifier::external_body]
fn tree_root(tree: &DigestTree) -> (root: Option<[u8; 32]>)
    ensures
        match root {
            Some(digest) => merkle_root(tree_leaves(*tree)) == Some(digest@),
            None => merkle_root(tree_leaves(*tree)) is None,
        },
{
    tree.tree.root()
}

/// `rs_merkle::MerkleTree::proof` for one leaf: the digests of the proof are
/// a function of the leaves and the index alone.
#[verifier::external_body]
fn tree_path(tree: &DigestTree, index: usize) -> (path: ProofPath)
    ensures
        path_digests(path) == merkle_path(tree_leaves(*tree), index as int),
{
    ProofPath { path: tree.tree.proof(&[index]) }
}

/// `rs_merkle::MerkleProof::to_bytes`: the digests of the proof, one after
/// the other.
#[verifier::external_body]
fn path_to_bytes(path: &ProofPath) -> (bytes: Vec<u8>)
    ensures
        bytes@ == path_digests(*path).flatten(),
{
    path.path.to_bytes()
}

/// `rs_merkle::MerkleProof::from_bytes`: bytes that are a whole number of
/// 32-byte digests are read as those digests, in order; any other bytes are
/// refused.
#[verifier::external_body]
fn path_from_bytes(bytes: &[u8]) -> (parsed: Option<ProofPath>)
    ensures
        match parsed {
            Some(path) => is_proof(bytes@) && path_digests(path) == digest_pieces(bytes@),
            None => !is_proof(bytes@),
        },
{
    match MerkleProof::<Sha256>::from_bytes(bytes) {
        Ok(path) => Some(ProofPath { path }),
        Err(_) => None,
    }
}

/// `rs_merkle::MerkleProof::verify` for one leaf: a function of the proof's
/// digests, the root, the index, the leaf and the leaf count alone.
#[verifier::external_body]
fn path_accepts(path: &ProofPath, root: &[u8; 32], index: usize, leaf: &[u8; 32], leaf_count: usize)
    -> (accepted: bool)
    ensures
        accepted == merkle_accepts(
            path_digests(*path),
            root@,
            index as int,
            leaf@,
            leaf_count as int,
        ),
{
    path.path.verify(*root, &[index], &[*leaf], leaf_count)
}

/// The digest of one chunk.
pub fn digest(chunk: &[u8]) -> (digest: [u8; 32])
    ensures
        digest@ == sha256(chunk@),
{
    sha256_digest(chunk)
}

/// The digest of every chunk, in the chunks' order.
pub fn digest_chunks(chunks: &Vec<Vec<u8>>) -> (digests: Vec<[u8; 32]>)
    ensures
        digests_view(digests@) == chunk_digests(crate::chunker::buffers_view(chunks@)),
{
    let mut digests: Vec<[u8; 32]> = Vec::new();
    let mut i: usize = 0;
    while i < chunks.len()
        invariant
            i <= chunks@.len(),
            digests@.len() == i,
            forall|k: int| 0 <= k < i ==> (#[trigger] digests@[k])@ == sha256(chunks@[k]@),
        decreases chunks@.len() - i,
    {
        digests.push(sha256_digest(chunks[i].as_slice()));
        i += 1;
    }
    digests
}

/// A Merkle tree over a file's chunk digests, held while proofs are made.
pub struct ChunkTree {
    tree: DigestTree,
    root: [u8; 32],
    leaf_count: usize,
}

impl ChunkTree {
    /// The digests that the tree was built over.
    pub closed spec fn leaves(&self) -> Seq<Seq<u8>> {
        tree_leaves(self.tree)
    }

    /// The root and the leaf count that the tree carries are those of its leaves.
    pub closed spec fn wf(&self) -> bool {
        &&& self.leaf_count == self.leaves().len()
        &&& merkle_root(self.leaves()) == Some(self.root@)
    }

    /// Builds the tree over `digests`, in their order. There is a tree exactly
    /// when the digests have a root.
    pub fn build(digests: &Vec<[u8; 32]>) -> (built: Option<ChunkTree>)
        ensures
            built is Some <==> merkle_root(digests_view(digests@)) is Some,
            built matches Some(tree) ==> tree.wf() && tree.leaves() == digests_view(digests@),
    {
        let tree = tree_from_leaves(digests);
        match tree_root(&tree) {
            Some(root) => Some(ChunkTree { tree, root, leaf_count: digests.len() }),
            None => None,
        }
    }

    /// The root of the tree: the content identifier of the file.
    pub fn root(&self) -> (root: [u8; 32])
        requires
            self.wf(),
        ensures
            Some(root@) == merkle_root(self.leaves()),
    {
        self.root
    }

    /// The number of leaves.
    pub fn leaf_count(&self) -> (count: usize)
        requires
            self.wf(),
        ensures
            count == self.leaves().len(),
    {
        self.leaf_count
    }

    /// The serialized inclusion proof of the leaf at `index`; none for an
    /// index that the tree does not have.
    pub fn prove(&self, index: usize) -> (made: Option<Vec<u8>>)
        requires
            self.wf(),
        ensures
            match made {
                Some(bytes) => index < self.leaves().len() && bytes@ == merkle_proof(
                    self.leaves(),
                    index as int,
                ),
                None => index >= self.leaves().len(),
            },
    {
        if index < self.leaf_count {
            Some(path_to_bytes(&tree_path(&self.tree, index)))
        } else {
            None
        }
    }
}

/// Checks, from the root, the leaf count, the leaf's digest and the proof
/// alone, that the digest is the leaf at `index` of the tree with this root.
/// The tree itself is not needed.
pub fn verify_digest(
    root: &[u8; 32],
    index: usize,
    leaf: &[u8; 32],
    proof: &[u8],
    leaf_count: usize,
) -> (valid: bool)
    ensures
        valid == digest_verifies(root@, index as int, leaf@, proof@, leaf_count as int),
{
    if index >= leaf_count {
        return false;
    }
    match path_from_bytes(proof) {
        Some(path) => path_accepts(&path, root, index, leaf, leaf_count),
        None => false,
    }
}

/// Checks that `chunk` is the chunk at `index` of the file identified by
/// `root`: digests the chunk and checks the digest against the proof.
pub fn verify_chunk(root: &[u8; 32], index: usize, chunk: &[u8], proof: &[u8], leaf_count: usize)
    -> (valid: bool)
    ensures
        valid == chunk_verifies(root@, index as int, chunk@, proof@, leaf_count as int),
{
    let leaf = sha256_digest(chunk);
    verify_digest(root, index, &leaf, proof, leaf_count)
}

} // verus!
