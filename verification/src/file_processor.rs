//! Processing one file for publication: chunk it, digest the chunks, build
//! the Merkle tree, make a proof per chunk and check each proof against the
//! root before anything is handed out.

use vstd::prelude::*;
use crate::chunker::buffers_view;
use crate::chunker::chunks_of;
use crate::chunker::split_chunks;
use crate::merkle::chunk_digests;
use crate::merkle::chunk_verifies;
use crate::merkle::digest_chunks;
use crate::merkle::merkle_proof;
use crate::merkle::merkle_root;
use crate::merkle::verify_chunk;
use crate::merkle::ChunkTree;

verus! {

/// Chunk size of a processor made by `Processor::new`: one mebibyte.
pub const DEFAULT_CHUNK_SIZE: usize = 1048576;

/// Why a file could not be processed.
#[derive(Debug, Clone, PartialEq, Eq)]
pub enum ProcessingError {
    /// The source could not be read; the text says why.
    SourceUnreadable(String),
    /// The source holds no bytes, so there is no chunk to build a tree over.
    EmptySource,
    /// The chunk digests have no root.
    TreeConstruction,
    /// The proof made for the chunk at `index` does not lead to the root.
    Integrity { index: usize },
    /// The chunks could not be written; the text says why.
    ChunkPersistence(String),
}

/// What processing a file yields.
#[derive(Debug, Clone, PartialEq, Eq)]
pub struct FileProcessResult {
    /// The content identifier: the root of the tree over the chunk digests.
    pub merkle_root: [u8; 32],
    /// Number of chunks the file was split into.
    pub number_of_chunks: usize,
    /// The serialized proof of each chunk, at the chunk's index.
    pub merkle_proofs: Vec<Vec<u8>>,
    /// The directory that holds the chunks, one file per chunk.
    pub chunks_directory: String,
}

/// A proof together with the outcome of checking it against the root.
pub struct CheckedProof {
    pub bytes: Vec<u8>,
    pub accepted: bool,
}

/// The proofs of a sequence of checked proofs, in order.
pub open spec fn proofs_of(checked: Seq<CheckedProof>) -> Seq<Seq<u8>> {
    Seq::new(checked.len(), |i: int| checked[i].bytes@)
}

/// Whether `index` is the first proof that was not accepted.
pub open spec fn first_rejected(checked: Seq<CheckedProof>, index: int) -> bool {
    &&& 0 <= index < checked.len()
    &&& !checked[index].accepted
    &&& forall|j: int| 0 <= j < index ==> (#[trigger] checked[j]).accepted
}

/// Whether every proof was accepted.
pub open spec fn all_accepted(checked: Seq<CheckedProof>) -> bool {
    forall|j: int| 0 <= j < checked.len() ==> (#[trigger] checked[j]).accepted
}

impl FileProcessResult {
    /// The proofs as byte sequences, by chunk index.
    pub open spec fn proofs(&self) -> Seq<Seq<u8>> {
        buffers_view(self.merkle_proofs@)
    }

    /// There is one proof per chunk and at least one chunk.
    pub open spec fn wf(&self) -> bool {
        &&& self.number_of_chunks > 0
        &&& self.merkle_proofs@.len() == self.number_of_chunks
    }

    /// Whether this is the result of processing `data` in chunks of
    /// `chunk_size` bytes that are kept in `directory`.
    pub open spec fn describes(&self, data: Seq<u8>, chunk_size: nat, directory: Seq<char>) -> bool {
        let chunks = chunks_of(data, chunk_size);
        let leaves = chunk_digests(chunks);
        &&& self.wf()
        &&& self.number_of_chunks == chunks.len()
        &&& merkle_root(leaves) == Some(self.merkle_root@)
        &&& forall|i: int|
            0 <= i < chunks.len() ==> #[trigger] self.proofs()[i] == merkle_proof(leaves, i)
        &&& self.chunks_directory@ == directory
    }

    /// Whether every proof of this result leads from its chunk of `chunks` to
    /// the root.
    pub open spec fn proves(&self, chunks: Seq<Seq<u8>>) -> bool {
        forall|i: int|
            0 <= i < chunks.len() ==> chunk_verifies(
                self.merkle_root@,
                i,
                #[trigger] chunks[i],
                self.proofs()[i],
                chunks.len() as int,
            )
    }

    /// Assembles the result of processing `chunk_count` chunks from what
    /// the tree gave: its root and one checked proof per chunk, in the
    /// chunks' order, or nothing where no tree could be built. No chunks are
    /// an empty source. A missing tree, or one that does not cover the
    /// chunks, is a failed construction. A proof that was not accepted is an
    /// integrity failure, reported for the first such chunk. Nothing is
    /// assembled in any of these cases.
    #[verifier::loop_isolation(false)]
    pub fn seal(
        chunk_count: usize,
        tree: Option<([u8; 32], Vec<CheckedProof>)>,
        chunks_directory: String,
    ) -> (sealed: Result<FileProcessResult, ProcessingError>)
        ensures
            match sealed {
                Ok(result) => {
                    &&& chunk_count > 0
                    &&& tree matches Some((root, checked))
                    &&& checked@.len() == chunk_count
                    &&& all_accepted(checked@)
                    &&& result.wf()
                    &&& result.merkle_root == root
                    &&& result.number_of_chunks == chunk_count
                    &&& result.proofs() == proofs_of(checked@)
                    &&& result.chunks_directory == chunks_directory
                },
                Err(ProcessingError::EmptySource) => chunk_count == 0,
                Err(ProcessingError::TreeConstruction) => {
                    &&& chunk_count > 0
                    &&& (tree matches Some((_, checked)) ==> checked@.len() != chunk_count)
                },
                Err(ProcessingError::Integrity { index }) => {
                    &&& chunk_count > 0
                    &&& tree matches Some((_, checked))
                    &&& checked@.len() == chunk_count
                    &&& first_rejected(checked@, index as int)
                },
                Err(_) => false,
            },
    {
        if chunk_count == 0 {
            return Err(ProcessingError::EmptySource);
        }
        let (root, checked) = match tree {
            Some(built) => built,
            None => {
                return Err(ProcessingError::TreeConstruction);
            },
        };
        if checked.len() != chunk_count {
            return Err(ProcessingError::TreeConstruction);
        }
        let mut proofs: Vec<Vec<u8>> = Vec::new();
        let mut rest = checked;
        let mut i: usize = 0;
        while i < chunk_count
            invariant
                i <= chunk_count,
                chunk_count == checked@.len(),
                rest@.len() == chunk_count,
                proofs@.len() == i,
                forall|j: int| 0 <= j < i ==> (#[trigger] checked@[j]).accepted,
                forall|j: int| 0 <= j < i ==> (#[trigger] proofs@[j])@ == checked@[j].bytes@,
                forall|j: int| i <= j < chunk_count ==> #[trigger] rest@[j] == checked@[j],
            decreases chunk_count - i,
        {
            if !rest[i].accepted {
                return Err(ProcessingError::Integrity { index: i });
            }
            let mut taken: Vec<u8> = Vec::new();
            core::mem::swap(&mut taken, &mut rest[i].bytes);
            proofs.push(taken);
            i += 1;
        }
        let result = FileProcessResult {
            merkle_root: root,
            number_of_chunks: chunk_count,
            merkle_proofs: proofs,
            chunks_directory,
        };
        Ok(result)
    }

    /// Checks bytes that claim to be the chunk at `index` against the proof
    /// kept for that index and the content identifier. There is nothing to
    /// check a chunk against at an index without a proof.
    pub fn chunk_is_valid(&self, index: usize, chunk: &[u8]) -> (valid: bool)
        ensures
            valid == (index < self.merkle_proofs@.len() && chunk_verifies(
                self.merkle_root@,
                index as int,
                chunk@,
                self.merkle_proofs@[index as int]@,
                self.number_of_chunks as int,
            )),
    {
        if index >= self.merkle_proofs.len() {
            return false;
        }
        verify_chunk(
            &self.merkle_root,
            index,
            chunk,
            self.merkle_proofs[index].as_slice(),
            self.number_of_chunks,
        )
    }

    /// The proof of the chunk at `index`, where there is one.
    pub fn proof_at(&self, index: usize) -> (found: Option<&Vec<u8>>)
        ensures
            match found {
                Some(bytes) => index < self.merkle_proofs@.len() && *bytes
                    == self.merkle_proofs@[index as int],
                None => index >= self.merkle_proofs@.len(),
            },
    {
        if index < self.merkle_proofs.len() {
            Some(&self.merkle_proofs[index])
        } else {
            None
        }
    }
}

/// Whether, in the tree over the digests of `chunks`, the proof of the chunk
/// at `index` is the first that does not lead to `root`.
pub open spec fn first_unproved(root: Seq<u8>, chunks: Seq<Seq<u8>>, index: int) -> bool {
    let leaves = chunk_digests(chunks);
    &&& 0 <= index < chunks.len()
    &&& !chunk_verifies(
        root,
        index,
        chunks[index],
        merkle_proof(leaves, index),
        chunks.len() as int,
    )
    &&& forall|j: int|
        0 <= j < index ==> chunk_verifies(
            root,
            j,
            #[trigger] chunks[j],
            merkle_proof(leaves, j),
            chunks.len() as int,
        )
}

/// What processing the outcome of reading a source leads to, with chunks of
/// `chunk_size` bytes kept in `directory`: for each outcome of
/// `Processor::process_file`, the sources that lead to it.
pub open spec fn processes(
    chunk_size: nat,
    source: Result<Vec<u8>, String>,
    directory: Seq<char>,
    out: Result<ProcessedFile, ProcessingError>,
) -> bool {
    match out {
        Ok(processed) => {
            &&& source matches Ok(data)
            &&& data@.len() > 0
            &&& processed.result().describes(data@, chunk_size, directory)
            &&& processed.result().proves(chunks_of(data@, chunk_size))
            &&& processed.chunks() == chunks_of(data@, chunk_size)
        },
        Err(ProcessingError::SourceUnreadable(reason)) => source == Err::<Vec<u8>, String>(reason),
        Err(ProcessingError::EmptySource) => source matches Ok(data) && data@.len() == 0,
        Err(ProcessingError::TreeConstruction) => {
            &&& source matches Ok(data)
            &&& data@.len() > 0
            &&& merkle_root(chunk_digests(chunks_of(data@, chunk_size))) is None
        },
        Err(ProcessingError::Integrity { index }) => {
            &&& source matches Ok(data)
            &&& data@.len() > 0
            &&& merkle_root(chunk_digests(chunks_of(data@, chunk_size))) matches Some(root)
            &&& first_unproved(root, chunks_of(data@, chunk_size), index as int)
        },
        Err(ProcessingError::ChunkPersistence(_)) => false,
    }
}

/// A processed file whose chunks are not yet known to be on disk: the chunks
/// to write, and the result that is handed out once they are written.
pub struct ProcessedFile {
    result: FileProcessResult,
    chunks: Vec<Vec<u8>>,
}

impl ProcessedFile {
    /// The result that `complete` hands out.
    pub closed spec fn result(&self) -> FileProcessResult {
        self.result
    }

    /// The chunks to write, by index.
    pub closed spec fn chunks(&self) -> Seq<Seq<u8>> {
        buffers_view(self.chunks@)
    }

    /// Number of chunks to write.
    pub fn chunk_count(&self) -> (count: usize)
        ensures
            count == self.chunks().len(),
    {
        self.chunks.len()
    }

    /// The bytes of the chunk at `index`, where there is one.
    pub fn chunk(&self, index: usize) -> (found: Option<&Vec<u8>>)
        ensures
            match found {
                Some(bytes) => index < self.chunks().len() && bytes@ == self.chunks()[index as int],
                None => index >= self.chunks().len(),
            },
    {
        if index < self.chunks.len() {
            Some(&self.chunks[index])
        } else {
            None
        }
    }

    /// The directory that the chunks belong in.
    pub fn chunks_directory(&self) -> (directory: &String)
        ensures
            *directory == self.result().chunks_directory,
    {
        &self.result.chunks_directory
    }

    /// Ends the processing once the chunks have been written, or could not
    /// be. The result is handed out only when every chunk is on disk; after a
    /// failure the chunk directory holds no valid data and is to be removed.
    pub fn complete(self, persisted: Result<(), String>) -> (done: Result<
        FileProcessResult,
        ProcessingError,
    >)
        ensures
            match persisted {
                Ok(_) => done == Ok::<FileProcessResult, ProcessingError>(self.result()),
                Err(reason) => done == Err::<FileProcessResult, ProcessingError>(
                    ProcessingError::ChunkPersistence(reason),
                ),
            },
    {
        match persisted {
            Ok(_) => Ok(self.result),
            Err(reason) => Err(ProcessingError::ChunkPersistence(reason)),
        }
    }
}

/// Turns a file's bytes into chunks, proofs and a content identifier.
pub struct Processor {
    chunk_size: usize,
}

impl Processor {
    #[verifier::type_invariant]
    spec fn positive_chunk_size(self) -> bool {
        self.chunk_size > 0
    }

    /// The size of every chunk but the last, in bytes.
    pub closed spec fn size(&self) -> nat {
        self.chunk_size as nat
    }

    /// A processor with the default chunk size.
    pub fn new() -> (processor: Processor)
        ensures
            processor.size() == DEFAULT_CHUNK_SIZE,
    {
        Processor { chunk_size: DEFAULT_CHUNK_SIZE }
    }

    /// A processor with the chunk size given; none for a size of zero.
    pub fn with_chunk_size(chunk_size: usize) -> (made: Option<Processor>)
        ensures
            match made {
                Some(processor) => chunk_size > 0 && processor.size() == chunk_size,
                None => chunk_size == 0,
            },
    {
        if chunk_size == 0 {
            None
        } else {
            Some(Processor { chunk_size })
        }
    }

    /// The size of every chunk but the last, in bytes.
    pub fn chunk_size(&self) -> (chunk_size: usize)
        ensures
            chunk_size == self.size(),
            chunk_size > 0,
    {
        proof {
            use_type_invariant(self);
        }
        self.chunk_size
    }

    /// Processes the bytes read from a source file, or the failure to read
    /// them. The bytes are split into chunks, each chunk is digested, the
    /// tree is built over the digests, and one proof is made per chunk and
    /// checked against the root. An empty source is rejected. Either the
    /// whole file is processed or an error is returned.
    #[verifier::loop_isolation(false)]
    pub fn process_file(&self, source: Result<Vec<u8>, String>, chunks_directory: String) -> (out:
        Result<ProcessedFile, ProcessingError>)
        ensures
            processes(self.size(), source, chunks_directory@, out),
    {
        proof {
            use_type_invariant(self);
        }
        let data = match source {
            Ok(data) => data,
            Err(reason) => {
                return Err(ProcessingError::SourceUnreadable(reason));
            },
        };
        let chunks = split_chunks(data.as_slice(), self.chunk_size);
        proof {
            crate::chunker::lemma_count_brackets(data@.len(), self.size());
        }
        let chunk_count: usize = chunks.len();
        let ghost pieces = chunks_of(data@, self.size());
        let ghost leaves = chunk_digests(pieces);
        let digests = digest_chunks(&chunks);
        let tree = match ChunkTree::build(&digests) {
            Some(tree) => {
                let root = tree.root();
                let mut checked: Vec<CheckedProof> = Vec::new();
                let mut i: usize = 0;
                while i < chunk_count
                    invariant
                        i <= chunk_count,
                        checked@.len() == i,
                        forall|j: int|
                            0 <= j < i ==> (#[trigger] checked@[j]).bytes@ == merkle_proof(
                                leaves,
                                j,
                            ),
                        forall|j: int|
                            0 <= j < i ==> (#[trigger] checked@[j]).accepted == chunk_verifies(
                                root@,
                                j,
                                pieces[j],
                                merkle_proof(leaves, j),
                                chunk_count as int,
                            ),
                    decreases chunk_count - i,
                {
                    match tree.prove(i) {
                        Some(bytes) => {
                            let accepted = verify_chunk(
                                &root,
                                i,
                                chunks[i].as_slice(),
                                bytes.as_slice(),
                                chunk_count,
                            );
                            checked.push(CheckedProof { bytes, accepted });
                        },
                        None => {
                            break ;
                        },
                    }
                    i += 1;
                }
                Some((root, checked))
            },
            None => None,
        };
        let ghost given = tree;
        let ghost checked = match given {
            Some(built) => built.1@,
            None => Seq::<CheckedProof>::empty(),
        };
        let ghost root = match given {
            Some(built) => built.0@,
            None => Seq::<u8>::empty(),
        };
        match FileProcessResult::seal(chunk_count, tree, chunks_directory) {
            Ok(result) => Ok(ProcessedFile { result, chunks }),
            Err(error) => {
                proof {
                    if let ProcessingError::Integrity { index } = error {
                        assert forall|j: int| 0 <= j < index implies chunk_verifies(
                            root,
                            j,
                            #[trigger] pieces[j],
                            merkle_proof(leaves, j),
                            pieces.len() as int,
                        ) by {
                            assert(checked[j].accepted);
                        }
                    }
                }
                Err(error)
            },
        }
    }
}

/// Every proof that processing hands out verifies: where a source was
/// processed, the proof kept for each index leads from the digest of the
/// chunk at that index to the content identifier, for the chunk count of the
/// result.
pub proof fn lemma_processed_proofs_verify(
    chunk_size: nat,
    source: Result<Vec<u8>, String>,
    directory: Seq<char>,
    out: Result<ProcessedFile, ProcessingError>,
    index: int,
)
    requires
        processes(chunk_size, source, directory, out),
        out is Ok,
        0 <= index < out->Ok_0.result().number_of_chunks,
    ensures
        source is Ok,
        chunk_verifies(
            out->Ok_0.result().merkle_root@,
            index,
            chunks_of(source->Ok_0@, chunk_size)[index],
            out->Ok_0.result().merkle_proofs@[index]@,
            out->Ok_0.result().number_of_chunks as int,
        ),
{
    let result = out->Ok_0.result();
    let chunks = chunks_of(source->Ok_0@, chunk_size);
    assert(chunk_verifies(
        result.merkle_root@,
        index,
        chunks[index],
        result.proofs()[index],
        chunks.len() as int,
    ));
}

/// Processing is a function of the bytes and the chunk size: two results
/// that describe the same bytes, split with the same chunk size, carry the
/// same content identifier, the same chunk count and the same proofs,
/// wherever their chunks are kept.
pub proof fn lemma_processing_is_deterministic(
    first: FileProcessResult,
    second: FileProcessResult,
    data: Seq<u8>,
    chunk_size: nat,
    first_directory: Seq<char>,
    second_directory: Seq<char>,
)
    requires
        first.describes(data, chunk_size, first_directory),
        second.describes(data, chunk_size, second_directory),
    ensures
        first.merkle_root == second.merkle_root,
        first.number_of_chunks == second.number_of_chunks,
        first.proofs() == second.proofs(),
{
}

/// Tampering is local: where every proof of a result leads from its chunk to
/// the root, and the chunks are then altered at `index` only, the proof of
/// every other chunk still leads from that chunk to the same root.
pub proof fn lemma_tampering_is_local(
    result: FileProcessResult,
    chunks: Seq<Seq<u8>>,
    tampered: Seq<Seq<u8>>,
    index: int,
)
    requires
        result.proves(chunks),
        tampered.len() == chunks.len(),
        forall|j: int| 0 <= j < chunks.len() && j != index ==> tampered[j] == chunks[j],
    ensures
        forall|j: int|
            0 <= j < chunks.len() && j != index ==> chunk_verifies(
                result.merkle_root@,
                j,
                #[trigger] tampered[j],
                result.proofs()[j],
                chunks.len() as int,
            ),
{
    assert forall|j: int| 0 <= j < chunks.len() && j != index implies chunk_verifies(
        result.merkle_root@,
        j,
        #[trigger] tampered[j],
        result.proofs()[j],
        chunks.len() as int,
    ) by {
        assert(chunk_verifies(
            result.merkle_root@,
            j,
            chunks[j],
            result.proofs()[j],
            chunks.len() as int,
        ));
    }
}

} // verus!
