//! The record store: which files have been published, by content identifier.

use vstd::prelude::*;
use crate::chunker::buffers_view;
use crate::file_processor::FileProcessResult;
use crate::file_store::rocksdb::RocksDbStoreError;

pub mod rocksdb;

verus! {

/// Width of a content identifier, and so of a record's key, in bytes.
pub const CONTENT_ID_SIZE: usize = 32;

/// Why the store could not do what was asked.
#[derive(Debug, Clone, PartialEq, Eq)]
pub enum Error {
    /// The database backend failed.
    RocksDb(RocksDbStoreError),
}

/// The durable record of one published file.
#[derive(Debug, Clone, PartialEq, Eq)]
pub struct PublishedFileRecord {
    /// The content identifier: the Merkle root of the file's chunks.
    pub content_id: [u8; 32],
    /// Number of chunks of the file.
    pub number_of_chunks: usize,
    /// The serialized proof of each chunk, at the chunk's index.
    pub merkle_proofs: Vec<Vec<u8>>,
    /// The directory that holds the chunks.
    pub chunks_directory: String,
}

/// The CBOR encoding of a record with these four attributes, where the
/// encoder has one for them.
pub uninterp spec fn cbor_record(
    content_id: Seq<u8>,
    number_of_chunks: nat,
    proofs: Seq<Seq<u8>>,
    chunks_directory: Seq<char>,
) -> Option<Seq<u8>>;

/// `serde_cbor::to_vec` on the tuple of a record's four attributes: whether
/// it succeeds, and the bytes where it does, are a function of the four
/// alone. Where it fails, the text is the error's own message. Nothing is
/// claimed about which attributes it succeeds on.
#[verifier::external_body]
fn cbor_encode(
    content_id: &[u8; 32],
    number_of_chunks: usize,
    proofs: &Vec<Vec<u8>>,
    chunks_directory: &String,
) -> (encoded: Result<Vec<u8>, String>)
    ensures
        match encoded {
            Ok(bytes) => cbor_record(
                content_id@,
                number_of_chunks as nat,
                buffers_view(proofs@),
                chunks_directory@,
            ) == Some(bytes@),
            Err(_) => cbor_record(
                content_id@,
                number_of_chunks as nat,
                buffers_view(proofs@),
                chunks_directory@,
            ) is None,
        },
{
    match serde_cbor::to_vec(&(content_id, number_of_chunks, proofs, chunks_directory)) {
        Ok(bytes) => Ok(bytes),
        Err(error) => Err(error.to_string()),
    }
}

/// The canonical key of a content identifier: its bytes, as they are.
pub open spec fn key_of(content_id: Seq<u8>) -> Seq<u8> {
    content_id
}

/// The content identifier that a stored key stands for. A key of any other
/// width than an identifier's stands for none.
pub open spec fn content_id_of(key: Seq<u8>) -> Option<Seq<u8>> {
    if key.len() == CONTENT_ID_SIZE {
        Some(key)
    } else {
        None
    }
}

/// Decoding the canonical key of a content identifier gives the identifier
/// back.
pub proof fn lemma_key_round_trip(content_id: Seq<u8>)
    requires
        content_id.len() == CONTENT_ID_SIZE,
    ensures
        content_id_of(key_of(content_id)) == Some(content_id),
{
}

/// A key stands for a content identifier exactly when it is that
/// identifier's canonical key: no two keys stand for one identifier.
pub proof fn lemma_key_is_canonical(key: Seq<u8>, content_id: Seq<u8>)
    requires
        content_id.len() == CONTENT_ID_SIZE,
    ensures
        content_id_of(key) == Some(content_id) <==> key == key_of(content_id),
{
}

/// Whether two byte strings hold the same bytes.
pub fn same_bytes(left: &[u8], right: &[u8]) -> (same: bool)
    ensures
        same == (left@ == right@),
{
    if left.len() != right.len() {
        return false;
    }
    let mut i: usize = 0;
    while i < left.len()
        invariant
            i <= left@.len(),
            left@.len() == right@.len(),
            forall|k: int| 0 <= k < i ==> left@[k] == right@[k],
        decreases left@.len() - i,
    {
        if left[i] != right[i] {
            return false;
        }
        i += 1;
    }
    assert(left@ =~= right@);
    true
}

/// Decodes a stored key into the content identifier it stands for.
pub fn decode_key(key: &[u8]) -> (decoded: Option<[u8; 32]>)
    ensures
        match decoded {
            Some(content_id) => content_id_of(key@) == Some(content_id@),
            None => content_id_of(key@) is None,
        },
{
    if key.len() != CONTENT_ID_SIZE {
        return None;
    }
    let mut content_id: [u8; 32] = [0u8; 32];
    let mut i: usize = 0;
    while i < CONTENT_ID_SIZE
        invariant
            i <= CONTENT_ID_SIZE,
            key@.len() == CONTENT_ID_SIZE,
            forall|k: int| 0 <= k < i ==> content_id@[k] == key@[k],
        decreases CONTENT_ID_SIZE - i,
    {
        content_id[i] = key[i];
        i += 1;
    }
    Some(content_id)
}

impl PublishedFileRecord {
    /// The proofs as byte sequences, by chunk index.
    pub open spec fn proofs(&self) -> Seq<Seq<u8>> {
        buffers_view(self.merkle_proofs@)
    }

    /// The record of a processed file: the same identifier, chunk count,
    /// proofs and chunk directory.
    pub fn from_result(result: FileProcessResult) -> (record: PublishedFileRecord)
        ensures
            record.content_id == result.merkle_root,
            record.number_of_chunks == result.number_of_chunks,
            record.merkle_proofs == result.merkle_proofs,
            record.chunks_directory == result.chunks_directory,
    {
        PublishedFileRecord {
            content_id: result.merkle_root,
            number_of_chunks: result.number_of_chunks,
            merkle_proofs: result.merkle_proofs,
            chunks_directory: result.chunks_directory,
        }
    }

    /// The self-contained byte encoding under which the record is stored,
    /// where the record can be encoded.
    pub open spec fn encoding(&self) -> Option<Seq<u8>> {
        cbor_record(
            self.content_id@,
            self.number_of_chunks as nat,
            self.proofs(),
            self.chunks_directory@,
        )
    }

    /// Encodes the record for storage: the bytes of its encoding where it
    /// has one. Where it has none, the error carries the encoder's message.
    pub fn to_bytes(&self) -> (encoded: Result<Vec<u8>, RocksDbStoreError>)
        ensures
            match encoded {
                Ok(bytes) => self.encoding() == Some(bytes@),
                Err(error) => error is Cbor && self.encoding() is None,
            },
    {
        match cbor_encode(
            &self.content_id,
            self.number_of_chunks,
            &self.merkle_proofs,
            &self.chunks_directory,
        ) {
            Ok(bytes) => Ok(bytes),
            Err(message) => Err(RocksDbStoreError::Cbor(message)),
        }
    }

    /// The key under which the record is stored: the canonical encoding of
    /// its content identifier.
    pub fn key(&self) -> (key: Vec<u8>)
        ensures
            key@ == key_of(self.content_id@),
            content_id_of(key@) == Some(self.content_id@),
    {
        let mut key: Vec<u8> = Vec::new();
        let mut i: usize = 0;
        while i < CONTENT_ID_SIZE
            invariant
                i <= CONTENT_ID_SIZE,
                key@.len() == i,
                forall|k: int| 0 <= k < i ==> key@[k] == self.content_id@[k],
            decreases CONTENT_ID_SIZE - i,
        {
            key.push(self.content_id[i]);
            i += 1;
        }
        key
    }
}

/// What a record store offers: to record a published file, and to ask
/// whether a file has been published.
pub trait Store {
    /// Whether the store is in a state that its operations keep.
    spec fn wf(&self) -> bool;

    /// The content identifiers of the files recorded as published.
    spec fn published(&self) -> Set<Seq<u8>>;

    /// Whether the store, as it stands, owes an answer to the question
    /// whether a file has been recorded. A store that can fail to read what
    /// it holds owes none.
    spec fn answers(&self) -> bool;

    /// Whether the store, as it stands, owes success in recording `record`.
    /// A store that can fail to write, or to encode the record, owes none.
    spec fn accepts(&self, record: PublishedFileRecord) -> bool;

    /// Records a published file under the key of its content identifier.
    /// Recording a file again replaces its record. The record is added where
    /// the store accepts it. After a failure nothing has changed.
    fn add_published_file(&mut self, record: PublishedFileRecord) -> (added: Result<(), Error>)
        requires
            old(self).wf(),
        ensures
            final(self).wf(),
            old(self).accepts(record) ==> added is Ok,
            added is Ok ==> final(self).published() == old(self).published().insert(
                record.content_id@,
            ),
            added is Err ==> final(self).published() == old(self).published(),
    ;

    /// Whether a file with this content identifier has been recorded. The
    /// question is answered where the store answers.
    fn published_file_exists(&self, file_id: &[u8; 32]) -> (found: Result<bool, Error>)
        requires
            self.wf(),
        ensures
            self.answers() ==> found is Ok,
            found matches Ok(exists) ==> exists == self.published().contains(file_id@),
    ;
}

/// Records a published file unless a file is recorded under its content
/// identifier already: the check and the insertion of a caller that wants a
/// file recorded at most once. The result says whether the record was added.
///
/// In a store that answers, a file that is recorded already is left as it
/// is, and a file that is not is recorded where the store accepts its
/// record. An error is the store's: it could not answer, or could not take
/// the record, and nothing has changed.
///
/// The two steps are not atomic: where several writers share a store, both
/// may find the file absent.
pub fn add_if_absent<S: Store>(store: &mut S, record: PublishedFileRecord) -> (added: Result<
    bool,
    Error,
>)
    requires
        old(store).wf(),
    ensures
        final(store).wf(),
        match added {
            Ok(true) => {
                &&& !old(store).published().contains(record.content_id@)
                &&& final(store).published() == old(store).published().insert(record.content_id@)
            },
            Ok(false) => {
                &&& old(store).published().contains(record.content_id@)
                &&& final(store).published() == old(store).published()
            },
            Err(_) => {
                &&& final(store).published() == old(store).published()
                &&& !old(store).answers() || (!old(store).published().contains(record.content_id@)
                    && !old(store).accepts(record))
            },
        },
{
    match store.published_file_exists(&record.content_id) {
        Ok(true) => Ok(false),
        Ok(false) => {
            match store.add_published_file(record) {
                Ok(_) => Ok(true),
                Err(error) => Err(error),
            }
        },
        Err(error) => Err(error),
    }
}

} // verus!
