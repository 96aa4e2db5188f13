//! The record store's database backend: one database folder, with the
//! published-file records in a column family of their own, keyed by the
//! canonical encoding of the content identifier.
//!
//! The types here hold what the database holds and decide what is stored
//! under which key. Reading the database files and writing them is left to
//! the program that owns them: it loads the entries with `put_cf` and writes
//! out what `add_published_file` stores.

use vstd::prelude::*;
use vstd::string::StringExecFns;
use crate::file_store::content_id_of;
use crate::file_store::decode_key;
use crate::file_store::key_of;
use crate::file_store::same_bytes;
use crate::file_store::Error;
use crate::file_store::PublishedFileRecord;
use crate::file_store::Store;

verus! {

/// Name of the column family that holds the published-file records.
pub const PUBLISHED_FILES_COLUMN_FAMILY_NAME: &'static str = "published_files";

/// Why the database backend failed.
#[derive(Debug, Clone, PartialEq, Eq)]
pub enum RocksDbStoreError {
    /// The database engine reported an error; the text is its message.
    RocksDb(String),
    /// The database has no column family of this name.
    ColumnFamilyMissing(String),
    /// A record could not be encoded; the text is the encoder's message.
    Cbor(String),
}

/// One stored key with its value.
#[derive(Debug, Clone, PartialEq, Eq)]
pub struct Entry {
    pub key: Vec<u8>,
    pub value: Vec<u8>,
}

/// Whether some entry has this key.
pub open spec fn holds_key(entries: Seq<Entry>, key: Seq<u8>) -> bool {
    exists|i: int| 0 <= i < entries.len() && (#[trigger] entries[i]).key@ == key
}

/// Whether no two entries have the same key.
pub open spec fn distinct_keys(entries: Seq<Entry>) -> bool {
    forall|i: int, j: int|
        0 <= i < j < entries.len() ==> (#[trigger] entries[i]).key@ != (#[trigger] entries[j]).key@
}

/// The position of the entry with this key, where `holds_key`.
pub open spec fn position_of(entries: Seq<Entry>, key: Seq<u8>) -> int {
    choose|i: int| 0 <= i < entries.len() && (#[trigger] entries[i]).key@ == key
}

/// The entries as a map from key to value.
pub open spec fn entries_map(entries: Seq<Entry>) -> Map<Seq<u8>, Seq<u8>> {
    Map::new(
        |key: Seq<u8>| holds_key(entries, key),
        |key: Seq<u8>| entries[position_of(entries, key)].value@,
    )
}

/// The column family of the published-file records.
pub struct ColumnFamily {
    entries: Vec<Entry>,
}

impl ColumnFamily {
    /// The stored values by key.
    pub closed spec fn contents(&self) -> Map<Seq<u8>, Seq<u8>> {
        entries_map(self.entries@)
    }

    /// No key is stored twice.
    pub closed spec fn wf(&self) -> bool {
        distinct_keys(self.entries@)
    }

    /// A column family without entries.
    pub fn new() -> (family: ColumnFamily)
        ensures
            family.wf(),
            family.contents() == Map::<Seq<u8>, Seq<u8>>::empty(),
    {
        let family = ColumnFamily { entries: Vec::new() };
        family
    }

    /// Number of stored entries.
    pub fn len(&self) -> (count: usize)
        requires
            self.wf(),
        ensures
            count == self.contents().dom().len(),
            self.contents().dom().finite(),
    {
        proof {
            lemma_entries_count(self.entries@);
        }
        self.entries.len()
    }

    /// The position of the entry with this key, where there is one.
    fn find(&self, key: &[u8]) -> (found: Option<usize>)
        ensures
            match found {
                Some(i) => i < self.entries@.len() && self.entries@[i as int].key@ == key@,
                None => !holds_key(self.entries@, key@),
            },
    {
        let mut i: usize = 0;
        while i < self.entries.len()
            invariant
                i <= self.entries@.len(),
                forall|k: int| 0 <= k < i ==> (#[trigger] self.entries@[k]).key@ != key@,
            decreases self.entries@.len() - i,
        {
            if same_bytes(self.entries[i].key.as_slice(), key) {
                return Some(i);
            }
            i += 1;
        }
        None
    }

    /// The value stored under `key`, where there is one.
    pub fn get(&self, key: &[u8]) -> (found: Option<&Vec<u8>>)
        requires
            self.wf(),
        ensures
            match found {
                Some(value) => self.contents().dom().contains(key@) && self.contents()[key@]
                    == value@,
                None => !self.contents().dom().contains(key@),
            },
    {
        match self.find(key) {
            Some(i) => {
                proof {
                    lemma_position(self.entries@, i as int);
                }
                Some(&self.entries[i].value)
            },
            None => None,
        }
    }

    /// Stores `value` under `key`, in place of what was stored under it.
    pub fn put(&mut self, key: Vec<u8>, value: Vec<u8>)
        requires
            old(self).wf(),
        ensures
            final(self).wf(),
            final(self).contents() == old(self).contents().insert(key@, value@),
    {
        let ghost before = self.entries@;
        match self.find(key.as_slice()) {
            Some(i) => {
                self.entries[i].value = value;
                proof {
                    let after = self.entries@;
                    assert forall|probe: Seq<u8>| holds_key(after, probe) <==> holds_key(
                        before,
                        probe,
                    ) by {
                        if holds_key(before, probe) {
                            assert(after[position_of(before, probe)].key@ == probe);
                        }
                    }
                    assert forall|probe: Seq<u8>| holds_key(after, probe) implies entries_map(
                        after,
                    )[probe] == (if probe == key@ {
                        value@
                    } else {
                        entries_map(before)[probe]
                    }) by {
                        let k = position_of(after, probe);
                        lemma_position(after, k);
                        lemma_position(before, k);
                    }
                }
            },
            None => {
                self.entries.push(Entry { key, value });
                proof {
                    let after = self.entries@;
                    let last = before.len() as int;
                    assert forall|probe: Seq<u8>| holds_key(after, probe) <==> (probe == key@
                        || holds_key(before, probe)) by {
                        if holds_key(before, probe) {
                            assert(after[position_of(before, probe)].key@ == probe);
                        }
                        if probe == key@ {
                            assert(after[last].key@ == probe);
                        }
                    }
                    assert forall|probe: Seq<u8>| holds_key(after, probe) implies entries_map(
                        after,
                    )[probe] == (if probe == key@ {
                        value@
                    } else {
                        entries_map(before)[probe]
                    }) by {
                        let k = position_of(after, probe);
                        lemma_position(after, k);
                        if k < last {
                            lemma_position(before, k);
                        }
                    }
                }
            },
        }
    }

    /// Whether a record is stored for this content identifier. Every stored
    /// key is decoded and the identifier it stands for is compared with the
    /// one asked for; keys that stand for no identifier are passed over.
    pub fn holds_content_id(&self, file_id: &[u8; 32]) -> (found: bool)
        ensures
            found == self.contents().dom().contains(key_of(file_id@)),
    {
        let mut i: usize = 0;
        while i < self.entries.len()
            invariant
                i <= self.entries@.len(),
                forall|k: int| 0 <= k < i ==> (#[trigger] self.entries@[k]).key@ != file_id@,
            decreases self.entries@.len() - i,
        {
            match decode_key(self.entries[i].key.as_slice()) {
                Some(content_id) => {
                    if same_bytes(content_id.as_slice(), file_id.as_slice()) {
                        return true;
                    }
                },
                None => {},
            }
            i += 1;
        }
        false
    }
}

/// The database of the record store: the folder it lives in and what its
/// column family of published-file records holds.
pub struct RocksDb {
    folder: String,
    published_files: ColumnFamily,
}

impl RocksDb {
    /// The folder of the database.
    pub closed spec fn location(&self) -> Seq<char> {
        self.folder@
    }

    /// The stored record encodings by key.
    pub closed spec fn records(&self) -> Map<Seq<u8>, Seq<u8>> {
        self.published_files.contents()
    }

    /// No key is stored twice.
    pub closed spec fn valid(&self) -> bool {
        self.published_files.wf()
    }

    /// The database in `folder`, with the column family of the published-file
    /// records and nothing stored in it.
    pub fn new(folder: String) -> (opened: Result<RocksDb, RocksDbStoreError>)
        ensures
            opened matches Ok(db) && db.valid() && db.location() == folder@ && db.records()
                == Map::<Seq<u8>, Seq<u8>>::empty(),
    {
        Ok(RocksDb { folder, published_files: ColumnFamily::new() })
    }

    /// The folder of the database.
    pub fn folder(&self) -> (folder: &String)
        ensures
            folder@ == self.location(),
    {
        &self.folder
    }

    /// The column family of this name. The database has one column family,
    /// that of the published-file records; any other name is missing.
    pub fn cf_handle(&self, name: &str) -> (handle: Result<&ColumnFamily, RocksDbStoreError>)
        ensures
            match handle {
                Ok(family) => {
                    &&& name@ == PUBLISHED_FILES_COLUMN_FAMILY_NAME@
                    &&& family.contents() == self.records()
                    &&& family.wf() == self.valid()
                },
                Err(RocksDbStoreError::ColumnFamilyMissing(missing)) => {
                    &&& name@ != PUBLISHED_FILES_COLUMN_FAMILY_NAME@
                    &&& missing@ == name@
                },
                Err(_) => false,
            },
    {
        let asked = String::from_str(name);
        if asked == String::from_str(PUBLISHED_FILES_COLUMN_FAMILY_NAME) {
            Ok(&self.published_files)
        } else {
            Err(RocksDbStoreError::ColumnFamilyMissing(asked))
        }
    }

    /// Stores `value` under `key` in the column family of this name, in place
    /// of what was stored under the key.
    pub fn put_cf(&mut self, name: &str, key: Vec<u8>, value: Vec<u8>) -> (put: Result<
        (),
        RocksDbStoreError,
    >)
        requires
            old(self).valid(),
        ensures
            final(self).valid(),
            final(self).location() == old(self).location(),
            match put {
                Ok(_) => {
                    &&& name@ == PUBLISHED_FILES_COLUMN_FAMILY_NAME@
                    &&& final(self).records() == old(self).records().insert(key@, value@)
                },
                Err(RocksDbStoreError::ColumnFamilyMissing(missing)) => {
                    &&& name@ != PUBLISHED_FILES_COLUMN_FAMILY_NAME@
                    &&& missing@ == name@
                    &&& final(self).records() == old(self).records()
                },
                Err(_) => false,
            },
    {
        match self.cf_handle(name) {
            Ok(_) => {
                self.published_files.put(key, value);
                Ok(())
            },
            Err(error) => Err(error),
        }
    }

    /// Stores a record's encoding under its key, or passes on the failure to
    /// encode it.
    pub fn store_encoded(&mut self, key: Vec<u8>, encoded: Result<Vec<u8>, RocksDbStoreError>) -> (stored:
        Result<(), Error>)
        requires
            old(self).valid(),
        ensures
            final(self).valid(),
            final(self).location() == old(self).location(),
            match encoded {
                Ok(value) => stored is Ok && final(self).records() == old(self).records().insert(
                    key@,
                    value@,
                ),
                Err(error) => stored == Err::<(), Error>(Error::RocksDb(error))
                    && final(self).records() == old(self).records(),
            },
    {
        match encoded {
            Ok(value) => {
                match self.put_cf(PUBLISHED_FILES_COLUMN_FAMILY_NAME, key, value) {
                    Ok(_) => Ok(()),
                    Err(error) => Err(Error::RocksDb(error)),
                }
            },
            Err(error) => Err(Error::RocksDb(error)),
        }
    }
}

impl Store for RocksDb {
    open spec fn wf(&self) -> bool {
        self.valid()
    }

    /// The identifiers whose canonical key is stored: those that a scan of
    /// the stored keys decodes to.
    open spec fn published(&self) -> Set<Seq<u8>> {
        Set::new(
            |content_id: Seq<u8>|
                content_id.len() == crate::file_store::CONTENT_ID_SIZE
                    && self.records().dom().contains(key_of(content_id)),
        )
    }

    /// A lookup reads what the database holds and cannot fail.
    open spec fn answers(&self) -> bool {
        true
    }

    /// A record is taken exactly when it has an encoding.
    open spec fn accepts(&self, record: PublishedFileRecord) -> bool {
        record.encoding() is Some
    }

    fn add_published_file(&mut self, record: PublishedFileRecord) -> (added: Result<(), Error>)
        ensures
            final(self).location() == old(self).location(),
            match added {
                Ok(_) => {
                    &&& record.encoding() matches Some(value)
                    &&& final(self).records() == old(self).records().insert(
                        key_of(record.content_id@),
                        value,
                    )
                },
                Err(Error::RocksDb(error)) => {
                    &&& error is Cbor
                    &&& record.encoding() is None
                    &&& final(self).records() == old(self).records()
                },
            },
    {
        let key = record.key();
        let encoded = record.to_bytes();
        self.store_encoded(key, encoded)
    }

    fn published_file_exists(&self, file_id: &[u8; 32]) -> (found: Result<bool, Error>)
        ensures
            found matches Ok(exists) && exists == self.records().dom().contains(key_of(file_id@)),
    {
        match self.cf_handle(PUBLISHED_FILES_COLUMN_FAMILY_NAME) {
            Ok(family) => Ok(family.holds_content_id(file_id)),
            Err(error) => Err(Error::RocksDb(error)),
        }
    }
}

/// A file counts as published from the moment it is recorded, not before.
/// Take a record and a key that decodes to the identifier `file_id` of that
/// record. On a database that stores nothing under the key,
/// `published_file_exists(file_id)` answers false; on the database that
/// `add_published_file` leaves, which stores the record's encoding under the
/// key, it answers true. What it answers for any other identifier is the
/// same on both.
pub proof fn lemma_published_once_added(
    before: RocksDb,
    after: RocksDb,
    record: PublishedFileRecord,
    key: Seq<u8>,
    file_id: Seq<u8>,
)
    requires
        record.content_id@ == file_id,
        content_id_of(key) == Some(file_id),
        !before.records().dom().contains(key),
        record.encoding() matches Some(value) && after.records() == before.records().insert(
            key,
            value,
        ),
    ensures
        !before.published().contains(file_id),
        after.published().contains(file_id),
        forall|other: Seq<u8>|
            other != file_id ==> (after.published().contains(other) <==> before.published().contains(
                other,
            )),
{
    crate::file_store::lemma_key_is_canonical(key, file_id);
}

/// With distinct keys, the entry at a position is the one found for its key.
pub proof fn lemma_position(entries: Seq<Entry>, i: int)
    requires
        distinct_keys(entries),
        0 <= i < entries.len(),
    ensures
        holds_key(entries, entries[i].key@),
        position_of(entries, entries[i].key@) == i,
{
}

/// With distinct keys there are as many keys as entries.
pub proof fn lemma_entries_count(entries: Seq<Entry>)
    requires
        distinct_keys(entries),
    ensures
        entries_map(entries).dom().finite(),
        entries_map(entries).dom().len() == entries.len(),
    decreases entries.len(),
{
    if entries.len() == 0 {
        assert(entries_map(entries).dom() =~= Set::<Seq<u8>>::empty());
    } else {
        let front = entries.drop_last();
        let last = entries.last();
        lemma_entries_count(front);
        assert forall|probe: Seq<u8>| holds_key(entries, probe) <==> (probe == last.key@
            || holds_key(front, probe)) by {
            if holds_key(entries, probe) {
                let k = position_of(entries, probe);
                if k < front.len() {
                    assert(front[k].key@ == probe);
                }
            }
        }
        assert(entries_map(entries).dom() =~= entries_map(front).dom().insert(last.key@));
    }
}

} // verus!
