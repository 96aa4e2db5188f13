use publish_core::file_processor::FileProcessResult;
use publish_core::file_store::add_if_absent;
use publish_core::file_store::decode_key;
use publish_core::file_store::rocksdb::ColumnFamily;
use publish_core::file_store::rocksdb::RocksDb;
use publish_core::file_store::rocksdb::RocksDbStoreError;
use publish_core::file_store::rocksdb::PUBLISHED_FILES_COLUMN_FAMILY_NAME;
use publish_core::file_store::same_bytes;
use publish_core::file_store::Error;
use publish_core::file_store::PublishedFileRecord;
use publish_core::file_store::Store;
use publish_core::file_store::CONTENT_ID_SIZE;

fn record(seed: u8) -> PublishedFileRecord {
    let mut content_id = [0u8; 32];
    for (i, byte) in content_id.iter_mut().enumerate() {
        *byte = seed.wrapping_add(i as u8);
    }
    PublishedFileRecord {
        content_id,
        number_of_chunks: 2,
        merkle_proofs: vec![vec![7], vec![8, 200]],
        chunks_directory: "d".to_string(),
    }
}

#[test]
fn file_exists_only_after_it_was_added() {
    let mut db = RocksDb::new("store".to_string()).unwrap();
    let first = record(1);
    let second = record(2);
    assert_eq!(db.published_file_exists(&first.content_id), Ok(false));
    assert_eq!(db.published_file_exists(&second.content_id), Ok(false));
    assert_eq!(db.add_published_file(first.clone()), Ok(()));
    assert_eq!(db.published_file_exists(&first.content_id), Ok(true));
    assert_eq!(db.published_file_exists(&second.content_id), Ok(false));
    assert_eq!(db.add_published_file(second.clone()), Ok(()));
    assert_eq!(db.published_file_exists(&first.content_id), Ok(true));
    assert_eq!(db.published_file_exists(&second.content_id), Ok(true));
}

#[test]
fn adding_a_file_again_replaces_its_record() {
    let mut db = RocksDb::new("store".to_string()).unwrap();
    let first = record(1);
    let mut again = record(1);
    again.chunks_directory = "elsewhere".to_string();
    db.add_published_file(first.clone()).unwrap();
    db.add_published_file(again.clone()).unwrap();
    let family = db.cf_handle(PUBLISHED_FILES_COLUMN_FAMILY_NAME).unwrap();
    assert_eq!(family.len(), 1);
    assert_eq!(family.get(&first.key()), Some(&again.to_bytes().unwrap()));
    assert_ne!(first.to_bytes().unwrap(), again.to_bytes().unwrap());
}

#[test]
fn key_round_trip() {
    for seed in [0u8, 1, 77, 255] {
        let item = record(seed);
        let key = item.key();
        assert_eq!(key.len(), CONTENT_ID_SIZE);
        assert_eq!(key, item.content_id.to_vec());
        assert_eq!(decode_key(&key), Some(item.content_id));
    }
}

#[test]
fn key_of_another_width_stands_for_no_identifier() {
    assert_eq!(decode_key(&[]), None);
    assert_eq!(decode_key(&[1u8; 31]), None);
    assert_eq!(decode_key(&[1u8; 33]), None);
    assert_eq!(decode_key(&[1u8; 32]), Some([1u8; 32]));
}

#[test]
fn keys_that_stand_for_no_identifier_are_passed_over() {
    let mut db = RocksDb::new("store".to_string()).unwrap();
    db.put_cf(PUBLISHED_FILES_COLUMN_FAMILY_NAME, vec![1, 2, 3], vec![9]).unwrap();
    let item = record(5);
    assert_eq!(db.published_file_exists(&item.content_id), Ok(false));
    db.add_published_file(item.clone()).unwrap();
    assert_eq!(db.published_file_exists(&item.content_id), Ok(true));
    let family = db.cf_handle(PUBLISHED_FILES_COLUMN_FAMILY_NAME).unwrap();
    assert_eq!(family.len(), 2);
    assert_eq!(family.get(&[1, 2, 3]), Some(&vec![9]));
}

#[test]
fn record_is_encoded_as_cbor() {
    let item = PublishedFileRecord {
        content_id: [1u8; 32],
        number_of_chunks: 2,
        merkle_proofs: vec![vec![7], vec![8, 200]],
        chunks_directory: "d".to_string(),
    };
    let mut expected: Vec<u8> = vec![0x84, 0x98, 0x20];
    expected.extend_from_slice(&[1u8; 32]);
    expected.extend_from_slice(&[0x02, 0x82, 0x81, 0x07, 0x82, 0x08, 0x18, 0xc8, 0x61, 0x64]);
    assert_eq!(item.to_bytes(), Ok(expected));
}

#[test]
fn encoded_record_reads_back() {
    let item = record(9);
    let bytes = item.to_bytes().unwrap();
    let read: (Vec<u8>, u64, Vec<Vec<u8>>, String) = serde_cbor::from_slice(&bytes).unwrap();
    assert_eq!(read.0, item.content_id.to_vec());
    assert_eq!(read.1, 2);
    assert_eq!(read.2, item.merkle_proofs);
    assert_eq!(read.3, "d");
}

#[test]
fn record_is_stored_under_its_key() {
    let mut db = RocksDb::new("store".to_string()).unwrap();
    let item = record(3);
    db.add_published_file(item.clone()).unwrap();
    let family = db.cf_handle(PUBLISHED_FILES_COLUMN_FAMILY_NAME).unwrap();
    assert_eq!(family.get(&item.key()), Some(&item.to_bytes().unwrap()));
    assert_eq!(family.get(&record(4).key()), None);
}

#[test]
fn record_of_a_result_keeps_its_attributes() {
    let result = FileProcessResult {
        merkle_root: [4u8; 32],
        number_of_chunks: 3,
        merkle_proofs: vec![vec![1], vec![2], vec![3]],
        chunks_directory: "chunks/7".to_string(),
    };
    let item = PublishedFileRecord::from_result(result.clone());
    assert_eq!(item.content_id, result.merkle_root);
    assert_eq!(item.number_of_chunks, 3);
    assert_eq!(item.merkle_proofs, result.merkle_proofs);
    assert_eq!(item.chunks_directory, "chunks/7");
}

#[test]
fn new_database_is_empty_and_knows_its_folder() {
    let db = RocksDb::new("some/folder".to_string()).unwrap();
    assert_eq!(db.folder(), "some/folder");
    assert_eq!(PUBLISHED_FILES_COLUMN_FAMILY_NAME, "published_files");
    let family = db.cf_handle("published_files").unwrap();
    assert_eq!(family.len(), 0);
}

#[test]
fn unknown_column_family_is_missing() {
    let mut db = RocksDb::new("store".to_string()).unwrap();
    assert_eq!(
        db.cf_handle("peers").err(),
        Some(RocksDbStoreError::ColumnFamilyMissing("peers".to_string()))
    );
    assert_eq!(
        db.put_cf("peers", vec![1], vec![2]),
        Err(RocksDbStoreError::ColumnFamilyMissing("peers".to_string()))
    );
    assert_eq!(db.cf_handle("published_files").unwrap().len(), 0);
}

#[test]
fn failed_encoding_stores_nothing() {
    let mut db = RocksDb::new("store".to_string()).unwrap();
    let item = record(1);
    let stored = db.store_encoded(item.key(), Err(RocksDbStoreError::Cbor("no".to_string())));
    assert_eq!(stored, Err(Error::RocksDb(RocksDbStoreError::Cbor("no".to_string()))));
    assert_eq!(db.published_file_exists(&item.content_id), Ok(false));
    let stored = db.store_encoded(item.key(), Err(RocksDbStoreError::RocksDb("io".to_string())));
    assert_eq!(stored, Err(Error::RocksDb(RocksDbStoreError::RocksDb("io".to_string()))));
    assert_eq!(db.published_file_exists(&item.content_id), Ok(false));
    assert_eq!(db.store_encoded(item.key(), Ok(vec![1, 2])), Ok(()));
    assert_eq!(db.published_file_exists(&item.content_id), Ok(true));
}

#[test]
fn column_family_put_and_get() {
    let mut family = ColumnFamily::new();
    assert_eq!(family.len(), 0);
    family.put(vec![1], vec![10]);
    family.put(vec![2], vec![20]);
    family.put(vec![1], vec![11]);
    assert_eq!(family.len(), 2);
    assert_eq!(family.get(&[1]), Some(&vec![11]));
    assert_eq!(family.get(&[2]), Some(&vec![20]));
    assert_eq!(family.get(&[3]), None);
    assert!(!family.holds_content_id(&[0u8; 32]));
    family.put(vec![0u8; 32], Vec::new());
    assert!(family.holds_content_id(&[0u8; 32]));
    assert!(!family.holds_content_id(&[1u8; 32]));
}

#[test]
fn same_bytes_compares_contents() {
    assert!(same_bytes(&[], &[]));
    assert!(same_bytes(&[1, 2, 3], &[1, 2, 3]));
    assert!(!same_bytes(&[1, 2, 3], &[1, 2]));
    assert!(!same_bytes(&[1, 2, 3], &[1, 2, 4]));
}

#[test]
fn add_if_absent_records_a_file_once() {
    let mut db = RocksDb::new("store".to_string()).unwrap();
    let first = record(1);
    let mut again = record(1);
    again.chunks_directory = "elsewhere".to_string();
    assert_eq!(add_if_absent(&mut db, first.clone()), Ok(true));
    assert_eq!(add_if_absent(&mut db, again), Ok(false));
    assert_eq!(add_if_absent(&mut db, record(2)), Ok(true));
    let family = db.cf_handle(PUBLISHED_FILES_COLUMN_FAMILY_NAME).unwrap();
    assert_eq!(family.len(), 2);
    assert_eq!(family.get(&first.key()), Some(&first.to_bytes().unwrap()));
}
