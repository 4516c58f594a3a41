use blob_store::error::{OpenError, StorageError};
use blob_store::manager::{DataManager, OpenMode, DEFAULT_TEXTURE_STORAGE_SIZE, DEFAULT_VERTEX_STORAGE_SIZE};
use blob_store::records::{BinaryDataInfo, Storage, TestBinData};
use redb::{ReadableDatabase, ReadableTable};
use std::path::{Path, PathBuf};

const MIB: usize = 1024 * 1024;

fn memory_database() -> redb::Database {
    redb::Database::builder()
        .create_with_backend(redb::backends::InMemoryBackend::new())
        .unwrap()
}

fn storage_row(path: &str, size: u64) -> Vec<u8> {
    let format = bincode::config::standard().with_little_endian().with_fixed_int_encoding();
    bincode::serde::encode_to_vec((path, size), format).unwrap()
}

/// A database with the three tables and the given rows in one storage table.
fn database_with(table: &str, rows: &[(u64, Vec<u8>)]) -> redb::Database {
    let db = memory_database();
    let txn = db.begin_write().unwrap();
    for name in ["vertex", "texture_index", "binary_data"] {
        txn.open_table(redb::TableDefinition::<u64, &[u8]>::new(name)).unwrap();
    }
    {
        let mut opened = txn.open_table(redb::TableDefinition::<u64, &[u8]>::new(table)).unwrap();
        for (key, bytes) in rows {
            opened.insert(*key, bytes.as_slice()).unwrap();
        }
    }
    txn.commit().unwrap();
    db
}

fn manager_over(db: redb::Database) -> DataManager {
    match DataManager::with_database(db, PathBuf::from("/no-such-blob-directory")) {
        Ok(manager) => manager,
        Err(e) => panic!("{:?}", e),
    }
}

fn memory_manager() -> DataManager {
    match DataManager::with_database(memory_database(), PathBuf::from("/no-such-blob-directory")) {
        Ok(manager) => manager,
        Err(e) => panic!("{:?}", e),
    }
}

fn payload(declared: usize) -> TestBinData {
    TestBinData { binary: vec![0u8; declared - 8] }
}

struct Stored {
    id: u64,
    storage_id: u64,
    name: String,
    offset: usize,
}

/// One store as a host runs it: the append begins at the file's recorded
/// size and writes `written` bytes.
fn store(manager: DataManager, declared: usize, written: usize, is_vertex: bool) -> (DataManager, Stored) {
    let pending = match manager.store_binary_data(&payload(declared), is_vertex) {
        Ok(pending) => pending,
        Err((_, e)) => panic!("{:?}", e),
    };
    let (storage_id, storage) = pending.placement();
    let offset = storage.current_size;
    let (manager, id) = pending.complete(offset, offset + written);
    (manager, Stored { id: id.unwrap(), storage_id, name: storage.relative_path, offset })
}

fn lookup(manager: &DataManager, id: u64) -> BinaryDataInfo {
    manager.get_binary_meta(id).unwrap().unwrap()
}

#[test]
fn lookup_finds_what_was_stored() {
    let manager = memory_manager();
    let (manager, stored) = store(manager, 4104, 4104, true);
    assert_eq!(stored.id, 0);
    assert_eq!(
        lookup(&manager, stored.id),
        BinaryDataInfo { is_vertex: true, storage_id: 0, offset: 0, size: 4104 }
    );
}

#[test]
fn lookup_of_an_unknown_id_is_none() {
    let manager = memory_manager();
    assert_eq!(manager.get_binary_meta(0), Ok(None));
    let (manager, _) = store(manager, 100, 100, true);
    assert_eq!(manager.get_binary_meta(1), Ok(None));
    assert_eq!(manager.get_binary_meta(u64::MAX), Ok(None));
}

#[test]
fn two_small_payloads_share_a_file_and_a_large_one_gets_its_own() {
    let manager = memory_manager();
    let (manager, first) = store(manager, 640_000, 640_000, true);
    let (manager, second) = store(manager, 900_000, 900_000, true);
    let (manager, third) = store(manager, 20 * MIB + 8, 20 * MIB + 8, true);
    assert_eq!((first.storage_id, first.offset), (0, 0));
    assert_eq!((second.storage_id, second.offset), (0, 640_000));
    assert_eq!(first.name, second.name);
    assert_eq!((third.storage_id, third.offset), (1, 0));
    assert_ne!(third.name, first.name);
    assert_eq!(
        lookup(&manager, second.id),
        BinaryDataInfo { is_vertex: true, storage_id: 0, offset: 640_000, size: 900_000 }
    );
    assert_eq!(
        lookup(&manager, third.id),
        BinaryDataInfo { is_vertex: true, storage_id: 1, offset: 0, size: 20 * MIB + 8 }
    );
}

#[test]
fn ids_count_up_from_zero() {
    let mut manager = memory_manager();
    for expected in 0..5u64 {
        let (next, stored) = store(manager, 64, 64, expected % 2 == 0);
        manager = next;
        assert_eq!(stored.id, expected);
    }
    assert_eq!(manager.get_binary_meta(5), Ok(None));
}

#[test]
fn a_file_is_filled_up_to_the_threshold_and_no_further() {
    let mut manager = memory_manager();
    manager.set_vertex_storage_work_size(100);
    let (manager, first) = store(manager, 60, 60, true);
    let (manager, second) = store(manager, 40, 40, true);
    let (manager, third) = store(manager, 8, 8, true);
    assert_eq!((first.storage_id, first.offset), (0, 0));
    assert_eq!((second.storage_id, second.offset), (0, 60));
    assert_eq!((third.storage_id, third.offset), (1, 0));
    let (_, fourth) = store(manager, 92, 92, true);
    assert_eq!((fourth.storage_id, fourth.offset), (1, 8));
}

#[test]
fn the_first_file_with_room_is_taken() {
    let mut manager = memory_manager();
    manager.set_vertex_storage_work_size(100);
    let (manager, _) = store(manager, 90, 90, true);
    let (manager, _) = store(manager, 50, 50, true);
    let (manager, _) = store(manager, 95, 95, true);
    let (manager, small) = store(manager, 10, 10, true);
    assert_eq!((small.storage_id, small.offset), (0, 90));
    let (_, medium) = store(manager, 30, 30, true);
    assert_eq!((medium.storage_id, medium.offset), (1, 50));
}

#[test]
fn a_payload_over_the_threshold_has_a_file_to_itself() {
    let mut manager = memory_manager();
    manager.set_texture_storage_work_size(100);
    let (manager, large) = store(manager, 500, 500, false);
    let (manager, small) = store(manager, 8, 8, false);
    assert_eq!((large.storage_id, large.offset), (0, 0));
    assert_eq!((small.storage_id, small.offset), (1, 0));
    assert_eq!(
        lookup(&manager, large.id),
        BinaryDataInfo { is_vertex: false, storage_id: 0, offset: 0, size: 500 }
    );
}

#[test]
fn the_classes_have_tables_of_their_own() {
    let manager = memory_manager();
    let (manager, vertex) = store(manager, 100, 100, true);
    let (manager, texture) = store(manager, 200, 200, false);
    assert_eq!((vertex.storage_id, vertex.offset), (0, 0));
    assert_eq!((texture.storage_id, texture.offset), (0, 0));
    assert_ne!(vertex.name, texture.name);
    assert_eq!(
        lookup(&manager, texture.id),
        BinaryDataInfo { is_vertex: false, storage_id: 0, offset: 0, size: 200 }
    );
    assert_eq!(
        lookup(&manager, vertex.id),
        BinaryDataInfo { is_vertex: true, storage_id: 0, offset: 0, size: 100 }
    );
}

#[test]
fn the_recorded_size_is_what_the_file_holds_not_what_was_declared() {
    let manager = memory_manager();
    let (manager, first) = store(manager, 1000, 1024, true);
    let (manager, second) = store(manager, 1000, 8, true);
    assert_eq!(second.offset, 1024);
    assert_eq!(lookup(&manager, first.id).size, 1024);
    assert_eq!(lookup(&manager, second.id).size, 8);
    let (_, third) = store(manager, 8, 8, true);
    assert_eq!(third.offset, 1032);
}

#[test]
fn new_files_get_names_of_thirty_two_letters_and_digits() {
    let mut manager = memory_manager();
    manager.set_vertex_storage_work_size(10);
    let mut names: Vec<String> = Vec::new();
    for _ in 0..8 {
        let (next, stored) = store(manager, 16, 16, true);
        manager = next;
        assert_eq!(stored.name.len(), 32);
        assert!(stored.name.chars().all(|c| c.is_ascii_alphanumeric()));
        assert!(!names.contains(&stored.name));
        names.push(stored.name);
    }
}

#[test]
fn the_target_lies_under_the_base_directory() {
    let manager = memory_manager();
    let pending = match manager.store_binary_data(&payload(64), true) {
        Ok(pending) => pending,
        Err((_, e)) => panic!("{:?}", e),
    };
    let (_, storage) = pending.placement();
    assert_eq!(pending.target(), Path::new("/no-such-blob-directory").join(&storage.relative_path));
    assert_eq!(pending.target(), storage.construct_path(PathBuf::from("/no-such-blob-directory")));
}

#[test]
fn an_abandoned_store_records_no_blob() {
    let manager = memory_manager();
    let pending = match manager.store_binary_data(&payload(64), true) {
        Ok(pending) => pending,
        Err((_, e)) => panic!("{:?}", e),
    };
    let manager = pending.abandon();
    assert_eq!(manager.get_binary_meta(0), Ok(None));
    let (_, stored) = store(manager, 64, 64, true);
    assert_eq!((stored.id, stored.storage_id, stored.offset), (0, 0, 0));
}

#[test]
fn an_open_database_keeps_its_rows() {
    let manager = memory_manager();
    let (manager, stored) = store(manager, 64, 64, true);
    let found = lookup(&manager, stored.id);
    assert_eq!(found, BinaryDataInfo { is_vertex: true, storage_id: 0, offset: 0, size: 64 });
}

#[test]
fn a_table_of_another_shape_refuses_the_open() {
    let db = memory_database();
    let txn = db.begin_write().unwrap();
    {
        let mut table = txn.open_table(redb::TableDefinition::<u64, u64>::new("vertex")).unwrap();
        table.insert(0u64, 0u64).unwrap();
    }
    txn.commit().unwrap();
    match DataManager::with_database(db, PathBuf::from("/no-such-blob-directory")) {
        Ok(_) => panic!("opened"),
        Err(e) => assert_eq!(e, OpenError::Index),
    }
}

#[test]
fn a_key_at_the_end_of_the_key_space_is_corruption() {
    let db = database_with("vertex", &[(u64::MAX, storage_row("full", DEFAULT_VERTEX_STORAGE_SIZE as u64))]);
    match manager_over(db).store_binary_data(&payload(64), true) {
        Ok(_) => panic!("placed"),
        Err((manager, e)) => {
            assert_eq!(e, StorageError::Corrupted);
            assert_eq!(manager.get_binary_meta(0), Ok(None));
        },
    }
}

#[test]
fn rows_that_are_there_are_found_by_key_order() {
    let db = database_with(
        "texture_index",
        &[
            (7, storage_row("seven", DEFAULT_TEXTURE_STORAGE_SIZE as u64 - 10)),
            (3, storage_row("three", DEFAULT_TEXTURE_STORAGE_SIZE as u64)),
            (9, storage_row("nine", 0)),
        ],
    );
    let manager = manager_over(db);
    let (manager, fitting) = store(manager, 10, 10, false);
    assert_eq!((fitting.storage_id, fitting.name.as_str(), fitting.offset), (7, "seven", DEFAULT_TEXTURE_STORAGE_SIZE - 10));
    let (manager, next) = store(manager, 10, 10, false);
    assert_eq!((next.storage_id, next.name.as_str(), next.offset), (9, "nine", 0));
    let (_, made) = store(manager, DEFAULT_TEXTURE_STORAGE_SIZE, 16, false);
    assert_eq!((made.storage_id, made.offset), (10, 0));
}

#[test]
fn a_storage_row_that_does_not_decode_fails_the_store() {
    let db = database_with("vertex", &[(0, vec![32, 0, 0]), (1, storage_row("fine", 0))]);
    match manager_over(db).store_binary_data(&payload(64), true) {
        Ok(_) => panic!("placed"),
        Err((manager, e)) => {
            assert_eq!(e, StorageError::Encoding);
            assert_eq!(manager.get_binary_meta(0), Ok(None));
            match manager.store_binary_data(&payload(64), false) {
                Ok(_) => panic!("a name was taken without a look at every row"),
                Err((_, e)) => assert_eq!(e, StorageError::Encoding),
            }
        },
    }
}

#[test]
fn a_storage_row_with_a_length_beyond_its_bytes_fails_the_store() {
    for row in [vec![0xffu8; 16], vec![17, 0, 0, 0, 0, 0, 0, 0, 1, 2, 3, 4, 5, 6, 7, 8, 9]] {
        let db = database_with("texture_index", &[(0, row)]);
        match manager_over(db).begin_store(1, false) {
            Ok(_) => panic!("placed"),
            Err((_, e)) => assert_eq!(e, StorageError::Encoding),
        }
    }
}

#[test]
fn a_location_row_that_does_not_decode_fails_the_lookup() {
    let mut row = vec![1u8];
    row.extend_from_slice(&5u64.to_le_bytes());
    row.extend_from_slice(&16u64.to_le_bytes());
    let db = database_with("binary_data", &[(0, row.clone()), (1, vec![2u8; 25])]);
    let manager = manager_over(db);
    assert_eq!(manager.get_binary_meta(0), Err(StorageError::Encoding));
    assert_eq!(manager.get_binary_meta(1), Err(StorageError::Encoding));
    assert_eq!(manager.get_binary_meta(2), Ok(None));
    row.extend_from_slice(&24u64.to_le_bytes());
    let manager = manager_over(database_with("binary_data", &[(0, row)]));
    assert_eq!(
        manager.get_binary_meta(0),
        Ok(Some(BinaryDataInfo { is_vertex: true, storage_id: 5, offset: 16, size: 24 }))
    );
}

#[test]
fn rows_are_kept_as_little_endian_bytes_of_fixed_width() {
    let name = blob_store::names::generate_random_alphanumeric_string(16);
    let path = PathBuf::from(format!("/tmp/blob-store-{}.redb", name));
    let manager = match DataManager::create_or_open(&path, None) {
        Ok(manager) => manager,
        Err(e) => panic!("{:?}", e),
    };
    let (manager, _) = store(manager, 8, 8, false);
    let (manager, stored) = store(manager, 4104, 4104, false);
    drop(manager);
    let db = redb::Database::open(&path).unwrap();
    let txn = db.begin_read().unwrap();
    let locations = txn.open_table(redb::TableDefinition::<u64, &[u8]>::new("binary_data")).unwrap();
    let mut expected = vec![0u8];
    expected.extend_from_slice(&0u64.to_le_bytes());
    expected.extend_from_slice(&8u64.to_le_bytes());
    expected.extend_from_slice(&4104u64.to_le_bytes());
    assert_eq!((stored.id, stored.storage_id, stored.offset), (1, 0, 8));
    assert_eq!(locations.get(1u64).unwrap().unwrap().value(), expected.as_slice());
    let storages = txn.open_table(redb::TableDefinition::<u64, &[u8]>::new("texture_index")).unwrap();
    let mut expected = 32u64.to_le_bytes().to_vec();
    expected.extend_from_slice(stored.name.as_bytes());
    expected.extend_from_slice(&4112u64.to_le_bytes());
    assert_eq!(storages.get(0u64).unwrap().unwrap().value(), expected.as_slice());
    assert!(storages.get(1u64).unwrap().is_none());
}

#[test]
fn an_index_file_is_opened_again_with_its_rows() {
    let name = blob_store::names::generate_random_alphanumeric_string(16);
    let path = PathBuf::from(format!("/tmp/blob-store-{}.redb", name));
    let manager = match DataManager::create_or_open(&path, None) {
        Ok(manager) => manager,
        Err(e) => panic!("{:?}", e),
    };
    let (manager, first) = store(manager, 640_000, 640_000, true);
    let (manager, second) = store(manager, 4096, 4096, false);
    drop(manager);
    let manager = match DataManager::create_or_open(&path, None) {
        Ok(manager) => manager,
        Err(e) => panic!("{:?}", e),
    };
    assert_eq!(
        lookup(&manager, first.id),
        BinaryDataInfo { is_vertex: true, storage_id: 0, offset: 0, size: 640_000 }
    );
    assert_eq!(
        lookup(&manager, second.id),
        BinaryDataInfo { is_vertex: false, storage_id: 0, offset: 0, size: 4096 }
    );
    drop(manager);
    let manager = match DataManager::create_or_open(&path, Some(PathBuf::from("/tmp"))) {
        Ok(manager) => manager,
        Err(e) => panic!("{:?}", e),
    };
    let (manager, third) = store(manager, 1000, 1000, true);
    assert_eq!((third.id, third.storage_id, third.offset), (2, 0, 640_000));
    assert_eq!(manager.get_binary_meta(3), Ok(None));
}

#[test]
fn a_blob_directory_that_is_not_there_refuses_the_open() {
    let name = blob_store::names::generate_random_alphanumeric_string(16);
    let path = PathBuf::from(format!("/tmp/blob-store-{}.redb", name));
    match DataManager::create_or_open(&path, Some(PathBuf::from("/no-such-blob-directory"))) {
        Ok(_) => panic!("opened"),
        Err(e) => assert_eq!(e, OpenError::Path),
    }
}

#[test]
fn an_index_path_that_cannot_be_made_refuses_the_open() {
    match DataManager::create_or_open(Path::new("/no-such-blob-directory/index.redb"), None) {
        Ok(_) => panic!("opened"),
        Err(e) => assert_eq!(e, OpenError::Index),
    }
}

#[test]
fn blobs_of_one_file_share_no_byte() {
    let mut manager = memory_manager();
    manager.set_vertex_storage_work_size(1000);
    let mut ranges: Vec<(bool, u64, usize, usize)> = Vec::new();
    for round in 0..12usize {
        let declared = 8 + 37 * round;
        let (next, stored) = store(manager, declared, declared, round % 3 != 0);
        manager = next;
        let found = lookup(&manager, stored.id);
        assert_eq!((found.storage_id, found.offset, found.size), (stored.storage_id, stored.offset, declared));
        for &(class, file, offset, size) in &ranges {
            if class == found.is_vertex && file == found.storage_id {
                assert!(offset + size <= found.offset || found.offset + found.size <= offset);
            }
        }
        ranges.push((found.is_vertex, found.storage_id, found.offset, found.size));
    }
}

#[test]
fn a_store_begins_by_the_declared_size() {
    let mut manager = memory_manager();
    manager.set_texture_storage_work_size(50);
    let pending = match manager.begin_store(50, false) {
        Ok(pending) => pending,
        Err((_, e)) => panic!("{:?}", e),
    };
    let (storage_id, storage) = pending.placement();
    assert_eq!((storage_id, storage.current_size), (0, 0));
    let (manager, id) = pending.complete(0, 50);
    assert_eq!(id, Ok(0));
    let pending = match manager.begin_store(1, false) {
        Ok(pending) => pending,
        Err((_, e)) => panic!("{:?}", e),
    };
    let (storage_id, fresh) = pending.placement();
    assert_eq!((storage_id, fresh.current_size), (1, 0));
    assert_ne!(fresh.relative_path, storage.relative_path);
    let manager = pending.abandon();
    let pending = match manager.begin_store(0, false) {
        Ok(pending) => pending,
        Err((_, e)) => panic!("{:?}", e),
    };
    assert_eq!(pending.placement(), (0, Storage { relative_path: storage.relative_path, current_size: 50 }));
}

#[test]
fn a_directory_that_could_not_be_resolved_refuses_the_open() {
    let failed = Err(std::io::Error::new(std::io::ErrorKind::NotFound, "no such directory"));
    match DataManager::in_directory(memory_database(), failed) {
        Ok(_) => panic!("opened"),
        Err(e) => assert_eq!(e, OpenError::Path),
    }
}

#[test]
fn a_resolved_directory_is_where_the_files_go() {
    let manager = match DataManager::in_directory(memory_database(), Ok(PathBuf::from("/no-such-blob-directory/inner"))) {
        Ok(manager) => manager,
        Err(e) => panic!("{:?}", e),
    };
    let pending = match manager.begin_store(DEFAULT_VERTEX_STORAGE_SIZE, true) {
        Ok(pending) => pending,
        Err((_, e)) => panic!("{:?}", e),
    };
    let (storage_id, storage) = pending.placement();
    assert_eq!((storage_id, storage.current_size), (0, 0));
    assert_eq!(pending.target(), Path::new("/no-such-blob-directory/inner").join(&storage.relative_path));
    let (manager, id) = pending.complete(0, DEFAULT_VERTEX_STORAGE_SIZE);
    assert_eq!(id, Ok(0));
    let (_, next) = store(manager, 8, 8, true);
    assert_eq!((next.storage_id, next.offset), (1, 0));
}

#[test]
fn an_index_file_that_is_there_is_opened_and_one_that_is_not_is_started() {
    assert_eq!(DataManager::open_mode(true), OpenMode::Existing);
    assert_eq!(DataManager::open_mode(false), OpenMode::New);
}

#[test]
fn the_blob_directory_is_resolved_where_one_is_given() {
    let given = Some(PathBuf::from("/srv/blobs"));
    assert_eq!(DataManager::directory_to_resolve(&given, Some(Path::new("/srv/index"))), Ok(Path::new("/srv/blobs")));
    assert_eq!(DataManager::directory_to_resolve(&given, None), Ok(Path::new("/srv/blobs")));
}

#[test]
fn the_parent_of_the_index_file_is_resolved_where_no_blob_directory_is_given() {
    assert_eq!(DataManager::directory_to_resolve(&None, Some(Path::new("/srv/index"))), Ok(Path::new("/srv/index")));
    assert_eq!(DataManager::directory_to_resolve(&None, None), Err(OpenError::Path));
}

#[test]
fn the_files_go_to_the_blob_directory_or_beside_the_index_file() {
    let name = blob_store::names::generate_random_alphanumeric_string(16);
    let path = PathBuf::from(format!("/tmp/blob-store-{}.redb", name));
    let beside = match DataManager::create_or_open(&path, None) {
        Ok(manager) => manager,
        Err(e) => panic!("{:?}", e),
    };
    let pending = match beside.begin_store(64, true) {
        Ok(pending) => pending,
        Err((_, e)) => panic!("{:?}", e),
    };
    let (_, storage) = pending.placement();
    assert_eq!(pending.target(), Path::new("/tmp").canonicalize().unwrap().join(&storage.relative_path));
    assert!(!pending.target().exists());
    drop(pending);
    let elsewhere = match DataManager::create_or_open(&path, Some(PathBuf::from("/usr/../usr/."))) {
        Ok(manager) => manager,
        Err(e) => panic!("{:?}", e),
    };
    let pending = match elsewhere.begin_store(64, true) {
        Ok(pending) => pending,
        Err((_, e)) => panic!("{:?}", e),
    };
    let (storage_id, storage) = pending.placement();
    assert_eq!(storage_id, 0);
    assert_eq!(pending.target(), Path::new("/usr").canonicalize().unwrap().join(&storage.relative_path));
}
