//! The data manager: it owns the index, places each new blob in a storage
//! file, and records where the blob ended up once the host has appended it.

use crate::error::{OpenError, StorageError};
use crate::index::{dense, fits, none_fits, Index, NAME_LENGTH};
use crate::laws::{
    lemma_ids_ascend, lemma_placed_consistent, lemma_placed_within_headroom, lemma_stored_consistent,
    lemma_stored_other_class, lemma_stored_within_headroom,
};
use crate::names::{generate_random_alphanumeric_string, is_random_name};
use crate::codec::{
    lemma_location_round_trip, location_encodes, location_of, storage_encodes, storage_row_bytes,
};
use crate::paths::{borrowed_bytes, join_path, joined_bytes, parent_bytes, path_bytes, resolves, seen_absent};
use crate::placement::{
    first_fit, holds_path, lemma_first_fit_listed, lemma_listed_paths, lemma_none_fits_listed, lists_path,
    name_taken, next_key,
};
use crate::records::{BinData, BinaryDataInfo, Storage};
use crate::rows::{
    count_locations, get_location, lemma_same_rows_decode, lemma_set_row_decodes, list_storages, lists_rows,
    location_rows, put_location, put_storage, storage_rows, storages_decode,
};
use crate::table_store::{create_database, open_database, prepare_tables, table_rows};
use vstd::prelude::*;

verus! {

pub const TEXTURE_STORAGE_INDEX: &'static str = "texture_index";

pub const VERTEX_STORAGE_INDEX: &'static str = "vertex";

pub const BINARY_META_INDEX: &'static str = "binary_data";

/// The size up to which a texture file is filled: 1 GiB.
pub const DEFAULT_TEXTURE_STORAGE_SIZE: usize = 1024 * 1024 * 1024;

/// The size up to which a vertex file is filled: 20 MiB.
pub const DEFAULT_VERTEX_STORAGE_SIZE: usize = 1024 * 1024 * 20;

/// How many names are tried for a new storage file.
pub const NAME_ATTEMPTS: usize = 64;

/// The name of a class's storage table.
pub open spec fn storage_table(is_vertex: bool) -> Seq<char> {
    if is_vertex {
        VERTEX_STORAGE_INDEX@
    } else {
        TEXTURE_STORAGE_INDEX@
    }
}

/// The index that a database holds.
pub open spec fn index_of(db: redb::Database) -> Index {
    Index {
        vertex: storage_rows(db, VERTEX_STORAGE_INDEX@),
        texture: storage_rows(db, TEXTURE_STORAGE_INDEX@),
        locations: location_rows(db, BINARY_META_INDEX@),
    }
}

proof fn lemma_table_names()
    ensures
        VERTEX_STORAGE_INDEX@.len() > 0,
        TEXTURE_STORAGE_INDEX@.len() > 0,
        BINARY_META_INDEX@.len() > 0,
        VERTEX_STORAGE_INDEX@ != TEXTURE_STORAGE_INDEX@,
        VERTEX_STORAGE_INDEX@ != BINARY_META_INDEX@,
        TEXTURE_STORAGE_INDEX@ != BINARY_META_INDEX@,
{
    reveal_strlit("vertex");
    reveal_strlit("texture_index");
    reveal_strlit("binary_data");
    assert(VERTEX_STORAGE_INDEX@.len() == 6);
    assert(TEXTURE_STORAGE_INDEX@.len() == 13);
    assert(BINARY_META_INDEX@.len() == 11);
}

fn table_name(is_vertex: bool) -> (name: &'static str)
    ensures
        name@ == storage_table(is_vertex),
        name@.len() > 0,
{
    proof {
        lemma_table_names();
    }
    if is_vertex {
        VERTEX_STORAGE_INDEX
    } else {
        TEXTURE_STORAGE_INDEX
    }
}

/// How an index file is opened.
#[derive(Clone, Copy, Debug, PartialEq, Eq, Structural)]
pub enum OpenMode {
    /// The file is there and is opened as it is.
    Existing,
    /// No file is there and one is started.
    New,
}

/// `base` is what the blob directory resolved to, where one was given; else
/// it is what the parent of the resolved index path resolved to.
pub open spec fn base_follows(index_path: Seq<u8>, blob_path: Option<Seq<u8>>, base: Seq<u8>) -> bool {
    match blob_path {
        Some(directory) => resolves(directory, base),
        None => exists|absolute: Seq<u8>| #[trigger]
            resolves(index_path, absolute) && parent_bytes(absolute) is Some && resolves(
                parent_bytes(absolute)->Some_0,
                base,
            ),
    }
}

/// Some name that a new file could get encodes to no row.
pub open spec fn some_name_refused() -> bool {
    exists|path: Seq<char>| is_random_name(path, NAME_LENGTH as nat) && !#[trigger] storage_encodes(path, 0u64)
}

/// Why placing failed with `Encoding`: a row of the class's table does not
/// decode; or no row has room and either a row of the other class's table
/// does not decode or the new row could not be encoded.
pub open spec fn placing_refused(
    own_decode: bool,
    other_decode: bool,
    rows: Map<u64, (Seq<char>, u64)>,
    requested: usize,
    threshold: usize,
) -> bool {
    !own_decode || (none_fits(rows, requested, threshold) && (!other_decode || some_name_refused()))
}

pub struct DataManager {
    db: redb::Database,
    base_path: std::path::PathBuf,
    texture_storage_work_size: usize,
    vertex_storage_work_size: usize,
}

impl DataManager {
    /// The index as it stands.
    pub closed spec fn index(&self) -> Index {
        index_of(self.db)
    }

    /// Every row of the class's storage table is well framed and decodes.
    pub closed spec fn rows_decode(&self, is_vertex: bool) -> bool {
        storages_decode(self.db, storage_table(is_vertex))
    }

    /// The location row under `id` decodes.
    pub closed spec fn location_decodes(&self, id: u64) -> bool {
        location_of(table_rows(self.db, BINARY_META_INDEX@)[id]) is Some
    }

    /// The same location rows decode as in `other`, but for the row under
    /// `id`.
    pub open spec fn same_locations_decode(&self, other: &DataManager, id: Option<u64>) -> bool {
        forall|j: u64| id != Some(j) ==> #[trigger] self.location_decodes(j) == other.location_decodes(j)
    }

    /// A table without rows has no row that does not decode.
    pub proof fn lemma_no_rows_decode(&self, is_vertex: bool)
        requires
            forall|key: u64| !self.index().table(is_vertex).contains_key(key),
        ensures
            self.rows_decode(is_vertex),
    {
        assert forall|key: u64| #[trigger]
            table_rows(self.db, storage_table(is_vertex)).contains_key(key) implies false by {
            assert(self.index().table(is_vertex).contains_key(key));
        }
    }

    /// The directory that the storage files live in.
    pub closed spec fn base(&self) -> Seq<u8> {
        path_bytes(self.base_path)
    }

    pub closed spec fn vertex_threshold(&self) -> usize {
        self.vertex_storage_work_size
    }

    pub closed spec fn texture_threshold(&self) -> usize {
        self.texture_storage_work_size
    }

    /// The size up to which a file of the class is filled.
    pub open spec fn threshold(&self, is_vertex: bool) -> usize {
        if is_vertex {
            self.vertex_threshold()
        } else {
            self.texture_threshold()
        }
    }

    /// Every file of either class is within its class's threshold, but for
    /// a file that holds a single blob.
    pub open spec fn within_thresholds(&self) -> bool {
        &&& self.index().within_headroom(true, self.vertex_threshold())
        &&& self.index().within_headroom(false, self.texture_threshold())
    }

    /// The same thresholds and the same directory.
    pub open spec fn same_settings(&self, other: &DataManager) -> bool {
        &&& self.base() == other.base()
        &&& self.vertex_threshold() == other.vertex_threshold()
        &&& self.texture_threshold() == other.texture_threshold()
    }

    /// A candidate for a new storage file: empty, under a fresh random name
    /// that neither listing holds and that no file in the directory has.
    fn generate_storage_file(&self, own: &Vec<(u64, String, u64)>, other: &Vec<(u64, String, u64)>) -> (candidate:
        Result<Storage, StorageError>)
        ensures
            match candidate {
                Ok(storage) => {
                    &&& is_random_name(storage.relative_path@, NAME_LENGTH as nat)
                    &&& storage.current_size == 0
                    &&& !lists_path(own@, storage.relative_path@)
                    &&& !lists_path(other@, storage.relative_path@)
                    &&& seen_absent(joined_bytes(self.base(), storage.relative_path@))
                },
                Err(e) => e == StorageError::ExhaustedNamespace,
            },
    {
        let mut attempts: usize = 0;
        while attempts < NAME_ATTEMPTS
            invariant
                attempts <= NAME_ATTEMPTS,
            decreases NAME_ATTEMPTS - attempts,
        {
            let name = generate_random_alphanumeric_string(NAME_LENGTH);
            if !name_taken(own, &name) && !name_taken(other, &name) {
                let place = join_path(&self.base_path, name.as_str());
                if !place.as_path().exists() {
                    return Ok(Storage { relative_path: name, current_size: 0 });
                }
            }
            attempts += 1;
        }
        Err(StorageError::ExhaustedNamespace)
    }

    /// Enters a new, empty storage file into the class's table, under the
    /// key after the last one.
    fn create_storage(&mut self, is_vertex: bool, listing: &Vec<(u64, String, u64)>) -> (made: Result<
        (u64, Storage),
        StorageError,
    >)
        requires
            lists_rows(listing@, old(self).index().table(is_vertex)),
            old(self).rows_decode(is_vertex),
        ensures
            final(self).same_settings(old(self)),
            match made {
                Ok((key, storage)) => {
                    &&& old(self).index().next_unused(is_vertex, key)
                    &&& is_random_name(storage.relative_path@, NAME_LENGTH as nat)
                    &&& storage.current_size == 0
                    &&& !old(self).index().path_in_use(storage.relative_path@)
                    &&& seen_absent(joined_bytes(old(self).base(), storage.relative_path@))
                    &&& final(self).index() == old(self).index().created(is_vertex, key, storage.relative_path@)
                    &&& old(self).rows_decode(!is_vertex)
                    &&& final(self).rows_decode(true) && final(self).rows_decode(false)
                    &&& final(self).same_locations_decode(old(self), None)
                },
                Err(StorageError::Table) => true,
                Err(StorageError::Encoding) => {
                    &&& *final(self) == *old(self)
                    &&& !old(self).rows_decode(!is_vertex) || some_name_refused()
                },
                Err(StorageError::Corrupted) => {
                    &&& *final(self) == *old(self)
                    &&& old(self).index().table(is_vertex).contains_key(u64::MAX)
                },
                Err(StorageError::ExhaustedNamespace) => *final(self) == *old(self),
            },
    {
        let ghost before = self.index();
        let other = match list_storages(&self.db, table_name(!is_vertex)) {
            Ok(rows) => rows,
            Err(e) => {
                return Err(e);
            },
        };
        let key = match next_key(listing) {
            Some(key) => {
                assert(key == 0 || before.table(is_vertex).contains_key((key - 1) as u64)) by {
                    if listing@.len() > 0 {
                        assert(before.table(is_vertex).contains_key(listing@.last().0));
                    }
                }
                key
            },
            None => {
                assert(before.table(is_vertex).contains_key(listing@.last().0));
                return Err(StorageError::Corrupted);
            },
        };
        let storage = match self.generate_storage_file(listing, &other) {
            Ok(storage) => storage,
            Err(e) => {
                return Err(e);
            },
        };
        proof {
            lemma_table_names();
            lemma_listed_paths(listing@, before.table(is_vertex), storage.relative_path@);
            lemma_listed_paths(other@, before.table(!is_vertex), storage.relative_path@);
            assert forall|other_key: u64| #[trigger]
                before.table(is_vertex).contains_key(other_key) implies other_key < key by {
                let j = choose|j: int| 0 <= j < listing@.len() && #[trigger] listing@[j].0 == other_key;
                assert(listing@[j].0 < key);
            }
            assert(!before.path_in_use(storage.relative_path@)) by {
                if before.path_in_use(storage.relative_path@) {
                    let (c, k) = choose|c: bool, k: u64| #[trigger]
                        before.table(c).contains_key(k) && before.table(c)[k].0 == storage.relative_path@;
                    assert(holds_path(before.table(c), storage.relative_path@));
                }
            }
        }
        let ghost earlier = self.db;
        match put_storage(&mut self.db, table_name(is_vertex), key, storage.relative_path.as_str(), 0) {
            Ok(()) => {
                proof {
                    lemma_set_row_decodes(
                        earlier,
                        self.db,
                        storage_table(is_vertex),
                        key,
                        storage_row_bytes(storage.relative_path@, 0u64),
                    );
                    lemma_same_rows_decode(earlier, self.db, storage_table(!is_vertex));
                }
                Ok((key, storage))
            },
            Err(e) => Err(e),
        }
    }

    /// Picks the file for a blob of `requested_size` bytes: the first of the
    /// class, by key, that has room for it, or a new one where none has.
    fn found_or_create_storage(&mut self, requested_size: usize, is_vertex: bool) -> (found: Result<
        (u64, Storage),
        StorageError,
    >)
        ensures
            final(self).same_settings(old(self)),
            match found {
                Ok((key, storage)) => {
                    &&& old(self).index().placed(
                        final(self).index(),
                        is_vertex,
                        key,
                        storage.row(),
                        requested_size,
                        old(self).threshold(is_vertex),
                    )
                    &&& old(self).rows_decode(is_vertex) && final(self).rows_decode(is_vertex)
                    &&& !old(self).index().table(is_vertex).contains_key(key) ==> {
                        &&& old(self).rows_decode(!is_vertex) && final(self).rows_decode(!is_vertex)
                        &&& seen_absent(joined_bytes(old(self).base(), storage.relative_path@))
                    }
                    &&& old(self).index().table(is_vertex).contains_key(key) ==> *final(self) == *old(self)
                    &&& final(self).same_locations_decode(old(self), None)
                },
                Err(StorageError::Table) => *final(self) == *old(self) || none_fits(
                    old(self).index().table(is_vertex),
                    requested_size,
                    old(self).threshold(is_vertex),
                ),
                Err(StorageError::Encoding) => {
                    &&& *final(self) == *old(self)
                    &&& placing_refused(
                        old(self).rows_decode(is_vertex),
                        old(self).rows_decode(!is_vertex),
                        old(self).index().table(is_vertex),
                        requested_size,
                        old(self).threshold(is_vertex),
                    )
                },
                Err(StorageError::Corrupted) => {
                    &&& *final(self) == *old(self)
                    &&& none_fits(old(self).index().table(is_vertex), requested_size, old(self).threshold(is_vertex))
                    &&& old(self).index().table(is_vertex).contains_key(u64::MAX)
                },
                Err(StorageError::ExhaustedNamespace) => {
                    &&& *final(self) == *old(self)
                    &&& none_fits(old(self).index().table(is_vertex), requested_size, old(self).threshold(is_vertex))
                },
            },
    {
        let threshold = if is_vertex {
            self.vertex_storage_work_size
        } else {
            self.texture_storage_work_size
        };
        let listing = match list_storages(&self.db, table_name(is_vertex)) {
            Ok(rows) => rows,
            Err(e) => {
                return Err(e);
            },
        };
        match first_fit(&listing, requested_size, threshold) {
            Some(at) => {
                proof {
                    lemma_first_fit_listed(
                        listing@,
                        self.index().table(is_vertex),
                        at as int,
                        requested_size,
                        threshold,
                    );
                }
                let storage = Storage {
                    relative_path: listing[at].1.clone(),
                    current_size: listing[at].2 as usize,
                };
                Ok((listing[at].0, storage))
            },
            None => {
                proof {
                    lemma_none_fits_listed(listing@, self.index().table(is_vertex), requested_size, threshold);
                }
                self.create_storage(is_vertex, &listing)
            },
        }
    }

    /// Writes a storage row back under its key.
    fn save_storage(&mut self, storage: (u64, Storage), is_vertex: bool) -> (saved: Result<(), StorageError>)
        ensures
            final(self).same_settings(old(self)),
            match saved {
                Ok(()) => {
                    &&& final(self).index() == old(self).index().with_storage(is_vertex, storage.0, storage.1.row())
                    &&& old(self).rows_decode(true) ==> final(self).rows_decode(true)
                    &&& old(self).rows_decode(false) ==> final(self).rows_decode(false)
                    &&& final(self).same_locations_decode(old(self), None)
                },
                Err(StorageError::Encoding) => {
                    &&& *final(self) == *old(self)
                    &&& !storage_encodes(storage.1.relative_path@, storage.1.current_size as u64)
                },
                Err(e) => e == StorageError::Table,
            },
    {
        proof {
            lemma_table_names();
        }
        let ghost earlier = self.db;
        match put_storage(
            &mut self.db,
            table_name(is_vertex),
            storage.0,
            storage.1.relative_path.as_str(),
            storage.1.current_size as u64,
        ) {
            Ok(()) => {
                proof {
                    let written = storage_row_bytes(storage.1.relative_path@, storage.1.current_size as u64);
                    if storages_decode(earlier, storage_table(is_vertex)) {
                        lemma_set_row_decodes(earlier, self.db, storage_table(is_vertex), storage.0, written);
                    }
                    lemma_same_rows_decode(earlier, self.db, storage_table(!is_vertex));
                }
                Ok(())
            },
            Err(e) => Err(e),
        }
    }

    /// Enters a location row under the next id, which is the number of rows
    /// that the location table holds, and hands that id out.
    fn save_binary_meta(&mut self, meta: BinaryDataInfo) -> (saved: Result<u64, StorageError>)
        ensures
            final(self).same_settings(old(self)),
            match saved {
                Ok(id) => {
                    &&& old(self).index().locations.dom().finite()
                    &&& id == old(self).index().locations.len()
                    &&& final(self).index() == old(self).index().with_location(id, meta.row())
                    &&& final(self).location_decodes(id)
                    &&& final(self).same_locations_decode(old(self), Some(id))
                    &&& final(self).rows_decode(true) == old(self).rows_decode(true)
                    &&& final(self).rows_decode(false) == old(self).rows_decode(false)
                },
                Err(StorageError::Encoding) => {
                    &&& *final(self) == *old(self)
                    &&& !location_encodes(meta.is_vertex, meta.storage_id, meta.offset as u64, meta.size as u64)
                },
                Err(e) => e == StorageError::Table,
            },
    {
        proof {
            lemma_table_names();
        }
        let id = match count_locations(&self.db, BINARY_META_INDEX) {
            Ok(count) => count,
            Err(e) => {
                return Err(e);
            },
        };
        let row = (meta.is_vertex, meta.storage_id, meta.offset as u64, meta.size as u64);
        let ghost earlier = self.db;
        match put_location(&mut self.db, BINARY_META_INDEX, id, row) {
            Ok(()) => {
                proof {
                    lemma_location_round_trip(row);
                    lemma_same_rows_decode(earlier, self.db, storage_table(true));
                    lemma_same_rows_decode(earlier, self.db, storage_table(false));
                }
                Ok(id)
            },
            Err(e) => Err(e),
        }
    }

    /// Where the blob with this id lives; `None` where no blob has the id.
    pub fn get_binary_meta(&self, id: u64) -> (found: Result<Option<BinaryDataInfo>, StorageError>)
        ensures
            match found {
                Ok(Some(info)) => self.index().lookup(id) == Some(info.row()) && self.location_decodes(id),
                Ok(None) => self.index().lookup(id) is None,
                Err(StorageError::Table) => true,
                Err(StorageError::Encoding) => self.index().locations.contains_key(id) && !self.location_decodes(id),
                Err(StorageError::Corrupted) => {
                    &&& self.index().lookup(id) is Some
                    &&& self.location_decodes(id)
                    &&& self.index().locations[id].2 > usize::MAX || self.index().locations[id].3 > usize::MAX
                },
                Err(StorageError::ExhaustedNamespace) => false,
            },
    {
        proof {
            lemma_table_names();
        }
        let row = match get_location(&self.db, BINARY_META_INDEX, id) {
            Ok(row) => row,
            Err(e) => {
                return Err(e);
            },
        };
        match row {
            None => Ok(None),
            Some((is_vertex, storage_id, offset, size)) => {
                if offset > usize::MAX as u64 || size > usize::MAX as u64 {
                    Err(StorageError::Corrupted)
                } else {
                    Ok(Some(BinaryDataInfo { is_vertex, storage_id, offset: offset as usize, size: size as usize }))
                }
            },
        }
    }

    /// Sets the size up to which a texture file is filled.
    pub fn set_texture_storage_work_size(&mut self, texture_storage_work_size: usize)
        ensures
            final(self).texture_threshold() == texture_storage_work_size,
            final(self).vertex_threshold() == old(self).vertex_threshold(),
            final(self).base() == old(self).base(),
            final(self).index() == old(self).index(),
    {
        self.texture_storage_work_size = texture_storage_work_size;
    }

    /// Sets the size up to which a vertex file is filled.
    pub fn set_vertex_storage_work_size(&mut self, vertex_storage_work_size: usize)
        ensures
            final(self).vertex_threshold() == vertex_storage_work_size,
            final(self).texture_threshold() == old(self).texture_threshold(),
            final(self).base() == old(self).base(),
            final(self).index() == old(self).index(),
    {
        self.vertex_storage_work_size = vertex_storage_work_size;
    }

    /// A manager over an open database, with the default thresholds. The
    /// three tables are made where they are missing; no row is touched.
    pub fn with_database(db: redb::Database, base_path: std::path::PathBuf) -> (opened: Result<
        DataManager,
        OpenError,
    >)
        ensures
            match opened {
                Ok(manager) => {
                    &&& manager.index() == index_of(db)
                    &&& manager.rows_decode(true) == storages_decode(db, storage_table(true))
                    &&& manager.rows_decode(false) == storages_decode(db, storage_table(false))
                    &&& manager.base() == path_bytes(base_path)
                    &&& manager.vertex_threshold() == DEFAULT_VERTEX_STORAGE_SIZE
                    &&& manager.texture_threshold() == DEFAULT_TEXTURE_STORAGE_SIZE
                },
                Err(e) => e == OpenError::Index,
            },
    {
        proof {
            lemma_table_names();
        }
        let ghost given = db;
        let mut db = db;
        match prepare_tables(&mut db, VERTEX_STORAGE_INDEX, TEXTURE_STORAGE_INDEX, BINARY_META_INDEX) {
            Ok(()) => {
                proof {
                    lemma_same_rows_decode(given, db, storage_table(true));
                    lemma_same_rows_decode(given, db, storage_table(false));
                }
                Ok(
                    DataManager {
                        db,
                        base_path,
                        texture_storage_work_size: DEFAULT_TEXTURE_STORAGE_SIZE,
                        vertex_storage_work_size: DEFAULT_VERTEX_STORAGE_SIZE,
                    },
                )
            },
            Err(_) => Err(OpenError::Index),
        }
    }

    /// A manager over an open database, in the directory that resolving
    /// came to. A directory that could not be resolved refuses the open, and
    /// the database is not touched.
    pub fn in_directory(db: redb::Database, resolved: std::io::Result<std::path::PathBuf>) -> (opened: Result<
        DataManager,
        OpenError,
    >)
        ensures
            match resolved {
                Ok(base_path) => match opened {
                    Ok(manager) => {
                        &&& manager.index() == index_of(db)
                        &&& manager.base() == path_bytes(base_path)
                        &&& manager.vertex_threshold() == DEFAULT_VERTEX_STORAGE_SIZE
                        &&& manager.texture_threshold() == DEFAULT_TEXTURE_STORAGE_SIZE
                    },
                    Err(e) => e == OpenError::Index,
                },
                Err(_) => opened is Err && opened->Err_0 == OpenError::Path,
            },
    {
        match resolved {
            Ok(base_path) => Self::with_database(db, base_path),
            Err(_) => Err(OpenError::Path),
        }
    }

    /// How the index file is opened: one that is there is opened as it is,
    /// one that is not is started.
    pub fn open_mode(exists: bool) -> (mode: OpenMode)
        ensures
            mode == (if exists {
                OpenMode::Existing
            } else {
                OpenMode::New
            }),
    {
        if exists {
            OpenMode::Existing
        } else {
            OpenMode::New
        }
    }

    /// The directory that becomes the base once it is resolved: the blob
    /// directory where one is given, else the parent of the index file. An
    /// index file without a parent and without a blob directory refuses the
    /// open.
    pub fn directory_to_resolve<'a>(
        blob_path: &'a Option<std::path::PathBuf>,
        index_parent: Option<&'a std::path::Path>,
    ) -> (chosen: Result<&'a std::path::Path, OpenError>)
        ensures
            match *blob_path {
                Some(directory) => chosen is Ok && borrowed_bytes(chosen->Ok_0) == path_bytes(directory),
                None => match index_parent {
                    Some(parent) => chosen is Ok && borrowed_bytes(chosen->Ok_0) == borrowed_bytes(parent),
                    None => chosen is Err && chosen->Err_0 == OpenError::Path,
                },
            },
    {
        match blob_path {
            Some(directory) => Ok(directory.as_path()),
            None => match index_parent {
                Some(parent) => Ok(parent),
                None => Err(OpenError::Path),
            },
        }
    }

    /// Opens the index file at `path`, or starts one where none is there,
    /// and makes its tables. The storage files live in `blob_path`, or, where
    /// none is given, in the directory of the index file; either is resolved
    /// to its canonical form.
    pub fn create_or_open(path: &std::path::Path, blob_path: Option<std::path::PathBuf>) -> (opened: Result<
        DataManager,
        OpenError,
    >)
        ensures
            match opened {
                Ok(manager) => {
                    &&& manager.vertex_threshold() == DEFAULT_VERTEX_STORAGE_SIZE
                    &&& manager.texture_threshold() == DEFAULT_TEXTURE_STORAGE_SIZE
                    &&& base_follows(
                        borrowed_bytes(path),
                        match blob_path {
                            Some(directory) => Some(path_bytes(directory)),
                            None => None,
                        },
                        manager.base(),
                    )
                },
                Err(_) => true,
            },
    {
        let database = match Self::open_mode(path.exists()) {
            OpenMode::Existing => open_database(path),
            OpenMode::New => create_database(path),
        };
        let db = match database {
            Ok(db) => db,
            Err(_) => {
                return Err(OpenError::Index);
            },
        };
        let absolute = match path.canonicalize() {
            Ok(absolute) => absolute,
            Err(_) => {
                return Err(OpenError::Path);
            },
        };
        let chosen = match Self::directory_to_resolve(&blob_path, absolute.as_path().parent()) {
            Ok(chosen) => chosen,
            Err(e) => {
                return Err(e);
            },
        };
        Self::in_directory(db, chosen.canonicalize())
    }

    /// Begins a store of a payload that declares `declared_size` bytes:
    /// picks the file that it goes to, and hands the manager over to the
    /// pending store until the host has appended the bytes.
    pub fn begin_store(self, declared_size: usize, is_vertex: bool) -> (begun: Result<
        PendingStore,
        (DataManager, StorageError),
    >)
        ensures
            match begun {
                Ok(pending) => {
                    &&& pending.manager().same_settings(&self)
                    &&& pending.is_vertex() == is_vertex
                    &&& pending.declared() == declared_size
                    &&& self.index().placed(
                        pending.manager().index(),
                        is_vertex,
                        pending.storage_id(),
                        pending.storage().row(),
                        declared_size,
                        self.threshold(is_vertex),
                    )
                    &&& self.index().consistent() ==> pending.manager().index().consistent() && pending.has_room()
                    &&& self.within_thresholds() ==> pending.manager().within_thresholds()
                    &&& self.rows_decode(is_vertex) && pending.manager().rows_decode(is_vertex)
                    &&& self.index().table(is_vertex).contains_key(pending.storage_id()) ==> pending.manager()
                        == self
                    &&& !self.index().table(is_vertex).contains_key(pending.storage_id()) ==> {
                        &&& self.rows_decode(!is_vertex) && pending.manager().rows_decode(!is_vertex)
                        &&& seen_absent(joined_bytes(self.base(), pending.storage().relative_path@))
                    }
                    &&& pending.manager().same_locations_decode(&self, None)
                },
                Err((manager, e)) => {
                    &&& manager.same_settings(&self)
                    &&& e != StorageError::Table ==> manager == self
                    &&& e == StorageError::Table ==> manager == self || none_fits(
                        self.index().table(is_vertex),
                        declared_size,
                        self.threshold(is_vertex),
                    )
                    &&& e == StorageError::Encoding ==> placing_refused(
                        self.rows_decode(is_vertex),
                        self.rows_decode(!is_vertex),
                        self.index().table(is_vertex),
                        declared_size,
                        self.threshold(is_vertex),
                    )
                    &&& e == StorageError::Corrupted || e == StorageError::ExhaustedNamespace ==> none_fits(
                        self.index().table(is_vertex),
                        declared_size,
                        self.threshold(is_vertex),
                    )
                    &&& e == StorageError::Corrupted ==> self.index().table(is_vertex).contains_key(u64::MAX)
                },
            },
    {
        let mut manager = self;
        match manager.found_or_create_storage(declared_size, is_vertex) {
            Ok((storage_id, storage)) => {
                proof {
                    let threshold = self.threshold(is_vertex);
                    if self.index().consistent() {
                        lemma_placed_consistent(
                            self.index(),
                            manager.index(),
                            is_vertex,
                            storage_id,
                            storage.row(),
                            declared_size,
                            threshold,
                        );
                    }
                    if self.within_thresholds() {
                        lemma_placed_within_headroom(
                            self.index(),
                            manager.index(),
                            is_vertex,
                            storage_id,
                            storage.row(),
                            declared_size,
                            threshold,
                            true,
                            self.vertex_threshold(),
                        );
                        lemma_placed_within_headroom(
                            self.index(),
                            manager.index(),
                            is_vertex,
                            storage_id,
                            storage.row(),
                            declared_size,
                            threshold,
                            false,
                            self.texture_threshold(),
                        );
                    }
                }
                Ok(PendingStore { manager, is_vertex, storage_id, storage, declared: declared_size })
            },
            Err(e) => Err((manager, e)),
        }
    }

    /// Begins a store of `data`, by the size that `data` declares: what a
    /// call of `calc_size` on it returned. The pending store holds that size.
    pub fn store_binary_data<D: BinData>(self, data: &D, is_vertex: bool) -> (begun: Result<
        PendingStore,
        (DataManager, StorageError),
    >)
        ensures
            match begun {
                Ok(pending) => {
                    &&& pending.manager().same_settings(&self)
                    &&& pending.is_vertex() == is_vertex
                    &&& call_ensures(D::calc_size, (data,), pending.declared())
                    &&& self.index().placed(
                        pending.manager().index(),
                        is_vertex,
                        pending.storage_id(),
                        pending.storage().row(),
                        pending.declared(),
                        self.threshold(is_vertex),
                    )
                    &&& self.index().consistent() ==> pending.manager().index().consistent() && pending.has_room()
                    &&& self.within_thresholds() ==> pending.manager().within_thresholds()
                    &&& self.rows_decode(is_vertex) && pending.manager().rows_decode(is_vertex)
                    &&& self.index().table(is_vertex).contains_key(pending.storage_id()) ==> pending.manager()
                        == self
                    &&& !self.index().table(is_vertex).contains_key(pending.storage_id()) ==> {
                        &&& self.rows_decode(!is_vertex) && pending.manager().rows_decode(!is_vertex)
                        &&& seen_absent(joined_bytes(self.base(), pending.storage().relative_path@))
                    }
                    &&& pending.manager().same_locations_decode(&self, None)
                },
                Err((manager, e)) => {
                    &&& manager.same_settings(&self)
                    &&& e != StorageError::Table ==> manager == self
                    &&& exists|declared: usize| #[trigger]
                        call_ensures(D::calc_size, (data,), declared) && {
                            &&& e == StorageError::Table ==> manager == self || none_fits(
                                self.index().table(is_vertex),
                                declared,
                                self.threshold(is_vertex),
                            )
                            &&& e == StorageError::Encoding ==> placing_refused(
                                self.rows_decode(is_vertex),
                                self.rows_decode(!is_vertex),
                                self.index().table(is_vertex),
                                declared,
                                self.threshold(is_vertex),
                            )
                            &&& e == StorageError::Corrupted || e == StorageError::ExhaustedNamespace ==> none_fits(
                                self.index().table(is_vertex),
                                declared,
                                self.threshold(is_vertex),
                            )
                        }
                    &&& e == StorageError::Corrupted ==> self.index().table(is_vertex).contains_key(u64::MAX)
                },
            },
    {
        let declared = data.calc_size();
        self.begin_store(declared, is_vertex)
    }
}

/// A store that has its file and waits for the host to append the encoded
/// bytes. It holds the manager, so that nothing else touches the index
/// between the choice of the file and the record of what was written.
pub struct PendingStore {
    manager: DataManager,
    is_vertex: bool,
    storage_id: u64,
    storage: Storage,
    declared: usize,
}

impl PendingStore {
    #[verifier::type_invariant]
    spec fn row_is_in_index(self) -> bool {
        &&& self.manager.index().table(self.is_vertex).contains_key(self.storage_id)
        &&& self.manager.index().table(self.is_vertex)[self.storage_id] == self.storage.row()
    }

    pub closed spec fn manager(&self) -> DataManager {
        self.manager
    }

    pub closed spec fn is_vertex(&self) -> bool {
        self.is_vertex
    }

    pub closed spec fn storage_id(&self) -> u64 {
        self.storage_id
    }

    pub closed spec fn storage(&self) -> Storage {
        self.storage
    }

    pub closed spec fn declared(&self) -> usize {
        self.declared
    }

    /// The file that was picked has room for what was declared, or holds no
    /// blob yet.
    pub open spec fn has_room(&self) -> bool {
        ||| fits(self.storage().row().1, self.declared(), self.manager().threshold(self.is_vertex()))
        ||| self.manager().index().unoccupied(self.is_vertex(), self.storage_id())
    }

    /// The file that the host appends the encoded bytes to.
    pub fn target(&self) -> (path: std::path::PathBuf)
        ensures
            path_bytes(path) == joined_bytes(self.manager().base(), self.storage().relative_path@),
    {
        join_path(&self.manager.base_path, self.storage.relative_path.as_str())
    }

    /// The storage row that was picked, as it stood before the append.
    pub fn placement(&self) -> (picked: (u64, Storage))
        ensures
            picked.0 == self.storage_id(),
            picked.1 == self.storage(),
            self.manager().index().table(self.is_vertex()).contains_key(picked.0),
            self.manager().index().table(self.is_vertex())[picked.0] == picked.1.row(),
    {
        proof {
            use_type_invariant(self);
        }
        (self.storage_id, self.storage.clone())
    }

    /// Gives the manager back without recording anything: the host could not
    /// append.
    pub fn abandon(self) -> (manager: DataManager)
        ensures
            manager == self.manager(),
    {
        self.manager
    }

    /// Records an append that began at `offset` and left the file `end`
    /// bytes long: first the file's new size, then the blob's location under
    /// the next id.
    pub fn complete(self, offset: usize, end: usize) -> (done: (DataManager, Result<u64, StorageError>))
        requires
            offset <= end,
        ensures
            done.0.same_settings(&self.manager()),
            match done.1 {
                Ok(id) => {
                    &&& id == self.manager().index().next_id()
                    &&& done.0.index() == self.manager().index().stored(
                        self.is_vertex(),
                        self.storage_id(),
                        offset as u64,
                        end as u64,
                    )
                    &&& dense(self.manager().index().locations) ==> !self.manager().index().locations.contains_key(id)
                    &&& self.manager().index().consistent() && self.storage().current_size <= offset
                        ==> done.0.index().consistent()
                    &&& self.manager().within_thresholds() && self.has_room() && offset
                        <= self.storage().current_size && end - offset <= self.declared()
                        ==> done.0.within_thresholds()
                    &&& done.0.location_decodes(id)
                    &&& done.0.same_locations_decode(&self.manager(), Some(id))
                    &&& self.manager().rows_decode(true) ==> done.0.rows_decode(true)
                    &&& self.manager().rows_decode(false) ==> done.0.rows_decode(false)
                },
                Err(StorageError::Encoding) => {
                    ||| {
                        &&& done.0 == self.manager()
                        &&& !storage_encodes(self.storage().relative_path@, end as u64)
                    }
                    ||| {
                        &&& done.0.index() == self.manager().index().with_storage(
                            self.is_vertex(),
                            self.storage_id(),
                            (self.storage().relative_path@, end as u64),
                        )
                        &&& !location_encodes(
                            self.is_vertex(),
                            self.storage_id(),
                            offset as u64,
                            (end - offset) as u64,
                        )
                    }
                },
                Err(e) => e == StorageError::Table,
            },
    {
        proof {
            use_type_invariant(&self);
        }
        let ghost before = self.manager.index();
        let ghost class = self.is_vertex;
        let ghost other_limit = self.manager.threshold(!self.is_vertex);
        let ghost limit = self.manager.threshold(self.is_vertex);
        let ghost declared = self.declared;
        let ghost recorded = self.storage.current_size;
        let ghost key = self.storage_id;
        let ghost roomy = self.has_room();
        let ghost bounded = self.manager.within_thresholds();
        let mut manager = self.manager;
        let storage = Storage { relative_path: self.storage.relative_path, current_size: end };
        match manager.save_storage((self.storage_id, storage), self.is_vertex) {
            Ok(()) => {},
            Err(e) => {
                return (manager, Err(e));
            },
        }
        let meta = BinaryDataInfo {
            is_vertex: self.is_vertex,
            storage_id: self.storage_id,
            offset,
            size: end - offset,
        };
        let saved = manager.save_binary_meta(meta);
        proof {
            if saved is Ok {
                if dense(before.locations) || before.consistent() {
                    lemma_ids_ascend(before, class, key, offset as u64, end as u64);
                }
                if before.consistent() && recorded <= offset {
                    lemma_stored_consistent(before, class, key, offset as u64, end as u64);
                }
                if bounded && roomy && offset <= recorded && end - offset <= declared {
                    lemma_stored_within_headroom(before, class, key, offset as u64, end as u64, declared, limit);
                    lemma_stored_other_class(before, class, key, offset as u64, end as u64, !class, other_limit);
                }
            }
        }
        (manager, saved)
    }
}

} // verus!
