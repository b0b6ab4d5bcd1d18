//! The discard backend.
//!
//! A reference implementation of the storage contract that performs real
//! path and unit bookkeeping — so existence checks and the atomic
//! create-if-absent semantics are exercised — but treats appended bytes as
//! a no-op: it consumes and drops them. Used to validate the contract and
//! for throughput testing without real storage cost.

use vstd::prelude::*;

use crate::contract::create_succeeds;
use crate::contract::fetch_succeeds;
use crate::contract::files_after_create;
use crate::contract::files_after_discard_append;
use crate::contract::files_after_remove;
use crate::contract::remove_succeeds;
use crate::errors::StorageError;
use crate::file_info::Delivery;
use crate::file_info::FileInfo;
use crate::paths::dir_path;
use crate::paths::join_path;
use crate::paths::unit_path;
use crate::store::Store;

verus! {

/// A storage backend that keeps the bookkeeping honest and drops the bytes.
#[derive(Clone, Debug)]
pub struct NullStorage {
    data_dir: String,
    dir_struct: String,
}

impl NullStorage {
    /// The base data directory, held in canonical form.
    pub closed spec fn base_dir(&self) -> Seq<char> {
        self.data_dir@
    }

    /// The directory-structure template handed to the path resolver.
    pub closed spec fn template(&self) -> Seq<char> {
        self.dir_struct@
    }

    pub fn new(data_dir: String, dir_struct: String) -> (r: NullStorage)
        ensures
            r.base_dir() == data_dir@,
            r.template() == dir_struct@,
    {
        NullStorage { data_dir, dir_struct }
    }

    /// The name of the storage scheme, for configuration and server info.
    pub fn get_name(&self) -> (r: &'static str)
        ensures
            r@ == "file"@,
    {
        "file"
    }

    /// Idempotent startup setup: makes sure the base data directory exists.
    /// Safe to call repeatedly; an already existing directory is no error.
    pub fn prepare(&mut self, store: &mut Store) -> (r: Result<(), StorageError>)
        requires
            old(store).wf(),
        ensures
            final(store).wf(),
            *final(self) == *old(self),
            r == Ok::<(), StorageError>(()),
            final(store)@.files == old(store)@.files,
            final(store)@.dirs == old(store)@.dirs.insert(old(self).base_dir()),
    {
        store.ensure_dir(self.data_dir.as_str());
        Ok(())
    }

    /// The path of the unit for `file_id` in the data directory: the base
    /// directory joined with the directory segment that the path resolver
    /// derived from the template, then the id. The directory is created
    /// (recursively, idempotently) before the path is handed out.
    pub fn data_file_path(&self, store: &mut Store, segment: &str, file_id: &str) -> (r: String)
        requires
            old(store).wf(),
        ensures
            final(store).wf(),
            r@ == unit_path(self.base_dir(), segment@, file_id@),
            final(store)@.files == old(store)@.files,
            final(store)@.dirs == old(store)@.dirs.insert(dir_path(self.base_dir(), segment@)),
    {
        let dir = join_path(self.data_dir.as_str(), segment);
        store.ensure_dir(dir.as_str());
        join_path(dir.as_str(), file_id)
    }

    /// Allocates a brand-new, empty storage unit for `file_info.id` at the
    /// resolved path and returns that path, which becomes the record's
    /// `storage_path`. An existing unit for the id is never overwritten:
    /// the create is rejected with a distinct conflict error, so two
    /// creates for one id cannot both succeed.
    pub fn create_file(&self, store: &mut Store, file_info: &FileInfo, segment: &str) -> (r:
        Result<String, StorageError>)
        requires
            old(store).wf(),
        ensures
            final(store).wf(),
            final(store)@.dirs == old(store)@.dirs.insert(dir_path(self.base_dir(), segment@)),
            ({
                let p = unit_path(self.base_dir(), segment@, file_info.id@);
                match r {
                    Ok(s) => s@ == p && create_succeeds(old(store)@.files, p) && final(store)@.files == files_after_create(old(store)@.files, p),
                    Err(e) => e == StorageError::UnitAlreadyExists && !create_succeeds(
                        old(store)@.files,
                        p,
                    ) && final(store)@.files == old(store)@.files,
                }
            }),
    {
        let file_path = self.data_file_path(store, segment, file_info.id.as_str());
        match store.create_exclusive(file_path.as_str()) {
            Ok(()) => Ok(file_path),
            Err(e) => Err(e),
        }
    }

    /// Consumes an appended byte sequence and drops it: the append is
    /// acknowledged with no observable growth anywhere. Invoked on a record
    /// whose unit was never created it fails with a precondition error,
    /// never an I/O error.
    pub fn add_bytes(&self, store: &mut Store, file_info: &FileInfo, bytes: &[u8]) -> (r: Result<
        (),
        StorageError,
    >)
        requires
            old(store).wf(),
        ensures
            final(store).wf(),
            final(store)@.dirs == old(store)@.dirs,
            match r {
                Ok(()) => file_info.has_path() && final(store)@.files
                    == files_after_discard_append(
                    old(store)@.files,
                    file_info.path_view(),
                    bytes@,
                ),
                Err(e) => e == StorageError::MissingStoragePath && !file_info.has_path() && final(store)@.files == old(store)@.files,
            },
    {
        if file_info.path.is_none() {
            return Err(StorageError::MissingStoragePath);
        }
        Ok(())
    }

    /// Validates an assembly request: the target record must name a created
    /// unit — a precondition error otherwise — and the assembly itself is a
    /// no-op, as nothing was kept to assemble.
    pub fn concat_files(
        &self,
        store: &mut Store,
        file_info: &FileInfo,
        parts_info: &Vec<FileInfo>,
    ) -> (r: Result<(), StorageError>)
        requires
            old(store).wf(),
        ensures
            final(store).wf(),
            final(store)@ == old(store)@,
            match r {
                Ok(()) => file_info.has_path(),
                Err(e) => e == StorageError::MissingStoragePath && !file_info.has_path(),
            },
    {
        if file_info.path.is_none() {
            return Err(StorageError::MissingStoragePath);
        }
        Ok(())
    }

    /// A deliverable representation of a completed unit: an empty body
    /// under the record's disposition filename. Fails with a precondition
    /// error when the unit was never created, and with a distinct not-found
    /// error when the record names a unit absent from the backing store.
    pub fn get_contents(&self, store: &Store, file_info: &FileInfo) -> (r: Result<
        Delivery,
        StorageError,
    >)
        requires
            store.wf(),
        ensures
            match r {
                Ok(d) => file_info.has_path() && fetch_succeeds(
                    store@.files,
                    file_info.path_view(),
                ) && d.filename@ == file_info.disposition_name() && d.body@ == Seq::<u8>::empty(),
                Err(e) => (e == StorageError::MissingStoragePath && !file_info.has_path()) || (e
                    == StorageError::UnitNotFound && file_info.has_path() && !fetch_succeeds(
                    store@.files,
                    file_info.path_view(),
                )),
            },
    {
        match &file_info.path {
            None => Err(StorageError::MissingStoragePath),
            Some(p) => {
                if store.contains_file(p.as_str()) {
                    let body: Vec<u8> = Vec::new();
                    proof {
                        assert(body@ =~= Seq::<u8>::empty());
                    }
                    Ok(Delivery { filename: file_info.get_filename().to_owned(), body })
                } else {
                    Err(StorageError::UnitNotFound)
                }
            },
        }
    }

    /// Deletes the unit of a record. A record whose unit was never created
    /// is a precondition error; a recorded unit missing from the backing
    /// store is a distinct not-found error — surfacing tampering or double
    /// deletion rather than masking them — never a silent success.
    pub fn remove_file(&self, store: &mut Store, file_info: &FileInfo) -> (r: Result<
        (),
        StorageError,
    >)
        requires
            old(store).wf(),
        ensures
            final(store).wf(),
            final(store)@.dirs == old(store)@.dirs,
            match r {
                Ok(()) => file_info.has_path() && remove_succeeds(
                    old(store)@.files,
                    file_info.path_view(),
                ) && final(store)@.files == files_after_remove(
                    old(store)@.files,
                    file_info.path_view(),
                ),
                Err(e) => final(store)@.files == old(store)@.files && ((e
                    == StorageError::MissingStoragePath && !file_info.has_path()) || (e
                    == StorageError::UnitNotFound && file_info.has_path() && !remove_succeeds(
                    old(store)@.files,
                    file_info.path_view(),
                ))),
            },
    {
        match &file_info.path {
            None => Err(StorageError::MissingStoragePath),
            Some(p) => store.remove_file(p.as_str()),
        }
    }
}

} // verus!
