//! The persistent backend.
//!
//! The sibling of the discard backend under the same contract: it differs
//! only in that bytes handed to `add_bytes` are persisted — the unit grows —
//! and a delivery carries the unit's contents. Its `concat_files` assembles
//! a final unit from an ordered sequence of previously created parts,
//! streaming each part's bytes in exactly the order given; if any part is
//! missing, the target is left untouched rather than partially written.

use vstd::prelude::*;

use crate::contract::all_parts_created;
use crate::contract::append_succeeds;
use crate::contract::concat_succeeds;
use crate::contract::create_succeeds;
use crate::contract::fetch_succeeds;
use crate::contract::files_after_append;
use crate::contract::files_after_concat;
use crate::contract::files_after_create;
use crate::contract::files_after_remove;
use crate::contract::parts_contents;
use crate::contract::parts_paths;
use crate::contract::remove_succeeds;
use crate::errors::StorageError;
use crate::file_info::Delivery;
use crate::file_info::FileInfo;
use crate::paths::dir_path;
use crate::paths::join_path;
use crate::paths::unit_path;
use crate::store::push_bytes;
use crate::store::Store;

verus! {

/// A storage backend that persists every byte it is handed.
#[derive(Clone, Debug)]
pub struct FileStorage {
    data_dir: String,
    dir_struct: String,
}

impl FileStorage {
    /// The base data directory, held in canonical form.
    pub closed spec fn base_dir(&self) -> Seq<char> {
        self.data_dir@
    }

    /// The directory-structure template handed to the path resolver.
    pub closed spec fn template(&self) -> Seq<char> {
        self.dir_struct@
    }

    pub fn new(data_dir: String, dir_struct: String) -> (r: FileStorage)
        ensures
            r.base_dir() == data_dir@,
            r.template() == dir_struct@,
    {
        FileStorage { data_dir, dir_struct }
    }

    /// The name of the storage scheme, for configuration and server info.
    pub fn get_name(&self) -> (r: &'static str)
        ensures
            r@ == "file"@,
    {
        "file"
    }

    /// Idempotent startup setup: makes sure the base data directory exists.
    pub fn prepare(&mut self, store: &mut Store) -> (r: Result<(), StorageError>)
        requires
            old(store).wf(),
        ensures
            final(store).wf(),
            *final(self) == *old(self),
            r == Ok::<(), StorageError>(()),
            final(store)@.files == old(store)@.files,
            final(store)@.dirs == old(store)@.dirs.insert(old(self).base_dir()),
    {
        store.ensure_dir(self.data_dir.as_str());
        Ok(())
    }

    /// The path of the unit for `file_id`, with its directory created
    /// (recursively, idempotently) first.
    pub fn data_file_path(&self, store: &mut Store, segment: &str, file_id: &str) -> (r: String)
        requires
            old(store).wf(),
        ensures
            final(store).wf(),
            r@ == unit_path(self.base_dir(), segment@, file_id@),
            final(store)@.files == old(store)@.files,
            final(store)@.dirs == old(store)@.dirs.insert(dir_path(self.base_dir(), segment@)),
    {
        let dir = join_path(self.data_dir.as_str(), segment);
        store.ensure_dir(dir.as_str());
        join_path(dir.as_str(), file_id)
    }

    /// Allocates a brand-new, empty storage unit for `file_info.id` and
    /// returns its path. An existing unit for the id is reported as a
    /// conflict and never overwritten.
    pub fn create_file(&self, store: &mut Store, file_info: &FileInfo, segment: &str) -> (r:
        Result<String, StorageError>)
        requires
            old(store).wf(),
        ensures
            final(store).wf(),
            final(store)@.dirs == old(store)@.dirs.insert(dir_path(self.base_dir(), segment@)),
            ({
                let p = unit_path(self.base_dir(), segment@, file_info.id@);
                match r {
                    Ok(s) => s@ == p && create_succeeds(old(store)@.files, p) && final(store)@.files == files_after_create(old(store)@.files, p),
                    Err(e) => e == StorageError::UnitAlreadyExists && !create_succeeds(
                        old(store)@.files,
                        p,
                    ) && final(store)@.files == old(store)@.files,
                }
            }),
    {
        let file_path = self.data_file_path(store, segment, file_info.id.as_str());
        match store.create_exclusive(file_path.as_str()) {
            Ok(()) => Ok(file_path),
            Err(e) => Err(e),
        }
    }

    /// Appends a byte sequence to the existing unit of a record: the unit
    /// grows by exactly those bytes. A record whose unit was never created
    /// is a precondition error; a recorded unit missing from the store is a
    /// distinct not-found error.
    pub fn add_bytes(&self, store: &mut Store, file_info: &FileInfo, bytes: &[u8]) -> (r: Result<
        (),
        StorageError,
    >)
        requires
            old(store).wf(),
        ensures
            final(store).wf(),
            final(store)@.dirs == old(store)@.dirs,
            match r {
                Ok(()) => file_info.has_path() && append_succeeds(
                    old(store)@.files,
                    file_info.path_view(),
                ) && final(store)@.files == files_after_append(
                    old(store)@.files,
                    file_info.path_view(),
                    bytes@,
                ),
                Err(e) => final(store)@.files == old(store)@.files && ((e
                    == StorageError::MissingStoragePath && !file_info.has_path()) || (e
                    == StorageError::UnitNotFound && file_info.has_path() && !append_succeeds(
                    old(store)@.files,
                    file_info.path_view(),
                ))),
            },
    {
        match &file_info.path {
            None => Err(StorageError::MissingStoragePath),
            Some(p) => store.append_to(p.as_str(), bytes),
        }
    }

    /// Assembles the target unit from the given parts, streaming each
    /// part's bytes into the target in exactly the order given. The target
    /// record and every part record must name created units — a
    /// precondition error otherwise — and every named unit must exist — a
    /// distinct not-found error otherwise. On any failure the target is not
    /// touched: a partial failure never leaves a truncated unit that looks
    /// complete.
    pub fn concat_files(
        &self,
        store: &mut Store,
        file_info: &FileInfo,
        parts_info: &Vec<FileInfo>,
    ) -> (r: Result<(), StorageError>)
        requires
            old(store).wf(),
        ensures
            final(store).wf(),
            final(store)@.dirs == old(store)@.dirs,
            ({
                let target = file_info.path_view();
                let parts = parts_paths(parts_info@);
                match r {
                    Ok(()) => file_info.has_path() && all_parts_created(parts_info@)
                        && concat_succeeds(old(store)@.files, target, parts) && final(store)@.files == files_after_concat(old(store)@.files, target, parts),
                    Err(e) => final(store)@.files == old(store)@.files && ((e
                        == StorageError::MissingStoragePath && (!file_info.has_path()
                        || !all_parts_created(parts_info@))) || (e == StorageError::UnitNotFound
                        && file_info.has_path() && all_parts_created(parts_info@)
                        && !concat_succeeds(old(store)@.files, target, parts))),
                }
            }),
    {
        let target = match &file_info.path {
            None => {
                return Err(StorageError::MissingStoragePath);
            },
            Some(p) => p,
        };
        let n = parts_info.len();
        let mut i: usize = 0;
        while i < n
            invariant
                i <= n,
                n == parts_info@.len(),
                old(store).wf(),
                *store == *old(store),
                file_info.has_path(),
                forall|j: int| 0 <= j < i ==> (#[trigger] parts_info@[j]).has_path(),
            decreases n - i,
        {
            if parts_info[i].path.is_none() {
                proof {
                    assert(!(parts_info@[i as int]).has_path());
                }
                return Err(StorageError::MissingStoragePath);
            }
            i = i + 1;
        }
        if !store.contains_file(target.as_str()) {
            return Err(StorageError::UnitNotFound);
        }
        let ghost paths = parts_paths(parts_info@);
        let mut buf: Vec<u8> = Vec::new();
        proof {
            assert(buf@ =~= Seq::<u8>::empty());
            assert(paths.subrange(0, 0) =~= Seq::<Seq<char>>::empty());
        }
        let mut k: usize = 0;
        while k < n
            invariant
                k <= n,
                n == parts_info@.len(),
                old(store).wf(),
                *store == *old(store),
                file_info.has_path(),
                target@ == file_info.path_view(),
                all_parts_created(parts_info@),
                store@.files.contains_key(file_info.path_view()),
                paths == parts_paths(parts_info@),
                forall|j: int| 0 <= j < k ==> old(store)@.files.contains_key(#[trigger] paths[j]),
                buf@ == parts_contents(old(store)@.files, paths.subrange(0, k as int)),
            decreases n - k,
        {
            let part = &parts_info[k];
            let pp = part.path.as_ref().unwrap();
            match store.read_file(pp.as_str()) {
                None => {
                    proof {
                        assert(paths[k as int] == (parts_info@[k as int]).path_view());
                        assert(!store@.files.contains_key(paths[k as int]));
                    }
                    return Err(StorageError::UnitNotFound);
                },
                Some(v) => {
                    push_bytes(&mut buf, v.as_slice());
                    proof {
                        assert(paths[k as int] == (parts_info@[k as int]).path_view());
                        assert(paths.subrange(0, k + 1 as int).drop_last() =~= paths.subrange(
                            0,
                            k as int,
                        ));
                        assert(paths.subrange(0, k + 1 as int).last() == paths[k as int]);
                    }
                },
            }
            k = k + 1;
        }
        proof {
            assert(paths.subrange(0, n as int) =~= paths);
        }
        match store.append_to(target.as_str(), buf.as_slice()) {
            Ok(()) => Ok(()),
            // the target was checked to exist and nothing has removed it,
            // so the append cannot fail
            Err(_) => {
                proof {
                    assert(false);
                }
                Err(StorageError::BackendFault)
            },
        }
    }

    /// A deliverable representation of a completed unit: its bytes under
    /// the record's disposition filename. Fails with a precondition error
    /// when the unit was never created, and with a distinct not-found error
    /// when the record names a unit absent from the backing store.
    pub fn get_contents(&self, store: &Store, file_info: &FileInfo) -> (r: Result<
        Delivery,
        StorageError,
    >)
        requires
            store.wf(),
        ensures
            match r {
                Ok(d) => file_info.has_path() && fetch_succeeds(
                    store@.files,
                    file_info.path_view(),
                ) && d.filename@ == file_info.disposition_name() && d.body@
                    == store@.files[file_info.path_view()],
                Err(e) => (e == StorageError::MissingStoragePath && !file_info.has_path()) || (e
                    == StorageError::UnitNotFound && file_info.has_path() && !fetch_succeeds(
                    store@.files,
                    file_info.path_view(),
                )),
            },
    {
        match &file_info.path {
            None => Err(StorageError::MissingStoragePath),
            Some(p) => {
                match store.read_file(p.as_str()) {
                    None => Err(StorageError::UnitNotFound),
                    Some(v) => {
                        let mut body: Vec<u8> = Vec::new();
                        push_bytes(&mut body, v.as_slice());
                        Ok(Delivery { filename: file_info.get_filename().to_owned(), body })
                    },
                }
            },
        }
    }

    /// Deletes the unit of a record; a record whose unit was never created
    /// is a precondition error, and a recorded unit missing from the store
    /// is a distinct not-found error, never a silent success.
    pub fn remove_file(&self, store: &mut Store, file_info: &FileInfo) -> (r: Result<
        (),
        StorageError,
    >)
        requires
            old(store).wf(),
        ensures
            final(store).wf(),
            final(store)@.dirs == old(store)@.dirs,
            match r {
                Ok(()) => file_info.has_path() && remove_succeeds(
                    old(store)@.files,
                    file_info.path_view(),
                ) && final(store)@.files == files_after_remove(
                    old(store)@.files,
                    file_info.path_view(),
                ),
                Err(e) => final(store)@.files == old(store)@.files && ((e
                    == StorageError::MissingStoragePath && !file_info.has_path()) || (e
                    == StorageError::UnitNotFound && file_info.has_path() && !remove_succeeds(
                    old(store)@.files,
                    file_info.path_view(),
                ))),
            },
    {
        match &file_info.path {
            None => Err(StorageError::MissingStoragePath),
            Some(p) => store.remove_file(p.as_str()),
        }
    }
}

} // verus!
