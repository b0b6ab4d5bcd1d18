//! The backing store that holds storage units.
//!
//! A store is the single source of truth about which directories and which
//! storage units (one per upload id) exist, and what bytes each unit holds.
//! Its mathematical content is a [`StoreView`]: a set of directory paths and
//! a map from unit paths to byte contents. Every operation of the storage
//! backends is specified as a transformation of that view, so the lifecycle
//! contract — in particular the exclusive, atomic create — is stated over
//! plain sets, maps and sequences.

use vstd::prelude::*;

use crate::errors::StorageError;

verus! {

/// The mathematical content of a backing store: which directories exist,
/// and which storage units exist with which byte contents.
pub struct StoreView {
    pub dirs: Set<Seq<char>>,
    pub files: Map<Seq<char>, Seq<u8>>,
}

/// Folds a sequence of `(path, contents)` entries into a map from path to
/// contents; a later entry for the same path wins.
pub open spec fn files_map(entries: Seq<(String, Vec<u8>)>) -> Map<Seq<char>, Seq<u8>>
    decreases entries.len(),
{
    if entries.len() == 0 {
        Map::empty()
    } else {
        files_map(entries.drop_last()).insert(entries.last().0@, entries.last().1@)
    }
}

/// Folds a sequence of directory paths into the set of those paths.
pub open spec fn dirs_set(entries: Seq<String>) -> Set<Seq<char>>
    decreases entries.len(),
{
    if entries.len() == 0 {
        Set::empty()
    } else {
        dirs_set(entries.drop_last()).insert(entries.last()@)
    }
}

/// No two entries share a path.
pub open spec fn unique_paths(entries: Seq<(String, Vec<u8>)>) -> bool {
    forall|i: int, j: int|
        0 <= i < j < entries.len() ==> (#[trigger] entries[i]).0@ != (#[trigger] entries[j]).0@
}

/// A path occurs in the folded map exactly when some entry carries it.
pub proof fn lemma_files_map_contains(entries: Seq<(String, Vec<u8>)>, p: Seq<char>)
    ensures
        files_map(entries).contains_key(p) <==> (exists|i: int|
            0 <= i < entries.len() && (#[trigger] entries[i]).0@ == p),
    decreases entries.len(),
{
    if entries.len() == 0 {
    } else {
        let prefix = entries.drop_last();
        lemma_files_map_contains(prefix, p);
        if entries.last().0@ == p {
            assert((entries[entries.len() - 1]).0@ == p);
        } else {
            if files_map(entries).contains_key(p) {
                let i = choose|i: int| 0 <= i < prefix.len() && (#[trigger] prefix[i]).0@ == p;
                assert((entries[i]).0@ == p);
            }
            if exists|i: int| 0 <= i < entries.len() && (#[trigger] entries[i]).0@ == p {
                let i = choose|i: int| 0 <= i < entries.len() && (#[trigger] entries[i]).0@ == p;
                assert((prefix[i]).0@ == p);
            }
        }
    }
}

/// Dropping the last entry keeps the paths unique.
pub proof fn lemma_unique_drop_last(entries: Seq<(String, Vec<u8>)>)
    requires
        unique_paths(entries),
        entries.len() > 0,
    ensures
        unique_paths(entries.drop_last()),
{
    let prefix = entries.drop_last();
    assert forall|i: int, j: int|
        0 <= i < j < prefix.len() implies (#[trigger] prefix[i]).0@ != (
    #[trigger] prefix[j]).0@ by {
        assert(prefix[i] == entries[i]);
        assert(prefix[j] == entries[j]);
    }
}

/// Removing an entry keeps the paths unique.
pub proof fn lemma_unique_remove(entries: Seq<(String, Vec<u8>)>, k: int)
    requires
        unique_paths(entries),
        0 <= k < entries.len(),
    ensures
        unique_paths(entries.remove(k)),
{
    let rest = entries.remove(k);
    assert forall|i: int, j: int|
        0 <= i < j < rest.len() implies (#[trigger] rest[i]).0@ != (#[trigger] rest[j]).0@ by {
        if i < k {
            assert(rest[i] == entries[i]);
        } else {
            assert(rest[i] == entries[i + 1]);
        }
        if j < k {
            assert(rest[j] == entries[j]);
        } else {
            assert(rest[j] == entries[j + 1]);
        }
    }
}

/// Appending an entry with a fresh path keeps the paths unique.
pub proof fn lemma_unique_push(entries: Seq<(String, Vec<u8>)>, e: (String, Vec<u8>))
    requires
        unique_paths(entries),
        forall|j: int| 0 <= j < entries.len() ==> (#[trigger] entries[j]).0@ != e.0@,
    ensures
        unique_paths(entries.push(e)),
{
    let after = entries.push(e);
    assert forall|a: int, b: int|
        0 <= a < b < after.len() implies (#[trigger] after[a]).0@ != (#[trigger] after[b]).0@ by {
        assert(after[a] == entries[a]);
        if b < entries.len() {
            assert(after[b] == entries[b]);
        } else {
            assert(after[b] == e);
        }
    }
}

/// In a store with unique paths, the entry at index `i` is what the folded
/// map holds for its path.
pub proof fn lemma_files_map_get(entries: Seq<(String, Vec<u8>)>, i: int)
    requires
        unique_paths(entries),
        0 <= i < entries.len(),
    ensures
        files_map(entries).contains_key((entries[i]).0@),
        files_map(entries)[(entries[i]).0@] == (entries[i]).1@,
    decreases entries.len(),
{
    if i == entries.len() - 1 {
    } else {
        let prefix = entries.drop_last();
        lemma_unique_drop_last(entries);
        assert(prefix[i] == entries[i]);
        lemma_files_map_get(prefix, i);
        assert((entries[i]).0@ != (entries[entries.len() - 1]).0@);
    }
}

/// Removing the entry at index `k` removes exactly its path from the folded
/// map.
pub proof fn lemma_files_map_remove(entries: Seq<(String, Vec<u8>)>, k: int)
    requires
        unique_paths(entries),
        0 <= k < entries.len(),
    ensures
        files_map(entries.remove(k)) == files_map(entries).remove((entries[k]).0@),
    decreases entries.len(),
{
    let p = (entries[k]).0@;
    let prefix = entries.drop_last();
    if k == entries.len() - 1 {
        assert(entries.remove(k) =~= prefix);
        lemma_files_map_contains(prefix, p);
        assert forall|j: int| 0 <= j < prefix.len() implies (#[trigger] prefix[j]).0@ != p by {
            assert(prefix[j] == entries[j]);
        }
        assert(!files_map(prefix).contains_key(p));
        assert(files_map(entries.remove(k)) =~= files_map(entries).remove(p));
    } else {
        lemma_unique_drop_last(entries);
        assert(prefix[k] == entries[k]);
        lemma_files_map_remove(prefix, k);
        let rest = entries.remove(k);
        assert(rest.drop_last() =~= prefix.remove(k));
        assert(rest.last() == entries.last());
        assert((entries[k]).0@ != (entries[entries.len() - 1]).0@);
        assert(files_map(rest) =~= files_map(entries).remove(p));
    }
}

/// Appending an entry inserts exactly its path into the folded map.
pub proof fn lemma_files_map_push(entries: Seq<(String, Vec<u8>)>, e: (String, Vec<u8>))
    ensures
        files_map(entries.push(e)) == files_map(entries).insert(e.0@, e.1@),
{
    assert(entries.push(e).drop_last() =~= entries);
    assert(entries.push(e).last() == e);
}

/// A path occurs in the folded directory set exactly when some entry is it.
pub proof fn lemma_dirs_set_contains(entries: Seq<String>, p: Seq<char>)
    ensures
        dirs_set(entries).contains(p) <==> (exists|i: int|
            0 <= i < entries.len() && (#[trigger] entries[i])@ == p),
    decreases entries.len(),
{
    if entries.len() == 0 {
    } else {
        let prefix = entries.drop_last();
        lemma_dirs_set_contains(prefix, p);
        if entries.last()@ == p {
            assert((entries[entries.len() - 1])@ == p);
        } else {
            if dirs_set(entries).contains(p) {
                let i = choose|i: int| 0 <= i < prefix.len() && (#[trigger] prefix[i])@ == p;
                assert((entries[i])@ == p);
            }
            if exists|i: int| 0 <= i < entries.len() && (#[trigger] entries[i])@ == p {
                let i = choose|i: int| 0 <= i < entries.len() && (#[trigger] entries[i])@ == p;
                assert((prefix[i])@ == p);
            }
        }
    }
}

/// Appends `src` to `dst`.
pub fn push_bytes(dst: &mut Vec<u8>, src: &[u8])
    ensures
        final(dst)@ == old(dst)@ + src@,
{
    let n = src.len();
    let mut j: usize = 0;
    while j < n
        invariant
            j <= n,
            n == src@.len(),
            dst@ == old(dst)@ + src@.subrange(0, j as int),
        decreases n - j,
    {
        let b = src[j];
        dst.push(b);
        proof {
            assert(src@.subrange(0, j + 1 as int) =~= src@.subrange(0, j as int).push(
                src@[j as int],
            ));
        }
        j = j + 1;
    }
    proof {
        assert(src@.subrange(0, n as int) =~= src@);
    }
}

/// An in-memory backing store: the directories that exist and one entry per
/// storage unit. Existence truth lives here, not in any upload record.
pub struct Store {
    dirs: Vec<String>,
    files: Vec<(String, Vec<u8>)>,
}

impl View for Store {
    type V = StoreView;

    closed spec fn view(&self) -> StoreView {
        StoreView { dirs: dirs_set(self.dirs@), files: files_map(self.files@) }
    }
}

impl Store {
    /// No two unit entries share a path.
    pub closed spec fn wf(&self) -> bool {
        unique_paths(self.files@)
    }

    /// An empty store: no directories, no units.
    pub fn new() -> (r: Store)
        ensures
            r.wf(),
            r@.dirs == Set::<Seq<char>>::empty(),
            r@.files == Map::<Seq<char>, Seq<u8>>::empty(),
    {
        let r = Store { dirs: Vec::new(), files: Vec::new() };
        proof {
            assert(r@.dirs =~= Set::<Seq<char>>::empty());
            assert(r@.files =~= Map::<Seq<char>, Seq<u8>>::empty());
        }
        r
    }

    /// Index of the unit entry for `path`, if one exists.
    fn find_file(&self, path: &String) -> (r: Option<usize>)
        ensures
            match r {
                Some(i) => i < self.files@.len() && (self.files@[i as int]).0@ == path@,
                None => !self@.files.contains_key(path@),
            },
    {
        let n = self.files.len();
        let mut i: usize = 0;
        while i < n
            invariant
                i <= n,
                n == self.files@.len(),
                forall|j: int| 0 <= j < i ==> (#[trigger] self.files@[j]).0@ != path@,
            decreases n - i,
        {
            if self.files[i].0 == *path {
                return Some(i);
            }
            i = i + 1;
        }
        proof {
            lemma_files_map_contains(self.files@, path@);
        }
        None
    }

    /// Whether a unit exists under `path`.
    pub fn contains_file(&self, path: &str) -> (r: bool)
        ensures
            r == self@.files.contains_key(path@),
    {
        let p = path.to_owned();
        match self.find_file(&p) {
            Some(i) => {
                proof {
                    assert((self.files@[i as int]).0@ == path@);
                    lemma_files_map_contains(self.files@, path@);
                }
                true
            },
            None => false,
        }
    }

    /// The contents of the unit under `path`, if one exists.
    pub fn read_file(&self, path: &str) -> (r: Option<&Vec<u8>>)
        requires
            self.wf(),
        ensures
            match r {
                Some(v) => self@.files.contains_key(path@) && v@ == self@.files[path@],
                None => !self@.files.contains_key(path@),
            },
    {
        let p = path.to_owned();
        match self.find_file(&p) {
            Some(i) => {
                proof {
                    lemma_files_map_get(self.files@, i as int);
                }
                Some(&self.files[i].1)
            },
            None => None,
        }
    }

    /// Records that the directory `path` exists. Idempotent: safe under
    /// repeated and concurrent invocation, it never fails because the
    /// directory is already there.
    pub fn ensure_dir(&mut self, path: &str)
        requires
            old(self).wf(),
        ensures
            final(self).wf(),
            final(self)@.files == old(self)@.files,
            final(self)@.dirs == old(self)@.dirs.insert(path@),
    {
        let p = path.to_owned();
        let n = self.dirs.len();
        let mut i: usize = 0;
        while i < n
            invariant
                i <= n,
                n == self.dirs@.len(),
                p@ == path@,
                old(self).wf(),
                *self == *old(self),
            decreases n - i,
        {
            if self.dirs[i] == p {
                proof {
                    assert((self.dirs@[i as int])@ == path@);
                    lemma_dirs_set_contains(self.dirs@, path@);
                    assert(self@.dirs.contains(path@));
                    assert(old(self)@.dirs.insert(path@) =~= old(self)@.dirs);
                }
                return ;
            }
            i = i + 1;
        }
        let ghost before = self.dirs@;
        self.dirs.push(p);
        proof {
            assert(self.dirs@ == before.push(self.dirs@.last()));
            assert(self.dirs@.drop_last() =~= before);
            assert(self.dirs@.last()@ == path@);
        }
    }

    /// Creates a brand-new, empty unit under `path` if and only if none
    /// exists; an existing unit is never touched, and the conflict is
    /// reported distinctly. This is the one atomic step of the contract.
    pub fn create_exclusive(&mut self, path: &str) -> (r: Result<(), StorageError>)
        requires
            old(self).wf(),
        ensures
            final(self).wf(),
            final(self)@.dirs == old(self)@.dirs,
            match r {
                Ok(()) => !old(self)@.files.contains_key(path@) && final(self)@.files == old(self)@.files.insert(path@, Seq::<u8>::empty()),
                Err(e) => e == StorageError::UnitAlreadyExists && old(self)@.files.contains_key(
                    path@,
                ) && final(self)@.files == old(self)@.files,
            },
    {
        let p = path.to_owned();
        match self.find_file(&p) {
            Some(i) => {
                proof {
                    assert((self.files@[i as int]).0@ == path@);
                    lemma_files_map_contains(self.files@, path@);
                }
                Err(StorageError::UnitAlreadyExists)
            },
            None => {
                let data: Vec<u8> = Vec::new();
                proof {
                    assert(data@ =~= Seq::<u8>::empty());
                    lemma_files_map_contains(self.files@, path@);
                    assert forall|j: int|
                        0 <= j < self.files@.len() implies (#[trigger] self.files@[j]).0@
                        != path@ by {
                        if (self.files@[j]).0@ == path@ {
                            assert(files_map(self.files@).contains_key(path@));
                        }
                    }
                }
                let ghost before = self.files@;
                self.files.push((p, data));
                proof {
                    let e = self.files@.last();
                    assert(self.files@ == before.push(e));
                    assert(e.0@ == path@);
                    lemma_unique_push(before, e);
                    lemma_files_map_push(before, e);
                }
                Ok(())
            },
        }
    }

    /// Appends `bytes` to the unit under `path`; a missing unit is an error
    /// and nothing changes.
    pub fn append_to(&mut self, path: &str, bytes: &[u8]) -> (r: Result<(), StorageError>)
        requires
            old(self).wf(),
        ensures
            final(self).wf(),
            final(self)@.dirs == old(self)@.dirs,
            match r {
                Ok(()) => old(self)@.files.contains_key(path@) && final(self)@.files == old(self)@.files.insert(path@, old(self)@.files[path@] + bytes@),
                Err(e) => e == StorageError::UnitNotFound && !old(self)@.files.contains_key(path@)
                    && final(self)@.files == old(self)@.files,
            },
    {
        let p = path.to_owned();
        match self.find_file(&p) {
            None => Err(StorageError::UnitNotFound),
            Some(i) => {
                proof {
                    lemma_files_map_get(self.files@, i as int);
                    lemma_files_map_remove(self.files@, i as int);
                    lemma_unique_remove(self.files@, i as int);
                }
                let entry = self.files.remove(i);
                let (name, mut data) = entry;
                push_bytes(&mut data, bytes);
                proof {
                    lemma_files_map_contains(self.files@, path@);
                    assert forall|j: int|
                        0 <= j < self.files@.len() implies (#[trigger] self.files@[j]).0@
                        != path@ by {
                        if (self.files@[j]).0@ == path@ {
                            assert(files_map(self.files@).contains_key(path@));
                        }
                    }
                }
                let ghost mid = self.files@;
                self.files.push((name, data));
                proof {
                    let e = self.files@.last();
                    assert(self.files@ == mid.push(e));
                    assert(e.0@ == path@);
                    lemma_unique_push(mid, e);
                    lemma_files_map_push(mid, e);
                    assert(files_map(self.files@) =~= old(self)@.files.insert(
                        path@,
                        old(self)@.files[path@] + bytes@,
                    ));
                }
                Ok(())
            },
        }
    }

    /// Deletes the unit under `path`; a missing unit is an error, never a
    /// silent success, and nothing changes.
    pub fn remove_file(&mut self, path: &str) -> (r: Result<(), StorageError>)
        requires
            old(self).wf(),
        ensures
            final(self).wf(),
            final(self)@.dirs == old(self)@.dirs,
            match r {
                Ok(()) => old(self)@.files.contains_key(path@) && final(self)@.files == old(self)@.files.remove(path@),
                Err(e) => e == StorageError::UnitNotFound && !old(self)@.files.contains_key(path@)
                    && final(self)@.files == old(self)@.files,
            },
    {
        let p = path.to_owned();
        match self.find_file(&p) {
            None => Err(StorageError::UnitNotFound),
            Some(i) => {
                proof {
                    lemma_files_map_get(self.files@, i as int);
                    lemma_files_map_remove(self.files@, i as int);
                    lemma_unique_remove(self.files@, i as int);
                }
                let _removed = self.files.remove(i);
                Ok(())
            },
        }
    }
}

} // verus!
