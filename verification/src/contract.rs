//! The storage contract, stated mathematically, and the laws that follow
//! from it.
//!
//! Each lifecycle operation is a transformation of the backing store's file
//! map (`Map<Seq<char>, Seq<u8>>`, unit path to contents). The spec
//! functions here say when an operation is owed success and what the map is
//! afterwards; the executable backends promise exactly these outcomes in
//! their `ensures`. The proof functions state the laws of the contract —
//! atomic creation, strict removal, ordered concatenation, and the discard
//! backend's round trip — and Verus checks them.

use vstd::prelude::*;

use crate::file_info::FileInfo;

verus! {

/// A create for `p` is owed success exactly when no unit exists there yet.
pub open spec fn create_succeeds(files: Map<Seq<char>, Seq<u8>>, p: Seq<char>) -> bool {
    !files.contains_key(p)
}

/// After a successful create, a brand-new empty unit exists under `p`.
pub open spec fn files_after_create(files: Map<Seq<char>, Seq<u8>>, p: Seq<char>) -> Map<
    Seq<char>,
    Seq<u8>,
> {
    files.insert(p, Seq::empty())
}

/// A remove of the unit under `p` succeeds exactly when it exists.
pub open spec fn remove_succeeds(files: Map<Seq<char>, Seq<u8>>, p: Seq<char>) -> bool {
    files.contains_key(p)
}

/// After a successful remove, the unit under `p` is gone.
pub open spec fn files_after_remove(files: Map<Seq<char>, Seq<u8>>, p: Seq<char>) -> Map<
    Seq<char>,
    Seq<u8>,
> {
    files.remove(p)
}

/// A fetch for delivery succeeds exactly when the unit exists.
pub open spec fn fetch_succeeds(files: Map<Seq<char>, Seq<u8>>, p: Seq<char>) -> bool {
    files.contains_key(p)
}

/// A persistent append succeeds exactly when the unit exists.
pub open spec fn append_succeeds(files: Map<Seq<char>, Seq<u8>>, p: Seq<char>) -> bool {
    files.contains_key(p)
}

/// After a persistent append, the unit under `p` has grown by `bytes`.
pub open spec fn files_after_append(
    files: Map<Seq<char>, Seq<u8>>,
    p: Seq<char>,
    bytes: Seq<u8>,
) -> Map<Seq<char>, Seq<u8>> {
    files.insert(p, files[p] + bytes)
}

/// After a discard append, the store is what it was: the payload is
/// consumed and dropped, with no observable growth anywhere.
pub open spec fn files_after_discard_append(
    files: Map<Seq<char>, Seq<u8>>,
    p: Seq<char>,
    bytes: Seq<u8>,
) -> Map<Seq<char>, Seq<u8>> {
    files
}

/// The contents of the given part units, concatenated in the order given.
pub open spec fn parts_contents(files: Map<Seq<char>, Seq<u8>>, parts: Seq<Seq<char>>) -> Seq<u8>
    decreases parts.len(),
{
    if parts.len() == 0 {
        Seq::empty()
    } else {
        parts_contents(files, parts.drop_last()) + files[parts.last()]
    }
}

/// A concatenation succeeds exactly when the target unit and every part
/// unit exist.
pub open spec fn concat_succeeds(
    files: Map<Seq<char>, Seq<u8>>,
    target: Seq<char>,
    parts: Seq<Seq<char>>,
) -> bool {
    files.contains_key(target) && (forall|i: int|
        0 <= i < parts.len() ==> files.contains_key(#[trigger] parts[i]))
}

/// After a successful concatenation, the target unit has grown by the
/// parts' contents, in the order the parts were given; no part is touched.
pub open spec fn files_after_concat(
    files: Map<Seq<char>, Seq<u8>>,
    target: Seq<char>,
    parts: Seq<Seq<char>>,
) -> Map<Seq<char>, Seq<u8>> {
    files.insert(target, files[target] + parts_contents(files, parts))
}

/// Every part record has been created (its storage path is set).
pub open spec fn all_parts_created(parts: Seq<FileInfo>) -> bool {
    forall|i: int| 0 <= i < parts.len() ==> (#[trigger] parts[i]).has_path()
}

/// The resolved unit paths of the part records, in order.
pub open spec fn parts_paths(parts: Seq<FileInfo>) -> Seq<Seq<char>> {
    parts.map_values(|fi: FileInfo| fi.path_view())
}

/// Recursive directory creation is idempotent: recording a directory that
/// already exists leaves the directory set unchanged, and is never an
/// error — so it is safe under repeated and concurrent invocation.
pub proof fn lemma_ensure_dir_idempotent(dirs: Set<Seq<char>>, p: Seq<char>)
    requires
        dirs.contains(p),
    ensures
        dirs.insert(p) == dirs,
{
    assert(dirs.insert(p) =~= dirs);
}

/// Atomic create: when no unit exists for an id, of two creates for that id
/// — serialized in either order by the store's one atomic step — exactly
/// the one that runs first succeeds, and the second is rejected as a
/// creation conflict. Never two successes.
pub proof fn lemma_atomic_create(files: Map<Seq<char>, Seq<u8>>, p: Seq<char>)
    requires
        create_succeeds(files, p),
    ensures
        !create_succeeds(files_after_create(files, p), p),
{
}

/// Remove semantics: after a successful remove, the unit is gone, so both a
/// second remove and a fetch for delivery of the same id fail.
pub proof fn lemma_remove_then_gone(files: Map<Seq<char>, Seq<u8>>, p: Seq<char>)
    requires
        remove_succeeds(files, p),
    ensures
        !remove_succeeds(files_after_remove(files, p), p),
        !fetch_succeeds(files_after_remove(files, p), p),
{
}

/// Discard round trip: create, then append any payload, then fetch. The
/// fetch succeeds — the unit exists — but the payload is not retrievable:
/// the unit's contents are still empty. Silent data loss on append is
/// exactly what the discard backend's contract permits.
pub proof fn lemma_discard_round_trip(
    files: Map<Seq<char>, Seq<u8>>,
    p: Seq<char>,
    payload: Seq<u8>,
)
    requires
        create_succeeds(files, p),
    ensures
        fetch_succeeds(files_after_discard_append(files_after_create(files, p), p, payload), p),
        files_after_discard_append(files_after_create(files, p), p, payload)[p] == Seq::<
            u8,
        >::empty(),
{
}

/// Concatenation order: assembling a freshly created (still empty) target
/// from three parts holding `a`, `b` and `c` yields a unit whose bytes are
/// exactly `a + b + c`, in the order the parts were given.
pub proof fn lemma_concatenation_order(
    files: Map<Seq<char>, Seq<u8>>,
    target: Seq<char>,
    pa: Seq<char>,
    pb: Seq<char>,
    pc: Seq<char>,
)
    requires
        files.contains_key(target),
        files[target] == Seq::<u8>::empty(),
        files.contains_key(pa),
        files.contains_key(pb),
        files.contains_key(pc),
    ensures
        concat_succeeds(files, target, seq![pa, pb, pc]),
        files_after_concat(files, target, seq![pa, pb, pc])[target] == files[pa] + files[pb]
            + files[pc],
{
    let parts = seq![pa, pb, pc];
    let first_two = seq![pa, pb];
    let first_one = seq![pa];
    let none: Seq<Seq<char>> = Seq::empty();
    assert(parts[0] == pa && parts[1] == pb && parts[2] == pc);
    assert(parts.last() == pc && parts.drop_last() =~= first_two);
    assert(first_two.last() == pb && first_two.drop_last() =~= first_one);
    assert(first_one.last() == pa && first_one.drop_last() =~= none);
    assert(parts_contents(files, none) == Seq::<u8>::empty());
    assert(parts_contents(files, first_one) == parts_contents(files, none) + files[pa]);
    assert(parts_contents(files, first_two) == parts_contents(files, first_one) + files[pb]);
    assert(parts_contents(files, parts) == parts_contents(files, first_two) + files[pc]);
    assert(files[target] + parts_contents(files, parts) =~= files[pa] + files[pb] + files[pc]);
}

} // verus!
