//! Derivation of storage unit paths.
//!
//! A unit lives at `{base-dir}/{segment}/{id}`: the base data directory
//! (held in canonical form; resolving a configured directory to canonical
//! form is filesystem work and happens outside the library), joined with
//! the directory segment the path resolver derived from the directory
//! template, joined with the upload id.

use vstd::prelude::*;
use vstd::string::StringExecFns;

verus! {

/// `a`, then the path separator, then `b`.
pub open spec fn joined(a: Seq<char>, b: Seq<char>) -> Seq<char> {
    a + seq!['/'] + b
}

/// The directory that holds a unit: the base directory joined with the
/// resolved template segment.
pub open spec fn dir_path(base: Seq<char>, segment: Seq<char>) -> Seq<char> {
    joined(base, segment)
}

/// Where the unit for `id` lives under `base` and `segment`.
pub open spec fn unit_path(base: Seq<char>, segment: Seq<char>, id: Seq<char>) -> Seq<char> {
    joined(dir_path(base, segment), id)
}

/// Joins one path component onto `base`.
pub fn join_path(base: &str, tail: &str) -> (r: String)
    ensures
        r@ == joined(base@, tail@),
{
    let mut s = base.to_owned();
    s.append("/");
    s.append(tail);
    proof {
        reveal_strlit("/");
        assert(s@ =~= joined(base@, tail@));
    }
    s
}

} // verus!
