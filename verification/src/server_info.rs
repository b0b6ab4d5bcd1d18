//! Capability negotiation: how the server advertises its protocol
//! extensions.
//!
//! A pure function of configuration: given the enabled capabilities, it
//! renders the comma-joined capability list (order-stable, in the order the
//! configuration gives) and, exactly when checksum support is enabled, the
//! fixed list of supported hash algorithms. No state, no I/O.

use vstd::prelude::*;
use vstd::string::StringExecFns;

verus! {

/// A protocol capability (extension) the server may advertise.
#[derive(Clone, Copy, Debug, PartialEq, Eq, Structural)]
pub enum Extension {
    Creation,
    CreationWithUpload,
    CreationDeferLength,
    Termination,
    Concatenation,
    Getting,
    Checksum,
}

/// The wire name of a capability.
pub open spec fn extension_name(e: Extension) -> Seq<char> {
    match e {
        Extension::Creation => "creation"@,
        Extension::CreationWithUpload => "creation-with-upload"@,
        Extension::CreationDeferLength => "creation-defer-length"@,
        Extension::Termination => "termination"@,
        Extension::Concatenation => "concatenation"@,
        Extension::Getting => "getting"@,
        Extension::Checksum => "checksum"@,
    }
}

/// The names of the given capabilities, comma-joined, in the order given.
pub open spec fn joined_names(exts: Seq<Extension>) -> Seq<char>
    decreases exts.len(),
{
    if exts.len() == 0 {
        Seq::empty()
    } else if exts.len() == 1 {
        extension_name(exts[0])
    } else {
        joined_names(exts.drop_last()) + seq![','] + extension_name(exts.last())
    }
}

impl Extension {
    /// The wire name of this capability.
    pub fn name(&self) -> (r: &'static str)
        ensures
            r@ == extension_name(*self),
    {
        match self {
            Extension::Creation => "creation",
            Extension::CreationWithUpload => "creation-with-upload",
            Extension::CreationDeferLength => "creation-defer-length",
            Extension::Termination => "termination",
            Extension::Concatenation => "concatenation",
            Extension::Getting => "getting",
            Extension::Checksum => "checksum",
        }
    }
}

/// The fixed list of hash algorithms advertised along with checksum
/// support.
pub fn checksum_algorithms() -> (r: &'static str)
    ensures
        r@ == "md5,sha1,sha256,sha512"@,
{
    "md5,sha1,sha256,sha512"
}

/// Whether `e` is among the enabled capabilities.
pub fn has_extension(exts: &Vec<Extension>, e: Extension) -> (r: bool)
    ensures
        r == exts@.contains(e),
{
    let n = exts.len();
    let mut i: usize = 0;
    while i < n
        invariant
            i <= n,
            n == exts@.len(),
            forall|j: int| 0 <= j < i ==> exts@[j] != e,
        decreases n - i,
    {
        if exts[i] == e {
            return true;
        }
        i = i + 1;
    }
    proof {
        if exts@.contains(e) {
            let j = choose|j: int| 0 <= j < exts@.len() && exts@[j] == e;
        }
    }
    false
}

/// Renders the capability header value: the enabled capabilities' names,
/// comma-separated, order-stable.
pub fn render_extensions(exts: &Vec<Extension>) -> (r: String)
    ensures
        r@ == joined_names(exts@),
{
    let mut s = String::new();
    let n = exts.len();
    let mut i: usize = 0;
    while i < n
        invariant
            i <= n,
            n == exts@.len(),
            s@ == joined_names(exts@.subrange(0, i as int)),
        decreases n - i,
    {
        if i > 0 {
            s.append(",");
        }
        s.append(exts[i].name());
        proof {
            reveal_strlit(",");
            let prefix = exts@.subrange(0, i as int);
            let cur = exts@.subrange(0, i + 1 as int);
            assert(cur.drop_last() =~= prefix);
            assert(cur.last() == exts@[i as int]);
            if i == 0 {
                assert(s@ =~= joined_names(cur));
            } else {
                assert(","@ =~= seq![',']);
                assert(s@ =~= joined_names(cur));
            }
        }
        i = i + 1;
    }
    proof {
        assert(exts@.subrange(0, n as int) =~= exts@);
    }
    s
}

/// The server's capability advertisement: the extension-list header value
/// and, when checksum support is enabled, the fixed algorithm-list header
/// value.
pub struct ServerInfo {
    pub extensions: String,
    pub checksum_algorithms: Option<String>,
}

/// Computes the capability advertisement from the enabled capabilities:
/// their names comma-joined in the order given, plus the fixed
/// hash-algorithm list exactly when checksum support is enabled.
pub fn server_info(extensions: &Vec<Extension>) -> (r: ServerInfo)
    ensures
        r.extensions@ == joined_names(extensions@),
        extensions@.contains(Extension::Checksum) ==> (r.checksum_algorithms matches Some(s)
            && s@ == "md5,sha1,sha256,sha512"@),
        !extensions@.contains(Extension::Checksum) ==> r.checksum_algorithms is None,
{
    let ext_str = render_extensions(extensions);
    let checksum = if has_extension(extensions, Extension::Checksum) {
        Some(checksum_algorithms().to_owned())
    } else {
        None
    };
    ServerInfo { extensions: ext_str, checksum_algorithms: checksum }
}

} // verus!
