//! The upload record: metadata describing one upload.
//!
//! A record is created in memory by the protocol layer before any storage
//! call; the backend's create operation resolves its storage path, which is
//! set exactly once and is immutable thereafter. An unset path means the
//! unit was never created, and every read, append, concatenate or remove on
//! such a record is a precondition error.

use vstd::prelude::*;

verus! {

/// Metadata describing one upload.
#[derive(Clone, Debug)]
pub struct FileInfo {
    /// Opaque unique identifier, assigned by the caller before any storage
    /// operation; immutable once assigned.
    pub id: String,
    /// Backend-resolved location of the storage unit. Set exactly once, on
    /// successful creation; `None` means "not yet created".
    pub path: Option<String>,
    /// Declared total length; descriptive metadata only, never interpreted
    /// by the storage layer.
    pub length: Option<u64>,
    /// Logical filename; used only to derive the content-disposition of a
    /// delivery.
    pub filename: Option<String>,
}

impl FileInfo {
    /// Whether a backend-level create has completed for this record.
    pub open spec fn has_path(&self) -> bool {
        self.path is Some
    }

    /// The resolved unit path; meaningful only when `has_path()`.
    pub open spec fn path_view(&self) -> Seq<char> {
        (self.path->Some_0)@
    }

    /// The name a delivery's content-disposition is derived from: the
    /// logical filename when one was declared, the id otherwise.
    pub open spec fn disposition_name(&self) -> Seq<char> {
        if self.filename is Some {
            (self.filename->Some_0)@
        } else {
            self.id@
        }
    }

    /// A fresh record: no storage unit exists for it yet.
    pub fn new(id: String, length: Option<u64>, filename: Option<String>) -> (r: FileInfo)
        ensures
            r.id == id,
            r.path is None,
            r.length == length,
            r.filename == filename,
    {
        FileInfo { id, path: None, length, filename }
    }

    /// Records the location returned by a successful create. The path is
    /// set exactly once: no other operation may establish it.
    pub fn set_path(&mut self, path: String)
        requires
            old(self).path is None,
        ensures
            final(self).path == Some(path),
            final(self).id == old(self).id,
            final(self).length == old(self).length,
            final(self).filename == old(self).filename,
    {
        self.path = Some(path);
    }

    /// The disposition filename of this record.
    pub fn get_filename(&self) -> (r: &str)
        ensures
            r@ == self.disposition_name(),
    {
        match &self.filename {
            Some(f) => f.as_str(),
            None => self.id.as_str(),
        }
    }
}

/// What a backend hands the protocol layer for delivery of a completed
/// unit: the disposition filename and the body bytes. A discard backend
/// delivers an empty body; a persistent backend delivers the unit's
/// contents.
pub struct Delivery {
    pub filename: String,
    pub body: Vec<u8>,
}

} // verus!
