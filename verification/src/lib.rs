//! A storage abstraction for resumable file uploads.
//!
//! Uploads are identified by an id, created before any bytes arrive, grown
//! incrementally, assembled from independently uploaded parts, and removed.
//! The backing store is modelled explicitly, so the lifecycle contract —
//! atomic creation, precondition enforcement, ordered concatenation, and
//! strict removal — is stated and machine-checked.

pub mod contract;
pub mod errors;
pub mod file_info;
pub mod file_storage;
pub mod null_storage;
pub mod paths;
pub mod server_info;
pub mod store;
