//! Storage backends: the engine interface, metadata types, and the in-memory
//! backend. Disk storage keeps its file-name rules here; its I/O lives with
//! the application.

pub mod disk;
pub mod memory;

use vstd::prelude::*;
use crate::error::StorageError;
use crate::parser::headers::MediaType;

verus! {

/// Metadata of a file part before it is stored.
#[derive(Debug, PartialEq, Eq)]
pub struct FileMeta {
    /// Field name.
    pub field_name: String,
    /// File name from the part, when present.
    pub file_name: Option<String>,
    /// Content type of the part.
    pub content_type: String,
    /// Size hint in bytes, when known.
    pub size_hint: Option<u64>,
}

/// Metadata of a stored file.
#[derive(Debug, PartialEq, Eq)]
pub struct StoredFile {
    /// Backend-specific key or location.
    pub storage_key: String,
    /// Field name.
    pub field_name: String,
    /// File name from the part, when present.
    pub file_name: Option<String>,
    /// Content type of the part.
    pub content_type: MediaType,
    /// Stored size in bytes.
    pub size: u64,
    /// Filesystem path, for backends that write files.
    pub path: Option<String>,
}

/// A sink for file bodies.
pub trait StorageEngine {
    /// What a successful store returns.
    type Output;

    /// Stores one file body.
    fn store(
        &mut self,
        field_name: &str,
        file_name: Option<&str>,
        content_type: &MediaType,
        body: &[u8],
    ) -> Result<Self::Output, StorageError>;
}

/// The default backend: it stores nothing and refuses every file.
#[derive(Debug, Clone, Copy, Default, PartialEq, Eq)]
pub struct NoopStorage;

impl StorageEngine for NoopStorage {
    type Output = StoredFile;

    fn store(
        &mut self,
        field_name: &str,
        file_name: Option<&str>,
        content_type: &MediaType,
        body: &[u8],
    ) -> Result<StoredFile, StorageError> {
        Err(StorageError::new("no storage backend configured; choose a concrete storage engine"))
    }
}

} // verus!
