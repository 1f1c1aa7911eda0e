//! In-memory storage: a table from storage keys to file bodies.

use vstd::prelude::*;
use crate::error::StorageError;
use crate::parser::headers::MediaType;
use crate::storage::{StorageEngine, StoredFile};
use crate::text::{decimal, decimal_string};

verus! {

/// The key under which the `n`-th stored file of field `field` is kept.
pub open spec fn memory_key(field: Seq<char>, n: nat) -> Seq<char> {
    field + "-"@ + decimal(n)
}

/// In-memory storage backend.
#[derive(Debug)]
pub struct MemoryStorage {
    entries: Vec<(String, Vec<u8>)>,
}

impl MemoryStorage {
    /// The stored (key, body) entries, in order of storing.
    pub closed spec fn entries(&self) -> Seq<(Seq<char>, Seq<u8>)> {
        self.entries@.map_values(|e: (String, Vec<u8>)| (e.0@, e.1@))
    }

    /// An empty store.
    pub fn new() -> (r: Self)
        ensures
            r.entries().len() == 0,
    {
        MemoryStorage { entries: Vec::new() }
    }

    /// Number of stored files.
    pub fn len(&self) -> (r: usize)
        ensures
            r == self.entries().len(),
    {
        self.entries.len()
    }

    /// Is the store empty?
    pub fn is_empty(&self) -> (r: bool)
        ensures
            r == (self.entries().len() == 0),
    {
        self.entries.len() == 0
    }

    /// The body stored under `key` (the first entry with that key).
    pub fn get(&self, key: &str) -> (r: Option<&Vec<u8>>)
        ensures
            r matches Some(b) ==> exists|i: int|
                0 <= i < self.entries().len() && #[trigger] self.entries()[i] == (key@, b@),
            r is None ==> forall|i: int| 0 <= i < self.entries().len() ==> #[trigger] self.entries()[i].0 != key@,
    {
        let k = key.to_owned();
        let mut i: usize = 0;
        while i < self.entries.len()
            invariant
                k@ == key@,
                i <= self.entries@.len(),
                forall|j: int| 0 <= j < i ==> #[trigger] self.entries()[j].0 != key@,
            decreases self.entries@.len() - i,
        {
            assert(self.entries()[i as int] == (self.entries@[i as int].0@, self.entries@[i as int].1@));
            if self.entries[i].0 == k {
                return Some(&self.entries[i].1);
            }
            i = i + 1;
        }
        None
    }

    /// Stores `body` under the key `{field}-{n}`, `n` being the number of
    /// files stored before; the result's size is the body's length.
    pub fn store_body(&mut self, field_name: &str, file_name: Option<&str>, content_type: &MediaType, body: &[u8]) -> (r: StoredFile)
        requires
            old(self).entries().len() < usize::MAX,
        ensures
            r.size == body@.len(),
            r.storage_key@ == memory_key(field_name@, old(self).entries().len()),
            r.field_name@ == field_name@,
            r.path is None,
            r.content_type.essence@ == content_type.essence@,
            match file_name {
                Some(f) => r.file_name matches Some(g) && g@ == f@,
                None => r.file_name is None,
            },
            final(self).entries() == old(self).entries().push((r.storage_key@, body@)),
    {
        let n = decimal_string(self.entries.len() as u64);
        let mut key = String::from_str(field_name);
        key.append("-");
        key.append(n.as_str());
        let mut data: Vec<u8> = Vec::new();
        let mut i: usize = 0;
        while i < body.len()
            invariant
                i <= body@.len(),
                data@ == body@.subrange(0, i as int),
            decreases body@.len() - i,
        {
            data.push(body[i]);
            assert(body@.subrange(0, i + 1) == body@.subrange(0, i as int).push(body@[i as int]));
            i = i + 1;
        }
        assert(body@.subrange(0, body@.len() as int) == body@);
        let ghost before = self.entries();
        self.entries.push((key.clone(), data));
        assert(self.entries() =~= before.push((key@, body@)));
        StoredFile {
            storage_key: key,
            field_name: field_name.to_owned(),
            file_name: match file_name {
                Some(f) => Some(f.to_owned()),
                None => None,
            },
            content_type: MediaType { essence: content_type.essence.clone(), text: content_type.text.clone() },
            size: body.len() as u64,
            path: None,
        }
    }
}

impl StorageEngine for MemoryStorage {
    type Output = StoredFile;

    fn store(
        &mut self,
        field_name: &str,
        file_name: Option<&str>,
        content_type: &MediaType,
        body: &[u8],
    ) -> Result<StoredFile, StorageError> {
        if self.entries.len() == usize::MAX {
            return Err(StorageError::new("memory storage is full"));
        }
        Ok(self.store_body(field_name, file_name, content_type, body))
    }
}

} // verus!
