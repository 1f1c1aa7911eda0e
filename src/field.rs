//! Field descriptors used to build `Fields` selectors.

use vstd::prelude::*;
use crate::config::{SelectedField, SelectedFieldKind};
use crate::limits::strings_view;

verus! {

/// A field descriptor: a file field or a text field.
#[derive(Debug, PartialEq, Eq)]
pub enum Field {
    /// File upload field.
    File(FileField),
    /// Text field.
    Text(TextField),
}

/// Whether a descriptor is for files or text.
#[derive(Debug, Clone, Copy, PartialEq, Eq, Structural)]
pub enum FieldKind {
    /// File parts.
    File,
    /// Text parts.
    Text,
}

/// File field with its constraints.
#[derive(Debug, PartialEq, Eq)]
pub struct FileField {
    /// Field name.
    pub name: String,
    /// Most files accepted under this name.
    pub max_count: Option<usize>,
    /// MIME patterns a file must match; empty allows every type.
    pub allowed_mime_types: Vec<String>,
}

/// Text field with its constraints.
#[derive(Debug, PartialEq, Eq)]
pub struct TextField {
    /// Field name.
    pub name: String,
    /// Largest accepted text, in bytes.
    pub max_size: Option<u64>,
}

impl FileField {
    /// A file field without constraints.
    pub fn new(name: &str) -> (r: Self)
        ensures
            r.name@ == name@,
            r.max_count is None,
            r.allowed_mime_types@.len() == 0,
    {
        FileField { name: name.to_owned(), max_count: None, allowed_mime_types: Vec::new() }
    }

    /// Sets the most files accepted.
    pub fn with_max_count(self, max_count: usize) -> (r: Self)
        ensures
            r.name == self.name,
            r.max_count == Some(max_count),
            r.allowed_mime_types == self.allowed_mime_types,
    {
        FileField { max_count: Some(max_count), ..self }
    }

    /// Same as [`FileField::with_max_count`].
    pub fn max_count(self, max_count: usize) -> (r: Self)
        ensures
            r.name == self.name,
            r.max_count == Some(max_count),
            r.allowed_mime_types == self.allowed_mime_types,
    {
        self.with_max_count(max_count)
    }

    /// Sets the MIME patterns.
    pub fn with_allowed_mime_types(self, patterns: Vec<String>) -> (r: Self)
        ensures
            r.name == self.name,
            r.max_count == self.max_count,
            r.allowed_mime_types == patterns,
    {
        FileField { allowed_mime_types: patterns, ..self }
    }

    /// Same as [`FileField::with_allowed_mime_types`].
    pub fn allowed_mime_types(self, patterns: Vec<String>) -> (r: Self)
        ensures
            r.name == self.name,
            r.max_count == self.max_count,
            r.allowed_mime_types == patterns,
    {
        self.with_allowed_mime_types(patterns)
    }
}

impl TextField {
    /// A text field without a size limit.
    pub fn new(name: &str) -> (r: Self)
        ensures
            r.name@ == name@,
            r.max_size is None,
    {
        TextField { name: name.to_owned(), max_size: None }
    }

    /// Sets the largest accepted text, in bytes.
    pub fn with_max_size(self, max_size: u64) -> (r: Self)
        ensures
            r.name == self.name,
            r.max_size == Some(max_size),
    {
        TextField { max_size: Some(max_size), ..self }
    }

    /// Same as [`TextField::with_max_size`].
    pub fn max_size(self, max_size: u64) -> (r: Self)
        ensures
            r.name == self.name,
            r.max_size == Some(max_size),
    {
        self.with_max_size(max_size)
    }

    /// Same as [`TextField::with_max_size`], with a length in bytes.
    pub fn with_max_length(self, max_length: usize) -> (r: Self)
        ensures
            r.name == self.name,
            r.max_size == Some(max_length as u64),
    {
        self.with_max_size(max_length as u64)
    }
}

impl Field {
    /// A selector entry for a file field named `name`.
    pub fn new(name: &str) -> (r: SelectedField)
        ensures
            r@.name == name@,
            r@.kind == SelectedFieldKind::File,
            r@.max_count is None,
            r@.max_size is None,
            r@.allowed_mime_types.len() == 0,
    {
        SelectedField::new(name)
    }

    /// A file field named `name`.
    pub fn file(name: &str) -> (r: Self)
        ensures
            r matches Field::File(f) && f.name@ == name@ && f.max_count is None
                && f.allowed_mime_types@.len() == 0,
    {
        Field::File(FileField::new(name))
    }

    /// A text field named `name`.
    pub fn text(name: &str) -> (r: Self)
        ensures
            r matches Field::Text(t) && t.name@ == name@ && t.max_size is None,
    {
        Field::Text(TextField::new(name))
    }

    /// Sets the most files accepted; text fields are unchanged.
    pub fn max_count(self, max_count: usize) -> (r: Self)
        ensures
            match self {
                Field::File(f) => r matches Field::File(g) && g.name == f.name && g.max_count == Some(
                    max_count,
                ) && g.allowed_mime_types == f.allowed_mime_types,
                Field::Text(t) => r == Field::Text(t),
            },
    {
        match self {
            Field::File(f) => Field::File(f.with_max_count(max_count)),
            Field::Text(t) => Field::Text(t),
        }
    }

    /// Sets the MIME patterns of a file field; text fields are unchanged.
    pub fn allowed_mime_types(self, patterns: Vec<String>) -> (r: Self)
        ensures
            match self {
                Field::File(f) => r matches Field::File(g) && g.name == f.name && g.max_count
                    == f.max_count && g.allowed_mime_types == patterns,
                Field::Text(t) => r == Field::Text(t),
            },
    {
        match self {
            Field::File(f) => Field::File(f.with_allowed_mime_types(patterns)),
            Field::Text(t) => Field::Text(t),
        }
    }

    /// Sets the largest accepted text; file fields are unchanged.
    pub fn max_size(self, max_size: u64) -> (r: Self)
        ensures
            match self {
                Field::Text(t) => r matches Field::Text(u) && u.name == t.name && u.max_size == Some(
                    max_size,
                ),
                Field::File(f) => r == Field::File(f),
            },
    {
        match self {
            Field::Text(t) => Field::Text(t.with_max_size(max_size)),
            Field::File(f) => Field::File(f),
        }
    }

    /// The field name.
    pub fn name(&self) -> (r: &str)
        ensures
            r@ == match self {
                Field::File(f) => f.name@,
                Field::Text(t) => t.name@,
            },
    {
        match self {
            Field::File(f) => f.name.as_str(),
            Field::Text(t) => t.name.as_str(),
        }
    }

    /// The kind of field.
    pub fn kind(&self) -> (r: FieldKind)
        ensures
            r == match self {
                Field::File(_) => FieldKind::File,
                Field::Text(_) => FieldKind::Text,
            },
    {
        match self {
            Field::File(_) => FieldKind::File,
            Field::Text(_) => FieldKind::Text,
        }
    }

    /// The selector entry this descriptor stands for.
    pub fn into_selected(self) -> (r: SelectedField)
        ensures
            match self {
                Field::File(f) => r@.name == f.name@ && r@.kind == SelectedFieldKind::File && r@.max_count
                    == f.max_count && r@.max_size is None && r@.allowed_mime_types == strings_view(
                    f.allowed_mime_types@,
                ),
                Field::Text(t) => r@.name == t.name@ && r@.kind == SelectedFieldKind::Text && r@.max_count
                    is None && r@.max_size == t.max_size && r@.allowed_mime_types.len() == 0,
            },
    {
        match self {
            Field::File(f) => SelectedField {
                name: f.name,
                kind: SelectedFieldKind::File,
                max_count: f.max_count,
                max_size: None,
                allowed_mime_types: f.allowed_mime_types,
            },
            Field::Text(t) => {
                let r = SelectedField {
                    name: t.name,
                    kind: SelectedFieldKind::Text,
                    max_count: None,
                    max_size: t.max_size,
                    allowed_mime_types: Vec::new(),
                };
                assert(r@.allowed_mime_types =~= Seq::<Seq<char>>::empty());
                r
            },
        }
    }
}

} // verus!
