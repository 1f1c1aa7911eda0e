//! Parser configuration: the selector, the unknown-field policy and the limits.

use vstd::prelude::*;
use crate::error::ConfigError;
use crate::limits::{clone_strings, strings_view, Limits, LimitsView};

verus! {

/// Whether a selected field expects file parts or text parts.
#[derive(Debug, Clone, Copy, PartialEq, Eq, Structural)]
pub enum SelectedFieldKind {
    /// File parts (a `filename` is present).
    File,
    /// Text parts.
    Text,
}

/// What happens to a part that the selector does not name.
#[derive(Debug, Clone, Copy, PartialEq, Eq, Structural)]
pub enum UnknownFieldPolicy {
    /// Fail with `UnexpectedField`.
    Reject,
    /// Skip the part.
    Ignore,
}

/// One field of a `Fields` selector, with its constraints.
#[derive(Debug, PartialEq, Eq)]
pub struct SelectedField {
    /// Field name.
    pub name: String,
    /// Expected kind of part.
    pub kind: SelectedFieldKind,
    /// Most parts accepted under this name.
    pub max_count: Option<usize>,
    /// Largest accepted text body, in bytes.
    pub max_size: Option<u64>,
    /// MIME patterns a file part must match; empty allows every type.
    pub allowed_mime_types: Vec<String>,
}

/// Mathematical value of [`SelectedField`].
pub struct SelectedFieldView {
    pub name: Seq<char>,
    pub kind: SelectedFieldKind,
    pub max_count: Option<usize>,
    pub max_size: Option<u64>,
    pub allowed_mime_types: Seq<Seq<char>>,
}

impl View for SelectedField {
    type V = SelectedFieldView;

    open spec fn view(&self) -> SelectedFieldView {
        SelectedFieldView {
            name: self.name@,
            kind: self.kind,
            max_count: self.max_count,
            max_size: self.max_size,
            allowed_mime_types: strings_view(self.allowed_mime_types@),
        }
    }
}

impl Clone for SelectedField {
    fn clone(&self) -> (r: Self)
        ensures
            r@ == self@,
    {
        SelectedField {
            name: self.name.clone(),
            kind: self.kind,
            max_count: self.max_count,
            max_size: self.max_size,
            allowed_mime_types: clone_strings(&self.allowed_mime_types),
        }
    }
}

impl SelectedField {
    /// A file field named `name`, without constraints.
    pub fn new(name: &str) -> (r: Self)
        ensures
            r@.name == name@,
            r@.kind == SelectedFieldKind::File,
            r@.max_count is None,
            r@.max_size is None,
            r@.allowed_mime_types.len() == 0,
    {
        SelectedField {
            name: name.to_owned(),
            kind: SelectedFieldKind::File,
            max_count: None,
            max_size: None,
            allowed_mime_types: Vec::new(),
        }
    }
}

/// The views of a list of selected fields.
pub open spec fn fields_view(v: Seq<SelectedField>) -> Seq<SelectedFieldView> {
    v.map_values(|f: SelectedField| f@)
}

/// Copies a list of selected fields.
pub fn clone_fields(v: &Vec<SelectedField>) -> (r: Vec<SelectedField>)
    ensures
        fields_view(r@) == fields_view(v@),
{
    let mut out: Vec<SelectedField> = Vec::new();
    let mut i: usize = 0;
    while i < v.len()
        invariant
            i <= v@.len(),
            out@.len() == i,
            forall|j: int| 0 <= j < i ==> (#[trigger] out@[j])@ == v@[j]@,
        decreases v@.len() - i,
    {
        out.push(v[i].clone());
        i = i + 1;
    }
    assert(fields_view(out@) =~= fields_view(v@));
    out
}

/// Which file parts are accepted, by field name.
#[derive(Debug, PartialEq, Eq)]
pub enum Selector {
    /// At most one file, under `name`.
    Single { name: String },
    /// Files under `name`, at most `max_count` of them when set.
    Array { name: String, max_count: Option<usize> },
    /// The listed fields, each with its kind and constraints.
    Fields(Vec<SelectedField>),
    /// No file at all.
    NoFiles,
    /// Every file.
    Any,
}

/// Mathematical value of [`Selector`].
pub enum SelectorView {
    Single { name: Seq<char> },
    Array { name: Seq<char>, max_count: Option<usize> },
    Fields(Seq<SelectedFieldView>),
    NoFiles,
    Any,
}

impl View for Selector {
    type V = SelectorView;

    open spec fn view(&self) -> SelectorView {
        match self {
            Selector::Single { name } => SelectorView::Single { name: name@ },
            Selector::Array { name, max_count } => SelectorView::Array {
                name: name@,
                max_count: *max_count,
            },
            Selector::Fields(fields) => SelectorView::Fields(fields_view(fields@)),
            Selector::NoFiles => SelectorView::NoFiles,
            Selector::Any => SelectorView::Any,
        }
    }
}

impl Clone for Selector {
    fn clone(&self) -> (r: Self)
        ensures
            r@ == self@,
    {
        match self {
            Selector::Single { name } => Selector::Single { name: name.clone() },
            Selector::Array { name, max_count } => Selector::Array {
                name: name.clone(),
                max_count: *max_count,
            },
            Selector::Fields(fields) => Selector::Fields(clone_fields(fields)),
            Selector::NoFiles => Selector::NoFiles,
            Selector::Any => Selector::Any,
        }
    }
}

impl Selector {
    /// `Single` for `name`.
    pub fn single(name: &str) -> (r: Self)
        ensures
            r@ == (SelectorView::Single { name: name@ }),
    {
        Selector::Single { name: name.to_owned() }
    }

    /// `Array` for `name` with at most `max_count` files.
    pub fn array(name: &str, max_count: usize) -> (r: Self)
        ensures
            r@ == (SelectorView::Array { name: name@, max_count: Some(max_count) }),
    {
        Selector::Array { name: name.to_owned(), max_count: Some(max_count) }
    }

    /// `Fields` for the given list.
    pub fn fields(fields: Vec<SelectedField>) -> (r: Self)
        ensures
            r@ == SelectorView::Fields(fields_view(fields@)),
    {
        Selector::Fields(fields)
    }

    /// `None`: no file is selected.
    pub fn none() -> (r: Self)
        ensures
            r@ == SelectorView::NoFiles,
    {
        Selector::NoFiles
    }

    /// `Any`: every file is selected.
    pub fn any() -> (r: Self)
        ensures
            r@ == SelectorView::Any,
    {
        Selector::Any
    }
}

/// Mathematical value of a [`ConfigError`].
pub enum ConfigFault {
    ArrayMaxCount(Seq<char>),
    EmptyName,
    Duplicate(Seq<char>),
}

/// The mathematical value of a configuration error.
pub open spec fn fault_of(e: ConfigError) -> ConfigFault {
    match e {
        ConfigError::InvalidArrayMaxCount { field } => ConfigFault::ArrayMaxCount(field@),
        ConfigError::EmptyFieldName => ConfigFault::EmptyName,
        ConfigError::DuplicateField { field } => ConfigFault::Duplicate(field@),
    }
}

/// The first fault among `fields[i..]`: an empty name, or a name that an
/// earlier entry already used.
pub open spec fn fields_fault_from(fields: Seq<SelectedFieldView>, i: int) -> Option<ConfigFault>
    decreases fields.len() - i,
{
    if i < 0 || i >= fields.len() {
        None
    } else if fields[i].name.len() == 0 {
        Some(ConfigFault::EmptyName)
    } else if exists|j: int| 0 <= j < i && #[trigger] fields[j].name == fields[i].name {
        Some(ConfigFault::Duplicate(fields[i].name))
    } else {
        fields_fault_from(fields, i + 1)
    }
}

/// The first fault of a selector, if any.
pub open spec fn selector_fault(s: SelectorView) -> Option<ConfigFault> {
    match s {
        SelectorView::Single { name } => if name.len() == 0 {
            Some(ConfigFault::EmptyName)
        } else {
            None
        },
        SelectorView::Array { name, max_count } => if name.len() == 0 {
            Some(ConfigFault::EmptyName)
        } else if max_count == Some(0usize) {
            Some(ConfigFault::ArrayMaxCount(name))
        } else {
            None
        },
        SelectorView::Fields(fields) => fields_fault_from(fields, 0),
        SelectorView::NoFiles => None,
        SelectorView::Any => None,
    }
}

/// Full parser configuration.
#[derive(Debug, PartialEq, Eq)]
pub struct MulterConfig {
    /// Which file parts are accepted.
    pub selector: Selector,
    /// What happens to parts that the selector does not name.
    pub unknown_field_policy: UnknownFieldPolicy,
    /// Global limits.
    pub limits: Limits,
}

/// Mathematical value of [`MulterConfig`].
pub struct MulterConfigView {
    pub selector: SelectorView,
    pub unknown_field_policy: UnknownFieldPolicy,
    pub limits: LimitsView,
}

impl View for MulterConfig {
    type V = MulterConfigView;

    open spec fn view(&self) -> MulterConfigView {
        MulterConfigView {
            selector: self.selector@,
            unknown_field_policy: self.unknown_field_policy,
            limits: self.limits@,
        }
    }
}

impl Clone for MulterConfig {
    fn clone(&self) -> (r: Self)
        ensures
            r@ == self@,
    {
        MulterConfig {
            selector: self.selector.clone(),
            unknown_field_policy: self.unknown_field_policy,
            limits: self.limits.clone(),
        }
    }
}

/// The permissive configuration: any file, unknown fields ignored, no limits.
pub open spec fn is_default_config(c: MulterConfigView) -> bool {
    &&& c.selector == SelectorView::Any
    &&& c.unknown_field_policy == UnknownFieldPolicy::Ignore
    &&& c.limits.max_file_size is None
    &&& c.limits.max_field_size is None
    &&& c.limits.max_body_size is None
    &&& c.limits.max_files is None
    &&& c.limits.max_fields is None
    &&& c.limits.allowed_mime_types.len() == 0
}

impl Default for MulterConfig {
    fn default() -> (r: Self)
        ensures
            is_default_config(r@),
    {
        MulterConfig {
            selector: Selector::Any,
            unknown_field_policy: UnknownFieldPolicy::Ignore,
            limits: Limits::default(),
        }
    }
}

fn fields_fault(fields: &Vec<SelectedField>) -> (r: Option<ConfigError>)
    ensures
        r is None <==> fields_fault_from(fields_view(fields@), 0) is None,
        r matches Some(e) ==> fields_fault_from(fields_view(fields@), 0) == Some(fault_of(e)),
{
    let ghost fv = fields_view(fields@);
    let mut i: usize = 0;
    while i < fields.len()
        invariant
            i <= fields@.len(),
            fv == fields_view(fields@),
            fields_fault_from(fv, 0) == fields_fault_from(fv, i as int),
        decreases fields@.len() - i,
    {
        assert(fv[i as int] == fields@[i as int]@);
        if fields[i].name.as_str().is_empty() {
            assert(fields@[i as int].name@.len() == 0);
            return Some(ConfigError::EmptyFieldName);
        }
        let mut j: usize = 0;
        while j < i
            invariant
                j <= i,
                i < fields@.len(),
                fv == fields_view(fields@),
                fields_fault_from(fv, 0) == fields_fault_from(fv, i as int),
                fv[i as int].name.len() != 0,
                forall|k: int| 0 <= k < j ==> fv[k].name != fv[i as int].name,
            decreases i - j,
        {
            if fields[j].name == fields[i].name {
                assert(fv[j as int] == fields@[j as int]@);
                assert(fv[j as int].name == fv[i as int].name);
                return Some(ConfigError::DuplicateField { field: fields[i].name.clone() });
            }
            assert(fv[j as int] == fields@[j as int]@);
            j = j + 1;
        }
        assert(!exists|k: int| 0 <= k < i && #[trigger] fv[k].name == fv[i as int].name);
        i = i + 1;
    }
    None
}

impl MulterConfig {
    /// Checks the selector: names are non-empty, an `Array` maximum is not zero,
    /// and a `Fields` list names each field once.
    pub fn validate(&self) -> (r: Result<(), ConfigError>)
        ensures
            r is Ok <==> selector_fault(self@.selector) is None,
            r matches Err(e) ==> selector_fault(self@.selector) == Some(fault_of(e)),
    {
        match &self.selector {
            Selector::Single { name } => {
                if name.as_str().is_empty() {
                    return Err(ConfigError::EmptyFieldName);
                }
                Ok(())
            },
            Selector::Array { name, max_count } => {
                if name.as_str().is_empty() {
                    return Err(ConfigError::EmptyFieldName);
                }
                if let Some(m) = max_count {
                    if *m == 0 {
                        return Err(ConfigError::InvalidArrayMaxCount { field: name.clone() });
                    }
                }
                Ok(())
            },
            Selector::Fields(fields) => match fields_fault(fields) {
                Some(e) => Err(e),
                None => Ok(()),
            },
            Selector::NoFiles => Ok(()),
            Selector::Any => Ok(()),
        }
    }
}

} // verus!
