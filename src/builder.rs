//! Fluent configuration of a [`Multer`].

use vstd::prelude::*;
use crate::config::{
    fault_of, fields_view, is_default_config, selector_fault, MulterConfig, MulterConfigView,
    SelectedField, Selector, SelectorView, UnknownFieldPolicy,
};
use crate::error::ConfigError;
use crate::limits::{strings_view, Limits};
use crate::storage::NoopStorage;
use crate::Multer;

verus! {

/// Builder of a [`Multer`]: a configuration and a storage backend.
#[derive(Debug)]
pub struct MulterBuilder<S> {
    config: MulterConfig,
    storage: S,
}

impl Default for MulterBuilder<NoopStorage> {
    /// The permissive configuration and no storage backend.
    fn default() -> (r: Self)
        ensures
            is_default_config(r.config_view()),
    {
        MulterBuilder { config: MulterConfig::default(), storage: NoopStorage }
    }
}

impl MulterBuilder<NoopStorage> {
    /// The permissive configuration and no storage backend.
    pub fn new() -> (r: Self)
        ensures
            is_default_config(r.config_view()),
    {
        MulterBuilder { config: MulterConfig::default(), storage: NoopStorage }
    }
}

impl<S> MulterBuilder<S> {
    /// The configuration built so far.
    pub closed spec fn config_view(&self) -> MulterConfigView {
        self.config@
    }

    /// The storage backend.
    pub closed spec fn storage_view(&self) -> S {
        self.storage
    }

    /// The configuration built so far.
    pub fn config(&self) -> (r: &MulterConfig)
        ensures
            r@ == self.config_view(),
    {
        &self.config
    }

    /// Replaces the storage backend.
    pub fn storage<T>(self, storage: T) -> (r: MulterBuilder<T>)
        ensures
            r.config_view() == self.config_view(),
            r.storage_view() == storage,
    {
        MulterBuilder { config: self.config, storage }
    }

    /// Replaces the whole configuration.
    pub fn with_config(self, config: MulterConfig) -> (r: Self)
        ensures
            r.config_view() == config@,
            r.storage_view() == self.storage_view(),
    {
        MulterBuilder { config, storage: self.storage }
    }

    /// Sets the selector.
    pub fn selector(self, selector: Selector) -> (r: Self)
        ensures
            r.config_view() == (MulterConfigView { selector: selector@, ..self.config_view() }),
            r.storage_view() == self.storage_view(),
    {
        let MulterBuilder { config, storage } = self;
        MulterBuilder { config: MulterConfig { selector, ..config }, storage }
    }

    /// Accepts one file, under `name`.
    pub fn single(self, name: &str) -> (r: Self)
        ensures
            r.config_view() == (MulterConfigView {
                selector: SelectorView::Single { name: name@ },
                ..self.config_view()
            }),
            r.storage_view() == self.storage_view(),
    {
        self.selector(Selector::single(name))
    }

    /// Accepts up to `max_count` files under `name`.
    pub fn array(self, name: &str, max_count: usize) -> (r: Self)
        ensures
            r.config_view() == (MulterConfigView {
                selector: SelectorView::Array { name: name@, max_count: Some(max_count) },
                ..self.config_view()
            }),
            r.storage_view() == self.storage_view(),
    {
        self.selector(Selector::array(name, max_count))
    }

    /// Accepts the listed fields.
    pub fn fields(self, fields: Vec<SelectedField>) -> (r: Self)
        ensures
            r.config_view() == (MulterConfigView {
                selector: SelectorView::Fields(fields_view(fields@)),
                ..self.config_view()
            }),
            r.storage_view() == self.storage_view(),
    {
        self.selector(Selector::fields(fields))
    }

    /// Accepts no file.
    pub fn none(self) -> (r: Self)
        ensures
            r.config_view() == (MulterConfigView { selector: SelectorView::NoFiles, ..self.config_view() }),
            r.storage_view() == self.storage_view(),
    {
        self.selector(Selector::none())
    }

    /// Accepts every file.
    pub fn any(self) -> (r: Self)
        ensures
            r.config_view() == (MulterConfigView { selector: SelectorView::Any, ..self.config_view() }),
            r.storage_view() == self.storage_view(),
    {
        self.selector(Selector::any())
    }

    /// Sets the unknown-field policy.
    pub fn unknown_field_policy(self, policy: UnknownFieldPolicy) -> (r: Self)
        ensures
            r.config_view() == (MulterConfigView { unknown_field_policy: policy, ..self.config_view() }),
            r.storage_view() == self.storage_view(),
    {
        let MulterBuilder { config, storage } = self;
        MulterBuilder { config: MulterConfig { unknown_field_policy: policy, ..config }, storage }
    }

    /// Same as [`MulterBuilder::unknown_field_policy`].
    pub fn on_unknown_field(self, policy: UnknownFieldPolicy) -> (r: Self)
        ensures
            r.config_view() == (MulterConfigView { unknown_field_policy: policy, ..self.config_view() }),
            r.storage_view() == self.storage_view(),
    {
        self.unknown_field_policy(policy)
    }

    /// Replaces the limits.
    pub fn limits(self, limits: Limits) -> (r: Self)
        ensures
            r.config_view() == (MulterConfigView { limits: limits@, ..self.config_view() }),
            r.storage_view() == self.storage_view(),
    {
        let MulterBuilder { config, storage } = self;
        MulterBuilder { config: MulterConfig { limits, ..config }, storage }
    }

    /// Sets the largest accepted file, in bytes.
    pub fn max_file_size(self, max_file_size: u64) -> (r: Self)
        ensures
            r.config_view() == (MulterConfigView {
                limits: crate::limits::LimitsView { max_file_size: Some(max_file_size), ..self.config_view().limits },
                ..self.config_view()
            }),
            r.storage_view() == self.storage_view(),
    {
        let MulterBuilder { mut config, storage } = self;
        config.limits.max_file_size = Some(max_file_size);
        MulterBuilder { config, storage }
    }

    /// Sets the most files accepted.
    pub fn max_files(self, max_files: usize) -> (r: Self)
        ensures
            r.config_view() == (MulterConfigView {
                limits: crate::limits::LimitsView { max_files: Some(max_files), ..self.config_view().limits },
                ..self.config_view()
            }),
            r.storage_view() == self.storage_view(),
    {
        let MulterBuilder { mut config, storage } = self;
        config.limits.max_files = Some(max_files);
        MulterBuilder { config, storage }
    }

    /// Sets the largest accepted text field, in bytes.
    pub fn max_field_size(self, max_field_size: u64) -> (r: Self)
        ensures
            r.config_view() == (MulterConfigView {
                limits: crate::limits::LimitsView { max_field_size: Some(max_field_size), ..self.config_view().limits },
                ..self.config_view()
            }),
            r.storage_view() == self.storage_view(),
    {
        let MulterBuilder { mut config, storage } = self;
        config.limits.max_field_size = Some(max_field_size);
        MulterBuilder { config, storage }
    }

    /// Sets the most text fields accepted.
    pub fn max_fields(self, max_fields: usize) -> (r: Self)
        ensures
            r.config_view() == (MulterConfigView {
                limits: crate::limits::LimitsView { max_fields: Some(max_fields), ..self.config_view().limits },
                ..self.config_view()
            }),
            r.storage_view() == self.storage_view(),
    {
        let MulterBuilder { mut config, storage } = self;
        config.limits.max_fields = Some(max_fields);
        MulterBuilder { config, storage }
    }

    /// Sets the largest accepted request body, in bytes.
    pub fn max_body_size(self, max_body_size: u64) -> (r: Self)
        ensures
            r.config_view() == (MulterConfigView {
                limits: crate::limits::LimitsView { max_body_size: Some(max_body_size), ..self.config_view().limits },
                ..self.config_view()
            }),
            r.storage_view() == self.storage_view(),
    {
        let MulterBuilder { mut config, storage } = self;
        config.limits.max_body_size = Some(max_body_size);
        MulterBuilder { config, storage }
    }

    /// Sets the global MIME allow-list.
    pub fn allowed_mime_types(self, allowed_mime_types: Vec<String>) -> (r: Self)
        ensures
            r.config_view() == (MulterConfigView {
                limits: crate::limits::LimitsView {
                    allowed_mime_types: strings_view(allowed_mime_types@),
                    ..self.config_view().limits
                },
                ..self.config_view()
            }),
            r.storage_view() == self.storage_view(),
    {
        let MulterBuilder { mut config, storage } = self;
        config.limits.allowed_mime_types = allowed_mime_types;
        MulterBuilder { config, storage }
    }

    /// Checks the configuration.
    pub fn validate(&self) -> (r: Result<(), ConfigError>)
        ensures
            r is Ok <==> selector_fault(self.config_view().selector) is None,
            r matches Err(e) ==> selector_fault(self.config_view().selector) == Some(fault_of(e)),
    {
        self.config.validate()
    }

    /// The configuration, once checked.
    pub fn build_config(self) -> (r: Result<MulterConfig, ConfigError>)
        ensures
            r is Ok <==> selector_fault(self.config_view().selector) is None,
            r matches Ok(c) ==> c@ == self.config_view(),
            r matches Err(e) ==> selector_fault(self.config_view().selector) == Some(fault_of(e)),
    {
        match self.config.validate() {
            Ok(()) => Ok(self.config),
            Err(e) => Err(e),
        }
    }

    /// The configured [`Multer`], once the configuration is checked.
    pub fn build(self) -> (r: Result<Multer<S>, ConfigError>)
        ensures
            r is Ok <==> selector_fault(self.config_view().selector) is None,
            r matches Ok(m) ==> m.config_view() == self.config_view() && m.storage_view()
                == self.storage_view(),
            r matches Err(e) ==> selector_fault(self.config_view().selector) == Some(fault_of(e)),
    {
        Multer::with_config(self.storage, self.config)
    }
}

} // verus!
