use rust_multer::{
    ConfigError, Limits, Multer, MulterBuilder, MulterConfig, Selector, UnknownFieldPolicy,
};

#[derive(Debug, Clone, Copy, PartialEq, Eq)]
struct TestStorage {
    id: u8,
}

#[test]
fn builder_default_is_permissive() {
    let builder = MulterBuilder::default();
    assert_eq!(builder.config(), &MulterConfig::default());

    let multer = Multer::builder()
        .build()
        .expect("default builder config should be valid");
    assert_eq!(multer.config(), &MulterConfig::default());
}

#[test]
fn fluent_chaining_sets_expected_configuration() {
    let limits = Limits {
        max_file_size: Some(1024),
        max_files: Some(4),
        allowed_mime_types: vec!["image/*".to_owned()],
        ..Limits::default()
    };

    let multer = Multer::builder()
        .single("avatar")
        .unknown_field_policy(UnknownFieldPolicy::Reject)
        .limits(limits.clone())
        .build()
        .expect("builder config should validate");

    assert_eq!(
        multer.config(),
        &MulterConfig {
            selector: Selector::single("avatar"),
            unknown_field_policy: UnknownFieldPolicy::Reject,
            limits,
        }
    );
}

#[test]
fn builder_supports_custom_storage() {
    let multer = Multer::builder()
        .storage(TestStorage { id: 7 })
        .any()
        .build()
        .expect("builder config should validate");

    assert_eq!(multer.storage().id, 7);
}

#[test]
fn build_surfaces_config_errors() {
    let result = Multer::builder().array("photos", 0).build();
    assert!(matches!(
        result,
        Err(ConfigError::InvalidArrayMaxCount { .. })
    ));
}

#[test]
fn empty_single_name_is_rejected() {
    let result = Multer::builder().single("").build();
    assert!(matches!(result, Err(ConfigError::EmptyFieldName)));
}

#[test]
fn duplicate_fields_are_rejected() {
    let fields = vec![
        rust_multer::SelectedField::new("a"),
        rust_multer::SelectedField::new("b"),
        rust_multer::SelectedField::new("a"),
    ];
    let result = Multer::builder().fields(fields).build();
    match result {
        Err(ConfigError::DuplicateField { field }) => assert_eq!(field, "a"),
        other => panic!("unexpected result: {:?}", other.map(|_| ())),
    }
}

#[test]
fn limit_setters_fill_the_limits() {
    let config = MulterBuilder::new()
        .max_file_size(10)
        .max_field_size(20)
        .max_body_size(30)
        .max_files(2)
        .max_fields(3)
        .allowed_mime_types(vec!["text/*".to_owned()])
        .build_config()
        .expect("valid config");
    assert_eq!(config.limits.max_file_size, Some(10));
    assert_eq!(config.limits.max_field_size, Some(20));
    assert_eq!(config.limits.max_body_size, Some(30));
    assert_eq!(config.limits.max_files, Some(2));
    assert_eq!(config.limits.max_fields, Some(3));
    assert_eq!(config.limits.allowed_mime_types, vec!["text/*".to_owned()]);
}
