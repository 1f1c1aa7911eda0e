//! Error taxonomy: configuration, parse, storage, selector and limit errors.

use vstd::prelude::*;
use crate::text::{decimal, decimal_string};

verus! {

/// Malformed input: content type, boundary, header block or boundary lines.
#[derive(Debug)]
pub struct ParseError {
    /// Human-readable description of what was malformed.
    pub message: String,
}

impl ParseError {
    /// Creates a parse error carrying `message`.
    pub fn new(message: &str) -> (r: Self)
        ensures
            r.message@ == message@,
    {
        ParseError { message: message.to_owned() }
    }

    /// The error's message.
    pub fn to_string(&self) -> (r: String)
        ensures
            r@ == self.message@,
    {
        self.message.clone()
    }
}

/// Failure reported by a storage backend; wraps the underlying cause text.
#[derive(Debug)]
pub struct StorageError {
    /// Human-readable description of the failure.
    pub message: String,
}

impl StorageError {
    /// Creates a storage error carrying `message`.
    pub fn new(message: &str) -> (r: Self)
        ensures
            r.message@ == message@,
    {
        StorageError { message: message.to_owned() }
    }

    /// The error's message.
    pub fn to_string(&self) -> (r: String)
        ensures
            r@ == self.message@,
    {
        self.message.clone()
    }
}

/// Invalid configuration.
#[derive(Debug)]
pub enum ConfigError {
    /// An `Array` selector was given a maximum count of zero.
    InvalidArrayMaxCount { field: String },
    /// A selector names a field with an empty name.
    EmptyFieldName,
    /// A `Fields` selector lists the same name twice.
    DuplicateField { field: String },
}

impl ConfigError {
    /// A description of the error.
    pub fn to_string(&self) -> (r: String)
        ensures
            r@ == config_message(*self),
    {
        match self {
            ConfigError::InvalidArrayMaxCount { field } => {
                let mut s = String::from_str("array selector max count must be at least 1 for field ");
                s.append(field.as_str());
                s
            },
            ConfigError::EmptyFieldName => String::from_str("selector field names cannot be empty"),
            ConfigError::DuplicateField { field } => {
                let mut s = String::from_str("selector lists field more than once: ");
                s.append(field.as_str());
                s
            },
        }
    }
}

/// The description of a configuration error.
pub open spec fn config_message(e: ConfigError) -> Seq<char> {
    match e {
        ConfigError::InvalidArrayMaxCount { field } =>
            "array selector max count must be at least 1 for field "@ + field@,
        ConfigError::EmptyFieldName => "selector field names cannot be empty"@,
        ConfigError::DuplicateField { field } => "selector lists field more than once: "@ + field@,
    }
}

/// Every error the parser, the selector, the limits and the storage can surface.
#[derive(Debug)]
pub enum MulterError {
    /// Invalid configuration.
    Config(ConfigError),
    /// Malformed input.
    Parse(ParseError),
    /// A storage backend failed.
    Storage(StorageError),
    /// The chunk source ended before the closing boundary.
    IncompleteStream,
    /// A part names a field that the selector does not accept.
    UnexpectedField { field: String },
    /// More parts than allowed were sent for one field.
    FieldCountLimitExceeded { field: String, max_count: usize },
    /// A file part's body is larger than allowed.
    FileSizeLimitExceeded { field: String, max_file_size: u64 },
    /// A text part's body is larger than allowed.
    FieldSizeLimitExceeded { field: String, max_field_size: u64 },
    /// More file parts than allowed were accepted.
    FilesLimitExceeded { max_files: usize },
    /// More text parts than allowed were accepted.
    FieldsLimitExceeded { max_fields: usize },
    /// The request body is larger than allowed.
    BodySizeLimitExceeded { max_body_size: u64 },
    /// A file part's content type matches none of the allowed patterns.
    MimeTypeNotAllowed { field: String, mime: String },
}

/// The description of an error.
pub open spec fn multer_message(e: MulterError) -> Seq<char> {
    match e {
        MulterError::Config(c) => config_message(c),
        MulterError::Parse(p) => p.message@,
        MulterError::Storage(s) => s.message@,
        MulterError::IncompleteStream => "incomplete multipart stream"@,
        MulterError::UnexpectedField { field } => "unexpected field: "@ + field@,
        MulterError::FieldCountLimitExceeded { field, max_count } => "too many parts for field "@
            + field@ + ", maximum is "@ + decimal(max_count as nat),
        MulterError::FileSizeLimitExceeded { field, max_file_size } => "file too large in field "@
            + field@ + ", maximum is "@ + decimal(max_file_size as nat),
        MulterError::FieldSizeLimitExceeded { field, max_field_size } =>
            "text field too large: "@ + field@ + ", maximum is "@ + decimal(max_field_size as nat),
        MulterError::FilesLimitExceeded { max_files } => "too many files, maximum is "@ + decimal(
            max_files as nat,
        ),
        MulterError::FieldsLimitExceeded { max_fields } => "too many text fields, maximum is "@
            + decimal(max_fields as nat),
        MulterError::BodySizeLimitExceeded { max_body_size } => "request body too large, maximum is "@
            + decimal(max_body_size as nat),
        MulterError::MimeTypeNotAllowed { field, mime } => "MIME type not allowed in field "@
            + field@ + ": "@ + mime@,
    }
}

fn joined2(a: &str, b: &str) -> (r: String)
    ensures
        r@ == a@ + b@,
{
    let mut s = String::from_str(a);
    s.append(b);
    s
}

fn joined(a: &str, b: &str, c: &str, d: &str) -> (r: String)
    ensures
        r@ == a@ + b@ + c@ + d@,
{
    let mut s = String::from_str(a);
    s.append(b);
    s.append(c);
    s.append(d);
    s
}

impl MulterError {
    /// A description of the error.
    pub fn to_string(&self) -> (r: String)
        ensures
            r@ == multer_message(*self),
    {
        match self {
            MulterError::Config(c) => c.to_string(),
            MulterError::Parse(p) => p.to_string(),
            MulterError::Storage(s) => s.to_string(),
            MulterError::IncompleteStream => String::from_str("incomplete multipart stream"),
            MulterError::UnexpectedField { field } => joined2("unexpected field: ", field.as_str()),
            MulterError::FieldCountLimitExceeded { field, max_count } => {
                let n = decimal_string(*max_count as u64);
                joined("too many parts for field ", field.as_str(), ", maximum is ", n.as_str())
            },
            MulterError::FileSizeLimitExceeded { field, max_file_size } => {
                let n = decimal_string(*max_file_size);
                joined("file too large in field ", field.as_str(), ", maximum is ", n.as_str())
            },
            MulterError::FieldSizeLimitExceeded { field, max_field_size } => {
                let n = decimal_string(*max_field_size);
                joined("text field too large: ", field.as_str(), ", maximum is ", n.as_str())
            },
            MulterError::FilesLimitExceeded { max_files } => {
                let n = decimal_string(*max_files as u64);
                joined2("too many files, maximum is ", n.as_str())
            },
            MulterError::FieldsLimitExceeded { max_fields } => {
                let n = decimal_string(*max_fields as u64);
                joined2("too many text fields, maximum is ", n.as_str())
            },
            MulterError::BodySizeLimitExceeded { max_body_size } => {
                let n = decimal_string(*max_body_size);
                joined2("request body too large, maximum is ", n.as_str())
            },
            MulterError::MimeTypeNotAllowed { field, mime } => joined(
                "MIME type not allowed in field ",
                field.as_str(),
                ": ",
                mime.as_str(),
            ),
        }
    }
}

} // verus!
