//! A parsed part: its headers and its body.

use vstd::prelude::*;
use crate::error::{MulterError, ParseError};
use crate::parser::headers::{MediaType, ParsedPartHeaders};
use crate::parser::stream::ParsedPart;
use crate::text::decode_utf8_bytes;

verus! {

/// One multipart entry handed to the consumer.
#[derive(Debug, PartialEq, Eq)]
pub struct Part {
    /// The part's headers.
    pub headers: ParsedPartHeaders,
    /// The part's body.
    pub body: Vec<u8>,
}

impl Part {
    /// The part that the parser produced.
    pub fn from_parsed(parsed: ParsedPart) -> (r: Self)
        ensures
            r.headers == parsed.headers,
            r.body == parsed.body,
    {
        Part { headers: parsed.headers, body: parsed.body }
    }

    /// The field name.
    pub fn field_name(&self) -> (r: &str)
        ensures
            r@ == self.headers.field_name@,
    {
        self.headers.field_name.as_str()
    }

    /// The file name; present exactly for file parts.
    pub fn file_name(&self) -> (r: Option<&str>)
        ensures
            match self.headers.file_name {
                Some(f) => r matches Some(x) && x@ == f@,
                None => r is None,
            },
    {
        match &self.headers.file_name {
            Some(f) => Some(f.as_str()),
            None => None,
        }
    }

    /// The content type.
    pub fn content_type(&self) -> (r: &MediaType)
        ensures
            r == &self.headers.content_type,
    {
        &self.headers.content_type
    }

    /// The body bytes.
    pub fn bytes(&self) -> (r: &[u8])
        ensures
            r@ == self.body@,
    {
        self.body.as_slice()
    }

    /// The body as text; it must be UTF-8.
    pub fn text(&self) -> (r: Result<String, MulterError>)
        ensures
            vstd::utf8::valid_utf8(self.body@) ==> (r matches Ok(s) && s@
                == vstd::utf8::decode_utf8(self.body@)),
            !vstd::utf8::valid_utf8(self.body@) ==> (r matches Err(MulterError::Parse(e))
                && e.message@ == "text field must be UTF-8"@),
    {
        match decode_utf8_bytes(self.body.as_slice()) {
            Some(s) => Ok(s),
            None => Err(MulterError::Parse(ParseError::new("text field must be UTF-8"))),
        }
    }
}

} // verus!
