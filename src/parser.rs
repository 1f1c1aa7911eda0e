//! Low-level multipart parsing: the boundary extractor, the part header parser
//! and the streaming state machine.

pub mod boundary;
pub mod chunking;
pub mod headers;
pub mod search;
pub mod stream;
