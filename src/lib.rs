//! Streaming `multipart/form-data` parsing with declarative field selection,
//! limits enforcement and pluggable storage, verified with Verus.

pub mod builder;
pub mod config;
pub mod error;
pub mod field;
pub mod limits;
pub mod multipart;
pub mod parser;
pub mod part;
pub mod selector;
pub mod storage;
pub mod text;

pub use builder::MulterBuilder;
pub use config::{MulterConfig, SelectedField, SelectedFieldKind, Selector, UnknownFieldPolicy};
pub use error::{ConfigError, MulterError, ParseError, StorageError};
pub use field::{Field, FieldKind, FileField, TextField};
pub use limits::Limits;
pub use multipart::{ChunkSource, Multipart, PartPoll};
pub use parser::headers::MediaType;
pub use parser::stream::{MultipartStream, StreamLimits};
pub use part::Part;
pub use selector::{SelectorAction, SelectorEngine};
pub use storage::disk::{sanitize_filename, FilenameStrategy};
pub use storage::memory::MemoryStorage;
pub use storage::{FileMeta, NoopStorage, StorageEngine, StoredFile};

use vstd::prelude::*;
use crate::config::{is_default_config, selector_fault, MulterConfigView};
use crate::multipart::{fault_is, fresh_multipart, pull, MultipartView, PartFault, Pulled};
use crate::parser::boundary::{
    boundary_valid, extract_fault_message, extract_multipart_boundary, extraction, mime_boundary_of,
    mime_essence_of,
};
use crate::parser::headers::PartHeadersView;
use vstd::string::StringSliceAdditionalSpecFns;
use vstd::utf8::encode_utf8;

verus! {

/// What [`Multer::parse_and_store`] collects: the stored files and the text
/// fields, each in wire order.
#[derive(Debug, PartialEq, Eq)]
pub struct ProcessedMultipart<O> {
    /// Outputs of the storage backend for the file parts.
    pub stored_files: Vec<O>,
    /// `(field name, text)` of the text parts.
    pub text_fields: Vec<(String, String)>,
}

impl<O> Default for ProcessedMultipart<O> {
    /// Nothing stored, nothing collected.
    fn default() -> (r: Self)
        ensures
            r.stored_files@.len() == 0,
            r.text_fields@.len() == 0,
    {
        ProcessedMultipart { stored_files: Vec::new(), text_fields: Vec::new() }
    }
}

/// Main entry point: a validated configuration and a storage backend.
pub struct Multer<S> {
    config: MulterConfig,
    storage: S,
    handed: Ghost<Seq<StoreRequest>>,
}

/// What was handed to the storage backend for one file part.
pub struct StoreRequest {
    pub field_name: Seq<char>,
    pub file_name: Option<Seq<char>>,
    pub content_type: Seq<char>,
    pub body: Seq<u8>,
}

/// The request for a part with headers `h` and body `b`.
pub open spec fn request_of(h: PartHeadersView, b: Seq<u8>) -> StoreRequest {
    StoreRequest { field_name: h.field_name, file_name: h.file_name, content_type: h.content_type, body: b }
}

/// A yielded part is a text part.
pub open spec fn is_text(p: (PartHeadersView, Seq<u8>)) -> bool {
    p.0.file_name is None
}

/// `(name, text)` of the text parts among `ps`, in order.
pub open spec fn texts_of(ps: Seq<(PartHeadersView, Seq<u8>)>) -> Seq<(Seq<char>, Seq<char>)>
    decreases ps.len(),
{
    if ps.len() == 0 {
        Seq::empty()
    } else if is_text(ps.last()) {
        texts_of(ps.drop_last()).push((ps.last().0.field_name, vstd::utf8::decode_utf8(ps.last().1)))
    } else {
        texts_of(ps.drop_last())
    }
}

/// The store requests for the file parts among `ps`, in order.
pub open spec fn requests_of(ps: Seq<(PartHeadersView, Seq<u8>)>) -> Seq<StoreRequest>
    decreases ps.len(),
{
    if ps.len() == 0 {
        Seq::empty()
    } else if is_text(ps.last()) {
        requests_of(ps.drop_last())
    } else {
        requests_of(ps.drop_last()).push(request_of(ps.last().0, ps.last().1))
    }
}

/// No file part among `ps`.
pub open spec fn no_files(ps: Seq<(PartHeadersView, Seq<u8>)>) -> bool {
    forall|i: int| 0 <= i < ps.len() ==> is_text(#[trigger] ps[i])
}

/// Every text part among `ps` is UTF-8.
pub open spec fn texts_valid(ps: Seq<(PartHeadersView, Seq<u8>)>) -> bool {
    forall|i: int| 0 <= i < ps.len() && is_text(#[trigger] ps[i]) ==> vstd::utf8::valid_utf8(ps[i].1)
}

/// How the collection of parts ended.
pub enum Collected {
    Done,
    Fault(PartFault),
}

/// The measure that pulling decreases.
pub open spec fn input_measure(v: MultipartView, items: Seq<Result<Vec<u8>, MulterError>>) -> int {
    items.len() + if v.stream.upstream_done {
        0int
    } else {
        1int
    }
}

/// Every part pulled from the input until the end or an error, and how it
/// ended.
pub open spec fn collect(v: MultipartView, items: Seq<Result<Vec<u8>, MulterError>>) -> (
    Seq<(PartHeadersView, Seq<u8>)>,
    Collected,
)
    decreases input_measure(v, items), v.stream.buffer.len(),
{
    let (v2, items2, p) = pull(v, items);
    match p {
        Pulled::Part(h, b) => if 0 <= input_measure(v2, items2) && (input_measure(v2, items2) < input_measure(v, items)
            || (input_measure(v2, items2) == input_measure(v, items) && v2.stream.buffer.len()
            < v.stream.buffer.len())) {
            let (ps, c) = collect(v2, items2);
            (seq![(h, b)] + ps, c)
        } else {
            (seq![(h, b)], Collected::Done)
        },
        Pulled::End => (Seq::empty(), Collected::Done),
        Pulled::Fault(f) => (Seq::empty(), Collected::Fault(f)),
    }
}

/// The `(name, text)` pairs of a list of text fields.
pub open spec fn text_fields_view(v: Seq<(String, String)>) -> Seq<(Seq<char>, Seq<char>)> {
    v.map_values(|p: (String, String)| (p.0@, p.1@))
}

impl<S> Multer<S> {
    /// The configuration.
    pub closed spec fn config_view(&self) -> MulterConfigView {
        self.config@
    }

    /// The storage backend.
    pub closed spec fn storage_view(&self) -> S {
        self.storage
    }

    /// Everything handed to the storage backend so far, in order.
    pub closed spec fn handed(&self) -> Seq<StoreRequest> {
        self.handed@
    }

    /// The invariant: the configuration is valid.
    pub closed spec fn wf(&self) -> bool {
        selector_fault(self.config@.selector) is None
    }

    /// An instance with the permissive configuration: any file, unknown fields
    /// ignored, no limits.
    pub fn new(storage: S) -> (r: Self)
        ensures
            r.wf(),
            is_default_config(r.config_view()),
            r.storage_view() == storage,
            r.handed().len() == 0,
    {
        Multer { config: MulterConfig::default(), storage, handed: Ghost(Seq::empty()) }
    }

    /// An instance with `config`, which must be valid.
    pub fn with_config(storage: S, config: MulterConfig) -> (r: Result<Self, ConfigError>)
        ensures
            r is Ok <==> selector_fault(config@.selector) is None,
            r matches Ok(m) ==> m.wf() && m.config_view() == config@ && m.storage_view() == storage
                && m.handed().len() == 0,
            r matches Err(e) ==> selector_fault(config@.selector) == Some(crate::config::fault_of(e)),
    {
        match config.validate() {
            Ok(()) => Ok(Multer { config, storage, handed: Ghost(Seq::empty()) }),
            Err(e) => Err(e),
        }
    }

    /// The configuration.
    pub fn config(&self) -> (r: &MulterConfig)
        ensures
            r@ == self.config_view(),
    {
        &self.config
    }

    /// The storage backend.
    pub fn storage(&self) -> (r: &S)
        ensures
            *r == self.storage_view(),
    {
        &self.storage
    }

    /// A parser for `boundary` with this configuration.
    pub fn multipart_from_boundary(&self, boundary: &str) -> (r: Result<Multipart, MulterError>)
        requires
            self.wf(),
        ensures
            r is Ok <==> boundary_valid(boundary@),
            r matches Ok(m) ==> m.wf() && m.engine().selector_view() == self.config_view().selector
                && m.engine().policy() == self.config_view().unknown_field_policy && m.limits_view()
                == self.config_view().limits && m.files() == 0 && m.fields() == 0
                && m@ == fresh_multipart(self.config_view(), boundary.spec_bytes()),
            r matches Err(e) ==> e is Parse,
    {
        Multipart::with_config(boundary, self.config.clone())
    }

    /// A parser for the boundary of a `Content-Type` value.
    pub fn multipart_from_content_type(&self, content_type: &str) -> (r: Result<Multipart, MulterError>)
        requires
            self.wf(),
        ensures
            r is Ok <==> extraction(mime_essence_of(content_type@), mime_boundary_of(content_type@)) is Ok,
            r matches Ok(m) ==> (extraction(mime_essence_of(content_type@), mime_boundary_of(content_type@))
                matches Ok(b) && m.wf() && m@ == fresh_multipart(self.config_view(), encode_utf8(b))),
            r matches Err(e) ==> (e matches MulterError::Parse(p) && extraction(
                mime_essence_of(content_type@),
                mime_boundary_of(content_type@),
            ) matches Err(f) && p.message@ == extract_fault_message(f)),
    {
        match extract_multipart_boundary(content_type) {
            Ok(b) => self.multipart_from_boundary(b.as_str()),
            Err(e) => Err(MulterError::Parse(e)),
        }
    }
}

impl<S: StorageEngine> Multer<S> {
    /// Hands a part's body to the storage backend.
    pub fn store(&mut self, part: &Part) -> (r: Result<S::Output, MulterError>)
        ensures
            r matches Err(e) ==> e is Storage,
            final(self).wf() == old(self).wf(),
            final(self).config_view() == old(self).config_view(),
            final(self).handed() == old(self).handed().push(request_of(part.headers@, part.body@)),
    {
        self.handed = Ghost(self.handed@.push(request_of(part.headers@, part.body@)));
        let file_name = match &part.headers.file_name {
            Some(f) => Some(f.as_str()),
            None => None,
        };
        match self.storage.store(
            part.headers.field_name.as_str(),
            file_name,
            &part.headers.content_type,
            part.body.as_slice(),
        ) {
            Ok(o) => Ok(o),
            Err(e) => Err(MulterError::Storage(e)),
        }
    }

    /// Parses the input from `source` to the end: file parts go to the
    /// storage backend, text parts are collected, both in wire order.
    pub fn parse_and_store(&mut self, boundary: &str, source: &mut ChunkSource) -> (r: Result<
        ProcessedMultipart<S::Output>,
        MulterError,
    >)
        requires
            old(self).wf(),
        ensures
            !boundary_valid(boundary@) ==> (r matches Err(e) && e is Parse),
            final(self).wf(),
            final(self).config_view() == old(self).config_view(),
            boundary_valid(boundary@) ==> ({
                let (parts, end) = collect(
                    fresh_multipart(old(self).config_view(), boundary.spec_bytes()),
                    old(source).items(),
                );
                &&& r matches Ok(out) ==> {
                    &&& end is Done
                    &&& texts_valid(parts)
                    &&& text_fields_view(out.text_fields@) == texts_of(parts)
                    &&& out.stored_files@.len() == requests_of(parts).len()
                    &&& final(self).handed() == old(self).handed() + requests_of(parts)
                }
                &&& no_files(parts) && texts_valid(parts) && end is Done ==> (r matches Ok(out)
                    && out.stored_files@.len() == 0)
                &&& no_files(parts) && texts_valid(parts) ==> (end matches Collected::Fault(f) ==> (
                r matches Err(e) && fault_is(e, f)))
                &&& no_files(parts) && !texts_valid(parts) ==> (r matches Err(MulterError::Parse(p))
                    && p.message@ == "text field must be UTF-8"@)
            }),
    {
        let mut multipart = match self.multipart_from_boundary(boundary) {
            Ok(m) => m,
            Err(e) => return Err(e),
        };
        let ghost v0 = multipart@;
        let ghost items0 = source.items();
        let ghost handed0 = self.handed();
        let ghost mut done: Seq<(PartHeadersView, Seq<u8>)> = Seq::empty();
        let mut out: ProcessedMultipart<S::Output> = ProcessedMultipart::default();
        proof {
            assert(done + collect(v0, items0).0 =~= collect(v0, items0).0);
            assert(text_fields_view(out.text_fields@) =~= texts_of(done));
            assert(handed0 + requests_of(done) =~= handed0);
        }
        loop
            invariant
                multipart.wf(),
                boundary_valid(boundary@),
                self.wf(),
                self.config_view() == old(self).config_view(),
                v0 == fresh_multipart(old(self).config_view(), boundary.spec_bytes()),
                items0 == old(source).items(),
                handed0 == old(self).handed(),
                collect(v0, items0) == (done + collect(multipart@, source.items()).0, collect(
                    multipart@,
                    source.items(),
                ).1),
                text_fields_view(out.text_fields@) == texts_of(done),
                out.stored_files@.len() == requests_of(done).len(),
                self.handed() == handed0 + requests_of(done),
                texts_valid(done),
            decreases crate::multipart::input_left(multipart, *source), multipart.stream().buffer.len(),
        {
            let ghost pv = multipart@;
            let ghost pi = source.items();
            match multipart.next_part_from(source) {
                Ok(Some(part)) => {
                    let ghost p = (part.headers@, part.body@);
                    proof {
                        let rest = collect(multipart@, source.items());
                        assert(collect(pv, pi) == (seq![p] + rest.0, rest.1));
                        assert(done + (seq![p] + rest.0) =~= done.push(p) + rest.0);
                        assert(done.push(p).drop_last() =~= done);
                    }
                    if part.headers.file_name.is_some() {
                        match self.store(&part) {
                            Ok(stored) => {
                                out.stored_files.push(stored);
                                proof {
                                    assert(handed0 + requests_of(done).push(request_of(p.0, p.1)) =~= (
                                    handed0 + requests_of(done)).push(request_of(p.0, p.1)));
                                    done = done.push(p);
                                }
                            },
                            Err(e) => {
                                proof {
                                    let parts = collect(v0, items0).0;
                                    assert(parts[done.len() as int] == p);
                                }
                                return Err(e);
                            },
                        }
                    } else {
                        let name = part.headers.field_name.clone();
                        match part.text() {
                            Ok(text) => {
                                let ghost before = out.text_fields@;
                                out.text_fields.push((name, text));
                                proof {
                                    assert(text_fields_view(out.text_fields@) =~= text_fields_view(
                                        before,
                                    ).push((p.0.field_name, vstd::utf8::decode_utf8(p.1))));
                                    done = done.push(p);
                                    assert(texts_valid(done)) by {
                                        assert forall|i: int| 0 <= i < done.len() && is_text(
                                            #[trigger] done[i],
                                        ) implies vstd::utf8::valid_utf8(done[i].1) by {
                                            if i < done.len() - 1 {
                                                assert(done[i] == done.drop_last()[i]);
                                            }
                                        }
                                    }
                                }
                            },
                            Err(e) => {
                                proof {
                                    let parts = collect(v0, items0).0;
                                    assert(parts[done.len() as int] == p);
                                    assert(!texts_valid(parts));
                                }
                                return Err(e);
                            },
                        }
                    }
                },
                Ok(None) => {
                    proof {
                        assert(done + Seq::<(PartHeadersView, Seq<u8>)>::empty() =~= done);
                        if no_files(done) {
                            lemma_no_files_no_requests(done);
                        }
                    }
                    return Ok(out);
                },
                Err(e) => {
                    proof {
                        assert(done + Seq::<(PartHeadersView, Seq<u8>)>::empty() =~= done);
                    }
                    return Err(e);
                },
            }
        }
    }
}

/// Without file parts nothing is handed to the storage backend.
pub proof fn lemma_no_files_no_requests(ps: Seq<(PartHeadersView, Seq<u8>)>)
    requires
        no_files(ps),
    ensures
        requests_of(ps).len() == 0,
    decreases ps.len(),
{
    if ps.len() > 0 {
        assert(is_text(ps[ps.len() - 1]));
        assert forall|i: int| 0 <= i < ps.drop_last().len() implies is_text(#[trigger] ps.drop_last()[i]) by {
            assert(ps.drop_last()[i] == ps[i]);
        }
        lemma_no_files_no_requests(ps.drop_last());
    }
}

impl Multer<NoopStorage> {
    /// A builder with the permissive configuration and no storage backend.
    pub fn builder() -> (r: MulterBuilder<NoopStorage>)
        ensures
            is_default_config(r.config_view()),
    {
        MulterBuilder::new()
    }
}

} // verus!
