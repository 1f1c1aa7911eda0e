//! The consumer-facing parser: the state machine combined with the selector
//! engine and the limits on counts, sizes and MIME types.

use vstd::prelude::*;
use crate::config::{
    fault_of, selector_fault, MulterConfig, MulterConfigView, Selector, SelectorView, UnknownFieldPolicy,
};
use crate::error::{MulterError, ParseError};
use crate::limits::{mime_allowed, mime_allowed_by, Limits, LimitsView};
use crate::parser::boundary::{boundary_fault, boundary_fault_message, boundary_valid};
use vstd::string::StringSliceAdditionalSpecFns;
use crate::parser::headers::PartHeadersView;
use crate::parser::stream::{
    error_is, fresh_stream, poll_spec, sat_add, MultipartStream, ParseState, Polled, StreamFault, StreamLimits, StreamPoll,
    StreamView,
};
use crate::part::Part;
use crate::selector::{
    count_in, bump, counts_files_named, file_verdict, rules_for, text_verdict, SelectorAction, SelectorEngine,
    Verdict,
};

verus! {

/// Why an accepted-looking part is refused, as a mathematical value.
pub enum RejectFault {
    Unexpected(Seq<char>),
    TooMany(Seq<char>, usize),
    FileTooLarge(Seq<char>, u64),
    FieldTooLarge(Seq<char>, u64),
    Mime(Seq<char>, Seq<char>),
    Files(usize),
    Fields(usize),
}

/// What becomes of a part.
pub enum Judgement {
    Accept,
    Skip,
    Reject(RejectFault),
}

/// `e` is the error that stands for `f`.
pub open spec fn reject_is(e: MulterError, f: RejectFault) -> bool {
    match f {
        RejectFault::Unexpected(n) => e matches MulterError::UnexpectedField { field } && field@ == n,
        RejectFault::TooMany(n, m) => e matches MulterError::FieldCountLimitExceeded { field, max_count }
            && field@ == n && max_count == m,
        RejectFault::FileTooLarge(n, m) => e matches MulterError::FileSizeLimitExceeded {
            field,
            max_file_size,
        } && field@ == n && max_file_size == m,
        RejectFault::FieldTooLarge(n, m) => e matches MulterError::FieldSizeLimitExceeded {
            field,
            max_field_size,
        } && field@ == n && max_field_size == m,
        RejectFault::Mime(n, t) => e matches MulterError::MimeTypeNotAllowed { field, mime } && field@
            == n && mime@ == t,
        RejectFault::Files(m) => e matches MulterError::FilesLimitExceeded { max_files } && max_files == m,
        RejectFault::Fields(m) => e matches MulterError::FieldsLimitExceeded { max_fields } && max_fields
            == m,
    }
}

/// The per-field text size limit of a `Fields` selector.
pub open spec fn field_text_max(sel: SelectorView, name: Seq<char>) -> Option<u64> {
    match sel {
        SelectorView::Fields(fs) => match rules_for(fs, name) {
            Some(r) => if r.kind == crate::config::SelectedFieldKind::Text {
                r.max_size
            } else {
                None
            },
            None => None,
        },
        _ => None,
    }
}

/// The per-field MIME patterns of a `Fields` selector.
pub open spec fn field_mimes(sel: SelectorView, name: Seq<char>) -> Option<Seq<Seq<char>>> {
    match sel {
        SelectorView::Fields(fs) => match rules_for(fs, name) {
            Some(r) => Some(r.allowed_mime_types),
            None => None,
        },
        _ => None,
    }
}

/// The limit checks on an accepted text part: global size, per-field size,
/// then the count of text parts (which is raised first).
pub open spec fn text_checks(
    name: Seq<char>,
    len: int,
    text_max: Option<u64>,
    limits: LimitsView,
    fields: usize,
) -> (Judgement, usize) {
    match limits.max_field_size {
        Some(m) if len > m => (Judgement::Reject(RejectFault::FieldTooLarge(name, m)), fields),
        _ => match text_max {
            Some(m) if len > m => (Judgement::Reject(RejectFault::FieldTooLarge(name, m)), fields),
            _ => match limits.max_fields {
                Some(m) if bump(fields) > m => (Judgement::Reject(RejectFault::Fields(m)), bump(fields)),
                _ => (Judgement::Accept, bump(fields)),
            },
        },
    }
}

/// What becomes of a text part, and the new count of accepted text parts.
pub open spec fn judge_text(
    h: PartHeadersView,
    len: int,
    sel: SelectorView,
    policy: UnknownFieldPolicy,
    limits: LimitsView,
    fields: usize,
) -> (Judgement, usize) {
    let name = h.field_name;
    match text_verdict(sel, policy, name) {
        Verdict::Unexpected => (Judgement::Reject(RejectFault::Unexpected(name)), fields),
        Verdict::Ignore => (Judgement::Skip, fields),
        Verdict::TooMany(m) => (Judgement::Reject(RejectFault::TooMany(name, m)), fields),
        Verdict::Accept => text_checks(name, len, field_text_max(sel, name), limits, fields),
    }
}

/// The limit checks on a file part that the selector accepted: size, global
/// MIME allow-list, per-field MIME allow-list, then the count of files
/// (which is raised first).
pub open spec fn file_checks(
    name: Seq<char>,
    essence: Seq<char>,
    len: int,
    mimes: Option<Seq<Seq<char>>>,
    limits: LimitsView,
    files: usize,
) -> (Judgement, usize) {
    match limits.max_file_size {
        Some(m) if len > m => (Judgement::Reject(RejectFault::FileTooLarge(name, m)), files),
        _ => if !mime_allowed(limits.allowed_mime_types, essence) {
            (Judgement::Reject(RejectFault::Mime(name, essence)), files)
        } else if mimes matches Some(ps) && !mime_allowed(ps, essence) {
            (Judgement::Reject(RejectFault::Mime(name, essence)), files)
        } else {
            match limits.max_files {
                Some(m) if bump(files) > m => (Judgement::Reject(RejectFault::Files(m)), bump(files)),
                _ => (Judgement::Accept, bump(files)),
            }
        },
    }
}

/// What becomes of a file part, and the new count of accepted files.
pub open spec fn judge_file(
    h: PartHeadersView,
    len: int,
    sel: SelectorView,
    policy: UnknownFieldPolicy,
    count: usize,
    limits: LimitsView,
    files: usize,
) -> (Judgement, usize) {
    let name = h.field_name;
    match file_verdict(sel, policy, count, name) {
        Verdict::Unexpected => (Judgement::Reject(RejectFault::Unexpected(name)), files),
        Verdict::Ignore => (Judgement::Skip, files),
        Verdict::TooMany(m) => (Judgement::Reject(RejectFault::TooMany(name, m)), files),
        Verdict::Accept => file_checks(name, h.essence, len, field_mimes(sel, name), limits, files),
    }
}

/// `r` is the result of checks that judged `j`.
pub open spec fn checked_is(r: Result<(), MulterError>, j: Judgement) -> bool {
    match j {
        Judgement::Accept => r is Ok,
        Judgement::Reject(f) => r matches Err(e) && reject_is(e, f),
        Judgement::Skip => false,
    }
}

/// What a poll of a [`Multipart`] yields.
pub enum PartPoll {
    /// An accepted part, or an error.
    Item(Result<Part, MulterError>),
    /// A part that the selector ignores; its body was consumed.
    Skipped,
    /// No more parts.
    Finished,
    /// The parser waits for the next chunk (or the end of input).
    NeedChunk,
}

/// `r` carries the judgement `j` on a part with headers `h` and body `b`.
pub open spec fn judged_is(r: PartPoll, j: Judgement, h: PartHeadersView, b: Seq<u8>) -> bool {
    match j {
        Judgement::Accept => r matches PartPoll::Item(Ok(p)) && p.headers@ == h && p.body@ == b,
        Judgement::Skip => r is Skipped,
        Judgement::Reject(f) => r matches PartPoll::Item(Err(e)) && reject_is(e, f),
    }
}

/// Mathematical value of a [`Multipart`].
pub struct MultipartView {
    pub stream: StreamView,
    pub selector: SelectorView,
    pub policy: UnknownFieldPolicy,
    pub counts: Map<Seq<char>, usize>,
    pub limits: LimitsView,
    pub files: usize,
    pub fields: usize,
}

impl View for Multipart {
    type V = MultipartView;

    closed spec fn view(&self) -> MultipartView {
        MultipartView {
            stream: self.inner@,
            selector: self.selector.selector_view(),
            policy: self.selector.policy(),
            counts: self.selector.counts(),
            limits: self.limits@,
            files: self.file_count,
            fields: self.field_count,
        }
    }
}

/// Why a poll fails, as a mathematical value.
pub enum PartFault {
    Stream(StreamFault),
    Incomplete,
    Reject(RejectFault),
    BodyTooLarge(u64),
    Upstream(MulterError),
}

/// `e` is the error that stands for `f`.
pub open spec fn fault_is(e: MulterError, f: PartFault) -> bool {
    match f {
        PartFault::Stream(sf) => error_is(e, sf),
        PartFault::Incomplete => e is IncompleteStream,
        PartFault::Reject(rf) => reject_is(e, rf),
        PartFault::BodyTooLarge(l) => e matches MulterError::BodySizeLimitExceeded { max_body_size }
            && max_body_size == l,
        PartFault::Upstream(x) => e == x,
    }
}

/// What a poll of a [`Multipart`] yields, as a mathematical value.
pub enum PolledPart {
    NeedChunk,
    Finished,
    Skipped,
    Accepted(PartHeadersView, Seq<u8>),
    Error(PartFault),
}

/// `r` is the poll result `p`.
pub open spec fn part_polled_is(r: PartPoll, p: PolledPart) -> bool {
    match p {
        PolledPart::NeedChunk => r is NeedChunk,
        PolledPart::Finished => r is Finished,
        PolledPart::Skipped => r is Skipped,
        PolledPart::Accepted(h, b) => r matches PartPoll::Item(Ok(x)) && x.headers@ == h && x.body@ == b,
        PolledPart::Error(f) => r matches PartPoll::Item(Err(e)) && fault_is(e, f),
    }
}

/// A judged part: accepted, skipped, or refused (which stops the parser).
pub open spec fn apply_judgement(
    v: MultipartView,
    s: StreamView,
    j: Judgement,
    h: PartHeadersView,
    b: Seq<u8>,
) -> (MultipartView, PolledPart) {
    match j {
        Judgement::Accept => (MultipartView { stream: s, ..v }, PolledPart::Accepted(h, b)),
        Judgement::Skip => (MultipartView { stream: s, ..v }, PolledPart::Skipped),
        Judgement::Reject(f) => (
            MultipartView { stream: StreamView { state: ParseState::Failed, ..s }, ..v },
            PolledPart::Error(PartFault::Reject(f)),
        ),
    }
}

/// One poll: the state machine's next item, judged by the selector and the
/// limits. Any error stops the parser.
pub open spec fn poll_model(v: MultipartView) -> (MultipartView, PolledPart) {
    let (s2, p) = poll_spec(v.stream);
    let v2 = MultipartView { stream: s2, ..v };
    match p {
        Polled::NeedChunk => (v2, PolledPart::NeedChunk),
        Polled::Finished => (v2, PolledPart::Finished),
        Polled::Incomplete => (v2, PolledPart::Error(PartFault::Incomplete)),
        Polled::Failure(f) => (v2, PolledPart::Error(PartFault::Stream(f))),
        Polled::Part { headers: h, body: b } => if h.file_name is None {
            let (j, n) = judge_text(h, b.len() as int, v.selector, v.policy, v.limits, v.fields);
            apply_judgement(MultipartView { fields: n, ..v }, s2, j, h, b)
        } else {
            let count = count_in(v.counts, h.field_name);
            let verdict = file_verdict(v.selector, v.policy, count, h.field_name);
            let counts = if (verdict is Accept || verdict is Ignore) && counts_files_named(
                v.selector,
                h.field_name,
            ) {
                v.counts.insert(h.field_name, bump(count))
            } else {
                v.counts
            };
            let (j, n) = judge_file(h, b.len() as int, v.selector, v.policy, count, v.limits, v.files);
            apply_judgement(MultipartView { files: n, counts, ..v }, s2, j, h, b)
        },
    }
}

/// The stream limits that a configuration's limits ask for.
pub open spec fn stream_limits_of(l: LimitsView) -> StreamLimits {
    StreamLimits {
        max_file_size: l.max_file_size,
        max_field_size: l.max_field_size,
        max_body_size: l.max_body_size,
    }
}

/// A fresh parser for the boundary whose bytes are `b`, with configuration `c`.
pub open spec fn fresh_multipart(c: MulterConfigView, b: Seq<u8>) -> MultipartView {
    MultipartView {
        stream: fresh_stream(b, stream_limits_of(c.limits)),
        selector: c.selector,
        policy: c.unknown_field_policy,
        counts: Map::empty(),
        limits: c.limits,
        files: 0,
        fields: 0,
    }
}

/// The permissive configuration: any file, unknown fields ignored, no limits.
pub open spec fn permissive_config() -> MulterConfigView {
    MulterConfigView {
        selector: SelectorView::Any,
        unknown_field_policy: UnknownFieldPolicy::Ignore,
        limits: LimitsView {
            max_file_size: None,
            max_field_size: None,
            max_body_size: None,
            max_files: None,
            max_fields: None,
            allowed_mime_types: Seq::empty(),
        },
    }
}

/// A chunk pushed into the parser: refused (and the parser stopped) when it
/// would take the bytes received past the request-size limit, else appended.
pub open spec fn push_model(v: MultipartView, c: Seq<u8>) -> (MultipartView, Option<u64>) {
    if c.len() == 0 {
        (v, None)
    } else {
        match v.stream.limits.max_body_size {
            Some(l) if sat_add(v.stream.received as int, c.len() as int) > l => (
                MultipartView { stream: StreamView { state: ParseState::Failed, ..v.stream }, ..v },
                Some(l),
            ),
            _ => (
                MultipartView {
                    stream: StreamView {
                        buffer: v.stream.buffer + c,
                        fed: v.stream.fed + c,
                        received: sat_add(v.stream.received as int, c.len() as int) as u64,
                        ..v.stream
                    },
                    ..v
                },
                None,
            ),
        }
    }
}

/// Multipart parser with selector and limits.
pub struct Multipart {
    inner: MultipartStream,
    selector: SelectorEngine,
    limits: Limits,
    file_count: usize,
    field_count: usize,
}

impl Multipart {
    /// The state machine.
    pub open spec fn stream(&self) -> StreamView {
        self@.stream
    }

    /// The selector engine.
    pub closed spec fn engine(&self) -> SelectorEngine {
        self.selector
    }

    /// The limits.
    pub closed spec fn limits_view(&self) -> LimitsView {
        self.limits@
    }

    /// File parts accepted so far.
    pub closed spec fn files(&self) -> usize {
        self.file_count
    }

    /// Text parts accepted so far.
    pub closed spec fn fields(&self) -> usize {
        self.field_count
    }

    /// The invariant.
    pub closed spec fn wf(&self) -> bool {
        &&& self.inner.wf()
        &&& self.selector.wf()
        &&& self.inner@.limits.max_file_size == self.limits@.max_file_size
        &&& self.inner@.limits.max_field_size == self.limits@.max_field_size
        &&& self.inner@.limits.max_body_size == self.limits@.max_body_size
    }

    /// A parser for `boundary` with the permissive configuration: any file,
    /// unknown fields ignored, no limits.
    pub fn new(boundary: &str) -> (r: Result<Self, ParseError>)
        ensures
            r is Ok <==> boundary_valid(boundary@),
            r matches Ok(m) ==> m.wf() && m.stream().state == ParseState::StartBoundary
                && m.stream().buffer.len() == 0 && m.engine().selector_view() == SelectorView::Any
                && m.files() == 0 && m.fields() == 0 && m@ == fresh_multipart(
                permissive_config(),
                boundary.spec_bytes(),
            ),
            r matches Err(e) ==> if boundary@.len() == 0 {
                e.message@ == "multipart boundary cannot be empty"@
            } else if boundary@.contains('\r') || boundary@.contains('\n') {
                e.message@ == "multipart boundary cannot contain CRLF"@
            } else {
                boundary_fault(boundary@) matches Some(f) && e.message@ == boundary_fault_message(f)
            },
    {
        let limits = Limits::default();
        assert(limits@.allowed_mime_types =~= Seq::<Seq<char>>::empty());
        let inner = match MultipartStream::with_limits(
            boundary,
            StreamLimits { max_file_size: None, max_field_size: None, max_body_size: None },
        ) {
            Ok(s) => s,
            Err(e) => return Err(e),
        };
        Ok(Multipart {
            inner,
            selector: SelectorEngine::new(Selector::any(), UnknownFieldPolicy::Ignore),
            limits,
            file_count: 0,
            field_count: 0,
        })
    }

    /// A parser for `boundary` with `config`; the configuration is checked
    /// first, then the boundary.
    pub fn with_config(boundary: &str, config: MulterConfig) -> (r: Result<Self, MulterError>)
        ensures
            selector_fault(config@.selector) matches Some(f) ==> (r matches Err(MulterError::Config(e))
                && fault_of(e) == f),
            selector_fault(config@.selector) is None && !boundary_valid(boundary@) ==> (r matches Err(
                MulterError::Parse(_),
            )),
            selector_fault(config@.selector) is None && boundary_valid(boundary@) ==> (r matches Ok(m)
                && m.wf() && m.stream().state == ParseState::StartBoundary && m.stream().buffer.len()
                == 0 && m.engine().selector_view() == config@.selector && m.engine().policy()
                == config@.unknown_field_policy && m.limits_view() == config@.limits && m.files() == 0
                && m.fields() == 0 && m.stream().limits == stream_limits_of(config@.limits)
                && m@ == fresh_multipart(config@, boundary.spec_bytes())),
            selector_fault(config@.selector) is None ==> (r matches Err(MulterError::Parse(e)) ==> if boundary@.len() == 0 {
                e.message@ == "multipart boundary cannot be empty"@
            } else if boundary@.contains('\r') || boundary@.contains('\n') {
                e.message@ == "multipart boundary cannot contain CRLF"@
            } else {
                boundary_fault(boundary@) matches Some(f) && e.message@ == boundary_fault_message(f)
            }),
    {
        match config.validate() {
            Ok(()) => {},
            Err(e) => return Err(MulterError::Config(e)),
        }
        let stream_limits = StreamLimits {
            max_file_size: config.limits.max_file_size,
            max_field_size: config.limits.max_field_size,
            max_body_size: config.limits.max_body_size,
        };
        let inner = match MultipartStream::with_limits(boundary, stream_limits) {
            Ok(s) => s,
            Err(e) => return Err(MulterError::Parse(e)),
        };
        let MulterConfig { selector, unknown_field_policy, limits } = config;
        let selector = SelectorEngine::new(selector, unknown_field_policy);
        Ok(Multipart { inner, selector, limits, file_count: 0, field_count: 0 })
    }

    /// Appends a chunk of input; see [`MultipartStream::push_chunk`].
    pub fn push_chunk(&mut self, chunk: &[u8]) -> (r: Result<(), MulterError>)
        requires
            old(self).wf(),
        ensures
            final(self).wf(),
            final(self).engine() == old(self).engine(),
            final(self).limits_view() == old(self).limits_view(),
            final(self).files() == old(self).files(),
            final(self).fields() == old(self).fields(),
            r is Ok ==> final(self).stream().buffer == old(self).stream().buffer + chunk@
                && final(self).stream().upstream_done == old(self).stream().upstream_done
                && final(self).stream().state == old(self).stream().state,
            r is Err ==> (r matches Err(MulterError::BodySizeLimitExceeded { max_body_size })
                && old(self).limits_view().max_body_size == Some(max_body_size)),
            final(self)@ == push_model(old(self)@, chunk@).0,
            r is Err <==> push_model(old(self)@, chunk@).1 is Some,
            r is Err <==> (chunk@.len() > 0 && (old(self).limits_view().max_body_size matches Some(l)
                && sat_add(old(self).stream().received as int, chunk@.len() as int) > l)),
            r is Err ==> final(self).stream().state is Failed,
    {
        self.inner.push_chunk(chunk)
    }

    /// Records the end of the input.
    pub fn end_of_input(&mut self)
        requires
            old(self).wf(),
        ensures
            final(self).wf(),
            final(self).stream() == (StreamView { upstream_done: true, ..old(self).stream() }),
            final(self)@ == (MultipartView {
                stream: StreamView { upstream_done: true, ..old(self)@.stream },
                ..old(self)@
            }),
            final(self).engine() == old(self).engine(),
            final(self).limits_view() == old(self).limits_view(),
            final(self).files() == old(self).files(),
            final(self).fields() == old(self).fields(),
    {
        self.inner.end_of_input();
    }

    /// Records that the input failed with `err`; the parser fails.
    pub fn fail_upstream(&mut self, err: MulterError) -> (r: MulterError)
        requires
            old(self).wf(),
        ensures
            final(self).wf(),
            final(self).stream() == (StreamView { state: ParseState::Failed, ..old(self).stream() }),
            final(self)@ == (MultipartView {
                stream: StreamView { state: ParseState::Failed, ..old(self)@.stream },
                ..old(self)@
            }),
            final(self).engine() == old(self).engine(),
            final(self).limits_view() == old(self).limits_view(),
            final(self).files() == old(self).files(),
            final(self).fields() == old(self).fields(),
            r == err,
    {
        self.inner.fail_upstream(err)
    }

    fn validate_text_part(&mut self, part: &Part) -> (r: Result<(), MulterError>)
        requires
            old(self).wf(),
        ensures
            final(self).wf(),
            final(self).stream() == old(self).stream(),
            final(self).engine() == old(self).engine(),
            final(self).limits_view() == old(self).limits_view(),
            final(self).files() == old(self).files(),
            ({
                let (j, n) = text_checks(
                    part.headers@.field_name,
                    part.body@.len() as int,
                    field_text_max(old(self).engine().selector_view(), part.headers@.field_name),
                    old(self).limits_view(),
                    old(self).fields(),
                );
                final(self).fields() == n && checked_is(r, j)
            }),
    {
        if let Some(max_field_size) = self.limits.max_field_size {
            if (part.body.len() as u64) > max_field_size {
                return Err(MulterError::FieldSizeLimitExceeded {
                    field: part.headers.field_name.clone(),
                    max_field_size,
                });
            }
        }
        if let Some(m) = self.selector.field_text_max_size(part.field_name()) {
            if (part.body.len() as u64) > m {
                return Err(MulterError::FieldSizeLimitExceeded {
                    field: part.headers.field_name.clone(),
                    max_field_size: m,
                });
            }
        }
        self.field_count = if self.field_count < usize::MAX {
            self.field_count + 1
        } else {
            self.field_count
        };
        if let Some(max_fields) = self.limits.max_fields {
            if self.field_count > max_fields {
                return Err(MulterError::FieldsLimitExceeded { max_fields });
            }
        }
        Ok(())
    }
}

impl Multipart {
    fn validate_file_part(&mut self, part: &Part) -> (r: Result<(), MulterError>)
        requires
            old(self).wf(),
        ensures
            final(self).wf(),
            final(self).stream() == old(self).stream(),
            final(self).engine() == old(self).engine(),
            final(self).limits_view() == old(self).limits_view(),
            final(self).fields() == old(self).fields(),
            ({
                let (j, n) = file_checks(
                    part.headers@.field_name,
                    part.headers@.essence,
                    part.body@.len() as int,
                    field_mimes(old(self).engine().selector_view(), part.headers@.field_name),
                    old(self).limits_view(),
                    old(self).files(),
                );
                final(self).files() == n && checked_is(r, j)
            }),
    {
        if let Some(max_file_size) = self.limits.max_file_size {
            if (part.body.len() as u64) > max_file_size {
                return Err(MulterError::FileSizeLimitExceeded {
                    field: part.headers.field_name.clone(),
                    max_file_size,
                });
            }
        }
        let essence = part.content_type().essence_str();
        if !self.limits.is_mime_allowed(essence) {
            return Err(MulterError::MimeTypeNotAllowed {
                field: part.headers.field_name.clone(),
                mime: essence.to_owned(),
            });
        }
        if let Some(patterns) = self.selector.field_allowed_mime_types(part.field_name()) {
            if !mime_allowed_by(patterns, essence) {
                return Err(MulterError::MimeTypeNotAllowed {
                    field: part.headers.field_name.clone(),
                    mime: essence.to_owned(),
                });
            }
        }
        self.file_count = if self.file_count < usize::MAX {
            self.file_count + 1
        } else {
            self.file_count
        };
        if let Some(max_files) = self.limits.max_files {
            if self.file_count > max_files {
                return Err(MulterError::FilesLimitExceeded { max_files });
            }
        }
        Ok(())
    }
}

impl Multipart {
    /// Polls for the next part: the state machine's next item, judged by the
    /// selector and the limits. A part that the selector ignores is reported
    /// as skipped.
    pub fn poll_part(&mut self) -> (r: PartPoll)
        requires
            old(self).wf(),
        ensures
            final(self).wf(),
            final(self)@ == poll_model(old(self)@).0,
            part_polled_is(r, poll_model(old(self)@).1),
            final(self).stream() == if r matches PartPoll::Item(Err(_)) && poll_spec(old(self).stream()).1 is Part {
                StreamView { state: ParseState::Failed, ..poll_spec(old(self).stream()).0 }
            } else {
                poll_spec(old(self).stream()).0
            },
            final(self).limits_view() == old(self).limits_view(),
            final(self).engine().selector_view() == old(self).engine().selector_view(),
            final(self).engine().policy() == old(self).engine().policy(),
            match poll_spec(old(self).stream()).1 {
                Polled::Part { headers: h, body: b } => if h.file_name is None {
                    let (j, n) = judge_text(
                        h,
                        b.len() as int,
                        old(self).engine().selector_view(),
                        old(self).engine().policy(),
                        old(self).limits_view(),
                        old(self).fields(),
                    );
                    &&& judged_is(r, j, h, b)
                    &&& final(self).fields() == n
                    &&& final(self).files() == old(self).files()
                    &&& final(self).engine() == old(self).engine()
                } else {
                    let sel = old(self).engine().selector_view();
                    let policy = old(self).engine().policy();
                    let count = old(self).engine().count_of(h.field_name);
                    let (j, n) = judge_file(h, b.len() as int, sel, policy, count, old(self).limits_view(), old(self).files());
                    let v = file_verdict(sel, policy, count, h.field_name);
                    &&& judged_is(r, j, h, b)
                    &&& final(self).files() == n
                    &&& final(self).fields() == old(self).fields()
                    &&& forall|x: Seq<char>| #[trigger] final(self).engine().count_of(x) == if x == h.field_name
                        && (v is Accept || v is Ignore) && counts_files_named(sel, x) {
                        bump(old(self).engine().count_of(x))
                    } else {
                        old(self).engine().count_of(x)
                    }
                },
                other => {
                    &&& final(self).engine() == old(self).engine()
                    &&& final(self).files() == old(self).files()
                    &&& final(self).fields() == old(self).fields()
                    &&& match other {
                        Polled::NeedChunk => r is NeedChunk,
                        Polled::Finished => r is Finished,
                        Polled::Incomplete => r matches PartPoll::Item(Err(MulterError::IncompleteStream)),
                        Polled::Failure(f) => r matches PartPoll::Item(Err(e)) && error_is(e, f),
                        _ => true,
                    }
                },
            },
            r is Skipped ==> final(self).stream().buffer.len() < old(self).stream().buffer.len(),
            r matches PartPoll::Item(Ok(_)) ==> final(self).stream().buffer.len() < old(self).stream().buffer.len(),
            final(self).stream().upstream_done == old(self).stream().upstream_done,
            r is NeedChunk ==> !old(self).stream().upstream_done,
            r is Finished ==> (final(self).stream().state is End || final(self).stream().state is Failed),
    {
        proof {
            if let Polled::Part { headers: h, .. } = poll_spec(self.inner@).1 {
                self.selector.lemma_count_in(h.field_name);
            }
        }
        let r = self.judge_next();
        if let PartPoll::Item(Err(_)) = &r {
            self.inner.halt();
        }
        r
    }

    fn judge_next(&mut self) -> (r: PartPoll)
        requires
            old(self).wf(),
        ensures
            final(self).wf(),
            final(self).stream() == poll_spec(old(self).stream()).0,
            final(self).limits_view() == old(self).limits_view(),
            final(self).engine().selector_view() == old(self).engine().selector_view(),
            final(self).engine().policy() == old(self).engine().policy(),
            final(self).engine().counts() == if poll_spec(old(self).stream()).1 matches Polled::Part { headers: h, .. } && h.file_name is Some && ({
                let v = file_verdict(old(self).engine().selector_view(), old(self).engine().policy(), old(self).engine().count_of(h.field_name), h.field_name);
                (v is Accept || v is Ignore) && counts_files_named(old(self).engine().selector_view(), h.field_name)
            }) {
                old(self).engine().counts().insert(poll_spec(old(self).stream()).1->headers.field_name, bump(old(self).engine().count_of(poll_spec(old(self).stream()).1->headers.field_name)))
            } else {
                old(self).engine().counts()
            },
            match poll_spec(old(self).stream()).1 {
                Polled::Part { headers: h, body: b } => if h.file_name is None {
                    let (j, n) = judge_text(
                        h,
                        b.len() as int,
                        old(self).engine().selector_view(),
                        old(self).engine().policy(),
                        old(self).limits_view(),
                        old(self).fields(),
                    );
                    &&& judged_is(r, j, h, b)
                    &&& final(self).fields() == n
                    &&& final(self).files() == old(self).files()
                    &&& final(self).engine() == old(self).engine()
                } else {
                    let sel = old(self).engine().selector_view();
                    let policy = old(self).engine().policy();
                    let count = old(self).engine().count_of(h.field_name);
                    let (j, n) = judge_file(h, b.len() as int, sel, policy, count, old(self).limits_view(), old(self).files());
                    let v = file_verdict(sel, policy, count, h.field_name);
                    &&& judged_is(r, j, h, b)
                    &&& final(self).files() == n
                    &&& final(self).fields() == old(self).fields()
                    &&& forall|x: Seq<char>| #[trigger] final(self).engine().count_of(x) == if x == h.field_name
                        && (v is Accept || v is Ignore) && counts_files_named(sel, x) {
                        bump(old(self).engine().count_of(x))
                    } else {
                        old(self).engine().count_of(x)
                    }
                },
                other => {
                    &&& final(self).engine() == old(self).engine()
                    &&& final(self).files() == old(self).files()
                    &&& final(self).fields() == old(self).fields()
                    &&& match other {
                        Polled::NeedChunk => r is NeedChunk,
                        Polled::Finished => r is Finished,
                        Polled::Incomplete => r matches PartPoll::Item(Err(MulterError::IncompleteStream)),
                        Polled::Failure(f) => r matches PartPoll::Item(Err(e)) && error_is(e, f),
                        _ => true,
                    }
                },
            },
            r is Skipped ==> final(self).stream().buffer.len() < old(self).stream().buffer.len(),
            r matches PartPoll::Item(Ok(_)) ==> final(self).stream().buffer.len() < old(self).stream().buffer.len(),
            final(self).stream().upstream_done == old(self).stream().upstream_done,
            r is NeedChunk ==> !old(self).stream().upstream_done,
            r is Finished ==> (final(self).stream().state is End || final(self).stream().state is Failed),
            r matches PartPoll::Item(Err(_)) && !(poll_spec(old(self).stream()).1 is Part) ==> final(self).stream().state is Failed,
    {
        match self.inner.poll_next() {
            StreamPoll::NeedChunk => PartPoll::NeedChunk,
            StreamPoll::Finished => PartPoll::Finished,
            StreamPoll::Item(Err(e)) => PartPoll::Item(Err(e)),
            StreamPoll::Item(Ok(parsed)) => {
                let part = Part::from_parsed(parsed);
                if part.headers.file_name.is_none() {
                    match self.selector.evaluate_text_field(part.field_name()) {
                        Ok(SelectorAction::Accept) => {},
                        Ok(SelectorAction::Ignore) => return PartPoll::Skipped,
                        Err(e) => return PartPoll::Item(Err(e)),
                    }
                    match self.validate_text_part(&part) {
                        Ok(()) => PartPoll::Item(Ok(part)),
                        Err(e) => PartPoll::Item(Err(e)),
                    }
                } else {
                    match self.selector.evaluate_file_field(part.field_name()) {
                        Ok(SelectorAction::Accept) => {},
                        Ok(SelectorAction::Ignore) => return PartPoll::Skipped,
                        Err(e) => return PartPoll::Item(Err(e)),
                    }
                    match self.validate_file_part(&part) {
                        Ok(()) => PartPoll::Item(Ok(part)),
                        Err(e) => PartPoll::Item(Err(e)),
                    }
                }
            },
        }
    }
}

/// A chunk source held in memory: chunks, or an error, in order.
pub struct ChunkSource {
    items: Vec<Result<Vec<u8>, MulterError>>,
}

impl ChunkSource {
    /// The items not yet taken, in order.
    pub closed spec fn items(&self) -> Seq<Result<Vec<u8>, MulterError>> {
        self.items@
    }

    /// Number of items not yet taken.
    pub open spec fn remaining(&self) -> nat {
        self.items().len()
    }

    /// A source that yields `items` in order.
    pub fn new(items: Vec<Result<Vec<u8>, MulterError>>) -> (r: Self)
        ensures
            r.items() == items@,
    {
        ChunkSource { items }
    }

    /// A source that yields each of `chunks` in order.
    pub fn from_chunks(chunks: Vec<Vec<u8>>) -> (r: Self)
        ensures
            r.items().len() == chunks@.len(),
            forall|i: int| 0 <= i < chunks@.len() ==> #[trigger] r.items()[i] == Ok::<Vec<u8>, MulterError>(chunks@[i]),
    {
        let mut items: Vec<Result<Vec<u8>, MulterError>> = Vec::new();
        let mut chunks = chunks;
        let ghost all = chunks@;
        while chunks.len() > 0
            invariant
                items@.len() + chunks@.len() == all.len(),
                chunks@ == all.subrange(items@.len() as int, all.len() as int),
                forall|i: int| 0 <= i < items@.len() ==> #[trigger] items@[i] == Ok::<Vec<u8>, MulterError>(all[i]),
            decreases chunks@.len(),
        {
            let ghost k = items@.len();
            let c = chunks.remove(0);
            assert(c == all[k as int]);
            items.push(Ok(c));
            assert(chunks@ =~= all.subrange(items@.len() as int, all.len() as int));
        }
        ChunkSource { items }
    }

    /// The next item, if any.
    pub fn next(&mut self) -> (r: Option<Result<Vec<u8>, MulterError>>)
        ensures
            old(self).items().len() == 0 ==> r is None && final(self).items() == old(self).items(),
            old(self).items().len() > 0 ==> r == Some(old(self).items()[0]) && final(self).items()
                == old(self).items().drop_first(),
    {
        if self.items.len() == 0 {
            None
        } else {
            let x = self.items.remove(0);
            assert(self.items@ =~= old(self).items@.drop_first());
            Some(x)
        }
    }
}

/// What [`Multipart::next_part_from`] yields, as a mathematical value.
pub enum Pulled {
    Part(PartHeadersView, Seq<u8>),
    End,
    Fault(PartFault),
}

/// `r` is the pull result `p`.
pub open spec fn pulled_is(r: Result<Option<Part>, MulterError>, p: Pulled) -> bool {
    match p {
        Pulled::Part(h, b) => r matches Ok(Some(x)) && x.headers@ == h && x.body@ == b,
        Pulled::End => r matches Ok(None),
        Pulled::Fault(f) => r matches Err(e) && fault_is(e, f),
    }
}

/// Polls until a part is accepted, an error is reported, or nothing more
/// comes: ignored parts are skipped; when the parser needs input the next
/// item is taken from `items` (a chunk is pushed, an error stops the parser),
/// and when none is left the input ends. Yields the parser and the items left.
pub open spec fn pull(v: MultipartView, items: Seq<Result<Vec<u8>, MulterError>>) -> (
    MultipartView,
    Seq<Result<Vec<u8>, MulterError>>,
    Pulled,
)
    decreases items.len(), if v.stream.upstream_done {
        0nat
    } else {
        1nat
    }, v.stream.buffer.len(),
{
    let (v2, p) = poll_model(v);
    match p {
        PolledPart::Accepted(h, b) => (v2, items, Pulled::Part(h, b)),
        PolledPart::Finished => (v2, items, Pulled::End),
        PolledPart::Error(f) => (v2, items, Pulled::Fault(f)),
        PolledPart::Skipped => if v2.stream.buffer.len() < v.stream.buffer.len()
            && v2.stream.upstream_done == v.stream.upstream_done {
            pull(v2, items)
        } else {
            (v2, items, Pulled::End)
        },
        PolledPart::NeedChunk => if v.stream.upstream_done {
            (v2, items, Pulled::End)
        } else if items.len() == 0 {
            pull(MultipartView { stream: StreamView { upstream_done: true, ..v2.stream }, ..v2 }, items)
        } else {
            match items[0] {
                Ok(c) => {
                    let (v3, refused) = push_model(v2, c@);
                    match refused {
                        Some(l) => (v3, items.drop_first(), Pulled::Fault(PartFault::BodyTooLarge(l))),
                        None => pull(v3, items.drop_first()),
                    }
                },
                Err(e) => (
                    MultipartView { stream: StreamView { state: ParseState::Failed, ..v2.stream }, ..v2 },
                    items.drop_first(),
                    Pulled::Fault(PartFault::Upstream(e)),
                ),
            }
        },
    }
}

/// Input still to come: chunks not yet taken, and the end of input if not yet
/// seen.
pub open spec fn input_left(m: Multipart, src: ChunkSource) -> int {
    src.remaining() + if m.stream().upstream_done {
        0int
    } else {
        1int
    }
}

impl Multipart {
    /// The next accepted part, pulling chunks from `source` as needed: parts
    /// that the selector ignores are skipped; `Ok(None)` once the closing
    /// boundary was read (or after an error was reported).
    pub fn next_part_from(&mut self, source: &mut ChunkSource) -> (r: Result<Option<Part>, MulterError>)
        requires
            old(self).wf(),
        ensures
            final(self).wf(),
            final(self).limits_view() == old(self).limits_view(),
            final(self).engine().selector_view() == old(self).engine().selector_view(),
            r matches Ok(None) ==> (final(self).stream().state is End || final(self).stream().state is Failed),
            final(self)@ == pull(old(self)@, old(source).items()).0,
            final(source).items() == pull(old(self)@, old(source).items()).1,
            pulled_is(r, pull(old(self)@, old(source).items()).2),
            r matches Ok(Some(_)) ==> input_left(*final(self), *final(source)) < input_left(*old(self), *old(source))
                || (input_left(*final(self), *final(source)) == input_left(*old(self), *old(source))
                && final(self).stream().buffer.len() < old(self).stream().buffer.len()),
    {
        loop
            invariant
                self.wf(),
                pull(self@, source.items()) == pull(old(self)@, old(source).items()),
                input_left(*self, *source) < input_left(*old(self), *old(source)) || (input_left(*self, *source)
                    == input_left(*old(self), *old(source)) && self.stream().buffer.len() <= old(self).stream().buffer.len()),
                self.limits_view() == old(self).limits_view(),
                self.engine().selector_view() == old(self).engine().selector_view(),
            decreases source.remaining() + (if self.stream().upstream_done {
                0int
            } else {
                1int
            }), self.stream().buffer.len(),
        {
            match self.poll_part() {
                PartPoll::Item(Ok(p)) => return Ok(Some(p)),
                PartPoll::Item(Err(e)) => return Err(e),
                PartPoll::Finished => return Ok(None),
                PartPoll::Skipped => {},
                PartPoll::NeedChunk => match source.next() {
                    Some(Ok(chunk)) => match self.push_chunk(chunk.as_slice()) {
                        Ok(()) => {},
                        Err(e) => return Err(e),
                    },
                    Some(Err(e)) => return Err(self.fail_upstream(e)),
                    None => self.end_of_input(),
                },
            }
        }
    }
}

} // verus!
