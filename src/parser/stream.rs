//! The incremental multipart state machine. Bytes are pushed in chunks of any
//! size; [`MultipartStream::parse_available`] advances through the opening
//! boundary, each part's headers and body, and the closing boundary.

use vstd::prelude::*;
use vstd::string::StringSliceAdditionalSpecFns;
use crate::error::{MulterError, ParseError};
use crate::parser::boundary::{boundary_valid, validate_boundary_input};
use crate::parser::headers::{header_block, parse_part_headers, ParsedPartHeaders, PartHeadersView};
use crate::parser::search::{
    copy_range, find, find_from, find_subslice, find_subslice_from, lemma_find_from,
    lemma_find_from_extend, matches_at, occurs_at,
};

verus! {

/// CR LF.
pub open spec fn crlf() -> Seq<u8> {
    seq![13u8, 10u8]
}

/// CR LF CR LF, the end of a header block.
pub open spec fn blank_line() -> Seq<u8> {
    seq![13u8, 10u8, 13u8, 10u8]
}

/// `--`.
pub open spec fn dashes() -> Seq<u8> {
    seq![45u8, 45u8]
}

/// CR LF `--`, the start of a boundary line inside a body.
pub open spec fn crlf_dashes() -> Seq<u8> {
    seq![13u8, 10u8, 45u8, 45u8]
}

/// `--` CR LF, the end of the closing boundary line.
pub open spec fn dashes_crlf() -> Seq<u8> {
    seq![45u8, 45u8, 13u8, 10u8]
}

fn bytes2(a: u8, b: u8) -> (r: Vec<u8>)
    ensures
        r@ == seq![a, b],
{
    let mut v: Vec<u8> = Vec::new();
    v.push(a);
    v.push(b);
    assert(v@ =~= seq![a, b]);
    v
}

fn bytes4(a: u8, b: u8, c: u8, d: u8) -> (r: Vec<u8>)
    ensures
        r@ == seq![a, b, c, d],
{
    let mut v: Vec<u8> = Vec::new();
    v.push(a);
    v.push(b);
    v.push(c);
    v.push(d);
    assert(v@ =~= seq![a, b, c, d]);
    v
}

/// Byte-wise equality.
fn bytes_eq(a: &[u8], b: &[u8]) -> (r: bool)
    ensures
        r == (a@ == b@),
{
    if a.len() != b.len() {
        return false;
    }
    let r = matches_at(a, b, 0);
    proof {
        if r {
            assert(a@.subrange(0, b@.len() as int) == b@);
            assert(a@ =~= a@.subrange(0, a@.len() as int));
        } else {
            assert(a@.subrange(0, a@.len() as int) =~= a@);
        }
    }
    r
}

/// Appends `b` to `a`.
fn extend(a: &mut Vec<u8>, b: &[u8])
    ensures
        final(a)@ == old(a)@ + b@,
{
    let mut i: usize = 0;
    while i < b.len()
        invariant
            i <= b@.len(),
            a@ == old(a)@ + b@.subrange(0, i as int),
        decreases b@.len() - i,
    {
        a.push(b[i]);
        assert(b@.subrange(0, i + 1) == b@.subrange(0, i as int).push(b@[i as int]));
        i = i + 1;
    }
    assert(b@.subrange(0, b@.len() as int) == b@);
}

/// Per-part and per-request byte limits enforced while parsing.
#[derive(Debug, Clone, Copy, PartialEq, Eq, Structural)]
pub struct StreamLimits {
    /// Largest accepted file body, in bytes.
    pub max_file_size: Option<u64>,
    /// Largest accepted text body, in bytes.
    pub max_field_size: Option<u64>,
    /// Largest accepted request body, in bytes.
    pub max_body_size: Option<u64>,
}

impl Default for StreamLimits {
    /// No limits.
    fn default() -> (r: Self)
        ensures
            r.max_file_size is None,
            r.max_field_size is None,
            r.max_body_size is None,
    {
        StreamLimits { max_file_size: None, max_field_size: None, max_body_size: None }
    }
}

/// Where the state machine stands.
#[derive(Debug, Clone, Copy, PartialEq, Eq, Structural)]
pub enum ParseState {
    /// Waiting for the opening boundary line.
    StartBoundary,
    /// Waiting for a part's header block.
    Headers,
    /// Reading a part's body.
    Body,
    /// The closing boundary was read.
    End,
    /// An error was reported; nothing more is parsed.
    Failed,
}

/// One part: its headers and its whole body.
#[derive(Debug, PartialEq, Eq)]
pub struct ParsedPart {
    /// Parsed part headers.
    pub headers: ParsedPartHeaders,
    /// Body bytes.
    pub body: Vec<u8>,
}

/// Why the state machine stopped, as a mathematical value.
pub enum StreamFault {
    Parse(Seq<char>),
    FileTooLarge { field: Seq<char>, limit: u64 },
    FieldTooLarge { field: Seq<char>, limit: u64 },
}

/// What one round of parsing produced, as a mathematical value.
pub enum Outcome {
    NeedMore,
    Done,
    Part { headers: PartHeadersView, body: Seq<u8> },
    Failure(StreamFault),
}

/// What [`MultipartStream::parse_available`] produced.
pub enum ParseOutcome {
    /// More input is needed.
    NeedMore,
    /// A part or an error.
    Emit(Result<ParsedPart, MulterError>),
    /// Nothing more: the closing boundary was read or an error was reported.
    Done,
}

/// `e` is the error that stands for `f`.
pub open spec fn error_is(e: MulterError, f: StreamFault) -> bool {
    match f {
        StreamFault::Parse(m) => e matches MulterError::Parse(p) && p.message@ == m,
        StreamFault::FileTooLarge { field, limit } => e matches MulterError::FileSizeLimitExceeded {
            field: x,
            max_file_size,
        } && x@ == field && max_file_size == limit,
        StreamFault::FieldTooLarge { field, limit } => e matches MulterError::FieldSizeLimitExceeded {
            field: x,
            max_field_size,
        } && x@ == field && max_field_size == limit,
    }
}

/// `r` is the outcome `o`.
pub open spec fn outcome_is(r: ParseOutcome, o: Outcome) -> bool {
    match o {
        Outcome::NeedMore => r is NeedMore,
        Outcome::Done => r is Done,
        Outcome::Part { headers, body } => r matches ParseOutcome::Emit(Ok(p)) && p.headers@
            == headers && p.body@ == body,
        Outcome::Failure(f) => r matches ParseOutcome::Emit(Err(e)) && error_is(e, f),
    }
}

/// Mathematical value of the state machine.
pub struct StreamView {
    pub boundary_line: Seq<u8>,
    pub boundary_end_line: Seq<u8>,
    pub delimiter: Seq<u8>,
    pub buffer: Seq<u8>,
    pub state: ParseState,
    pub current: Option<PartHeadersView>,
    pub max_size: Option<u64>,
    pub is_file: bool,
    pub limits: StreamLimits,
    pub received: u64,
    pub upstream_done: bool,
    pub fed: Seq<u8>,
}

/// `a - b`, or zero.
pub open spec fn sat_sub(a: int, b: int) -> int {
    if a > b {
        a - b
    } else {
        0
    }
}

/// Some boundary-like line in `buf` (CR LF `--`, then up to the next CR LF)
/// is neither the opening nor the closing boundary line.
pub open spec fn malformed_line(buf: Seq<u8>, line: Seq<u8>, end_line: Seq<u8>) -> bool {
    match find(buf, crlf_dashes()) {
        None => false,
        Some(p) => match find_from(buf, crlf(), p + 2) {
            None => false,
            Some(e) => {
                let l = buf.subrange(p + 2, e);
                l != line && l != end_line
            },
        },
    }
}

/// `s` could still become `--` CR LF or CR LF once more bytes arrive.
pub open spec fn partial_suffix(s: Seq<u8>) -> bool {
    s.len() == 0 || (s.len() == 1 && (s[0] == 45u8 || s[0] == 13u8)) || (s.len() == 2 && s[0]
        == 45u8 && s[1] == 45u8) || (s.len() == 3 && s[0] == 45u8 && s[1] == 45u8 && s[2] == 13u8)
}

/// The size error for the current part.
pub open spec fn size_fault(m: StreamView, limit: u64) -> StreamFault {
    let field = match m.current {
        Some(h) => h.field_name,
        None => Seq::empty(),
    };
    if m.is_file {
        StreamFault::FileTooLarge { field, limit }
    } else {
        StreamFault::FieldTooLarge { field, limit }
    }
}

/// Emits the body `buffer[..k]` and consumes through `consumed`.
pub open spec fn finish_part(m: StreamView, k: int, consumed: int, terminal: bool) -> (StreamView, Option<Outcome>) {
    let body = m.buffer.subrange(0, k);
    let m2 = StreamView { buffer: m.buffer.subrange(consumed, m.buffer.len() as int), ..m };
    match m.max_size {
        Some(l) if body.len() > l => (
            StreamView { state: ParseState::Failed, ..m2 },
            Some(Outcome::Failure(size_fault(m, l))),
        ),
        _ => (
            StreamView {
                current: None,
                max_size: None,
                is_file: false,
                state: if terminal {
                    ParseState::End
                } else {
                    ParseState::Headers
                },
                ..m2
            },
            Some(Outcome::Part { headers: m.current.unwrap(), body }),
        ),
    }
}

/// One transition of the state machine: the new state, and what it yields,
/// or `None` to go on at once.
pub open spec fn step(m: StreamView) -> (StreamView, Option<Outcome>) {
    match m.state {
        ParseState::StartBoundary => match find(m.buffer, crlf()) {
            None => if m.upstream_done {
                (
                    StreamView { state: ParseState::Failed, ..m },
                    Some(Outcome::Failure(StreamFault::Parse("missing opening boundary"@))),
                )
            } else {
                (m, Some(Outcome::NeedMore))
            },
            Some(k) => {
                let line = m.buffer.subrange(0, k);
                let m2 = StreamView { buffer: m.buffer.subrange(k + 2, m.buffer.len() as int), ..m };
                if line == m.boundary_line {
                    (StreamView { state: ParseState::Headers, ..m2 }, None)
                } else if line == m.boundary_end_line {
                    (StreamView { state: ParseState::End, ..m2 }, None)
                } else {
                    (
                        StreamView { state: ParseState::Failed, ..m2 },
                        Some(Outcome::Failure(StreamFault::Parse("missing opening boundary"@))),
                    )
                }
            },
        },
        ParseState::Headers => match find(m.buffer, blank_line()) {
            None => (m, Some(Outcome::NeedMore)),
            Some(k) => {
                let m2 = StreamView { buffer: m.buffer.subrange(k + 4, m.buffer.len() as int), ..m };
                match header_block(m.buffer.subrange(0, k)) {
                    Err(msg) => (
                        StreamView { state: ParseState::Failed, ..m2 },
                        Some(Outcome::Failure(StreamFault::Parse(msg))),
                    ),
                    Ok(h) => {
                        let is_file = h.file_name is Some;
                        (
                            StreamView {
                                current: Some(h),
                                is_file,
                                max_size: if is_file {
                                    m.limits.max_file_size
                                } else {
                                    m.limits.max_field_size
                                },
                                state: ParseState::Body,
                                ..m2
                            },
                            None,
                        )
                    },
                }
            },
        },
        ParseState::Body => match find(m.buffer, m.delimiter) {
            None => match m.max_size {
                Some(l) if sat_sub(m.buffer.len() as int, m.delimiter.len() - 1) > l => (
                    StreamView { state: ParseState::Failed, ..m },
                    Some(Outcome::Failure(size_fault(m, l))),
                ),
                _ => if malformed_line(m.buffer, m.boundary_line, m.boundary_end_line) {
                    (
                        StreamView { state: ParseState::Failed, ..m },
                        Some(Outcome::Failure(StreamFault::Parse("malformed multipart boundary"@))),
                    )
                } else {
                    (m, Some(Outcome::NeedMore))
                },
            },
            Some(k) => {
                let at = k + m.delimiter.len();
                let suffix = m.buffer.subrange(at, m.buffer.len() as int);
                if occurs_at(m.buffer, dashes_crlf(), at) {
                    finish_part(m, k, at + 4, true)
                } else if occurs_at(m.buffer, crlf(), at) {
                    finish_part(m, k, at + 2, false)
                } else if m.upstream_done && suffix == dashes() {
                    finish_part(m, k, at + 2, true)
                } else if !m.upstream_done && partial_suffix(suffix) {
                    match m.max_size {
                        Some(l) if k > l => (
                            StreamView { state: ParseState::Failed, ..m },
                            Some(Outcome::Failure(size_fault(m, l))),
                        ),
                        _ => (m, Some(Outcome::NeedMore)),
                    }
                } else {
                    (
                        StreamView { state: ParseState::Failed, ..m },
                        Some(Outcome::Failure(StreamFault::Parse("malformed multipart boundary"@))),
                    )
                }
            },
        },
        ParseState::End => (m, Some(Outcome::Done)),
        ParseState::Failed => (m, Some(Outcome::Done)),
    }
}

/// How many transitions may still go on without yielding.
pub open spec fn rank(s: ParseState) -> nat {
    match s {
        ParseState::StartBoundary => 3,
        ParseState::Headers => 2,
        ParseState::Body => 1,
        _ => 0,
    }
}

/// Transitions until one yields.
pub open spec fn run(m: StreamView) -> (StreamView, Outcome)
    decreases rank(m.state),
{
    let (m2, o) = step(m);
    match o {
        Some(o) => (m2, o),
        None => if rank(m2.state) < rank(m.state) {
            run(m2)
        } else {
            (m2, Outcome::NeedMore)
        },
    }
}

/// A transition never grows the buffer, and one that yields a part shrinks it.
pub proof fn lemma_step_shrinks(m: StreamView)
    requires
        stream_wf(m),
    ensures
        step(m).0.buffer.len() <= m.buffer.len(),
        step(m).1 matches Some(Outcome::Part { .. }) ==> step(m).0.buffer.len() < m.buffer.len(),
        step(m).0.upstream_done == m.upstream_done,
        step(m).0.limits == m.limits,
        step(m).1 matches Some(Outcome::Failure(_)) ==> step(m).0.state is Failed,
        step(m).1 matches Some(Outcome::Done) ==> (step(m).0.state is End || step(m).0.state is Failed),
{
    lemma_find_from(m.buffer, crlf(), 0);
    lemma_find_from(m.buffer, blank_line(), 0);
    lemma_find_from(m.buffer, m.delimiter, 0);
}

/// Running the machine never grows the buffer, and yielding a part shrinks it.
pub proof fn lemma_run_shrinks(m: StreamView)
    requires
        stream_wf(m),
    ensures
        run(m).0.buffer.len() <= m.buffer.len(),
        run(m).1 is Part ==> run(m).0.buffer.len() < m.buffer.len(),
        run(m).0.upstream_done == m.upstream_done,
        run(m).0.limits == m.limits,
        run(m).1 is Failure ==> run(m).0.state is Failed,
        run(m).1 is Done ==> (run(m).0.state is End || run(m).0.state is Failed),
    decreases rank(m.state),
{
    lemma_step_shrinks(m);
    let (m2, o) = step(m);
    if o is None && rank(m2.state) < rank(m.state) {
        lemma_step_keeps_wf(m);
        lemma_run_shrinks(m2);
    }
}

/// A transition keeps the invariant.
pub proof fn lemma_step_keeps_wf(m: StreamView)
    requires
        stream_wf(m),
    ensures
        stream_wf(step(m).0),
{
}

/// Incremental multipart parser over pushed chunks.
pub struct MultipartStream {
    boundary_line: Vec<u8>,
    boundary_end_line: Vec<u8>,
    delimiter: Vec<u8>,
    buffer: Vec<u8>,
    state: ParseState,
    current_headers: Option<ParsedPartHeaders>,
    current_part_max_size: Option<u64>,
    current_part_is_file: bool,
    limits: StreamLimits,
    received_body_bytes: u64,
    upstream_done: bool,
    fed: Ghost<Seq<u8>>,
}

impl View for MultipartStream {
    type V = StreamView;

    closed spec fn view(&self) -> StreamView {
        StreamView {
            boundary_line: self.boundary_line@,
            boundary_end_line: self.boundary_end_line@,
            delimiter: self.delimiter@,
            buffer: self.buffer@,
            state: self.state,
            current: match self.current_headers {
                Some(h) => Some(h@),
                None => None,
            },
            max_size: self.current_part_max_size,
            is_file: self.current_part_is_file,
            limits: self.limits,
            received: self.received_body_bytes,
            upstream_done: self.upstream_done,
            fed: self.fed@,
        }
    }
}

/// The invariant of the state machine.
pub open spec fn stream_wf(m: StreamView) -> bool {
    &&& m.boundary_line.len() >= 2
    &&& m.boundary_line.subrange(0, 2) == dashes()
    &&& m.boundary_end_line == m.boundary_line + dashes()
    &&& m.delimiter == crlf() + m.boundary_line
    &&& m.state is Body ==> m.current is Some
    &&& m.received == if m.fed.len() > u64::MAX {
        u64::MAX as int
    } else {
        m.fed.len() as int
    }
    &&& m.limits.max_body_size matches Some(l) ==> m.received <= l
}

/// `a + b`, saturating at the largest `u64`.
pub open spec fn sat_add(a: int, b: int) -> int {
    if a + b > u64::MAX {
        u64::MAX as int
    } else {
        a + b
    }
}

/// Bytes of the current part's body held in the buffer: up to the delimiter
/// when it has been seen, else all of it.
pub open spec fn part_bytes_seen(m: StreamView) -> int {
    match find(m.buffer, m.delimiter) {
        Some(k) => k,
        None => m.buffer.len() as int,
    }
}

/// A fresh machine for the boundary whose bytes are `b`.
pub open spec fn fresh_stream(b: Seq<u8>, limits: StreamLimits) -> StreamView {
    StreamView {
        boundary_line: dashes() + b,
        boundary_end_line: dashes() + b + dashes(),
        delimiter: crlf() + dashes() + b,
        buffer: Seq::empty(),
        state: ParseState::StartBoundary,
        current: None,
        max_size: None,
        is_file: false,
        limits,
        received: 0,
        upstream_done: false,
        fed: Seq::empty(),
    }
}

/// `chunks` concatenated.
pub open spec fn concat(chunks: Seq<Seq<u8>>) -> Seq<u8>
    decreases chunks.len(),
{
    if chunks.len() == 0 {
        Seq::empty()
    } else {
        concat(chunks.drop_last()) + chunks.last()
    }
}

impl MultipartStream {
    /// The invariant.
    pub open spec fn wf(&self) -> bool {
        stream_wf(self@)
    }

    /// A parser for a boundary supplied by the caller, without limits.
    pub fn new(boundary: &str) -> (r: Result<Self, ParseError>)
        ensures
            r is Ok <==> boundary_valid(boundary@),
            r matches Ok(s) ==> s.wf() && s@.state == ParseState::StartBoundary && s@.buffer.len()
                == 0 && s@.boundary_line == dashes() + boundary.spec_bytes() && s@.limits.max_file_size
                is None && s@.limits.max_field_size is None && s@.limits.max_body_size is None,
    {
        Self::with_limits(boundary, StreamLimits { max_file_size: None, max_field_size: None, max_body_size: None })
    }

    /// A parser for a boundary supplied by the caller, with limits.
    pub fn with_limits(boundary: &str, limits: StreamLimits) -> (r: Result<Self, ParseError>)
        ensures
            r is Ok <==> boundary_valid(boundary@),
            r matches Ok(s) ==> s.wf() && s@.state == ParseState::StartBoundary && s@.buffer.len()
                == 0 && s@.boundary_line == dashes() + boundary.spec_bytes() && s@.limits == limits
                && s@.fed.len() == 0 && !s@.upstream_done && s@.current is None && s@.max_size is None
                && !s@.is_file && s@.received == 0 && s@ == fresh_stream(boundary.spec_bytes(), limits),
            r matches Err(e) ==> if boundary@.len() == 0 {
                e.message@ == "multipart boundary cannot be empty"@
            } else if boundary@.contains('\r') || boundary@.contains('\n') {
                e.message@ == "multipart boundary cannot contain CRLF"@
            } else {
                crate::parser::boundary::boundary_fault(boundary@) matches Some(f) && e.message@
                    == crate::parser::boundary::boundary_fault_message(f)
            },
    {
        match validate_boundary_input(boundary) {
            Ok(()) => {},
            Err(e) => return Err(e),
        }
        let bytes = boundary.as_bytes();
        let mut boundary_line = bytes2(45, 45);
        extend(&mut boundary_line, bytes);
        let mut boundary_end_line = bytes2(45, 45);
        extend(&mut boundary_end_line, bytes);
        let dd = bytes2(45, 45);
        extend(&mut boundary_end_line, dd.as_slice());
        let mut delimiter = bytes2(13, 10);
        extend(&mut delimiter, boundary_line.as_slice());
        let r = MultipartStream {
            boundary_line,
            boundary_end_line,
            delimiter,
            buffer: Vec::new(),
            state: ParseState::StartBoundary,
            current_headers: None,
            current_part_max_size: None,
            current_part_is_file: false,
            limits,
            received_body_bytes: 0,
            upstream_done: false,
            fed: Ghost(Seq::empty()),
        };
        proof {
            assert(r@.boundary_line.subrange(0, 2) =~= dashes());
            assert(r@.boundary_end_line =~= r@.boundary_line + dashes());
            assert(r@.delimiter =~= crlf() + dashes() + boundary.spec_bytes());
            assert(r@.buffer =~= Seq::<u8>::empty());
            assert(r@ == fresh_stream(boundary.spec_bytes(), limits));
        }
        Ok(r)
    }
}

/// Is there a boundary-like line in `buffer` that is neither the opening nor
/// the closing boundary line?
pub fn has_malformed_boundary_line(buffer: &[u8], boundary_line: &[u8], boundary_end_line: &[u8]) -> (r: bool)
    ensures
        r == malformed_line(buffer@, boundary_line@, boundary_end_line@),
{
    let _n = buffer.len();
    let needle = bytes4(13, 10, 45, 45);
    let p = match find_subslice(buffer, needle.as_slice()) {
        Some(p) => p,
        None => return false,
    };
    proof {
        lemma_find_from(buffer@, crlf_dashes(), 0);
    }
    let cr = bytes2(13, 10);
    let e = match find_subslice_from(buffer, cr.as_slice(), p + 2) {
        Some(e) => e,
        None => return false,
    };
    proof {
        lemma_find_from(buffer@, crlf(), p + 2);
    }
    let line = copy_range(buffer, p + 2, e);
    !bytes_eq(line.as_slice(), boundary_line) && !bytes_eq(line.as_slice(), boundary_end_line)
}

/// What a poll yields, as a mathematical value.
pub enum Polled {
    NeedChunk,
    Finished,
    Incomplete,
    Part { headers: PartHeadersView, body: Seq<u8> },
    Failure(StreamFault),
}

/// A poll: run the machine; input that has ended while more is needed is
/// incomplete.
pub open spec fn poll_spec(m: StreamView) -> (StreamView, Polled) {
    let (m2, o) = run(m);
    match o {
        Outcome::NeedMore => if m2.upstream_done {
            (StreamView { state: ParseState::Failed, ..m2 }, Polled::Incomplete)
        } else {
            (m2, Polled::NeedChunk)
        },
        Outcome::Done => (m2, Polled::Finished),
        Outcome::Part { headers, body } => (m2, Polled::Part { headers, body }),
        Outcome::Failure(f) => (m2, Polled::Failure(f)),
    }
}

/// `r` is the poll result `p`.
pub open spec fn polled_is(r: StreamPoll, p: Polled) -> bool {
    match p {
        Polled::NeedChunk => r is NeedChunk,
        Polled::Finished => r is Finished,
        Polled::Incomplete => r matches StreamPoll::Item(Err(MulterError::IncompleteStream)),
        Polled::Part { headers, body } => r matches StreamPoll::Item(Ok(x)) && x.headers@ == headers
            && x.body@ == body,
        Polled::Failure(f) => r matches StreamPoll::Item(Err(e)) && error_is(e, f),
    }
}

/// A part's body is exactly the bytes before the first delimiter (whose CR LF
/// belongs to the boundary): the body is a prefix of the buffer, the
/// delimiter follows it, and it holds no earlier delimiter.
pub proof fn lemma_part_body_is_exact(m: StreamView)
    requires
        stream_wf(m),
        m.state is Body,
        step(m).1 matches Some(Outcome::Part { .. }),
    ensures
        step(m).1 matches Some(Outcome::Part { body, .. }) && m.buffer.subrange(0, body.len() as int) == body
            && occurs_at(m.buffer, m.delimiter, body.len() as int) && forall|j: int|
            0 <= j < body.len() ==> !occurs_at(m.buffer, m.delimiter, j),
{
    lemma_find_from(m.buffer, m.delimiter, 0);
}

/// At the end of input, a closing boundary without its final CR LF still ends
/// the multipart: the part is yielded and the machine ends.
pub proof fn lemma_closing_without_crlf(m: StreamView, body: Seq<u8>)
    requires
        stream_wf(m),
        m.state is Body,
        m.upstream_done,
        m.buffer == body + m.delimiter + dashes(),
        find(m.buffer, m.delimiter) == Some(body.len() as int),
        m.max_size matches Some(l) ==> body.len() <= l,
    ensures
        step(m).0.state is End,
        step(m).1 == Some(Outcome::Part { headers: m.current.unwrap(), body }),
{
    let at = (body.len() + m.delimiter.len()) as int;
    assert(m.buffer.subrange(at, m.buffer.len() as int) =~= dashes());
    assert(m.buffer.subrange(0, body.len() as int) =~= body);
    assert(!occurs_at(m.buffer, crlf(), at)) by {
        assert(m.buffer[at] == 45u8);
    }
}

/// In a body, a boundary-like line that is neither the opening nor the closing
/// boundary fails the parse, before any delimiter arrives.
pub proof fn lemma_malformed_line_fails(m: StreamView)
    requires
        stream_wf(m),
        m.state is Body,
        find(m.buffer, m.delimiter) is None,
        m.max_size matches Some(l) ==> sat_sub(m.buffer.len() as int, m.delimiter.len() - 1) <= l,
        malformed_line(m.buffer, m.boundary_line, m.boundary_end_line),
    ensures
        step(m).0.state is Failed,
        step(m).1 == Some(Outcome::Failure(StreamFault::Parse("malformed multipart boundary"@))),
{
}

/// Input that ends before any line fails with `missing opening boundary`.
pub proof fn lemma_empty_input_fails(m: StreamView)
    requires
        stream_wf(m),
        m.state is StartBoundary,
        m.upstream_done,
        find(m.buffer, crlf()) is None,
    ensures
        poll_spec(m).0.state is Failed,
        poll_spec(m).1 == Polled::Failure(StreamFault::Parse("missing opening boundary"@)),
{
}

/// Input that ends inside a part's body fails as incomplete.
pub proof fn lemma_truncated_part_is_incomplete(m: StreamView)
    requires
        stream_wf(m),
        m.state is Body,
        m.upstream_done,
        find(m.buffer, m.delimiter) is None,
        m.max_size matches Some(l) ==> sat_sub(m.buffer.len() as int, m.delimiter.len() - 1) <= l,
        !malformed_line(m.buffer, m.boundary_line, m.boundary_end_line),
    ensures
        poll_spec(m).0.state is Failed,
        poll_spec(m).1 == Polled::Incomplete,
{
}

/// While a request-size limit is set, the bytes received never exceed it.
pub proof fn lemma_received_within_limit(m: StreamView)
    requires
        stream_wf(m),
    ensures
        m.limits.max_body_size matches Some(l) ==> m.received <= l && (m.fed.len() <= u64::MAX ==> m.fed.len() <= l),
{
}

/// The machine after `more` bytes arrive.
pub open spec fn with_more(m: StreamView, more: Seq<u8>) -> StreamView {
    StreamView { buffer: m.buffer + more, ..m }
}

/// A transition that has decided on the bytes it holds decides the same way
/// once more bytes arrive, the extra bytes staying in the buffer untouched:
/// reading the opening boundary or a header block (or failing on them), and
/// yielding a part.
pub proof fn lemma_step_stable_under_more_input(m: StreamView, more: Seq<u8>)
    requires
        stream_wf(m),
        !m.upstream_done,
        m.state is Body ==> step(m).1 matches Some(Outcome::Part { .. }),
        step(m).1 matches Some(o) ==> !(o is NeedMore),
    ensures
        step(with_more(m, more)).0 == with_more(step(m).0, more),
        step(with_more(m, more)).1 == step(m).1,
{
    let mx = with_more(m, more);
    match m.state {
        ParseState::StartBoundary => {
            lemma_find_from(m.buffer, crlf(), 0);
            assert(find(m.buffer, crlf()) is Some);
            lemma_find_from_extend(m.buffer, more, crlf(), 0);
            let k = find(m.buffer, crlf()).unwrap();
            let line = m.buffer.subrange(0, k);
            assert(mx.buffer.subrange(0, k) =~= line);
            assert(mx.buffer.subrange(k + 2, mx.buffer.len() as int) =~= m.buffer.subrange(
                k + 2,
                m.buffer.len() as int,
            ) + more);
            if line == m.boundary_line {
                assert(step(mx).0 == with_more(step(m).0, more));
            } else if line == m.boundary_end_line {
                assert(step(mx).0 == with_more(step(m).0, more));
            } else {
                assert(step(mx).0 == with_more(step(m).0, more));
            }
        },
        ParseState::Headers => {
            lemma_find_from(m.buffer, blank_line(), 0);
            if find(m.buffer, blank_line()) is Some {
                lemma_find_from_extend(m.buffer, more, blank_line(), 0);
                let k = find(m.buffer, blank_line()).unwrap();
                assert(mx.buffer.subrange(0, k) =~= m.buffer.subrange(0, k));
                assert(mx.buffer.subrange(k + 4, mx.buffer.len() as int) =~= m.buffer.subrange(
                    k + 4,
                    m.buffer.len() as int,
                ) + more);
            }
        },
        ParseState::Body => {
            lemma_find_from(m.buffer, m.delimiter, 0);
            lemma_find_from_extend(m.buffer, more, m.delimiter, 0);
            let k = find(m.buffer, m.delimiter).unwrap();
            let at = k + m.delimiter.len();
            assert(mx.buffer.subrange(0, k) =~= m.buffer.subrange(0, k));
            if occurs_at(m.buffer, dashes_crlf(), at) {
                assert(mx.buffer.subrange(at, at + 4) =~= m.buffer.subrange(at, at + 4));
                assert(mx.buffer.subrange(at + 4, mx.buffer.len() as int) =~= m.buffer.subrange(
                    at + 4,
                    m.buffer.len() as int,
                ) + more);
            } else if occurs_at(m.buffer, crlf(), at) {
                assert(mx.buffer.subrange(at, at + 2) =~= m.buffer.subrange(at, at + 2));
                assert(!occurs_at(mx.buffer, dashes_crlf(), at)) by {
                    assert(mx.buffer[at] == m.buffer[at]);
                    assert(m.buffer[at] == 13u8);
                }
                assert(mx.buffer.subrange(at + 2, mx.buffer.len() as int) =~= m.buffer.subrange(
                    at + 2,
                    m.buffer.len() as int,
                ) + more);
            }
        },
        _ => {
            assert(step(mx).1 == step(m).1);
            assert(step(mx).0 == with_more(step(m).0, more));
        },
    }
}

/// Once the bytes held suffice to yield a part, bytes arriving later change
/// nothing about it: the same part is yielded, and the later bytes wait in
/// the buffer.
pub proof fn lemma_part_stable_under_more_input(m: StreamView, more: Seq<u8>)
    requires
        stream_wf(m),
        !m.upstream_done,
        run(m).1 is Part,
    ensures
        run(with_more(m, more)) == (with_more(run(m).0, more), run(m).1),
    decreases rank(m.state),
{
    let (m2, o) = step(m);
    lemma_step_keeps_wf(m);
    lemma_step_shrinks(m);
    match o {
        Some(_) => {
            lemma_step_stable_under_more_input(m, more);
        },
        None => {
            if rank(m2.state) < rank(m.state) {
                lemma_step_stable_under_more_input(m, more);
                lemma_part_stable_under_more_input(m2, more);
            }
        },
    }
}

/// What a poll of the parser yields.
pub enum StreamPoll {
    /// A part or an error.
    Item(Result<ParsedPart, MulterError>),
    /// No more parts.
    Finished,
    /// The parser waits for the next chunk (or the end of input).
    NeedChunk,
}

impl MultipartStream {
    fn consume_front(&mut self, n: usize)
        requires
            n <= old(self)@.buffer.len(),
        ensures
            final(self)@ == (StreamView {
                buffer: old(self)@.buffer.subrange(n as int, old(self)@.buffer.len() as int),
                ..old(self)@
            }),
    {
        let rest = copy_range(self.buffer.as_slice(), n, self.buffer.len());
        self.buffer = rest;
    }

    fn size_error(&self, limit: u64) -> (e: MulterError)
        ensures
            error_is(e, size_fault(self@, limit)),
    {
        let field = match &self.current_headers {
            Some(h) => h.field_name.clone(),
            None => String::new(),
        };
        if self.current_part_is_file {
            MulterError::FileSizeLimitExceeded { field, max_file_size: limit }
        } else {
            MulterError::FieldSizeLimitExceeded { field, max_field_size: limit }
        }
    }

    fn fail(&mut self, e: MulterError) -> (r: Option<ParseOutcome>)
        ensures
            final(self)@ == (StreamView { state: ParseState::Failed, ..old(self)@ }),
            r matches Some(ParseOutcome::Emit(Err(x))) && x == e,
    {
        self.state = ParseState::Failed;
        Some(ParseOutcome::Emit(Err(e)))
    }

    fn finish_part(&mut self, k: usize, consumed: usize, terminal: bool) -> (r: Option<ParseOutcome>)
        requires
            old(self).wf(),
            old(self)@.state is Body,
            k <= consumed <= old(self)@.buffer.len(),
        ensures
            final(self).wf(),
            final(self)@ == finish_part(old(self)@, k as int, consumed as int, terminal).0,
            r matches Some(x) && finish_part(old(self)@, k as int, consumed as int, terminal).1 matches Some(o) && outcome_is(x, o),
    {
        let body = copy_range(self.buffer.as_slice(), 0, k);
        self.consume_front(consumed);
        if let Some(l) = self.current_part_max_size {
            if body.len() as u64 > l {
                let e = self.size_error(l);
                return self.fail(e);
            }
        }
        let headers = match self.current_headers.take() {
            Some(h) => h,
            None => return self.fail(MulterError::Parse(ParseError::new("missing part headers"))),
        };
        self.current_part_max_size = None;
        self.current_part_is_file = false;
        self.state = if terminal {
            ParseState::End
        } else {
            ParseState::Headers
        };
        Some(ParseOutcome::Emit(Ok(ParsedPart { headers, body })))
    }

    fn step_start(&mut self) -> (r: Option<ParseOutcome>)
        requires
            old(self).wf(),
            old(self)@.state is StartBoundary,
        ensures
            final(self).wf(),
            final(self)@ == step(old(self)@).0,
            match step(old(self)@).1 {
                Some(o) => r matches Some(x) && outcome_is(x, o),
                None => r is None,
            },
    {
        let _n = self.buffer.len();
        let cr = bytes2(13, 10);
        match find_subslice(self.buffer.as_slice(), cr.as_slice()) {
            None => {
                if self.upstream_done {
                    self.fail(MulterError::Parse(ParseError::new("missing opening boundary")))
                } else {
                    Some(ParseOutcome::NeedMore)
                }
            },
            Some(k) => {
                proof {
                    lemma_find_from(self@.buffer, crlf(), 0);
                }
                let line = copy_range(self.buffer.as_slice(), 0, k);
                self.consume_front(k + 2);
                if bytes_eq(line.as_slice(), self.boundary_line.as_slice()) {
                    self.state = ParseState::Headers;
                    None
                } else if bytes_eq(line.as_slice(), self.boundary_end_line.as_slice()) {
                    self.state = ParseState::End;
                    None
                } else {
                    self.fail(MulterError::Parse(ParseError::new("missing opening boundary")))
                }
            },
        }
    }

    fn step_headers(&mut self) -> (r: Option<ParseOutcome>)
        requires
            old(self).wf(),
            old(self)@.state is Headers,
        ensures
            final(self).wf(),
            final(self)@ == step(old(self)@).0,
            match step(old(self)@).1 {
                Some(o) => r matches Some(x) && outcome_is(x, o),
                None => r is None,
            },
    {
        let _n = self.buffer.len();
        let bl = bytes4(13, 10, 13, 10);
        match find_subslice(self.buffer.as_slice(), bl.as_slice()) {
            None => Some(ParseOutcome::NeedMore),
            Some(k) => {
                proof {
                    lemma_find_from(self@.buffer, blank_line(), 0);
                }
                let raw = copy_range(self.buffer.as_slice(), 0, k);
                self.consume_front(k + 4);
                match parse_part_headers(raw.as_slice()) {
                    Err(e) => self.fail(MulterError::Parse(e)),
                    Ok(h) => {
                        let is_file = h.file_name.is_some();
                        self.current_headers = Some(h);
                        self.current_part_is_file = is_file;
                        self.current_part_max_size = if is_file {
                            self.limits.max_file_size
                        } else {
                            self.limits.max_field_size
                        };
                        self.state = ParseState::Body;
                        None
                    },
                }
            },
        }
    }

    fn step_body(&mut self) -> (r: Option<ParseOutcome>)
        requires
            old(self).wf(),
            old(self)@.state is Body,
        ensures
            final(self).wf(),
            final(self)@ == step(old(self)@).0,
            match step(old(self)@).1 {
                Some(o) => r matches Some(x) && outcome_is(x, o),
                None => r is None,
            },
    {
        let _n = self.buffer.len();
        match find_subslice(self.buffer.as_slice(), self.delimiter.as_slice()) {
            None => {
                if let Some(l) = self.current_part_max_size {
                    let max_tail = self.delimiter.len() - 1;
                    let guaranteed = if self.buffer.len() > max_tail {
                        self.buffer.len() - max_tail
                    } else {
                        0
                    };
                    if guaranteed as u64 > l {
                        let e = self.size_error(l);
                        return self.fail(e);
                    }
                }
                if has_malformed_boundary_line(
                    self.buffer.as_slice(),
                    self.boundary_line.as_slice(),
                    self.boundary_end_line.as_slice(),
                ) {
                    return self.fail(MulterError::Parse(ParseError::new("malformed multipart boundary")));
                }
                Some(ParseOutcome::NeedMore)
            },
            Some(k) => {
                proof {
                    lemma_find_from(self@.buffer, self@.delimiter, 0);
                }
                let at = k + self.delimiter.len();
                let dc = bytes4(45, 45, 13, 10);
                if matches_at(self.buffer.as_slice(), dc.as_slice(), at) {
                    return self.finish_part(k, at + 4, true);
                }
                let cr = bytes2(13, 10);
                if matches_at(self.buffer.as_slice(), cr.as_slice(), at) {
                    return self.finish_part(k, at + 2, false);
                }
                let ghost suffix = self@.buffer.subrange(at as int, self@.buffer.len() as int);
                let rest = self.buffer.len() - at;
                if self.upstream_done && rest == 2 && self.buffer[at] == 45 && self.buffer[at + 1] == 45 {
                    assert(suffix =~= dashes());
                    return self.finish_part(k, at + 2, true);
                }
                proof {
                    if rest == 2 && suffix == dashes() {
                        assert(suffix[0] == 45u8 && suffix[1] == 45u8);
                    }
                }
                let partial = rest == 0 || (rest == 1 && (self.buffer[at] == 45 || self.buffer[at] == 13))
                    || (rest == 2 && self.buffer[at] == 45 && self.buffer[at + 1] == 45) || (rest == 3
                    && self.buffer[at] == 45 && self.buffer[at + 1] == 45 && self.buffer[at + 2] == 13);
                assert(partial == partial_suffix(suffix));
                if !self.upstream_done && partial {
                    if let Some(l) = self.current_part_max_size {
                        if k as u64 > l {
                            let e = self.size_error(l);
                            return self.fail(e);
                        }
                    }
                    return Some(ParseOutcome::NeedMore);
                }
                self.fail(MulterError::Parse(ParseError::new("malformed multipart boundary")))
            },
        }
    }

    fn step(&mut self) -> (r: Option<ParseOutcome>)
        requires
            old(self).wf(),
        ensures
            final(self).wf(),
            final(self)@ == step(old(self)@).0,
            match step(old(self)@).1 {
                Some(o) => r matches Some(x) && outcome_is(x, o),
                None => r is None,
            },
    {
        match self.state {
            ParseState::StartBoundary => self.step_start(),
            ParseState::Headers => self.step_headers(),
            ParseState::Body => self.step_body(),
            ParseState::End => Some(ParseOutcome::Done),
            ParseState::Failed => Some(ParseOutcome::Done),
        }
    }

    /// Parses what the buffer holds: yields the next part or error, asks for
    /// more input, or reports that nothing more will come. While it waits in
    /// a part's body, at most `limit + len(delimiter) - 1` of that part's
    /// bytes are held.
    pub fn parse_available(&mut self) -> (r: ParseOutcome)
        requires
            old(self).wf(),
        ensures
            final(self).wf(),
            final(self)@ == run(old(self)@).0,
            outcome_is(r, run(old(self)@).1),
            r is NeedMore && final(self)@.state is Body ==> (final(self)@.max_size matches Some(l)
                ==> part_bytes_seen(final(self)@) <= l + final(self)@.delimiter.len() - 1),
            r matches ParseOutcome::Emit(Ok(_)) ==> final(self)@.buffer.len() < old(self)@.buffer.len(),
    {
        let ghost start = self@;
        proof {
            lemma_run_shrinks(start);
        }
        loop
            invariant
                self.wf(),
                start == old(self)@,
                run(start).1 is Part ==> run(start).0.buffer.len() < start.buffer.len(),
                run(old(self)@) == run(self@),
            decreases rank(self@.state),
        {
            let ghost before = self@;
            match self.step() {
                Some(o) => {
                    proof {
                        lemma_find_from(before.buffer, before.delimiter, 0);
                        assert(run(before).1 == step(before).1.unwrap());
                        if o matches ParseOutcome::Emit(Ok(_)) {
                            assert(run(old(self)@).1 is Part);
                            assert(self@ == run(old(self)@).0);
                        }
                    }
                    return o;
                },
                None => {},
            }
        }
    }
}

impl MultipartStream {
    /// The parser's state.
    pub fn state(&self) -> (r: ParseState)
        ensures
            r == self@.state,
    {
        self.state
    }

    /// Has the chunk source ended?
    pub fn upstream_done(&self) -> (r: bool)
        ensures
            r == self@.upstream_done,
    {
        self.upstream_done
    }

    /// Appends a chunk from the source. An empty chunk changes nothing. When a
    /// request-size limit is set and the chunk would take the bytes received
    /// past it, the chunk is refused and the parser fails.
    pub fn push_chunk(&mut self, chunk: &[u8]) -> (r: Result<(), MulterError>)
        requires
            old(self).wf(),
        ensures
            final(self).wf(),
            chunk@.len() == 0 ==> r is Ok && final(self)@ == old(self)@,
            chunk@.len() > 0 ==> match old(self)@.limits.max_body_size {
                Some(l) if sat_add(old(self)@.received as int, chunk@.len() as int) > l => {
                    &&& r matches Err(MulterError::BodySizeLimitExceeded { max_body_size }) && max_body_size == l
                    &&& final(self)@ == (StreamView { state: ParseState::Failed, ..old(self)@ })
                },
                _ => {
                    &&& r is Ok
                    &&& final(self)@ == (StreamView {
                        buffer: old(self)@.buffer + chunk@,
                        fed: old(self)@.fed + chunk@,
                        received: sat_add(old(self)@.received as int, chunk@.len() as int) as u64,
                        ..old(self)@
                    })
                },
            },
    {
        let len = chunk.len();
        if len == 0 {
            return Ok(());
        }
        let next: u64 = if (len as u64) > u64::MAX - self.received_body_bytes {
            u64::MAX
        } else {
            self.received_body_bytes + len as u64
        };
        if let Some(max_body_size) = self.limits.max_body_size {
            if next > max_body_size {
                self.state = ParseState::Failed;
                return Err(MulterError::BodySizeLimitExceeded { max_body_size });
            }
        }
        self.received_body_bytes = next;
        extend(&mut self.buffer, chunk);
        self.fed = Ghost(self.fed@ + chunk@);
        Ok(())
    }

    /// Stops the parser: nothing more is parsed.
    pub fn halt(&mut self)
        requires
            old(self).wf(),
        ensures
            final(self).wf(),
            final(self)@ == (StreamView { state: ParseState::Failed, ..old(self)@ }),
    {
        self.state = ParseState::Failed;
    }

    /// Records that the chunk source has ended.
    pub fn end_of_input(&mut self)
        requires
            old(self).wf(),
        ensures
            final(self).wf(),
            final(self)@ == (StreamView { upstream_done: true, ..old(self)@ }),
    {
        self.upstream_done = true;
    }

    /// Records that the chunk source failed with `err`: the parser fails and
    /// hands the error back.
    pub fn fail_upstream(&mut self, err: MulterError) -> (r: MulterError)
        requires
            old(self).wf(),
        ensures
            final(self).wf(),
            final(self)@ == (StreamView { state: ParseState::Failed, ..old(self)@ }),
            r == err,
    {
        self.state = ParseState::Failed;
        err
    }

    /// Polls the parser: a part or error, the end, or a request for the next
    /// chunk. Input that ends before the closing boundary fails with
    /// `IncompleteStream`.
    pub fn poll_next(&mut self) -> (r: StreamPoll)
        requires
            old(self).wf(),
        ensures
            final(self).wf(),
            final(self)@ == poll_spec(old(self)@).0,
            polled_is(r, poll_spec(old(self)@).1),
            r matches StreamPoll::Item(Ok(_)) ==> final(self)@.buffer.len() < old(self)@.buffer.len(),
            final(self)@.upstream_done == old(self)@.upstream_done,
            final(self)@.limits == old(self)@.limits,
            r matches StreamPoll::Item(Err(_)) ==> final(self)@.state is Failed,
            r is NeedChunk ==> !old(self)@.upstream_done,
            r is Finished ==> (final(self)@.state is End || final(self)@.state is Failed),
    {
        proof {
            lemma_run_shrinks(self@);
        }
        match self.parse_available() {
            ParseOutcome::Emit(item) => StreamPoll::Item(item),
            ParseOutcome::Done => StreamPoll::Finished,
            ParseOutcome::NeedMore => {
                if self.upstream_done {
                    self.state = ParseState::Failed;
                    StreamPoll::Item(Err(MulterError::IncompleteStream))
                } else {
                    StreamPoll::NeedChunk
                }
            },
        }
    }
}

} // verus!
