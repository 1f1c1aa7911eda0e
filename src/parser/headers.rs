//! Parsing of one part's header block: header lines, `Content-Disposition`
//! parameters (quoted strings and RFC 5987 `filename*`) and `Content-Type`.

use vstd::prelude::*;
use crate::error::ParseError;
use crate::parser::boundary::{media_essence, mime_essence_of};
use crate::text::{chars_eq_ignore_case, chars_of, decode_utf8_bytes, seq_eq_ic, string_of};

verus! {

/// A media type as the logic reads it: its essence and the header text it
/// came from.
#[derive(Debug, PartialEq, Eq)]
pub struct MediaType {
    /// `type/subtype`, without parameters.
    pub essence: String,
    /// The full header value.
    pub text: String,
}

impl MediaType {
    /// The essence, `type/subtype`.
    pub fn essence_str(&self) -> (r: &str)
        ensures
            r@ == self.essence@,
    {
        self.essence.as_str()
    }

    /// The full header value.
    pub fn to_string(&self) -> (r: String)
        ensures
            r@ == self.text@,
    {
        self.text.clone()
    }
}

/// One header line: the normalized (lower-case) name and the trimmed value.
#[derive(Debug, PartialEq, Eq)]
pub struct HeaderField {
    pub name: String,
    pub value: String,
}

/// The headers of one part.
#[derive(Debug, PartialEq, Eq)]
pub struct ParsedPartHeaders {
    /// `name` parameter of `Content-Disposition`.
    pub field_name: String,
    /// `filename` (or decoded `filename*`) parameter; present for file parts.
    pub file_name: Option<String>,
    /// Declared or default content type.
    pub content_type: MediaType,
    /// Every header line, in order.
    pub headers: Vec<HeaderField>,
}

/// Mathematical value of [`ParsedPartHeaders`].
pub struct PartHeadersView {
    pub field_name: Seq<char>,
    pub file_name: Option<Seq<char>>,
    pub essence: Seq<char>,
    pub content_type: Seq<char>,
    pub headers: Seq<(Seq<char>, Seq<char>)>,
}

/// The (name, value) pairs of header lines.
pub open spec fn header_fields_view(v: Seq<HeaderField>) -> Seq<(Seq<char>, Seq<char>)> {
    v.map_values(|h: HeaderField| (h.name@, h.value@))
}

impl View for ParsedPartHeaders {
    type V = PartHeadersView;

    open spec fn view(&self) -> PartHeadersView {
        PartHeadersView {
            field_name: self.field_name@,
            file_name: match self.file_name {
                Some(f) => Some(f@),
                None => None,
            },
            essence: self.content_type.essence@,
            content_type: self.content_type.text@,
            headers: header_fields_view(self.headers@),
        }
    }
}

// ---------------------------------------------------------------------------
// Lines and trimming

/// Optional whitespace inside header lines: space or horizontal tab.
pub open spec fn is_ows(c: char) -> bool {
    c == ' ' || c == '\t'
}

/// First index at or after `i` that is not whitespace (or `s.len()`).
pub open spec fn skip_ows(s: Seq<char>, i: int) -> int
    decreases s.len() - i,
{
    if i < 0 || i >= s.len() || !is_ows(s[i]) {
        if i < 0 { 0 } else { i }
    } else {
        skip_ows(s, i + 1)
    }
}

/// End of `s[..j]` once trailing whitespace is removed, not going below `lo`.
pub open spec fn trim_end_from(s: Seq<char>, lo: int, j: int) -> int
    decreases j - lo,
{
    if j <= lo || j > s.len() || !is_ows(s[j - 1]) {
        j
    } else {
        trim_end_from(s, lo, j - 1)
    }
}

/// `s[from..to]` without leading and trailing whitespace.
pub open spec fn trimmed(s: Seq<char>, from: int, to: int) -> Seq<char> {
    let a = skip_ows(s, from);
    let a2 = if a > to { to } else { a };
    s.subrange(a2, trim_end_from(s, a2, to))
}

proof fn lemma_skip_ows(s: Seq<char>, i: int)
    requires
        0 <= i <= s.len(),
    ensures
        i <= skip_ows(s, i) <= s.len(),
    decreases s.len() - i,
{
    if i < s.len() && is_ows(s[i]) {
        lemma_skip_ows(s, i + 1);
    }
}

proof fn lemma_trim_end(s: Seq<char>, lo: int, j: int)
    requires
        0 <= lo <= j <= s.len(),
    ensures
        lo <= trim_end_from(s, lo, j) <= j,
    decreases j - lo,
{
    if j > lo && is_ows(s[j - 1]) {
        lemma_trim_end(s, lo, j - 1);
    }
}

/// `s[from..to]` without surrounding whitespace.
fn trim_range(s: &Vec<char>, from: usize, to: usize) -> (r: Vec<char>)
    requires
        from <= to <= s@.len(),
    ensures
        r@ == trimmed(s@, from as int, to as int),
{
    let mut a = from;
    while a < s.len() && (s[a] == ' ' || s[a] == '\t')
        invariant
            from <= a <= s@.len(),
            skip_ows(s@, from as int) == skip_ows(s@, a as int),
        decreases s@.len() - a,
    {
        a = a + 1;
    }
    let a2 = if a > to { to } else { a };
    let mut b = to;
    while b > a2 && (s[b - 1] == ' ' || s[b - 1] == '\t')
        invariant
            a2 <= b <= to,
            to <= s@.len(),
            trim_end_from(s@, a2 as int, to as int) == trim_end_from(s@, a2 as int, b as int),
        decreases b - a2,
    {
        b = b - 1;
    }
    let mut out: Vec<char> = Vec::new();
    let mut i = a2;
    while i < b
        invariant
            a2 <= i <= b,
            b <= s@.len(),
            out@ == s@.subrange(a2 as int, i as int),
        decreases b - i,
    {
        out.push(s[i]);
        assert(s@.subrange(a2 as int, i + 1) == s@.subrange(a2 as int, i as int).push(s@[i as int]));
        i = i + 1;
    }
    out
}

/// First index at or after `i` holding `c`.
pub open spec fn find_char_from(s: Seq<char>, c: char, i: int) -> Option<int>
    decreases s.len() - i,
{
    if i < 0 || i >= s.len() {
        None
    } else if s[i] == c {
        Some(i)
    } else {
        find_char_from(s, c, i + 1)
    }
}

proof fn lemma_find_char(s: Seq<char>, c: char, i: int)
    requires
        0 <= i,
    ensures
        find_char_from(s, c, i) matches Some(k) ==> i <= k < s.len() && s[k] == c,
    decreases s.len() - i,
{
    if i < s.len() && s[i] != c {
        lemma_find_char(s, c, i + 1);
    }
}

fn find_char(s: &Vec<char>, c: char, from: usize, to: usize) -> (r: Option<usize>)
    requires
        to == s@.len(),
    ensures
        r matches Some(k) ==> find_char_from(s@, c, from as int) == Some(k as int),
        r is None ==> find_char_from(s@, c, from as int) is None,
{
    let mut i = from;
    while i < to
        invariant
            from <= i,
            to == s@.len(),
            find_char_from(s@, c, from as int) == find_char_from(s@, c, i as int),
        decreases to - i,
    {
        if s[i] == c {
            return Some(i);
        }
        i = i + 1;
    }
    None
}

/// First index at or after `i` where CR LF starts.
pub open spec fn find_crlf_from(s: Seq<char>, i: int) -> Option<int>
    decreases s.len() - i,
{
    if i < 0 || i + 1 >= s.len() {
        None
    } else if s[i] == '\r' && s[i + 1] == '\n' {
        Some(i)
    } else {
        find_crlf_from(s, i + 1)
    }
}

proof fn lemma_find_crlf(s: Seq<char>, i: int)
    requires
        0 <= i,
    ensures
        find_crlf_from(s, i) matches Some(k) ==> i <= k && k + 1 < s.len(),
    decreases s.len() - i,
{
    if i + 1 < s.len() && !(s[i] == '\r' && s[i + 1] == '\n') {
        lemma_find_crlf(s, i + 1);
    }
}

fn find_crlf(s: &Vec<char>, from: usize) -> (r: Option<usize>)
    ensures
        r matches Some(k) ==> find_crlf_from(s@, from as int) == Some(k as int),
        r is None ==> find_crlf_from(s@, from as int) is None,
{
    let mut i = from;
    while i < s.len() && s.len() - i > 1
        invariant
            from <= i,
            find_crlf_from(s@, from as int) == find_crlf_from(s@, i as int),
        decreases s@.len() - i,
    {
        if s[i] == '\r' && s[i + 1] == '\n' {
            return Some(i);
        }
        i = i + 1;
    }
    None
}

// ---------------------------------------------------------------------------
// Header lines

/// A character of an HTTP token (RFC 9110 `tchar`).
pub open spec fn token_char(c: char) -> bool {
    ('a' <= c && c <= 'z') || ('A' <= c && c <= 'Z') || ('0' <= c && c <= '9') || c == '!' || c
        == '#' || c == '$' || c == '%' || c == '&' || c == '\'' || c == '*' || c == '+' || c == '-'
        || c == '.' || c == '^' || c == '_' || c == '`' || c == '|' || c == '~'
}

/// `c` in lower case, for ASCII letters.
pub open spec fn lower_char(c: char) -> char {
    if 'A' <= c && c <= 'Z' {
        ((c as u32) + 32) as char
    } else {
        c
    }
}

/// The normalized header name that `http::HeaderName` makes of `s`: its
/// lower-case form when `s` is 1 to 65535 token characters, else `None`.
pub open spec fn header_name_of(s: Seq<char>) -> Option<Seq<char>> {
    if 1 <= s.len() <= 65535 && forall|i: int| 0 <= i < s.len() ==> token_char(#[trigger] s[i]) {
        Some(Seq::new(s.len(), |i: int| lower_char(s[i])))
    } else {
        None
    }
}

/// Relies on http's `HeaderName::from_bytes` (its `HEADER_CHARS` table maps
/// token bytes to lower case and every other byte to an error; the length
/// must be 1 to 65535) and `HeaderName::as_str`.
#[verifier::external_body]
fn header_name(s: &str) -> (r: Option<String>)
    ensures
        r matches Some(n) ==> header_name_of(s@) == Some(n@),
        r is None ==> header_name_of(s@) is None,
        s@.len() == 0 ==> r is None,
{
    http::HeaderName::from_bytes(s.as_bytes()).ok().map(|n| n.as_str().to_owned())
}

/// A character whose UTF-8 bytes `http::HeaderValue` accepts: visible ASCII,
/// space, tab, or any non-ASCII character.
pub open spec fn header_value_char(c: char) -> bool {
    (c as u32 >= 32 && c as u32 != 127) || c == '\t'
}

/// Relies on http's `HeaderValue::from_str`, which accepts exactly the strings
/// whose bytes are all at least 32 and not 127, or a tab.
#[verifier::external_body]
fn header_value_ok(s: &str) -> (r: bool)
    ensures
        r == forall|i: int| 0 <= i < s@.len() ==> header_value_char(#[trigger] s@[i]),
{
    http::HeaderValue::from_str(s).is_ok()
}

/// One non-empty header line parsed: the name before the first `:` and the
/// value after it, both trimmed; the name normalized.
pub open spec fn parse_line(line: Seq<char>) -> Result<(Seq<char>, Seq<char>), Seq<char>> {
    match find_char_from(line, ':', 0) {
        None => Err("invalid part header line"@),
        Some(c) => {
            let name = trimmed(line, 0, c);
            let value = trimmed(line, c + 1, line.len() as int);
            match header_name_of(name) {
                None => Err("invalid part header name"@),
                Some(n) => if forall|i: int| 0 <= i < value.len() ==> header_value_char(#[trigger] value[i]) {
                    Ok((n, value))
                } else {
                    Err("invalid part header value"@)
                },
            }
        },
    }
}

/// `a` followed by what `r` holds, or the error of `r`.
pub open spec fn prepend<T>(a: Seq<T>, r: Result<Seq<T>, Seq<char>>) -> Result<Seq<T>, Seq<char>> {
    match r {
        Ok(s) => Ok(a + s),
        Err(m) => Err(m),
    }
}

/// Start of the line after the one that starts at `pos`.
pub open spec fn next_line(s: Seq<char>, pos: int) -> int {
    match find_crlf_from(s, pos) {
        Some(k) => if pos <= k && k + 2 <= s.len() { k + 2 } else { s.len() as int },
        None => s.len() as int,
    }
}

/// End of the line that starts at `pos`.
pub open spec fn line_end(s: Seq<char>, pos: int) -> int {
    match find_crlf_from(s, pos) {
        Some(k) => if pos <= k && k + 2 <= s.len() { k } else { s.len() as int },
        None => s.len() as int,
    }
}

/// The header lines of `s` from `pos` on, split at CR LF, empty lines skipped.
pub open spec fn lines_from(s: Seq<char>, pos: int) -> Result<Seq<(Seq<char>, Seq<char>)>, Seq<char>>
    decreases s.len() - pos,
{
    if pos < 0 || pos >= s.len() {
        Ok(Seq::empty())
    } else {
        let line = s.subrange(pos, line_end(s, pos));
        if line.len() == 0 {
            lines_from(s, next_line(s, pos))
        } else {
            match parse_line(line) {
                Err(m) => Err(m),
                Ok(h) => prepend(seq![h], lines_from(s, next_line(s, pos))),
            }
        }
    }
}

fn parse_header_line(line: &Vec<char>) -> (r: Result<HeaderField, ParseError>)
    ensures
        match parse_line(line@) {
            Ok(h) => r matches Ok(f) && f.name@ == h.0 && f.value@ == h.1,
            Err(m) => r matches Err(e) && e.message@ == m,
        },
{
    let c = match find_char(line, ':', 0, line.len()) {
        Some(c) => c,
        None => return Err(ParseError::new("invalid part header line")),
    };
    proof {
        lemma_find_char(line@, ':', 0);
    }
    let name = string_of(&trim_range(line, 0, c));
    let value = string_of(&trim_range(line, c + 1, line.len()));
    let n = match header_name(name.as_str()) {
        Some(n) => n,
        None => return Err(ParseError::new("invalid part header name")),
    };
    if !header_value_ok(value.as_str()) {
        return Err(ParseError::new("invalid part header value"));
    }
    Ok(HeaderField { name: n, value })
}

/// Splits header text into lines and parses each non-empty one.
fn parse_lines(s: &Vec<char>) -> (r: Result<Vec<HeaderField>, ParseError>)
    ensures
        match lines_from(s@, 0) {
            Ok(hs) => r matches Ok(v) && header_fields_view(v@) == hs,
            Err(m) => r matches Err(e) && e.message@ == m,
        },
{
    let mut acc: Vec<HeaderField> = Vec::new();
    let mut pos: usize = 0;
    while pos < s.len()
        invariant
            pos <= s@.len(),
            lines_from(s@, 0) == prepend(header_fields_view(acc@), lines_from(s@, pos as int)),
        decreases s@.len() - pos,
    {
        let found = find_crlf(s, pos);
        proof {
            lemma_find_crlf(s@, pos as int);
        }
        let (end, next) = match found {
            Some(k) => (k, k + 2),
            None => (s.len(), s.len()),
        };
        let mut line: Vec<char> = Vec::new();
        let mut i = pos;
        while i < end
            invariant
                pos <= i <= end,
                end <= s@.len(),
                line@ == s@.subrange(pos as int, i as int),
            decreases end - i,
        {
            line.push(s[i]);
            assert(s@.subrange(pos as int, i + 1) == s@.subrange(pos as int, i as int).push(s@[i as int]));
            i = i + 1;
        }
        assert(end == line_end(s@, pos as int));
        assert(next == next_line(s@, pos as int));
        if line.len() > 0 {
            match parse_header_line(&line) {
                Ok(h) => {
                    let ghost before = header_fields_view(acc@);
                    acc.push(h);
                    proof {
                        let hv = (h.name@, h.value@);
                        assert(header_fields_view(acc@) == before.push(hv));
                        let rest = lines_from(s@, next as int);
                        match rest {
                            Ok(t) => {
                                assert(before + (seq![hv] + t) == before.push(hv) + t);
                            },
                            Err(_) => {},
                        }
                    }
                },
                Err(e) => return Err(e),
            }
        }
        pos = next;
    }
    Ok(acc)
}

// ---------------------------------------------------------------------------
// Content-Disposition parameters

/// Position of the parameter scanner inside `Content-Disposition`.
#[derive(Debug, Clone, Copy, PartialEq, Eq, Structural)]
pub enum ScanMode {
    Name,
    ValueStart,
    Token,
    Quoted,
    QuotedEscape,
    AfterQuoted,
}

/// Mathematical value of the parameter scanner.
pub struct ScanView {
    pub mode: ScanMode,
    pub name: Seq<char>,
    pub value: Seq<char>,
    pub field: Option<Seq<char>>,
    pub file: Option<Seq<char>>,
    pub file_ext: Option<Seq<char>>,
}

/// A parameter `name=value` is recorded if it is one of `name`, `filename`,
/// `filename*` (up to ASCII case) and not seen before.
pub open spec fn emit(s: ScanView, value: Seq<char>) -> ScanView {
    let n = trimmed(s.name, 0, s.name.len() as int);
    let s2 = if seq_eq_ic(n, "name"@) && s.field is None {
        ScanView { field: Some(value), ..s }
    } else if seq_eq_ic(n, "filename"@) && s.file is None {
        ScanView { file: Some(value), ..s }
    } else if seq_eq_ic(n, "filename*"@) && s.file_ext is None {
        ScanView { file_ext: Some(value), ..s }
    } else {
        s
    };
    ScanView { mode: ScanMode::Name, name: Seq::empty(), value: Seq::empty(), ..s2 }
}

/// The scanner after reading `c`.
pub open spec fn scan_step(s: ScanView, c: char) -> ScanView {
    match s.mode {
        ScanMode::Name => if c == '=' {
            ScanView { mode: ScanMode::ValueStart, value: Seq::empty(), ..s }
        } else if c == ';' {
            ScanView { name: Seq::empty(), ..s }
        } else {
            ScanView { name: s.name.push(c), ..s }
        },
        ScanMode::ValueStart => if is_ows(c) {
            s
        } else if c == '"' {
            ScanView { mode: ScanMode::Quoted, ..s }
        } else if c == ';' {
            emit(s, Seq::empty())
        } else {
            ScanView { mode: ScanMode::Token, value: seq![c], ..s }
        },
        ScanMode::Token => if c == ';' {
            emit(s, trimmed(s.value, 0, s.value.len() as int))
        } else {
            ScanView { value: s.value.push(c), ..s }
        },
        ScanMode::Quoted => if c == '\\' {
            ScanView { mode: ScanMode::QuotedEscape, ..s }
        } else if c == '"' {
            ScanView { mode: ScanMode::AfterQuoted, ..emit(s, s.value) }
        } else {
            ScanView { value: s.value.push(c), ..s }
        },
        ScanMode::QuotedEscape => ScanView { mode: ScanMode::Quoted, value: s.value.push(c), ..s },
        ScanMode::AfterQuoted => if c == ';' {
            ScanView { mode: ScanMode::Name, ..s }
        } else {
            s
        },
    }
}

/// The scanner after reading `v[i..]`.
pub open spec fn scan_from(v: Seq<char>, i: int, s: ScanView) -> ScanView
    decreases v.len() - i,
{
    if i < 0 || i >= v.len() {
        s
    } else {
        scan_from(v, i + 1, scan_step(s, v[i]))
    }
}

/// The scanner at the end of input; an unterminated quoted string is an error.
pub open spec fn scan_finish(s: ScanView) -> Result<ScanView, Seq<char>> {
    match s.mode {
        ScanMode::ValueStart => Ok(emit(s, Seq::empty())),
        ScanMode::Token => Ok(emit(s, trimmed(s.value, 0, s.value.len() as int))),
        ScanMode::Quoted => Err("unterminated quoted string in Content-Disposition"@),
        ScanMode::QuotedEscape => Err("unterminated quoted string in Content-Disposition"@),
        _ => Ok(s),
    }
}

/// The scanner before any parameter.
pub open spec fn scan_start() -> ScanView {
    ScanView {
        mode: ScanMode::Name,
        name: Seq::empty(),
        value: Seq::empty(),
        field: None,
        file: None,
        file_ext: None,
    }
}

struct Scanner {
    mode: ScanMode,
    name: Vec<char>,
    value: Vec<char>,
    field: Option<Vec<char>>,
    file: Option<Vec<char>>,
    file_ext: Option<Vec<char>>,
}

spec fn opt_view(o: Option<Vec<char>>) -> Option<Seq<char>> {
    match o {
        Some(v) => Some(v@),
        None => None,
    }
}

impl View for Scanner {
    type V = ScanView;

    closed spec fn view(&self) -> ScanView {
        ScanView {
            mode: self.mode,
            name: self.name@,
            value: self.value@,
            field: opt_view(self.field),
            file: opt_view(self.file),
            file_ext: opt_view(self.file_ext),
        }
    }
}

fn copy_chars(v: &Vec<char>) -> (r: Vec<char>)
    ensures
        r@ == v@,
{
    let mut out: Vec<char> = Vec::new();
    let mut i: usize = 0;
    while i < v.len()
        invariant
            i <= v@.len(),
            out@ == v@.subrange(0, i as int),
        decreases v@.len() - i,
    {
        out.push(v[i]);
        assert(v@.subrange(0, i + 1) == v@.subrange(0, i as int).push(v@[i as int]));
        i = i + 1;
    }
    assert(v@.subrange(0, v@.len() as int) == v@);
    out
}

impl Scanner {
    fn emit(&mut self, value: Vec<char>)
        ensures
            final(self)@ == emit(old(self)@, value@),
    {
        let n = trim_range(&self.name, 0, self.name.len());
        if chars_eq_ignore_case(&n, &chars_of("name")) && self.field.is_none() {
            self.field = Some(value);
        } else if chars_eq_ignore_case(&n, &chars_of("filename")) && self.file.is_none() {
            self.file = Some(value);
        } else if chars_eq_ignore_case(&n, &chars_of("filename*")) && self.file_ext.is_none() {
            self.file_ext = Some(value);
        }
        self.mode = ScanMode::Name;
        self.name = Vec::new();
        self.value = Vec::new();
    }

    fn step(&mut self, c: char)
        ensures
            final(self)@ == scan_step(old(self)@, c),
    {
        match self.mode {
            ScanMode::Name => {
                if c == '=' {
                    self.mode = ScanMode::ValueStart;
                    self.value = Vec::new();
                } else if c == ';' {
                    self.name = Vec::new();
                    assert(self.name@ =~= Seq::<char>::empty());
                } else {
                    self.name.push(c);
                }
                assert(self@.name =~= scan_step(old(self)@, c).name);
                assert(self@.value =~= scan_step(old(self)@, c).value);
            },
            ScanMode::ValueStart => {
                if c == ' ' || c == '\t' {
                } else if c == '"' {
                    self.mode = ScanMode::Quoted;
                } else if c == ';' {
                    let e: Vec<char> = Vec::new();
                    assert(e@ =~= Seq::<char>::empty());
                    self.emit(e);
                } else {
                    self.mode = ScanMode::Token;
                    self.value = vec![c];
                    assert(self.value@ =~= seq![c]);
                }
            },
            ScanMode::Token => {
                if c == ';' {
                    let v = trim_range(&self.value, 0, self.value.len());
                    self.emit(v);
                } else {
                    self.value.push(c);
                }
            },
            ScanMode::Quoted => {
                if c == '\\' {
                    self.mode = ScanMode::QuotedEscape;
                } else if c == '"' {
                    let v = copy_chars(&self.value);
                    self.emit(v);
                    self.mode = ScanMode::AfterQuoted;
                } else {
                    self.value.push(c);
                }
            },
            ScanMode::QuotedEscape => {
                self.mode = ScanMode::Quoted;
                self.value.push(c);
            },
            ScanMode::AfterQuoted => {
                if c == ';' {
                    self.mode = ScanMode::Name;
                }
            },
        }
    }
}

fn scan_params(v: &Vec<char>, start: usize) -> (r: Scanner)
    ensures
        r@ == scan_from(v@, start as int, scan_start()),
{
    let mut sc = Scanner {
        mode: ScanMode::Name,
        name: Vec::new(),
        value: Vec::new(),
        field: None,
        file: None,
        file_ext: None,
    };
    assert(sc@ =~= scan_start()) by {
        assert(sc@.name =~= Seq::<char>::empty());
        assert(sc@.value =~= Seq::<char>::empty());
    }
    let mut i = start;
    while i < v.len()
        invariant
            start <= i,
            scan_from(v@, start as int, scan_start()) == scan_from(v@, i as int, sc@),
        decreases v@.len() - i,
    {
        sc.step(v[i]);
        i = i + 1;
    }
    sc
}

/// `c` is a hexadecimal digit.
pub open spec fn hex_digit(c: char) -> bool {
    ('0' <= c && c <= '9') || ('a' <= c && c <= 'f') || ('A' <= c && c <= 'F')
}

/// The value of a hexadecimal digit.
pub open spec fn hex_value(c: char) -> u8 {
    if '0' <= c && c <= '9' {
        (c as u32 - '0' as u32) as u8
    } else if 'a' <= c && c <= 'f' {
        (c as u32 - 'a' as u32 + 10) as u8
    } else {
        (c as u32 - 'A' as u32 + 10) as u8
    }
}

fn hex_digit_value(c: char) -> (r: Option<u8>)
    ensures
        r is Some <==> hex_digit(c),
        r matches Some(x) ==> x == hex_value(c) && x < 16,
{
    if '0' <= c && c <= '9' {
        Some((c as u32 - '0' as u32) as u8)
    } else if 'a' <= c && c <= 'f' {
        Some((c as u32 - 'a' as u32 + 10) as u8)
    } else if 'A' <= c && c <= 'F' {
        Some((c as u32 - 'A' as u32 + 10) as u8)
    } else {
        None
    }
}

/// `a` followed by what `r` holds, or `None`.
pub open spec fn opt_prepend(a: Seq<u8>, r: Option<Seq<u8>>) -> Option<Seq<u8>> {
    match r {
        Some(x) => Some(a + x),
        None => None,
    }
}

/// The bytes that percent-encoded `v[i..]` stands for: `%XX` is one byte,
/// other ASCII characters stand for themselves; anything else fails.
pub open spec fn pct_decode_from(v: Seq<char>, i: int) -> Option<Seq<u8>>
    decreases v.len() - i,
{
    if i < 0 || i >= v.len() {
        Some(Seq::empty())
    } else if v[i] == '%' {
        if i + 2 < v.len() && hex_digit(v[i + 1]) && hex_digit(v[i + 2]) {
            opt_prepend(
                seq![(hex_value(v[i + 1]) * 16 + hex_value(v[i + 2])) as u8],
                pct_decode_from(v, i + 3),
            )
        } else {
            None
        }
    } else if (v[i] as u32) < 128 {
        opt_prepend(seq![v[i] as u32 as u8], pct_decode_from(v, i + 1))
    } else {
        None
    }
}

fn pct_decode(v: &Vec<char>, start: usize) -> (r: Option<Vec<u8>>)
    ensures
        r matches Some(b) ==> pct_decode_from(v@, start as int) == Some(b@),
        r is None ==> pct_decode_from(v@, start as int) is None,
{
    let mut acc: Vec<u8> = Vec::new();
    let mut i = start;
    assert(acc@ + Seq::<u8>::empty() =~= acc@);
    while i < v.len()
        invariant
            start <= i,
            pct_decode_from(v@, start as int) == opt_prepend(acc@, pct_decode_from(v@, i as int)),
        decreases v@.len() - i,
    {
        let ghost before = acc@;
        let c = v[i];
        if c == '%' {
            if v.len() - i > 2 {
                let hi = hex_digit_value(v[i + 1]);
                let lo = hex_digit_value(v[i + 2]);
                match (hi, lo) {
                    (Some(h), Some(l)) => {
                        let b: u8 = h * 16 + l;
                        acc.push(b);
                        proof {
                            match pct_decode_from(v@, i + 3) {
                                Some(t) => assert(before + (seq![b] + t) =~= acc@ + t),
                                None => {},
                            }
                        }
                        i = i + 3;
                    },
                    _ => return None,
                }
            } else {
                return None;
            }
        } else if (c as u32) < 128 {
            let b: u8 = c as u32 as u8;
            acc.push(b);
            proof {
                match pct_decode_from(v@, i + 1) {
                    Some(t) => assert(before + (seq![b] + t) =~= acc@ + t),
                    None => {},
                }
            }
            i = i + 1;
        } else {
            return None;
        }
    }
    assert(acc@ + Seq::<u8>::empty() =~= acc@);
    Some(acc)
}

/// The file name that an RFC 5987 value `charset'language'percent-encoded`
/// stands for; only the UTF-8 charset is understood.
pub open spec fn ext_value(v: Seq<char>) -> Option<Seq<char>> {
    match find_char_from(v, '\'', 0) {
        None => None,
        Some(q1) => match find_char_from(v, '\'', q1 + 1) {
            None => None,
            Some(q2) => if !seq_eq_ic(v.subrange(0, q1), "utf-8"@) {
                None
            } else {
                match pct_decode_from(v, q2 + 1) {
                    None => None,
                    Some(b) => if vstd::utf8::valid_utf8(b) {
                        Some(vstd::utf8::decode_utf8(b))
                    } else {
                        None
                    },
                }
            },
        },
    }
}

fn decode_ext_value(v: &Vec<char>) -> (r: Option<String>)
    ensures
        r matches Some(s) ==> ext_value(v@) == Some(s@),
        r is None ==> ext_value(v@) is None,
{
    let q1 = match find_char(v, '\'', 0, v.len()) {
        Some(q) => q,
        None => return None,
    };
    proof {
        lemma_find_char(v@, '\'', 0);
    }
    let q2 = match find_char(v, '\'', q1 + 1, v.len()) {
        Some(q) => q,
        None => return None,
    };
    proof {
        lemma_find_char(v@, '\'', q1 + 1);
    }
    let mut charset: Vec<char> = Vec::new();
    let mut i: usize = 0;
    while i < q1
        invariant
            i <= q1,
            q1 < v@.len(),
            charset@ == v@.subrange(0, i as int),
        decreases q1 - i,
    {
        charset.push(v[i]);
        assert(v@.subrange(0, i + 1) == v@.subrange(0, i as int).push(v@[i as int]));
        i = i + 1;
    }
    if !chars_eq_ignore_case(&charset, &chars_of("utf-8")) {
        return None;
    }
    let bytes = match pct_decode(v, q2 + 1) {
        Some(b) => b,
        None => return None,
    };
    decode_utf8_bytes(bytes.as_slice())
}

/// Field name and file name of a `Content-Disposition` value: the type must
/// be `form-data`, `name` is required, and a decodable `filename*` overrides
/// `filename`.
pub open spec fn disposition(v: Seq<char>) -> Result<(Seq<char>, Option<Seq<char>>), Seq<char>> {
    let semi = find_char_from(v, ';', 0);
    let type_end = match semi {
        Some(k) => k,
        None => v.len() as int,
    };
    let start = match semi {
        Some(k) => k + 1,
        None => v.len() as int,
    };
    if !seq_eq_ic(trimmed(v, 0, type_end), "form-data"@) {
        Err("Content-Disposition must be form-data"@)
    } else {
        match scan_finish(scan_from(v, start, scan_start())) {
            Err(m) => Err(m),
            Ok(s) => match s.field {
                None => Err("missing field name in Content-Disposition"@),
                Some(n) => Ok(
                    (
                        n,
                        match s.file_ext {
                            Some(x) => match ext_value(x) {
                                Some(d) => Some(d),
                                None => s.file,
                            },
                            None => s.file,
                        },
                    ),
                ),
            },
        }
    }
}

fn parse_disposition(v: &Vec<char>) -> (r: Result<(String, Option<String>), ParseError>)
    ensures
        match disposition(v@) {
            Ok((n, f)) => r matches Ok((rn, rf)) && rn@ == n && match f {
                Some(x) => rf matches Some(y) && y@ == x,
                None => rf is None,
            },
            Err(m) => r matches Err(e) && e.message@ == m,
        },
{
    let semi = find_char(v, ';', 0, v.len());
    proof {
        lemma_find_char(v@, ';', 0);
    }
    let (type_end, start) = match semi {
        Some(k) => (k, k + 1),
        None => (v.len(), v.len()),
    };
    let dtype = trim_range(v, 0, type_end);
    if !chars_eq_ignore_case(&dtype, &chars_of("form-data")) {
        return Err(ParseError::new("Content-Disposition must be form-data"));
    }
    let mut sc = scan_params(v, start);
    let ghost scanned = sc@;
    match sc.mode {
        ScanMode::ValueStart => {
            let e: Vec<char> = Vec::new();
            assert(e@ =~= Seq::<char>::empty());
            sc.emit(e);
        },
        ScanMode::Token => {
            let t = trim_range(&sc.value, 0, sc.value.len());
            sc.emit(t);
        },
        ScanMode::Quoted | ScanMode::QuotedEscape => {
            return Err(ParseError::new("unterminated quoted string in Content-Disposition"));
        },
        _ => {},
    }
    proof {
        assert(scan_finish(scanned) == Ok::<ScanView, Seq<char>>(sc@));
    }
    let name = match sc.field {
        Some(n) => string_of(&n),
        None => return Err(ParseError::new("missing field name in Content-Disposition")),
    };
    let file = match sc.file_ext {
        Some(x) => match decode_ext_value(&x) {
            Some(d) => Some(d),
            None => match sc.file {
                Some(f) => Some(string_of(&f)),
                None => None,
            },
        },
        None => match sc.file {
            Some(f) => Some(string_of(&f)),
            None => None,
        },
    };
    Ok((name, file))
}

/// Value of the first header named `name` in `hs[i..]`.
pub open spec fn first_header_from(hs: Seq<(Seq<char>, Seq<char>)>, name: Seq<char>, i: int) -> Option<
    Seq<char>,
>
    decreases hs.len() - i,
{
    if i < 0 || i >= hs.len() {
        None
    } else if hs[i].0 == name {
        Some(hs[i].1)
    } else {
        first_header_from(hs, name, i + 1)
    }
}

fn first_header(hs: &Vec<HeaderField>, name: &str) -> (r: Option<String>)
    ensures
        r matches Some(v) ==> first_header_from(header_fields_view(hs@), name@, 0) == Some(v@),
        r is None ==> first_header_from(header_fields_view(hs@), name@, 0) is None,
{
    let ghost hv = header_fields_view(hs@);
    let wanted = name.to_owned();
    let mut i: usize = 0;
    while i < hs.len()
        invariant
            hv == header_fields_view(hs@),
            wanted@ == name@,
            first_header_from(hv, name@, 0) == first_header_from(hv, name@, i as int),
        decreases hs@.len() - i,
    {
        assert(hv[i as int] == (hs@[i as int].name@, hs@[i as int].value@));
        if hs[i].name == wanted {
            return Some(hs[i].value.clone());
        }
        i = i + 1;
    }
    None
}

/// Content type used when none is declared or it does not parse.
pub open spec fn default_media_type(is_file: bool) -> Seq<char> {
    if is_file {
        "application/octet-stream"@
    } else {
        "text/plain"@
    }
}

/// Essence and text of a part's content type: the first `Content-Type` header
/// when it parses, else the default for the kind of part.
pub open spec fn content_type_of(hs: Seq<(Seq<char>, Seq<char>)>, is_file: bool) -> (Seq<char>, Seq<char>) {
    match first_header_from(hs, "content-type"@, 0) {
        Some(v) => match mime_essence_of(v) {
            Some(e) => (e, v),
            None => (default_media_type(is_file), default_media_type(is_file)),
        },
        None => (default_media_type(is_file), default_media_type(is_file)),
    }
}

fn default_media(is_file: bool) -> (r: MediaType)
    ensures
        r.essence@ == default_media_type(is_file),
        r.text@ == default_media_type(is_file),
{
    if is_file {
        MediaType {
            essence: String::from_str("application/octet-stream"),
            text: String::from_str("application/octet-stream"),
        }
    } else {
        MediaType { essence: String::from_str("text/plain"), text: String::from_str("text/plain") }
    }
}

/// The headers of a part, from its header text.
pub open spec fn part_headers_of(text: Seq<char>) -> Result<PartHeadersView, Seq<char>> {
    match lines_from(text, 0) {
        Err(m) => Err(m),
        Ok(hs) => match first_header_from(hs, "content-disposition"@, 0) {
            None => Err("missing Content-Disposition header"@),
            Some(cd) => match disposition(cd) {
                Err(m) => Err(m),
                Ok((n, f)) => {
                    let ct = content_type_of(hs, f is Some);
                    Ok(
                        PartHeadersView {
                            field_name: n,
                            file_name: f,
                            essence: ct.0,
                            content_type: ct.1,
                            headers: hs,
                        },
                    )
                },
            },
        },
    }
}

/// The headers of a part, from its raw header block (the bytes before the
/// blank line); the block must be UTF-8.
pub open spec fn header_block(raw: Seq<u8>) -> Result<PartHeadersView, Seq<char>> {
    if !vstd::utf8::valid_utf8(raw) {
        Err("part headers must be UTF-8"@)
    } else {
        part_headers_of(vstd::utf8::decode_utf8(raw))
    }
}

/// A result of header parsing agrees with `x`.
pub open spec fn headers_result_is(
    r: Result<ParsedPartHeaders, ParseError>,
    x: Result<PartHeadersView, Seq<char>>,
) -> bool {
    match x {
        Ok(h) => r matches Ok(p) && p@ == h,
        Err(m) => r matches Err(e) && e.message@ == m,
    }
}

/// Parses header text (already decoded) into the part's headers.
pub fn parse_part_headers_text(text: &str) -> (r: Result<ParsedPartHeaders, ParseError>)
    ensures
        headers_result_is(r, part_headers_of(text@)),
{
    let cs = chars_of(text);
    let headers = match parse_lines(&cs) {
        Ok(h) => h,
        Err(e) => return Err(e),
    };
    let cd = match first_header(&headers, "content-disposition") {
        Some(v) => v,
        None => return Err(ParseError::new("missing Content-Disposition header")),
    };
    let (field_name, file_name) = match parse_disposition(&chars_of(cd.as_str())) {
        Ok(x) => x,
        Err(e) => return Err(e),
    };
    let is_file = file_name.is_some();
    let content_type = match first_header(&headers, "content-type") {
        Some(v) => match media_essence(v.as_str()) {
            Some(e) => MediaType { essence: e, text: v },
            None => default_media(is_file),
        },
        None => default_media(is_file),
    };
    Ok(ParsedPartHeaders { field_name, file_name, content_type, headers })
}

/// Parses a raw header block: the bytes before the `CRLF CRLF` that ends a
/// part's headers.
pub fn parse_part_headers(raw: &[u8]) -> (r: Result<ParsedPartHeaders, ParseError>)
    ensures
        headers_result_is(r, header_block(raw@)),
{
    match decode_utf8_bytes(raw) {
        Some(text) => parse_part_headers_text(text.as_str()),
        None => Err(ParseError::new("part headers must be UTF-8")),
    }
}

/// Parsing a header block depends on the block alone: two parses of the same
/// block agree.
pub proof fn lemma_header_parse_idempotent(raw: Seq<u8>)
    ensures
        header_block(raw) == header_block(raw),
        forall|r1: Result<ParsedPartHeaders, ParseError>, r2: Result<ParsedPartHeaders, ParseError>|
            headers_result_is(r1, header_block(raw)) && headers_result_is(r2, header_block(raw))
                ==> match (r1, r2) {
                (Ok(p1), Ok(p2)) => p1@ == p2@,
                (Err(e1), Err(e2)) => e1.message@ == e2.message@,
                _ => false,
            },
{
}

} // verus!
