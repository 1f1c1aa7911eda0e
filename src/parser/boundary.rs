//! Extraction and validation of the multipart boundary.

use vstd::prelude::*;
use crate::error::ParseError;
use crate::text::{chars_eq_ignore_case, chars_of, seq_eq_ic};

verus! {

/// Longest accepted boundary, in characters.
pub const MAX_BOUNDARY_LEN: usize = 70;

/// A character allowed in a boundary: ASCII letters and digits and
/// `' ( ) + _ , - . / : = ?` and space.
pub open spec fn boundary_char(c: char) -> bool {
    ('a' <= c && c <= 'z') || ('A' <= c && c <= 'Z') || ('0' <= c && c <= '9') || c == '\''
        || c == '(' || c == ')' || c == '+' || c == '_' || c == ',' || c == '-' || c == '.' || c
        == '/' || c == ':' || c == '=' || c == '?' || c == ' '
}

/// Is `c` allowed in a boundary?
pub fn is_boundary_char(c: char) -> (r: bool)
    ensures
        r == boundary_char(c),
{
    ('a' <= c && c <= 'z') || ('A' <= c && c <= 'Z') || ('0' <= c && c <= '9') || c == '\''
        || c == '(' || c == ')' || c == '+' || c == '_' || c == ',' || c == '-' || c == '.' || c
        == '/' || c == ':' || c == '=' || c == '?' || c == ' '
}

/// Why a boundary is refused, checked in this order.
pub enum BoundaryFault {
    Empty,
    TooLong,
    TrailingSpace,
    InvalidChars,
}

/// The first rule that `b` breaks, if any.
pub open spec fn boundary_fault(b: Seq<char>) -> Option<BoundaryFault> {
    if b.len() == 0 {
        Some(BoundaryFault::Empty)
    } else if b.len() > MAX_BOUNDARY_LEN {
        Some(BoundaryFault::TooLong)
    } else if b.last() == ' ' {
        Some(BoundaryFault::TrailingSpace)
    } else if exists|i: int| 0 <= i < b.len() && !boundary_char(#[trigger] b[i]) {
        Some(BoundaryFault::InvalidChars)
    } else {
        None
    }
}

/// A valid boundary: 1 to 70 allowed characters, not ending in a space.
pub open spec fn boundary_valid(b: Seq<char>) -> bool {
    boundary_fault(b) is None
}

/// The message reported for a fault.
pub open spec fn boundary_fault_message(f: BoundaryFault) -> Seq<char> {
    match f {
        BoundaryFault::Empty => "multipart boundary cannot be empty"@,
        BoundaryFault::TooLong => "multipart boundary cannot exceed 70 characters"@,
        BoundaryFault::TrailingSpace => "multipart boundary cannot end with whitespace"@,
        BoundaryFault::InvalidChars => "multipart boundary contains invalid characters"@,
    }
}

/// Checks a boundary against the length bounds and the character class.
pub fn validate_boundary(boundary: &str) -> (r: Result<(), ParseError>)
    ensures
        r is Ok <==> boundary_valid(boundary@),
        r matches Err(e) ==> boundary_fault(boundary@) matches Some(f) && e.message@
            == boundary_fault_message(f),
{
    let cs = chars_of(boundary);
    let n = cs.len();
    if n == 0 {
        return Err(ParseError::new("multipart boundary cannot be empty"));
    }
    if n > MAX_BOUNDARY_LEN {
        return Err(ParseError::new("multipart boundary cannot exceed 70 characters"));
    }
    if cs[n - 1] == ' ' {
        return Err(ParseError::new("multipart boundary cannot end with whitespace"));
    }
    let mut i: usize = 0;
    while i < n
        invariant
            n == cs@.len(),
            cs@ == boundary@,
            0 < n <= MAX_BOUNDARY_LEN,
            boundary@.last() != ' ',
            i <= n,
            forall|j: int| 0 <= j < i ==> boundary_char(#[trigger] cs@[j]),
        decreases n - i,
    {
        if !is_boundary_char(cs[i]) {
            assert(!boundary_char(boundary@[i as int]));
            return Err(ParseError::new("multipart boundary contains invalid characters"));
        }
        i = i + 1;
    }
    Ok(())
}

/// Checks a boundary supplied directly by a caller: not empty, no CR or LF,
/// then the rules of [`validate_boundary`].
pub fn validate_boundary_input(boundary: &str) -> (r: Result<(), ParseError>)
    ensures
        r is Ok <==> boundary_valid(boundary@),
        r matches Err(e) ==> if boundary@.len() == 0 {
            e.message@ == "multipart boundary cannot be empty"@
        } else if boundary@.contains('\r') || boundary@.contains('\n') {
            e.message@ == "multipart boundary cannot contain CRLF"@
        } else {
            boundary_fault(boundary@) matches Some(f) && e.message@ == boundary_fault_message(f)
        },
{
    let cs = chars_of(boundary);
    if cs.len() == 0 {
        return Err(ParseError::new("multipart boundary cannot be empty"));
    }
    let mut i: usize = 0;
    while i < cs.len()
        invariant
            cs@ == boundary@,
            i <= cs@.len(),
            forall|j: int| 0 <= j < i ==> cs@[j] != '\r' && cs@[j] != '\n',
        decreases cs@.len() - i,
    {
        if cs[i] == '\r' || cs[i] == '\n' {
            assert(boundary@.contains(cs@[i as int]));
            assert(!boundary_char(cs@[i as int]));
            return Err(ParseError::new("multipart boundary cannot contain CRLF"));
        }
        i = i + 1;
    }
    validate_boundary(boundary)
}

/// The essence (`type/subtype`) of a parsed media type, when `s` parses.
pub uninterp spec fn mime_essence_of(s: Seq<char>) -> Option<Seq<char>>;

/// The value of the `boundary` parameter of a parsed media type, when `s`
/// parses and has one.
pub uninterp spec fn mime_boundary_of(s: Seq<char>) -> Option<Seq<char>>;

/// Relies on mime's `Mime::from_str` and `Mime::essence_str`: the essence of
/// the media type, or `None` when `s` does not parse.
#[verifier::external_body]
pub(crate) fn media_essence(s: &str) -> (r: Option<String>)
    ensures
        r matches Some(e) ==> mime_essence_of(s@) == Some(e@),
        r is None ==> mime_essence_of(s@) is None,
{
    s.parse::<mime::Mime>().ok().map(|m| m.essence_str().to_owned())
}

/// Relies on mime's `Mime::from_str` and `Mime::get_param` with
/// `mime::BOUNDARY`: the parameter's value, or `None` when `s` does not parse
/// or has no such parameter.
#[verifier::external_body]
fn media_boundary(s: &str) -> (r: Option<String>)
    ensures
        r matches Some(b) ==> mime_boundary_of(s@) == Some(b@),
        r is None ==> mime_boundary_of(s@) is None,
{
    let m = s.parse::<mime::Mime>().ok()?;
    m.get_param(mime::BOUNDARY).map(|v| v.as_str().to_owned())
}

/// `v` without one pair of surrounding double quotes, if it has them.
pub open spec fn unquoted(v: Seq<char>) -> Seq<char> {
    if v.len() >= 2 && v[0] == '"' && v.last() == '"' {
        v.subrange(1, v.len() - 1)
    } else {
        v
    }
}

/// Strips one pair of surrounding double quotes.
pub fn strip_quotes(v: &str) -> (r: String)
    ensures
        r@ == unquoted(v@),
{
    let cs = chars_of(v);
    let n = cs.len();
    if n >= 2 && cs[0] == '"' && cs[n - 1] == '"' {
        let mut out: Vec<char> = Vec::new();
        let mut i: usize = 1;
        while i < n - 1
            invariant
                cs@ == v@,
                n == cs@.len(),
                1 <= i <= n - 1,
                out@ == cs@.subrange(1, i as int),
            decreases n - 1 - i,
        {
            out.push(cs[i]);
            proof {
                assert(cs@.subrange(1, i + 1) == cs@.subrange(1, i as int).push(cs@[i as int]));
            }
            i = i + 1;
        }
        crate::text::string_of(&out)
    } else {
        v.to_owned()
    }
}

/// The outcome of boundary extraction from a content type.
pub enum ExtractFault {
    InvalidContentType,
    NotFormData,
    MissingBoundary,
    Invalid(BoundaryFault),
}

/// What extraction yields for a content type whose essence and boundary
/// parameter are `essence` and `param`: the boundary, or the fault.
pub open spec fn extraction(essence: Option<Seq<char>>, param: Option<Seq<char>>) -> Result<
    Seq<char>,
    ExtractFault,
> {
    match essence {
        None => Err(ExtractFault::InvalidContentType),
        Some(e) => if !seq_eq_ic(e, "multipart/form-data"@) {
            Err(ExtractFault::NotFormData)
        } else {
            match param {
                None => Err(ExtractFault::MissingBoundary),
                Some(p) => match boundary_fault(unquoted(p)) {
                    Some(f) => Err(ExtractFault::Invalid(f)),
                    None => Ok(unquoted(p)),
                },
            }
        },
    }
}

/// The message reported for an extraction fault.
pub open spec fn extract_fault_message(f: ExtractFault) -> Seq<char> {
    match f {
        ExtractFault::InvalidContentType => "invalid Content-Type header"@,
        ExtractFault::NotFormData => "Content-Type must be multipart/form-data"@,
        ExtractFault::MissingBoundary => "missing multipart boundary parameter"@,
        ExtractFault::Invalid(b) => boundary_fault_message(b),
    }
}

/// A result of extraction agrees with `x`.
pub open spec fn extraction_is(r: Result<String, ParseError>, x: Result<Seq<char>, ExtractFault>) -> bool {
    match x {
        Ok(b) => r matches Ok(s) && s@ == b,
        Err(f) => r matches Err(e) && e.message@ == extract_fault_message(f),
    }
}

/// Extracts the boundary from the essence and the boundary parameter of a
/// parsed content type: the essence must be `multipart/form-data` (up to
/// ASCII case), and the
/// parameter, without surrounding quotes, must be a valid boundary.
pub fn boundary_from_parts(essence: Option<String>, param: Option<String>) -> (r: Result<
    String,
    ParseError,
>)
    ensures
        extraction_is(
            r,
            extraction(
                match essence {
                    Some(e) => Some(e@),
                    None => None,
                },
                match param {
                    Some(p) => Some(p@),
                    None => None,
                },
            ),
        ),
{
    let essence = match essence {
        Some(e) => e,
        None => return Err(ParseError::new("invalid Content-Type header")),
    };
    if !chars_eq_ignore_case(&chars_of(essence.as_str()), &chars_of("multipart/form-data")) {
        return Err(ParseError::new("Content-Type must be multipart/form-data"));
    }
    let param = match param {
        Some(p) => p,
        None => return Err(ParseError::new("missing multipart boundary parameter")),
    };
    let boundary = strip_quotes(param.as_str());
    match validate_boundary(boundary.as_str()) {
        Ok(()) => Ok(boundary),
        Err(e) => Err(e),
    }
}

/// Extracts and validates the `boundary` parameter of a `Content-Type` value.
pub fn extract_multipart_boundary(content_type: &str) -> (r: Result<String, ParseError>)
    ensures
        extraction_is(r, extraction(mime_essence_of(content_type@), mime_boundary_of(content_type@))),
{
    let essence = media_essence(content_type);
    let param = media_boundary(content_type);
    boundary_from_parts(essence, param)
}

/// Extraction gives back any valid boundary, bare or quoted, once the media
/// type has been read as `multipart/form-data` with that parameter.
pub proof fn lemma_boundary_round_trip(essence: Seq<char>, b: Seq<char>)
    requires
        seq_eq_ic(essence, "multipart/form-data"@),
        boundary_valid(b),
    ensures
        extraction(Some(essence), Some(b)) == Ok::<Seq<char>, ExtractFault>(b),
        extraction(Some(essence), Some(seq!['"'] + b + seq!['"'])) == Ok::<Seq<char>, ExtractFault>(b),
{
    assert(!boundary_char('"'));
    if b.len() >= 2 && b[0] == '"' {
        assert(!boundary_char(b[0]));
    }
    assert(unquoted(b) == b);
    let q = seq!['"'] + b + seq!['"'];
    assert(q.subrange(1, q.len() - 1) =~= b);
    assert(unquoted(q) == b);
}

} // verus!
