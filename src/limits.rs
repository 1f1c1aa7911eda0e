//! Global limits and MIME pattern matching.

use vstd::prelude::*;
use crate::text::{char_eq_ic, char_eq_ignore_case, chars_of, seq_eq_ic};

verus! {

/// The characters of each string, in order.
pub open spec fn strings_view(v: Seq<String>) -> Seq<Seq<char>> {
    v.map_values(|s: String| s@)
}

/// Copies a list of strings.
pub fn clone_strings(v: &Vec<String>) -> (r: Vec<String>)
    ensures
        strings_view(r@) == strings_view(v@),
{
    let mut out: Vec<String> = Vec::new();
    let mut i: usize = 0;
    while i < v.len()
        invariant
            i <= v@.len(),
            out@.len() == i,
            forall|j: int| 0 <= j < i ==> (#[trigger] out@[j])@ == v@[j]@,
        decreases v@.len() - i,
    {
        out.push(v[i].clone());
        i = i + 1;
    }
    assert(strings_view(out@) =~= strings_view(v@));
    out
}

/// Global thresholds consulted while parsing and when a part is accepted.
#[derive(Debug, PartialEq, Eq)]
pub struct Limits {
    /// Largest accepted file body, in bytes.
    pub max_file_size: Option<u64>,
    /// Largest accepted text body, in bytes.
    pub max_field_size: Option<u64>,
    /// Largest accepted request body, in bytes.
    pub max_body_size: Option<u64>,
    /// Most file parts accepted per request.
    pub max_files: Option<usize>,
    /// Most text parts accepted per request.
    pub max_fields: Option<usize>,
    /// MIME patterns a file part must match; empty allows every type.
    pub allowed_mime_types: Vec<String>,
}

/// Mathematical value of [`Limits`].
pub struct LimitsView {
    pub max_file_size: Option<u64>,
    pub max_field_size: Option<u64>,
    pub max_body_size: Option<u64>,
    pub max_files: Option<usize>,
    pub max_fields: Option<usize>,
    pub allowed_mime_types: Seq<Seq<char>>,
}

impl View for Limits {
    type V = LimitsView;

    open spec fn view(&self) -> LimitsView {
        LimitsView {
            max_file_size: self.max_file_size,
            max_field_size: self.max_field_size,
            max_body_size: self.max_body_size,
            max_files: self.max_files,
            max_fields: self.max_fields,
            allowed_mime_types: strings_view(self.allowed_mime_types@),
        }
    }
}

impl Default for Limits {
    /// No limits and no MIME restriction.
    fn default() -> (r: Self)
        ensures
            r.max_file_size is None,
            r.max_field_size is None,
            r.max_body_size is None,
            r.max_files is None,
            r.max_fields is None,
            r.allowed_mime_types@.len() == 0,
    {
        Limits {
            max_file_size: None,
            max_field_size: None,
            max_body_size: None,
            max_files: None,
            max_fields: None,
            allowed_mime_types: Vec::new(),
        }
    }
}

impl Clone for Limits {
    fn clone(&self) -> (r: Self)
        ensures
            r@ == self@,
    {
        Limits {
            max_file_size: self.max_file_size,
            max_field_size: self.max_field_size,
            max_body_size: self.max_body_size,
            max_files: self.max_files,
            max_fields: self.max_fields,
            allowed_mime_types: clone_strings(&self.allowed_mime_types),
        }
    }
}

/// `p` is a wildcard pattern `type/*`.
pub open spec fn is_wildcard(p: Seq<char>) -> bool {
    p.len() >= 2 && p[p.len() - 1] == '*' && p[p.len() - 2] == '/'
}

/// `a` starts with `b` up to ASCII case.
pub open spec fn starts_with_ic(a: Seq<char>, b: Seq<char>) -> bool {
    b.len() <= a.len() && seq_eq_ic(a.subrange(0, b.len() as int), b)
}

/// A MIME pattern matches an essence: exactly, or by `type/*` for any subtype
/// of `type`; both up to ASCII case.
pub open spec fn mime_pattern_matches(p: Seq<char>, essence: Seq<char>) -> bool {
    if is_wildcard(p) {
        starts_with_ic(essence, p.subrange(0, p.len() - 1))
    } else {
        seq_eq_ic(p, essence)
    }
}

/// An essence passes a list of patterns: the list is empty or one matches.
pub open spec fn mime_allowed(patterns: Seq<Seq<char>>, essence: Seq<char>) -> bool {
    patterns.len() == 0 || exists|i: int| 0 <= i < patterns.len() && mime_pattern_matches(
        #[trigger] patterns[i],
        essence,
    )
}

/// Does the pattern `p` match `essence`?
pub fn mime_matches(p: &str, essence: &str) -> (r: bool)
    ensures
        r == mime_pattern_matches(p@, essence@),
{
    let pc = chars_of(p);
    let ec = chars_of(essence);
    let plen = pc.len();
    let wildcard = plen >= 2 && pc[plen - 1] == '*' && pc[plen - 2] == '/';
    let n = if wildcard { plen - 1 } else { plen };
    if wildcard {
        if ec.len() < n {
            return false;
        }
    } else if ec.len() != n {
        return false;
    }
    let mut i: usize = 0;
    while i < n
        invariant
            pc@ == p@,
            ec@ == essence@,
            wildcard == is_wildcard(p@),
            n == (if wildcard { pc@.len() - 1 } else { pc@.len() as int }),
            !wildcard ==> ec@.len() == n,
            n <= ec@.len(),
            i <= n,
            forall|j: int| 0 <= j < i ==> char_eq_ic(#[trigger] pc@[j], ec@[j]),
        decreases n - i,
    {
        if !char_eq_ignore_case(pc[i], ec[i]) {
            proof {
                assert(wildcard == is_wildcard(p@));
                if wildcard {
                    assert(ec@.subrange(0, n as int)[i as int] == ec@[i as int]);
                    assert(pc@.subrange(0, n as int)[i as int] == pc@[i as int]);
                    assert(!char_eq_ic(
                        ec@.subrange(0, n as int)[i as int],
                        pc@.subrange(0, n as int)[i as int],
                    ));
                    assert(!seq_eq_ic(ec@.subrange(0, n as int), pc@.subrange(0, n as int)));
                } else {
                    assert(!char_eq_ic(pc@[i as int], ec@[i as int]));
                    assert(!seq_eq_ic(p@, essence@));
                }
            }
            return false;
        }
        i = i + 1;
    }
    proof {
        if wildcard {
            assert(seq_eq_ic(ec@.subrange(0, n as int), pc@.subrange(0, n as int))) by {
                assert forall|j: int| 0 <= j < n implies char_eq_ic(
                    #[trigger] ec@.subrange(0, n as int)[j],
                    pc@.subrange(0, n as int)[j],
                ) by {
                    assert(char_eq_ic(pc@[j], ec@[j]));
                }
            }
        } else {
            assert(seq_eq_ic(pc@, ec@));
        }
    }
    true
}

/// Does `essence` pass the list of patterns `patterns`?
pub fn mime_allowed_by(patterns: &Vec<String>, essence: &str) -> (r: bool)
    ensures
        r == mime_allowed(strings_view(patterns@), essence@),
{
    if patterns.len() == 0 {
        return true;
    }
    let ghost pv = strings_view(patterns@);
    let mut i: usize = 0;
    while i < patterns.len()
        invariant
            i <= patterns@.len(),
            pv == strings_view(patterns@),
            forall|j: int| 0 <= j < i ==> !mime_pattern_matches(#[trigger] pv[j], essence@),
        decreases patterns@.len() - i,
    {
        if mime_matches(patterns[i].as_str(), essence) {
            assert(mime_pattern_matches(pv[i as int], essence@));
            return true;
        }
        i = i + 1;
    }
    false
}

impl Limits {
    /// Does a file part whose content type has essence `essence` pass the global
    /// MIME allow-list?
    pub fn is_mime_allowed(&self, essence: &str) -> (r: bool)
        ensures
            r == mime_allowed(self@.allowed_mime_types, essence@),
    {
        mime_allowed_by(&self.allowed_mime_types, essence)
    }
}

} // verus!
