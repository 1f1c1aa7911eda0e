//! File-name rules of the disk backend: sanitizing incoming names and
//! choosing the name a file is written under.

use vstd::prelude::*;
use crate::text::{chars_of, string_of};

verus! {

/// Characters removed from file names: NUL and other control characters,
/// path separators, and characters that common filesystems refuse.
pub open spec fn forbidden_char(c: char) -> bool {
    (c as u32) < 32 || c as u32 == 127 || c == '/' || c == '\\' || c == '<' || c == '>' || c
        == ':' || c == '"' || c == '|' || c == '?' || c == '*'
}

/// `s` without its forbidden characters.
pub open spec fn keep_allowed(s: Seq<char>) -> Seq<char>
    decreases s.len(),
{
    if s.len() == 0 {
        Seq::empty()
    } else if forbidden_char(s.last()) {
        keep_allowed(s.drop_last())
    } else {
        keep_allowed(s.drop_last()).push(s.last())
    }
}

/// `s[i..]` with each run of spaces made one space; `prev` tells whether the
/// character before `i` was a kept space.
pub open spec fn collapse_spaces(s: Seq<char>, i: int, prev: bool) -> Seq<char>
    decreases s.len() - i,
{
    if i < 0 || i >= s.len() {
        Seq::empty()
    } else if s[i] == ' ' {
        if prev {
            collapse_spaces(s, i + 1, true)
        } else {
            seq![' '] + collapse_spaces(s, i + 1, true)
        }
    } else {
        seq![s[i]] + collapse_spaces(s, i + 1, false)
    }
}

/// `s[i..]` with each `..` removed, left to right.
pub open spec fn drop_dot_pairs(s: Seq<char>, i: int) -> Seq<char>
    decreases s.len() - i,
{
    if i < 0 || i >= s.len() {
        Seq::empty()
    } else if s[i] == '.' && i + 1 < s.len() && s[i + 1] == '.' {
        drop_dot_pairs(s, i + 2)
    } else {
        seq![s[i]] + drop_dot_pairs(s, i + 1)
    }
}

/// An incoming name once cleaned: forbidden characters removed, runs of
/// spaces collapsed, `..` removed.
pub open spec fn cleaned_name(s: Seq<char>) -> Seq<char> {
    drop_dot_pairs(collapse_spaces(keep_allowed(s), 0, false), 0)
}

/// No forbidden character in `s`.
pub open spec fn all_allowed(s: Seq<char>) -> bool {
    forall|i: int| 0 <= i < s.len() ==> !forbidden_char(#[trigger] s[i])
}

/// No two adjacent dots in `s`.
pub open spec fn no_dot_pair(s: Seq<char>) -> bool {
    forall|i: int| 0 <= i < s.len() - 1 ==> !(#[trigger] s[i] == '.' && s[i + 1] == '.')
}

/// A lower-case hexadecimal digit.
pub open spec fn lower_hex(c: char) -> bool {
    ('0' <= c && c <= '9') || ('a' <= c && c <= 'f')
}

/// A safe file name: one path component, with no separator, control
/// character, NUL or `..`.
pub open spec fn safe_file_name(s: Seq<char>) -> bool {
    &&& s.len() > 0
    &&& s != seq!['.']
    &&& all_allowed(s)
    &&& no_dot_pair(s)
}

proof fn lemma_keep_allowed(s: Seq<char>)
    ensures
        all_allowed(keep_allowed(s)),
    decreases s.len(),
{
    if s.len() > 0 {
        lemma_keep_allowed(s.drop_last());
    }
}

proof fn lemma_collapse_allowed(s: Seq<char>, i: int, prev: bool)
    requires
        all_allowed(s),
    ensures
        all_allowed(collapse_spaces(s, i, prev)),
    decreases s.len() - i,
{
    if 0 <= i < s.len() {
        if s[i] == ' ' {
            lemma_collapse_allowed(s, i + 1, true);
            let t = collapse_spaces(s, i + 1, true);
            assert forall|k: int| 0 <= k < (seq![' '] + t).len() implies !forbidden_char(
                #[trigger] (seq![' '] + t)[k],
            ) by {
                if k > 0 {
                    assert((seq![' '] + t)[k] == t[k - 1]);
                }
            }
        } else {
            lemma_collapse_allowed(s, i + 1, false);
            let t = collapse_spaces(s, i + 1, false);
            assert forall|k: int| 0 <= k < (seq![s[i]] + t).len() implies !forbidden_char(
                #[trigger] (seq![s[i]] + t)[k],
            ) by {
                if k > 0 {
                    assert((seq![s[i]] + t)[k] == t[k - 1]);
                }
            }
        }
    }
}

proof fn lemma_drop_dots(s: Seq<char>, i: int)
    requires
        all_allowed(s),
        0 <= i,
    ensures
        all_allowed(drop_dot_pairs(s, i)),
        no_dot_pair(drop_dot_pairs(s, i)),
        i < s.len() && s[i] != '.' ==> drop_dot_pairs(s, i).len() > 0 && drop_dot_pairs(s, i)[0]
            == s[i],
    decreases s.len() - i,
{
    if i < s.len() {
        if s[i] == '.' && i + 1 < s.len() && s[i + 1] == '.' {
            lemma_drop_dots(s, i + 2);
        } else {
            lemma_drop_dots(s, i + 1);
            let t = drop_dot_pairs(s, i + 1);
            let r = seq![s[i]] + t;
            assert forall|k: int| 0 <= k < r.len() implies !forbidden_char(#[trigger] r[k]) by {
                if k > 0 {
                    assert(r[k] == t[k - 1]);
                }
            }
            assert forall|k: int| 0 <= k < r.len() - 1 implies !(#[trigger] r[k] == '.' && r[k + 1]
                == '.') by {
                if k > 0 {
                    assert(r[k] == t[k - 1]);
                    assert(r[k + 1] == t[k]);
                } else {
                    assert(r[1] == t[0]);
                }
            }
        }
    }
}

fn remove_forbidden(s: &Vec<char>) -> (r: Vec<char>)
    ensures
        r@ == keep_allowed(s@),
{
    let mut out: Vec<char> = Vec::new();
    let mut i: usize = 0;
    while i < s.len()
        invariant
            i <= s@.len(),
            out@ == keep_allowed(s@.subrange(0, i as int)),
        decreases s@.len() - i,
    {
        let c = s[i];
        let cu = c as u32;
        assert(s@.subrange(0, i + 1).drop_last() == s@.subrange(0, i as int));
        if !(cu < 32 || cu == 127 || c == '/' || c == '\\' || c == '<' || c == '>' || c == ':' || c
            == '"' || c == '|' || c == '?' || c == '*') {
            out.push(c);
        }
        i = i + 1;
    }
    assert(s@.subrange(0, s@.len() as int) == s@);
    out
}

fn collapse(s: &Vec<char>) -> (r: Vec<char>)
    ensures
        r@ == collapse_spaces(s@, 0, false),
{
    let mut out: Vec<char> = Vec::new();
    let mut prev = false;
    let mut i: usize = 0;
    while i < s.len()
        invariant
            i <= s@.len(),
            collapse_spaces(s@, 0, false) == out@ + collapse_spaces(s@, i as int, prev),
        decreases s@.len() - i,
    {
        let ghost before = out@;
        let c = s[i];
        if c == ' ' {
            if !prev {
                out.push(' ');
                assert(before + (seq![' '] + collapse_spaces(s@, i + 1, true)) =~= out@
                    + collapse_spaces(s@, i + 1, true));
            }
            prev = true;
        } else {
            out.push(c);
            assert(before + (seq![c] + collapse_spaces(s@, i + 1, false)) =~= out@ + collapse_spaces(
                s@,
                i + 1,
                false,
            ));
            prev = false;
        }
        i = i + 1;
    }
    assert(out@ + Seq::<char>::empty() =~= out@);
    out
}

fn remove_dot_pairs(s: &Vec<char>) -> (r: Vec<char>)
    ensures
        r@ == drop_dot_pairs(s@, 0),
{
    let mut out: Vec<char> = Vec::new();
    let mut i: usize = 0;
    assert(out@ + drop_dot_pairs(s@, 0) =~= drop_dot_pairs(s@, 0));
    while i < s.len()
        invariant
            i <= s@.len() + 1,
            drop_dot_pairs(s@, 0) == out@ + drop_dot_pairs(s@, i as int),
        decreases s@.len() + 1 - i,
    {
        if s[i] == '.' && i + 1 < s.len() && s[i + 1] == '.' {
            i = i + 2;
        } else {
            let ghost before = out@;
            out.push(s[i]);
            assert(before + (seq![s@[i as int]] + drop_dot_pairs(s@, i + 1)) =~= out@
                + drop_dot_pairs(s@, i + 1));
            i = i + 1;
        }
    }
    assert(out@ + Seq::<char>::empty() =~= out@);
    out
}

/// Relies on uuid's `Uuid::new_v4` and the `Display` of its `simple` form:
/// 32 lower-case hexadecimal digits.
#[verifier::external_body]
fn random_hex_name() -> (r: String)
    ensures
        r@.len() == 32,
        forall|i: int| 0 <= i < r@.len() ==> lower_hex(#[trigger] r@[i]),
{
    uuid::Uuid::new_v4().simple().to_string()
}

/// A fresh random file name.
pub fn random_file_name() -> (r: String)
    ensures
        safe_file_name(r@),
        r@.len() == 32,
{
    let r = random_hex_name();
    assert(r@[0] != '.' || r@.len() != 1);
    assert(r@ != seq!['.']) by {
        assert(r@.len() != 1);
    }
    r
}

/// Makes an incoming file name safe: forbidden characters, runs of spaces and
/// `..` are removed; an empty result (or `.`) becomes a random name.
pub fn sanitize_filename(name: &str) -> (r: String)
    ensures
        safe_file_name(r@),
        ({
            let c = cleaned_name(name@);
            c.len() > 0 && c != seq!['.'] ==> r@ == c
        }),
{
    let cs = chars_of(name);
    let a = remove_forbidden(&cs);
    let b = collapse(&a);
    let c = remove_dot_pairs(&b);
    proof {
        lemma_keep_allowed(cs@);
        lemma_collapse_allowed(a@, 0, false);
        lemma_drop_dots(b@, 0);
    }
    if c.len() == 0 || (c.len() == 1 && c[0] == '.') {
        proof {
            if c@.len() == 1 && c@[0] == '.' {
                assert(c@ =~= seq!['.']);
            }
        }
        return random_file_name();
    }
    assert(c@ != seq!['.']) by {
        if c@.len() == 1 {
            assert(c@[0] != '.');
        }
    }
    string_of(&c)
}

/// How the disk backend names a stored file.
#[derive(Debug, Clone, Copy, PartialEq, Eq, Structural)]
pub enum FilenameStrategy {
    /// The incoming file name, sanitized.
    Keep,
    /// A random name.
    Random,
    /// The result of a caller-supplied transform of the incoming name,
    /// sanitized.
    Custom,
}

/// The name under which a file is written: under `Keep` the incoming name
/// sanitized, under `Custom` the transformed name sanitized, under `Random` a
/// fresh random name. Always a safe single path component.
pub fn disk_file_name(strategy: FilenameStrategy, incoming: &str, transformed: &str) -> (r: String)
    ensures
        safe_file_name(r@),
        strategy == FilenameStrategy::Keep ==> ({
            let c = cleaned_name(incoming@);
            c.len() > 0 && c != seq!['.'] ==> r@ == c
        }),
        strategy == FilenameStrategy::Custom ==> ({
            let c = cleaned_name(transformed@);
            c.len() > 0 && c != seq!['.'] ==> r@ == c
        }),
{
    match strategy {
        FilenameStrategy::Keep => sanitize_filename(incoming),
        FilenameStrategy::Random => random_file_name(),
        FilenameStrategy::Custom => sanitize_filename(transformed),
    }
}

} // verus!
