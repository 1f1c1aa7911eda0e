//! Character and byte helpers shared by the parsers: ASCII case folding,
//! UTF-8 decoding and conversions between strings and character vectors.

use vstd::prelude::*;

verus! {

/// `c` is an ASCII upper-case letter.
pub open spec fn is_upper(c: char) -> bool {
    'A' <= c && c <= 'Z'
}

/// Two characters are equal up to ASCII case.
pub open spec fn char_eq_ic(a: char, b: char) -> bool {
    a == b || (is_upper(a) && b as u32 == a as u32 + 32) || (is_upper(b) && a as u32 == b as u32
        + 32)
}

/// Two character sequences are equal up to ASCII case.
pub open spec fn seq_eq_ic(a: Seq<char>, b: Seq<char>) -> bool {
    a.len() == b.len() && forall|i: int| 0 <= i < a.len() ==> char_eq_ic(#[trigger] a[i], b[i])
}

/// Exact comparison of two characters up to ASCII case.
pub fn char_eq_ignore_case(a: char, b: char) -> (r: bool)
    ensures
        r == char_eq_ic(a, b),
{
    let x = a as u32;
    let y = b as u32;
    x == y || ('A' <= a && a <= 'Z' && y == x + 32) || ('A' <= b && b <= 'Z' && x == y + 32)
}

/// Compares two character vectors up to ASCII case.
pub fn chars_eq_ignore_case(a: &Vec<char>, b: &Vec<char>) -> (r: bool)
    ensures
        r == seq_eq_ic(a@, b@),
{
    if a.len() != b.len() {
        return false;
    }
    let mut i: usize = 0;
    while i < a.len()
        invariant
            a@.len() == b@.len(),
            i <= a@.len(),
            forall|j: int| 0 <= j < i ==> char_eq_ic(#[trigger] a@[j], b@[j]),
        decreases a@.len() - i,
    {
        if !char_eq_ignore_case(a[i], b[i]) {
            return false;
        }
        i = i + 1;
    }
    true
}

/// Relies on `str::chars` collected into a `Vec`: the characters of `s` in order.
#[verifier::external_body]
pub(crate) fn chars_of(s: &str) -> (r: Vec<char>)
    ensures
        r@ == s@,
{
    s.chars().collect()
}

/// Relies on `String::from_iter` over `char`s: the string made of `v` in order.
#[verifier::external_body]
pub(crate) fn string_of(v: &Vec<char>) -> (r: String)
    ensures
        r@ == v@,
{
    v.iter().collect()
}

/// Relies on `std::str::from_utf8`: it succeeds exactly on valid UTF-8 and then
/// holds the decoded characters.
#[verifier::external_body]
pub(crate) fn decode_utf8_bytes(b: &[u8]) -> (r: Option<String>)
    ensures
        r.is_some() == vstd::utf8::valid_utf8(b@),
        r matches Some(s) ==> s@ == vstd::utf8::decode_utf8(b@),
{
    match std::str::from_utf8(b) {
        Ok(s) => Some(s.to_owned()),
        Err(_) => None,
    }
}

/// Decimal digits of `n`, most significant first.
pub open spec fn decimal(n: nat) -> Seq<char>
    decreases n,
{
    let d = seq![(('0' as u32) + (n % 10) as u32) as char];
    if n < 10 {
        d
    } else {
        decimal(n / 10) + d
    }
}

/// Relies on the `Display` impl of `u64`, which writes the number in decimal.
#[verifier::external_body]
pub(crate) fn decimal_string(n: u64) -> (r: String)
    ensures
        r@ == decimal(n as nat),
{
    n.to_string()
}

} // verus!
