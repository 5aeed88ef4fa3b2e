//! Small helpers over `String` and `char`: trusted wrappers for what the
//! standard library computes, and a verified character extractor.

use vstd::prelude::*;

verus! {

/// Relies on `String::push`: appends exactly the one character.
#[verifier::external_body]
pub(crate) fn push_char(s: &mut String, c: char)
    ensures
        final(s)@ == old(s)@ + seq![c],
{
    s.push(c);
}

/// Whether `char::is_whitespace` holds of the character: the Unicode
/// `White_Space` property, a function of the character alone.
pub uninterp spec fn unicode_whitespace(c: char) -> bool;

/// Relies on `char::is_whitespace`: the result depends on the character
/// alone; the documented ASCII members and non-members are stated.
#[verifier::external_body]
pub(crate) fn char_is_whitespace(c: char) -> (r: bool)
    ensures
        r == unicode_whitespace(c),
        (c == ' ' || c == '\t' || c == '\n' || c == '\r') ==> r,
        (33 <= c as u32 <= 126) ==> !r,
{
    c.is_whitespace()
}

/// Whether `char::is_alphabetic` holds of the character: the Unicode
/// `Alphabetic` property, a function of the character alone.
pub uninterp spec fn unicode_alphabetic(c: char) -> bool;

/// Relies on `char::is_alphabetic`: the result depends on the character
/// alone; the documented ASCII members and non-members are stated.
#[verifier::external_body]
pub(crate) fn char_is_alphabetic(c: char) -> (r: bool)
    ensures
        r == unicode_alphabetic(c),
        ('a' <= c && c <= 'z') ==> r,
        ('A' <= c && c <= 'Z') ==> r,
        (c as u32) < 65 ==> !r,
        (91 <= c as u32 <= 96) ==> !r,
        (123 <= c as u32 <= 126) ==> !r,
{
    c.is_alphabetic()
}

/// The characters of the input string, one by one.
pub(crate) fn str_chars(s: &str) -> (r: Vec<char>)
    ensures
        r@ == s@,
{
    let n = s.unicode_len();
    let mut r: Vec<char> = Vec::new();
    let mut i: usize = 0;
    while i < n
        invariant
            i <= n,
            n == s@.len(),
            r@ == s@.subrange(0, i as int),
        decreases n - i,
    {
        r.push(s.get_char(i));
        i = i + 1;
        proof {
            assert(r@ =~= s@.subrange(0, i as int));
        }
    }
    proof {
        assert(r@ =~= s@);
    }
    r
}

} // verus!
