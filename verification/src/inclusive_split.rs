//! Split a string into an alternation of matching and non-matching chunks,
//! keeping every character: a chunk that starts at a character of the
//! pattern's start class runs until the first character of its end class,
//! and anything between such chunks is kept as a non-match.

use vstd::prelude::*;

verus! {

use crate::text::char_is_alphabetic;
use crate::text::unicode_alphabetic;

/// The letters `aeiou`, in either case.
pub open spec fn latin_vowel(c: char) -> bool {
    c == 'A' || c == 'a' || c == 'E' || c == 'e' || c == 'I' || c == 'i' || c == 'O' || c == 'o'
        || c == 'U' || c == 'u'
}

/// A character class a pattern can test for.
#[derive(Debug, Clone, Copy, PartialEq, Eq, Structural)]
pub enum CharClass {
    /// Unicode alphabetic characters.
    Alphabetic,
    /// Everything but the alphabetic characters.
    NotAlphabetic,
    /// Everything but the Latin vowels `aeiou`.
    NotVowel,
    /// The Latin vowels `aeiou`, or `y`, in either case.
    VowelOrY,
    /// Every character.
    Any,
}

pub open spec fn class_holds(cl: CharClass, c: char) -> bool {
    match cl {
        CharClass::Alphabetic => unicode_alphabetic(c),
        CharClass::NotAlphabetic => !unicode_alphabetic(c),
        CharClass::NotVowel => !latin_vowel(c),
        CharClass::VowelOrY => latin_vowel(c) || c == 'Y' || c == 'y',
        CharClass::Any => true,
    }
}

fn class_test(cl: &CharClass, c: char) -> (r: bool)
    ensures
        r == class_holds(*cl, c),
{
    match cl {
        CharClass::Alphabetic => char_is_alphabetic(c),
        CharClass::NotAlphabetic => !char_is_alphabetic(c),
        CharClass::NotVowel => !(c == 'A' || c == 'a' || c == 'E' || c == 'e' || c == 'I' || c
            == 'i' || c == 'O' || c == 'o' || c == 'U' || c == 'u'),
        CharClass::VowelOrY => c == 'A' || c == 'a' || c == 'E' || c == 'e' || c == 'I' || c == 'i'
            || c == 'O' || c == 'o' || c == 'U' || c == 'u' || c == 'Y' || c == 'y',
        CharClass::Any => true,
    }
}

/// A pattern: chunks start at characters of `match_start` and end at the
/// next character of `match_end`.
#[derive(Debug, Clone, Copy, PartialEq, Eq, Structural)]
pub struct ComplexPattern {
    pub match_start: CharClass,
    pub match_end: CharClass,
}

/// One chunk of a split: either part of the pattern or the text between.
#[derive(Debug)]
pub enum SplitPart {
    NotMatch(String),
    Match(String),
}

pub open spec fn part_is_match(p: SplitPart) -> bool {
    match p {
        SplitPart::NotMatch(_) => false,
        SplitPart::Match(_) => true,
    }
}

pub open spec fn part_chars(p: SplitPart) -> Seq<char> {
    match p {
        SplitPart::NotMatch(s) => s@,
        SplitPart::Match(s) => s@,
    }
}

impl SplitPart {
    /// The chunk's text, whichever side of the pattern it is on.
    pub fn unwrap<'a>(&'a self) -> (r: &'a str)
        ensures
            r@ == part_chars(*self),
    {
        match self {
            SplitPart::NotMatch(s) => s.as_str(),
            SplitPart::Match(s) => s.as_str(),
        }
    }
}

impl PartialEq for SplitPart {
    fn eq(&self, other: &SplitPart) -> (r: bool) {
        match (self, other) {
            (SplitPart::NotMatch(a), SplitPart::NotMatch(b)) => *a == *b,
            (SplitPart::Match(a), SplitPart::Match(b)) => *a == *b,
            _ => false,
        }
    }
}

impl vstd::std_specs::cmp::PartialEqSpecImpl for SplitPart {
    open spec fn obeys_eq_spec() -> bool {
        true
    }

    open spec fn eq_spec(&self, other: &SplitPart) -> bool {
        part_is_match(*self) == part_is_match(*other) && part_chars(*self) == part_chars(*other)
    }
}

/// The first position at or after `i` whose character is in the class, or
/// the length if there is none.
pub open spec fn scan_from(s: Seq<char>, i: int, cl: CharClass) -> int
    decreases s.len() - i,
{
    if i >= s.len() {
        s.len() as int
    } else if i >= 0 && class_holds(cl, s[i]) {
        i
    } else {
        scan_from(s, i + 1, cl)
    }
}

proof fn lemma_scan_from_exact(s: Seq<char>, i: int, j: int, cl: CharClass)
    requires
        0 <= i <= j <= s.len(),
        forall|k: int| i <= k < j ==> !class_holds(cl, #[trigger] s[k]),
        j < s.len() ==> class_holds(cl, s[j]),
    ensures
        scan_from(s, i, cl) == j,
    decreases j - i,
{
    if i < j {
        lemma_scan_from_exact(s, i + 1, j, cl);
    }
}

proof fn lemma_scan_from_bounds(s: Seq<char>, i: int, cl: CharClass)
    requires
        0 <= i <= s.len(),
    ensures
        i <= scan_from(s, i, cl) <= s.len(),
    decreases s.len() - i,
{
    if i < s.len() && !class_holds(cl, s[i]) {
        lemma_scan_from_bounds(s, i + 1, cl);
    }
}

/// The chunks of `s` from position `i` on: a pair of "is a match" and the
/// chunk's characters, in order.
pub open spec fn split_from(s: Seq<char>, i: int, start: CharClass, end: CharClass) -> Seq<
    (bool, Seq<char>),
>
    decreases s.len() - i,
    via split_from_decreases
{
    if i < 0 || i >= s.len() {
        Seq::empty()
    } else if class_holds(start, s[i]) {
        let e = scan_from(s, i + 1, end);
        seq![(true, s.subrange(i, e))] + split_from(s, e, start, end)
    } else {
        let e = scan_from(s, i + 1, start);
        seq![(false, s.subrange(i, e))] + split_from(s, e, start, end)
    }
}

#[via_fn]
proof fn split_from_decreases(s: Seq<char>, i: int, start: CharClass, end: CharClass) {
    if 0 <= i < s.len() {
        lemma_scan_from_bounds(s, i + 1, end);
        lemma_scan_from_bounds(s, i + 1, start);
    }
}

/// The view of a vector of parts, for comparison with [`split_from`].
pub open spec fn part_views(v: Seq<SplitPart>) -> Seq<(bool, Seq<char>)> {
    Seq::new(v.len(), |k: int| (part_is_match(v[k]), part_chars(v[k])))
}

/// Find the first position at or after `from` whose character is in the
/// class.
fn scan_exec(input: &str, from: usize, cl: &CharClass) -> (r: usize)
    requires
        from <= input@.len(),
    ensures
        r as int == scan_from(input@, from as int, *cl),
        from <= r <= input@.len(),
{
    let n = input.unicode_len();
    let mut j = from;
    while j < n
        invariant
            from <= j <= n,
            n == input@.len(),
            forall|k: int| from <= k < j ==> !class_holds(*cl, #[trigger] input@[k]),
        decreases n - j,
    {
        if class_test(cl, input.get_char(j)) {
            proof {
                lemma_scan_from_exact(input@, from as int, j as int, *cl);
            }
            return j;
        }
        j = j + 1;
    }
    proof {
        lemma_scan_from_exact(input@, from as int, n as int, *cl);
    }
    n
}

/// A computed split of a string into pattern and non-pattern chunks.
pub struct Iter {
    parts: Vec<SplitPart>,
}

impl View for Iter {
    type V = Seq<SplitPart>;

    closed spec fn view(&self) -> Seq<SplitPart> {
        self.parts@
    }
}

impl Iter {
    /// Split `input` by `pattern`.  The chunks cover the whole input in
    /// order, alternating matches and non-matches as the classes dictate.
    #[verifier::loop_isolation(false)]
    pub fn new(input: &str, pattern: ComplexPattern) -> (r: Iter)
        ensures
            part_views(r@) == split_from(input@, 0, pattern.match_start, pattern.match_end),
    {
        let ghost st = pattern.match_start;
        let ghost en = pattern.match_end;
        let n = input.unicode_len();
        let mut parts: Vec<SplitPart> = Vec::new();
        let mut i: usize = 0;
        while i < n
            invariant
                i <= n,
                n == input@.len(),
                split_from(input@, 0, st, en) == part_views(parts@) + split_from(
                    input@,
                    i as int,
                    st,
                    en,
                ),
            decreases n - i,
        {
            let c = input.get_char(i);
            let is_start = class_test(&pattern.match_start, c);
            let scan_class = if is_start {
                pattern.match_end
            } else {
                pattern.match_start
            };
            let j = scan_exec(input, i + 1, &scan_class);
            let chunk = input.substring_char(i, j).to_owned();
            let ghost old_parts = parts@;
            if is_start {
                parts.push(SplitPart::Match(chunk));
            } else {
                parts.push(SplitPart::NotMatch(chunk));
            }
            proof {
                let pair = (is_start, input@.subrange(i as int, j as int));
                assert(part_views(parts@) =~= part_views(old_parts).push(pair));
                assert(split_from(input@, i as int, st, en) == seq![pair] + split_from(
                    input@,
                    j as int,
                    st,
                    en,
                ));
                assert(part_views(old_parts) + (seq![pair] + split_from(input@, j as int, st, en))
                    =~= part_views(parts@) + split_from(input@, j as int, st, en));
            }
            i = j;
        }
        proof {
            assert(part_views(parts@) + split_from(input@, i as int, st, en) =~= part_views(
                parts@,
            ));
        }
        Iter { parts }
    }

    /// The computed chunks, in order.
    pub fn parts(self) -> (r: Vec<SplitPart>)
        ensures
            r@ == self@,
    {
        self.parts
    }
}

} // verus!
