//! Split a string into alternating words (alphabetic runs) and delimiters
//! (everything between), keeping every character.

use vstd::prelude::*;

verus! {

use crate::inclusive_split;
use crate::inclusive_split::CharClass;
use crate::inclusive_split::ComplexPattern;
use crate::inclusive_split::split_from;

/// One chunk of the input: a run of alphabetic characters or the text
/// between two such runs.
#[derive(Debug)]
pub enum SplitPart {
    Delimiter(String),
    Word(String),
}

pub open spec fn part_is_word(p: SplitPart) -> bool {
    match p {
        SplitPart::Delimiter(_) => false,
        SplitPart::Word(_) => true,
    }
}

pub open spec fn part_chars(p: SplitPart) -> Seq<char> {
    match p {
        SplitPart::Delimiter(s) => s@,
        SplitPart::Word(s) => s@,
    }
}

/// The view of a vector of parts, for comparison with [`split_from`].
pub open spec fn part_views(v: Seq<SplitPart>) -> Seq<(bool, Seq<char>)> {
    Seq::new(v.len(), |k: int| (part_is_word(v[k]), part_chars(v[k])))
}

impl PartialEq for SplitPart {
    fn eq(&self, other: &SplitPart) -> (r: bool) {
        match (self, other) {
            (SplitPart::Delimiter(a), SplitPart::Delimiter(b)) => *a == *b,
            (SplitPart::Word(a), SplitPart::Word(b)) => *a == *b,
            _ => false,
        }
    }
}

impl vstd::std_specs::cmp::PartialEqSpecImpl for SplitPart {
    open spec fn obeys_eq_spec() -> bool {
        true
    }

    open spec fn eq_spec(&self, other: &SplitPart) -> bool {
        part_is_word(*self) == part_is_word(*other) && part_chars(*self) == part_chars(*other)
    }
}

/// A computed split of a string into words and delimiters.
pub struct WordIter {
    parts: Vec<SplitPart>,
}

impl View for WordIter {
    type V = Seq<SplitPart>;

    closed spec fn view(&self) -> Seq<SplitPart> {
        self.parts@
    }
}

impl WordIter {
    /// Split `input` into words and delimiters.  The chunks cover the whole
    /// input in order.
    #[verifier::loop_isolation(false)]
    pub fn new(input: &str) -> (r: WordIter)
        ensures
            part_views(r@) == split_from(
                input@,
                0,
                CharClass::Alphabetic,
                CharClass::NotAlphabetic,
            ),
    {
        let ghost target = split_from(input@, 0, CharClass::Alphabetic, CharClass::NotAlphabetic);
        let mut chunks = inclusive_split::Iter::new(
            input,
            ComplexPattern {
                match_start: CharClass::Alphabetic,
                match_end: CharClass::NotAlphabetic,
            },
        ).parts();
        let ghost whole = chunks@;
        let mut parts: Vec<SplitPart> = Vec::new();
        while chunks.len() > 0
            invariant
                parts@.len() + chunks@.len() == whole.len(),
                whole.subrange(parts@.len() as int, whole.len() as int) =~= chunks@,
                forall|k: int|
                    0 <= k < parts@.len() ==> part_is_word(#[trigger] parts@[k])
                        == inclusive_split::part_is_match(whole[k]) && part_chars(parts@[k])
                        == inclusive_split::part_chars(whole[k]),
            decreases chunks@.len(),
        {
            let ghost done = parts@.len() as int;
            let p = chunks.remove(0);
            proof {
                assert(whole.subrange(done, whole.len() as int)[0] == whole[done]);
                assert(whole.subrange(done, whole.len() as int).remove(0) =~= whole.subrange(
                    done + 1,
                    whole.len() as int,
                ));
            }
            match p {
                inclusive_split::SplitPart::Match(s) => {
                    parts.push(SplitPart::Word(s));
                },
                inclusive_split::SplitPart::NotMatch(s) => {
                    parts.push(SplitPart::Delimiter(s));
                },
            }
        }
        proof {
            assert(part_views(parts@) =~= inclusive_split::part_views(whole));
        }
        WordIter { parts }
    }

    /// The computed chunks, in order.
    pub fn parts(self) -> (r: Vec<SplitPart>)
        ensures
            r@ == self@,
    {
        self.parts
    }
}

} // verus!
