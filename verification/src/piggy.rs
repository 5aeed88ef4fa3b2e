//! Pig latin over whole sentences.  Each word's leading consonant cluster
//! moves to the end with `ay` attached (`first` becomes `irst-fay`); a word
//! that starts with a vowel gets `-hay` instead (`apple` becomes
//! `apple-hay`).  A leading `y` counts as a consonant, an interior `y` as a
//! vowel (`crybaby` becomes `ybaby-cray`).  Everything between words is kept
//! as it is.

use vstd::prelude::*;

verus! {

use crate::inclusive_split::CharClass;
use crate::inclusive_split::ComplexPattern;
use crate::inclusive_split::Iter;
use crate::inclusive_split::SplitPart;
use crate::inclusive_split::part_chars;
use crate::inclusive_split::part_views;
use crate::inclusive_split::split_from;
use crate::text::push_char;

/// The chunk texts from position `i` on, concatenated.
pub open spec fn concat_from(ps: Seq<(bool, Seq<char>)>, i: int) -> Seq<char>
    decreases ps.len() - i,
{
    if i < 0 || i >= ps.len() {
        Seq::empty()
    } else {
        ps[i].1 + concat_from(ps, i + 1)
    }
}

/// One word in pig latin: split the word into consonant clusters (runs from
/// a non-vowel to the next vowel-or-y) and the rest; a word opening with a
/// cluster sends it to the end as `-<cluster>ay`, any other word just gets
/// `-hay` attached.
pub open spec fn pig_word(w: Seq<char>) -> Seq<char> {
    if w.len() == 0 {
        Seq::empty()
    } else {
        let ps = split_from(w, 0, CharClass::NotVowel, CharClass::VowelOrY);
        if ps.len() == 0 {
            Seq::empty()
        } else if !ps[0].0 {
            w + "-hay"@
        } else {
            concat_from(ps, 1) + seq!['-'] + ps[0].1 + "ay"@
        }
    }
}

/// The whole text in pig latin, chunk by chunk from position `i` on: words
/// are converted, delimiters kept.
pub open spec fn pig_from(ps: Seq<(bool, Seq<char>)>, i: int) -> Seq<char>
    decreases ps.len() - i,
{
    if i < 0 || i >= ps.len() {
        Seq::empty()
    } else {
        (if ps[i].0 {
            pig_word(ps[i].1)
        } else {
            ps[i].1
        }) + pig_from(ps, i + 1)
    }
}

/// The pig-latin form of a whole text.
pub open spec fn pig_text(s: Seq<char>) -> Seq<char> {
    pig_from(split_from(s, 0, CharClass::Alphabetic, CharClass::NotAlphabetic), 0)
}

/// Convert one word to pig latin.
#[verifier::loop_isolation(false)]
fn piggy_word(word: &str) -> (r: String)
    ensures
        r@ == pig_word(word@),
{
    if word.is_empty() {
        return String::new();
    }
    let parts = Iter::new(
        word,
        ComplexPattern { match_start: CharClass::NotVowel, match_end: CharClass::VowelOrY },
    ).parts();
    let ghost ps = split_from(word@, 0, CharClass::NotVowel, CharClass::VowelOrY);
    proof {
        assert(ps == part_views(parts@));
        assert(ps.len() == parts@.len());
    }
    if parts.len() == 0 {
        return String::new();
    }
    proof {
        assert(ps[0] == (crate::inclusive_split::part_is_match(parts@[0]), part_chars(
            parts@[0],
        )));
    }
    match &parts[0] {
        SplitPart::NotMatch(_) => {
            let mut s = String::from_str(word);
            s.append("-hay");
            s
        },
        SplitPart::Match(_) => {
            let mut s = String::new();
            let mut k: usize = 1;
            while k < parts.len()
                invariant
                    1 <= k <= parts@.len(),
                    concat_from(ps, 1) == s@ + concat_from(ps, k as int),
                decreases parts@.len() - k,
            {
                let chunk = parts[k].unwrap();
                proof {
                    assert(ps[k as int] == (crate::inclusive_split::part_is_match(parts@[k as int]),
                    part_chars(parts@[k as int])));
                }
                s.append(chunk);
                proof {
                    assert(s@ + concat_from(ps, k + 1) =~= concat_from(ps, 1));
                }
                k = k + 1;
            }
            push_char(&mut s, '-');
            let cluster = parts[0].unwrap();
            s.append(cluster);
            s.append("ay");
            proof {
                assert(concat_from(ps, parts@.len() as int) =~= Seq::<char>::empty());
                assert(s@ =~= pig_word(word@));
            }
            s
        },
    }
}

/// Convert a whole text to pig latin: each word is converted, everything
/// between words is kept as it is.
#[verifier::loop_isolation(false)]
pub fn piggy(input: &str) -> (r: String)
    ensures
        r@ == pig_text(input@),
{
    let parts = Iter::new(
        input,
        ComplexPattern { match_start: CharClass::Alphabetic, match_end: CharClass::NotAlphabetic },
    ).parts();
    let ghost ps = split_from(input@, 0, CharClass::Alphabetic, CharClass::NotAlphabetic);
    proof {
        assert(ps == part_views(parts@));
    }
    let mut out = String::new();
    let mut k: usize = 0;
    while k < parts.len()
        invariant
            k <= parts@.len(),
            pig_from(ps, 0) == out@ + pig_from(ps, k as int),
        decreases parts@.len() - k,
    {
        proof {
            assert(ps[k as int] == (crate::inclusive_split::part_is_match(parts@[k as int]),
            part_chars(parts@[k as int])));
        }
        match &parts[k] {
            SplitPart::NotMatch(s) => {
                out.append(s.as_str());
            },
            SplitPart::Match(s) => {
                let converted = piggy_word(s.as_str());
                out.append(converted.as_str());
            },
        }
        proof {
            assert(out@ + pig_from(ps, k + 1) =~= pig_from(ps, 0));
        }
        k = k + 1;
    }
    proof {
        assert(pig_from(ps, parts@.len() as int) =~= Seq::<char>::empty());
        assert(out@ =~= pig_from(ps, 0));
    }
    out
}

} // verus!
