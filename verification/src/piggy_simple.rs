//! A simpler pig latin: only the first letter of each word moves.  A word
//! starting with a vowel gets `-hay` attached (`apple` becomes
//! `apple-hay`); any other word sends just its first character to the end
//! as `-<first>ay` (`first` becomes `irst-fay`).  Everything between words
//! is kept as it is.

use vstd::prelude::*;

verus! {

use crate::inclusive_split::CharClass;
use crate::inclusive_split::latin_vowel;
use crate::inclusive_split::split_from;
use crate::text::push_char;
use crate::word_iter::SplitPart;
use crate::word_iter::WordIter;
use crate::word_iter::part_chars;
use crate::word_iter::part_views;

/// One word in the simple pig latin.
pub open spec fn pig_word(w: Seq<char>) -> Seq<char> {
    if w.len() == 0 {
        Seq::empty()
    } else if latin_vowel(w[0]) {
        w + "-hay"@
    } else {
        w.drop_first() + seq!['-', w[0]] + "ay"@
    }
}

/// The whole text, chunk by chunk from position `i` on: words converted,
/// delimiters kept.
pub open spec fn pig_from(ps: Seq<(bool, Seq<char>)>, i: int) -> Seq<char>
    decreases ps.len() - i,
{
    if i < 0 || i >= ps.len() {
        Seq::empty()
    } else {
        (if ps[i].0 {
            pig_word(ps[i].1)
        } else {
            ps[i].1
        }) + pig_from(ps, i + 1)
    }
}

/// The simple pig-latin form of a whole text.
pub open spec fn pig_text(s: Seq<char>) -> Seq<char> {
    pig_from(split_from(s, 0, CharClass::Alphabetic, CharClass::NotAlphabetic), 0)
}

/// Convert one word.
fn piggy_word(word: &str) -> (r: String)
    ensures
        r@ == pig_word(word@),
{
    let n = word.unicode_len();
    if n == 0 {
        return String::new();
    }
    let first = word.get_char(0);
    if first == 'A' || first == 'a' || first == 'E' || first == 'e' || first == 'I' || first == 'i'
        || first == 'O' || first == 'o' || first == 'U' || first == 'u' {
        let mut s = String::from_str(word);
        s.append("-hay");
        s
    } else {
        let rest = word.substring_char(1, n);
        let mut s = String::from_str(rest);
        push_char(&mut s, '-');
        push_char(&mut s, first);
        s.append("ay");
        proof {
            assert(rest@ =~= word@.drop_first());
            assert(s@ =~= pig_word(word@));
        }
        s
    }
}

/// Convert a whole text: each word is converted, everything between words
/// is kept as it is.
#[verifier::loop_isolation(false)]
pub fn piggy(input: &str) -> (r: String)
    ensures
        r@ == pig_text(input@),
{
    let parts = WordIter::new(input).parts();
    let ghost ps = split_from(input@, 0, CharClass::Alphabetic, CharClass::NotAlphabetic);
    proof {
        assert(ps == part_views(parts@));
    }
    let mut out = String::new();
    let mut k: usize = 0;
    while k < parts.len()
        invariant
            k <= parts@.len(),
            pig_from(ps, 0) == out@ + pig_from(ps, k as int),
        decreases parts@.len() - k,
    {
        proof {
            assert(ps[k as int] == (crate::word_iter::part_is_word(parts@[k as int]), part_chars(
                parts@[k as int],
            )));
        }
        match &parts[k] {
            SplitPart::Delimiter(s) => {
                out.append(s.as_str());
            },
            SplitPart::Word(s) => {
                let converted = piggy_word(s.as_str());
                out.append(converted.as_str());
            },
        }
        proof {
            assert(out@ + pig_from(ps, k + 1) =~= pig_from(ps, 0));
        }
        k = k + 1;
    }
    proof {
        assert(pig_from(ps, parts@.len() as int) =~= Seq::<char>::empty());
        assert(out@ =~= pig_from(ps, 0));
    }
    out
}

} // verus!
