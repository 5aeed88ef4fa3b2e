use etudes::inclusive_split::{CharClass, ComplexPattern, Iter, SplitPart};
use etudes::piggy::piggy;
use etudes::piggy_simple;
use etudes::stats::{median, mode};
use etudes::word_iter::{SplitPart as WordPart, WordIter};

fn alpha() -> ComplexPattern {
    ComplexPattern { match_start: CharClass::Alphabetic, match_end: CharClass::NotAlphabetic }
}

fn not_match(s: &str) -> SplitPart {
    SplitPart::NotMatch(s.to_string())
}

fn matched(s: &str) -> SplitPart {
    SplitPart::Match(s.to_string())
}

#[test]
fn inclusive_split_base_cases() {
    assert_eq!(Iter::new("", alpha()).parts(), Vec::<SplitPart>::new());
    assert_eq!(Iter::new(" ", alpha()).parts(), vec![not_match(" ")]);
    assert_eq!(Iter::new("a", alpha()).parts(), vec![matched("a")]);
}

#[test]
fn inclusive_split_single_word() {
    assert_eq!(Iter::new("input", alpha()).parts(), vec![matched("input")]);
}

#[test]
fn inclusive_split_single_delimiter() {
    assert_eq!(Iter::new(" , ", alpha()).parts(), vec![not_match(" , ")]);
}

#[test]
fn inclusive_split_word_surrounded_by_delimiters() {
    assert_eq!(
        Iter::new("{input}", alpha()).parts(),
        vec![not_match("{"), matched("input"), not_match("}")]
    );
}

#[test]
fn inclusive_split_delimiter_surrounded_by_words() {
    assert_eq!(
        Iter::new("this that", alpha()).parts(),
        vec![matched("this"), not_match(" "), matched("that")]
    );
}

#[test]
fn inclusive_split_sentence() {
    assert_eq!(
        Iter::new("sphinx of black quartz, judge my vow!", alpha()).parts(),
        vec![
            matched("sphinx"),
            not_match(" "),
            matched("of"),
            not_match(" "),
            matched("black"),
            not_match(" "),
            matched("quartz"),
            not_match(", "),
            matched("judge"),
            not_match(" "),
            matched("my"),
            not_match(" "),
            matched("vow"),
            not_match("!"),
        ]
    );
}

#[test]
fn degenerate_bounds() {
    assert_eq!(
        Iter::new(
            "abc",
            ComplexPattern { match_start: CharClass::Any, match_end: CharClass::Any }
        )
        .parts(),
        vec![matched("a"), matched("b"), matched("c")]
    );
}

#[test]
fn median_degenerate_cases() {
    assert_eq!(median(&[]), None);
    assert_eq!(median(&[1]), Some(1));
}

#[test]
fn median_odd_numbered_lengths() {
    assert_eq!(median(&[1, 2, 3]), Some(2));
    assert_eq!(median(&[3, 1, 2]), Some(2));
    assert_eq!(median(&[2, 2, 2]), Some(2));
}

#[test]
fn median_even_numbered_lengths() {
    assert_eq!(median(&[1, 2, 3, 4]), Some(3));
    assert_eq!(median(&[3, 1, 2, 4]), Some(3));
    assert_eq!(median(&[4, 2, 2, 2]), Some(2));
}

#[test]
fn mode_degenerate_cases() {
    assert_eq!(mode(&[]), None);
    assert_eq!(mode(&[1]), Some(1));
}

#[test]
fn mode_odd_numbered_lengths() {
    assert_eq!(mode(&[1, 2, 3]), Some(1));
    assert_eq!(mode(&[3, 1, 2]), Some(1));
    assert_eq!(mode(&[3, 2, 2]), Some(2));
    assert_eq!(mode(&[2, 1, 2]), Some(2));
    assert_eq!(mode(&[2, 2, 2]), Some(2));
}

#[test]
fn mode_even_numbered_lengths() {
    assert_eq!(mode(&[1, 2, 3, 4]), Some(1));
    assert_eq!(mode(&[3, 1, 2, 4]), Some(1));
    assert_eq!(mode(&[3, 2, 2, 4]), Some(2));
    assert_eq!(mode(&[2, 1, 2, 4]), Some(2));
    assert_eq!(mode(&[3, 1, 2, 2]), Some(2));
    assert_eq!(mode(&[4, 2, 2, 2]), Some(2));
}

#[test]
fn piggy_base_cases() {
    assert_eq!(piggy(""), String::from(""));
    assert_eq!(piggy("a"), String::from("a-hay"));
    assert_eq!(piggy("i"), String::from("i-hay"));
}

#[test]
fn piggy_vowel_words() {
    assert_eq!(piggy("apple"), String::from("apple-hay"));
}

#[test]
fn piggy_consonant_words() {
    assert_eq!(piggy("first"), String::from("irst-fay"));
}

#[test]
fn y_is_wierd() {
    assert_eq!(piggy("crybaby yard"), String::from("ybaby-cray ard-yay"));
}

#[test]
fn piggy_sentences() {
    assert_eq!(
        piggy("sphinx of black quartz, judge my vow!"),
        String::from("inx-sphay of-hay ack-blay uartz-qay, udge-jay y-may ow-vay!")
    )
}

#[test]
fn piggy_simple_base_cases() {
    assert_eq!(piggy_simple::piggy(""), String::from(""));
    assert_eq!(piggy_simple::piggy("a"), String::from("a-hay"));
    assert_eq!(piggy_simple::piggy("apple"), String::from("apple-hay"));
    assert_eq!(piggy_simple::piggy("first"), String::from("irst-fay"));
}

#[test]
fn piggy_simple_sentences() {
    assert_eq!(
        piggy_simple::piggy("sphinx of black quartz, judge my vow!"),
        String::from("phinx-say of-hay lack-bay uartz-qay, udge-jay y-may ow-vay!")
    )
}

fn delimiter(s: &str) -> WordPart {
    WordPart::Delimiter(s.to_string())
}

fn word(s: &str) -> WordPart {
    WordPart::Word(s.to_string())
}

#[test]
fn word_iter_base_cases() {
    assert_eq!(WordIter::new("").parts(), Vec::<WordPart>::new());
    assert_eq!(WordIter::new(" ").parts(), vec![delimiter(" ")]);
    assert_eq!(WordIter::new("a").parts(), vec![word("a")]);
}

#[test]
fn word_iter_single_word() {
    assert_eq!(WordIter::new("input").parts(), vec![word("input")]);
}

#[test]
fn word_iter_single_delimiter() {
    assert_eq!(WordIter::new(" , ").parts(), vec![delimiter(" , ")]);
}

#[test]
fn word_iter_word_surrounded_by_delimiters() {
    assert_eq!(
        WordIter::new("{input}").parts(),
        vec![delimiter("{"), word("input"), delimiter("}")]
    );
}

#[test]
fn word_iter_delimiter_surrounded_by_words() {
    assert_eq!(
        WordIter::new("this that").parts(),
        vec![word("this"), delimiter(" "), word("that")]
    );
}

#[test]
fn word_iter_sentence() {
    assert_eq!(
        WordIter::new("sphinx of black quartz, judge my vow!").parts(),
        vec![
            word("sphinx"),
            delimiter(" "),
            word("of"),
            delimiter(" "),
            word("black"),
            delimiter(" "),
            word("quartz"),
            delimiter(", "),
            word("judge"),
            delimiter(" "),
            word("my"),
            delimiter(" "),
            word("vow"),
            delimiter("!"),
        ]
    );
}
