use etudes::search::search;

#[test]
fn one_result() {
    let query = "duct";
    let contents = "\
Rust:
safe, fast, productive.
Pick three.";

    assert_eq!(vec!["safe, fast, productive."], search(query, contents));
}

#[test]
fn matches_keep_their_order() {
    let contents = "alpha\nbeta\ngamma\nalphabet\n";
    assert_eq!(search("alpha", contents), vec!["alpha", "alphabet"]);
    assert_eq!(search("a", contents), vec!["alpha", "beta", "gamma", "alphabet"]);
    assert_eq!(search("zz", contents), Vec::<String>::new());
}

#[test]
fn carriage_returns_are_stripped_from_line_endings() {
    let contents = "one\r\ntwo\r\nthree";
    assert_eq!(search("o", contents), vec!["one", "two"]);
    assert_eq!(search("three", contents), vec!["three"]);
}

#[test]
fn empty_pattern_matches_every_line() {
    assert_eq!(search("", "a\nb"), vec!["a", "b"]);
    assert_eq!(search("", ""), Vec::<String>::new());
}
