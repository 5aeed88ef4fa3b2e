use etudes::blog::Post;
use etudes::config::{Config, ConfigParseErr};
use etudes::guess::{Guess, IsSecret, OutOfBounds, Secret};
use etudes::result_ex::ResultEx;
use etudes::semigroup::Semigroup;

fn no_content_until_approved(mut post: Post) {
    post.add_text("I ate a salad ");
    post.add_text("for lunch today");
    assert_eq!("", post.content());

    post.request_review();
    assert_eq!("", post.content());

    post.approve();
    assert_eq!("I ate a salad for lunch today", post.content());
}

#[test]
fn oop_state_implementation() {
    no_content_until_approved(Post::using_oop());
}

#[test]
fn enum_state_implementation() {
    no_content_until_approved(Post::using_enum());
}

#[test]
fn guesses_are_validated_against_the_bounds() {
    assert_eq!(Guess::new(0).unwrap_err(), OutOfBounds::TooSmall { min: 1 });
    assert_eq!(Guess::new(-7).unwrap_err(), OutOfBounds::TooSmall { min: 1 });
    assert_eq!(Guess::new(21).unwrap_err(), OutOfBounds::TooBig { max: 20 });
    assert!(Guess::new(1).is_ok());
    assert!(Guess::new(20).is_ok());
}

#[test]
fn guesses_compare_to_the_secret() {
    let secret = Secret::random();
    let value = secret.value();
    assert!((1..=20).contains(&value));
    assert_eq!(Guess::new(value).unwrap().is(&secret), IsSecret::Yes);
    if value < 20 {
        assert_eq!(Guess::new(value + 1).unwrap().is(&secret), IsSecret::Greater);
    }
    if value > 1 {
        assert_eq!(Guess::new(value - 1).unwrap().is(&secret), IsSecret::Less);
    }
}

fn args(list: &[&str]) -> Vec<String> {
    list.iter().map(|s| s.to_string()).collect()
}

#[test]
fn config_parses_exactly_two_arguments() {
    let config = Config::parse(args(&["prog", "needle", "haystack.txt"])).unwrap();
    assert_eq!(config.pattern, "needle");
    assert_eq!(config.target, "haystack.txt");
}

#[test]
fn config_rejects_wrong_argument_counts() {
    assert_eq!(
        Config::parse(args(&["prog", "needle"])).unwrap_err(),
        ConfigParseErr::NotEnoughArguments(1)
    );
    assert_eq!(
        Config::parse(args(&[])).unwrap_err(),
        ConfigParseErr::NotEnoughArguments(0)
    );
    assert_eq!(
        Config::parse(args(&["prog", "a", "b", "c"])).unwrap_err(),
        ConfigParseErr::TooManyArguments(3)
    );
}

#[test]
fn semigroup_strings_concatenate() {
    assert_eq!("ab".to_string().combine("cd".to_string()), "abcd".to_string());
}

#[test]
fn semigroup_results_accumulate_errors() {
    let ok = |s: &str| Ok::<String, String>(s.to_string());
    let err = |s: &str| Err::<String, String>(s.to_string());
    assert_eq!(ok("a").combine(ok("b")), Ok("ab".to_string()));
    assert_eq!(ok("a").combine(err("x")), Err("x".to_string()));
    assert_eq!(err("x").combine(ok("b")), Err("x".to_string()));
    assert_eq!(err("x").combine(err("y")), Err("xy".to_string()));
}

#[test]
fn result_ex_combinators() {
    assert_eq!(Ok::<u8, String>(3).product(4), Ok((3, 4)));
    assert_eq!(Ok::<u8, String>(3).flat_map(|x| Ok(x + 1)), Ok(4));
    assert_eq!(Ok::<u8, String>(3).f_product(|x| x + 1), Ok((3, 4)));
    assert_eq!(Ok::<u8, String>(2).void(), Ok(()));
    assert_eq!(Err::<u8, String>("gone".to_string()).m_as(|| 1), Err("gone".to_string()));
}
