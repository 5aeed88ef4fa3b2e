use etudes::wolfram::{State, Wolfram};

#[test]
fn from_code_fills_the_lookup() {
    let rule = Wolfram::from_code(110);
    // 110 is 0110_1110 in binary, bit 0 first.
    assert!(!rule.merge(&false, &false, &false));
    assert!(rule.merge(&false, &false, &true));
    assert!(rule.merge(&false, &true, &false));
    assert!(rule.merge(&false, &true, &true));
    assert!(!rule.merge(&true, &false, &false));
    assert!(rule.merge(&true, &false, &true));
    assert!(rule.merge(&true, &true, &false));
    assert!(!rule.merge(&true, &true, &true));
}

#[test]
fn next_applies_the_rule_cyclically() {
    let rule = Wolfram::from_code(110);
    let state = State::from_string(" X ");
    assert_eq!(state.render(), " X ");
    let next = state.next(&rule);
    assert_eq!(next.render(), "XX ");
}

#[test]
fn short_rows_are_padded() {
    let state = State::new(&[true]);
    assert_eq!(state.render(), "X  ");
    let state = State::new(&[]);
    assert_eq!(state.render(), "   ");
    let state = State::new(&[true, false, true, true]);
    assert_eq!(state.render(), "X XX");
}

#[test]
fn from_string_reads_whitespace_as_off() {
    let state = State::from_string("aa b");
    assert_eq!(state.render(), "XX X");
}
