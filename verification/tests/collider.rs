use etudes::collider::{Cell, CollisionResult, DebugOutput, Moving, Rule, State};

fn winner_takes_all() -> Rule {
    Rule { bounce: false, partial_destroy: false }
}

fn damage() -> Rule {
    Rule { bounce: false, partial_destroy: true }
}

#[test]
fn collide_empty_destination() {
    let rule = winner_takes_all();
    assert_eq!(
        rule.collide(&Moving::Left(5), &Cell::Empty),
        CollisionResult::MovingWon(Moving::Left(5))
    );
    assert_eq!(
        rule.collide(&Moving::Right(9), &Cell::Empty),
        CollisionResult::MovingWon(Moving::Right(9))
    );
}

#[test]
fn collide_same_direction_escapes() {
    let rule = winner_takes_all();
    assert_eq!(
        rule.collide(&Moving::Left(5), &Cell::InMotion(Moving::Left(7))),
        CollisionResult::DestinationEscapes { bumped: 7, moved: Moving::Left(5) }
    );
    assert_eq!(
        rule.collide(&Moving::Right(2), &Cell::InMotion(Moving::Right(8))),
        CollisionResult::DestinationEscapes { bumped: 8, moved: Moving::Right(2) }
    );
}

#[test]
fn collide_equal_weights_annihilate() {
    let rule = winner_takes_all();
    assert_eq!(
        rule.collide(&Moving::Right(5), &Cell::InMotion(Moving::Left(5))),
        CollisionResult::BothDestroyed
    );
    assert_eq!(
        rule.collide(&Moving::Left(4), &Cell::Stationary(4)),
        CollisionResult::BothDestroyed
    );
    let rule = damage();
    assert_eq!(
        rule.collide(&Moving::Left(6), &Cell::InMotion(Moving::Right(6))),
        CollisionResult::BothDestroyed
    );
}

#[test]
fn collide_winner_takes_all_keeps_max() {
    let rule = winner_takes_all();
    assert_eq!(
        rule.collide(&Moving::Left(7), &Cell::Stationary(3)),
        CollisionResult::MovingWon(Moving::Left(7))
    );
    assert_eq!(
        rule.collide(&Moving::Left(3), &Cell::Stationary(7)),
        CollisionResult::DestinationWon(Cell::Stationary(7))
    );
    assert_eq!(
        rule.collide(&Moving::Right(9), &Cell::InMotion(Moving::Left(4))),
        CollisionResult::MovingWon(Moving::Right(9))
    );
    assert_eq!(
        rule.collide(&Moving::Right(4), &Cell::InMotion(Moving::Left(9))),
        CollisionResult::DestinationWon(Cell::InMotion(Moving::Left(9)))
    );
}

#[test]
fn collide_damage_keeps_difference() {
    let rule = damage();
    assert_eq!(
        rule.collide(&Moving::Left(7), &Cell::Stationary(3)),
        CollisionResult::MovingWon(Moving::Left(4))
    );
    assert_eq!(
        rule.collide(&Moving::Left(3), &Cell::Stationary(7)),
        CollisionResult::DestinationWon(Cell::Stationary(4))
    );
    assert_eq!(
        rule.collide(&Moving::Right(9), &Cell::InMotion(Moving::Left(4))),
        CollisionResult::MovingWon(Moving::Right(5))
    );
}

#[test]
fn decode_and_render_round_trip() {
    let s = State::from_string("_ 5 -3 +99 0").unwrap();
    assert_eq!(s.render(), "|_X<>X|");
    let verbose = DebugOutput(&s).render();
    assert_eq!(verbose, "_ 5 -3 +99 0 ");
    let again = State::from_string(&verbose).unwrap();
    assert_eq!(DebugOutput(&again).render(), verbose);
    assert_eq!(again.render(), "|_X<>X|");
}

#[test]
fn decode_rejects_large_value() {
    assert_eq!(
        State::from_string("100").unwrap_err(),
        "Value must be between 0 and 99".to_string()
    );
    assert!(State::from_string("5 12345").is_err());
}

#[test]
fn decode_rejects_double_prefix() {
    assert_eq!(
        State::from_string("-+5").unwrap_err(),
        "Only one prefix is allowed".to_string()
    );
}

#[test]
fn decode_rejects_misplaced_sign() {
    assert_eq!(
        State::from_string("5-").unwrap_err(),
        "'-' must be at the start of a cell".to_string()
    );
    assert_eq!(
        State::from_string("5+3").unwrap_err(),
        "'+' must be at the start of a cell".to_string()
    );
}

#[test]
fn decode_rejects_adjacent_underscore() {
    assert_eq!(
        State::from_string("_5").unwrap_err(),
        "'_' must be separated from other cells by a space".to_string()
    );
}

#[test]
fn decode_rejects_unexpected_character() {
    assert_eq!(
        State::from_string("abc").unwrap_err(),
        "Unexpected character: 'a'".to_string()
    );
}

#[test]
fn decode_skips_bare_signs() {
    let s = State::from_string("- 5").unwrap();
    assert_eq!(DebugOutput(&s).render(), "5 ");
}

#[test]
fn termination_without_possible_collisions() {
    let rule = winner_takes_all();
    assert!(State::from_string("-5 _ _").unwrap().next(&rule).is_none());
    assert!(State::from_string("+1 +2").unwrap().next(&rule).is_none());
    assert!(State::from_string("_ 3 4").unwrap().next(&rule).is_none());
    assert!(State::from_string("").unwrap().next(&rule).is_none());
}

#[test]
fn wall_bounce_left() {
    let s = State::from_string("-5 7").unwrap();
    let bounced = s.next(&Rule { bounce: true, partial_destroy: false }).unwrap();
    assert_eq!(DebugOutput(&bounced).render(), "+5 7 ");
    let stopped = s.next(&Rule { bounce: false, partial_destroy: false }).unwrap();
    assert_eq!(DebugOutput(&stopped).render(), "5 7 ");
}

#[test]
fn wall_bounce_right() {
    let s = State::from_string("7 +5").unwrap();
    let bounced = s.next(&Rule { bounce: true, partial_destroy: false }).unwrap();
    assert_eq!(DebugOutput(&bounced).render(), "7 -5 ");
    let stopped = s.next(&Rule { bounce: false, partial_destroy: false }).unwrap();
    assert_eq!(DebugOutput(&stopped).render(), "7 5 ");
}

#[test]
fn head_on_equal_weight_annihilation() {
    let rule = winner_takes_all();
    let s = State::from_string("+5 -5").unwrap();
    let next = s.next(&rule).unwrap();
    assert_eq!(DebugOutput(&next).render(), "_ _ ");
    assert!(next.next(&rule).is_none());
}

#[test]
fn escape_propagates_rightward() {
    let rule = winner_takes_all();
    let s = State::from_string("+3 +7 2").unwrap();
    let next = s.next(&rule).unwrap();
    assert_eq!(DebugOutput(&next).render(), "_ +3 +7 ");
}

#[test]
fn leftward_cascade_keeps_weights() {
    let rule = winner_takes_all();
    let s = State::from_string("-3 -7 2").unwrap();
    let next = s.next(&rule).unwrap();
    assert_eq!(DebugOutput(&next).render(), "-7 _ 2 ");
}

#[test]
fn moving_into_processed_cell() {
    let rule = winner_takes_all();
    let s = State::from_string("3 -9").unwrap();
    let next = s.next(&rule).unwrap();
    assert_eq!(DebugOutput(&next).render(), "-9 _ ");
}

#[test]
fn random_respects_length_and_exclusions() {
    let s = State::random(12, 0, 3, 0, 1);
    let compact = s.render();
    assert_eq!(compact.chars().count(), 14);
    assert!(!compact.contains('X'));
    assert!(!compact.contains('>'));
}

#[test]
fn random_excludes_empty_cells_when_their_weight_is_zero() {
    let s = State::random(40, 1, 1, 1, 0);
    assert!(!s.render().contains('_'));
}

#[test]
fn random_with_no_weights_yields_an_empty_row() {
    let s = State::random(5, 0, 0, 0, 0);
    assert_eq!(s.render(), "|_____|");
}
