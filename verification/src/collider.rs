//! A one-dimensional particle-collision cellular automaton.
//!
//! A line of cells holds weighted particles that are empty, stationary, or in
//! motion leftward/rightward.  Each generation every moving particle tries to
//! advance one cell; what happens when it meets an occupant is decided by a
//! configurable rule: equal weights annihilate, unequal weights leave one
//! survivor whose weight is either the larger of the two ("winner takes all")
//! or the difference ("damage"), and two particles travelling the same way
//! displace one another ("escape"), cascading down the line.

use vstd::prelude::*;

verus! {

use crate::rng::random_i8_range;
use crate::rng::random_u16_inclusive;
use crate::text::push_char;
use crate::text::str_chars;

/// Weights are stored as small signed integers and kept within two decimal
/// digits so that the textual encoding can round-trip them.
pub open spec fn valid_weight(w: int) -> bool {
    0 <= w <= 99
}

/// Configuration of the collision rules.
#[derive(Debug, Clone, Copy, PartialEq, Eq, Structural)]
pub struct Rule {
    /// At a field boundary a mover re-enters in the opposite direction
    /// (`true`) or comes to rest (`false`).
    pub bounce: bool,
    /// On an unequal collision the survivor keeps `|winner - loser|` (`true`)
    /// instead of `max(winner, loser)` (`false`).
    pub partial_destroy: bool,
}

/// A particle currently in transit, tagged with its direction.
#[derive(Debug, Clone, Copy, PartialEq, Eq, Structural)]
pub enum Moving {
    Left(i8),
    Right(i8),
}

/// One position on the line.
#[derive(Debug, Clone, Copy, PartialEq, Eq, Structural)]
pub enum Cell {
    Empty,
    Stationary(i8),
    InMotion(Moving),
}

/// Outcome of one moving particle arriving at a destination cell.
#[derive(Debug, Clone, Copy, PartialEq, Eq, Structural)]
pub enum CollisionResult {
    /// Equal weights annihilate.
    BothDestroyed,
    /// The mover survives, possibly with reduced weight.
    MovingWon(Moving),
    /// The occupant survives, keeping its kind, possibly with reduced weight.
    DestinationWon(Cell),
    /// Both travel the same way: the mover takes the slot and the occupant
    /// (weight `bumped`) must itself be re-evaluated one cell further on.
    DestinationEscapes { bumped: i8, moved: Moving },
}

pub open spec fn moving_weight(m: Moving) -> int {
    match m {
        Moving::Left(w) => w as int,
        Moving::Right(w) => w as int,
    }
}

pub open spec fn valid_moving(m: Moving) -> bool {
    valid_weight(moving_weight(m))
}

pub open spec fn valid_cell(c: Cell) -> bool {
    match c {
        Cell::Empty => true,
        Cell::Stationary(w) => valid_weight(w as int),
        Cell::InMotion(m) => valid_moving(m),
    }
}

pub open spec fn valid_cells(s: Seq<Cell>) -> bool {
    forall|i: int| 0 <= i < s.len() ==> valid_cell(#[trigger] s[i])
}

/// The weight left to the survivor of a genuine collision between weights
/// `m` and `d`: the difference under "damage", the larger under "winner
/// takes all".
pub open spec fn survivor_weight(rule: Rule, m: i8, d: i8) -> i8 {
    if rule.partial_destroy {
        if m >= d {
            (m - d) as i8
        } else {
            (d - m) as i8
        }
    } else {
        if m >= d {
            m
        } else {
            d
        }
    }
}

/// The full nine-case outcome table: what happens when `moving` arrives at
/// `destination` under `rule`.
pub open spec fn collision(rule: Rule, moving: Moving, destination: Cell) -> CollisionResult {
    match (moving, destination) {
        (m, Cell::Empty) => CollisionResult::MovingWon(m),
        (Moving::Left(m), Cell::InMotion(Moving::Left(d))) => CollisionResult::DestinationEscapes {
            bumped: d,
            moved: Moving::Left(m),
        },
        (Moving::Right(m), Cell::InMotion(Moving::Right(d))) => CollisionResult::DestinationEscapes {
            bumped: d,
            moved: Moving::Right(m),
        },
        (Moving::Left(m), Cell::InMotion(Moving::Right(d))) => {
            if m == d {
                CollisionResult::BothDestroyed
            } else if m > d {
                CollisionResult::MovingWon(Moving::Left(survivor_weight(rule, m, d)))
            } else {
                CollisionResult::DestinationWon(
                    Cell::InMotion(Moving::Right(survivor_weight(rule, m, d))),
                )
            }
        },
        (Moving::Right(m), Cell::InMotion(Moving::Left(d))) => {
            if m == d {
                CollisionResult::BothDestroyed
            } else if m > d {
                CollisionResult::MovingWon(Moving::Right(survivor_weight(rule, m, d)))
            } else {
                CollisionResult::DestinationWon(
                    Cell::InMotion(Moving::Left(survivor_weight(rule, m, d))),
                )
            }
        },
        (Moving::Left(m), Cell::Stationary(s)) => {
            if m == s {
                CollisionResult::BothDestroyed
            } else if m > s {
                CollisionResult::MovingWon(Moving::Left(survivor_weight(rule, m, s)))
            } else {
                CollisionResult::DestinationWon(Cell::Stationary(survivor_weight(rule, m, s)))
            }
        },
        (Moving::Right(m), Cell::Stationary(s)) => {
            if m == s {
                CollisionResult::BothDestroyed
            } else if m > s {
                CollisionResult::MovingWon(Moving::Right(survivor_weight(rule, m, s)))
            } else {
                CollisionResult::DestinationWon(Cell::Stationary(survivor_weight(rule, m, s)))
            }
        },
    }
}

impl Rule {
    /// Resolve what happens when `moving` arrives at `destination`.  Total
    /// over every direction and destination variant, and pure: the result is
    /// exactly the outcome table above.
    pub fn collide(&self, moving: &Moving, destination: &Cell) -> (r: CollisionResult)
        requires
            valid_moving(*moving),
            valid_cell(*destination),
        ensures
            r == collision(*self, *moving, *destination),
    {
        match (*moving, *destination) {
            (m, Cell::Empty) => CollisionResult::MovingWon(m),
            (Moving::Left(m), Cell::InMotion(Moving::Left(d))) => {
                CollisionResult::DestinationEscapes { bumped: d, moved: Moving::Left(m) }
            },
            (Moving::Right(m), Cell::InMotion(Moving::Right(d))) => {
                CollisionResult::DestinationEscapes { bumped: d, moved: Moving::Right(m) }
            },
            (Moving::Left(m), Cell::InMotion(Moving::Right(d))) => {
                let new_weight = self.outcome_weight(m, d);
                if m == d {
                    CollisionResult::BothDestroyed
                } else if m > d {
                    CollisionResult::MovingWon(Moving::Left(new_weight))
                } else {
                    CollisionResult::DestinationWon(Cell::InMotion(Moving::Right(new_weight)))
                }
            },
            (Moving::Right(m), Cell::InMotion(Moving::Left(d))) => {
                let new_weight = self.outcome_weight(m, d);
                if m == d {
                    CollisionResult::BothDestroyed
                } else if m > d {
                    CollisionResult::MovingWon(Moving::Right(new_weight))
                } else {
                    CollisionResult::DestinationWon(Cell::InMotion(Moving::Left(new_weight)))
                }
            },
            (Moving::Left(m), Cell::Stationary(s)) => {
                let new_weight = self.outcome_weight(m, s);
                if m == s {
                    CollisionResult::BothDestroyed
                } else if m > s {
                    CollisionResult::MovingWon(Moving::Left(new_weight))
                } else {
                    CollisionResult::DestinationWon(Cell::Stationary(new_weight))
                }
            },
            (Moving::Right(m), Cell::Stationary(s)) => {
                let new_weight = self.outcome_weight(m, s);
                if m == s {
                    CollisionResult::BothDestroyed
                } else if m > s {
                    CollisionResult::MovingWon(Moving::Right(new_weight))
                } else {
                    CollisionResult::DestinationWon(Cell::Stationary(new_weight))
                }
            },
        }
    }

    /// The survivor's weight for a genuine collision of weights `m` and `d`.
    fn outcome_weight(&self, m: i8, d: i8) -> (r: i8)
        requires
            valid_weight(m as int),
            valid_weight(d as int),
        ensures
            r == survivor_weight(*self, m, d),
    {
        if self.partial_destroy {
            if m >= d {
                m - d
            } else {
                d - m
            }
        } else {
            if m >= d {
                m
            } else {
                d
            }
        }
    }
}

/// The weight the collision opposes to the mover's, when the encounter is a
/// genuine collision: the occupant's weight for a stationary destination or
/// one moving the opposite way, and nothing for an empty cell or a
/// same-direction escape.
pub open spec fn opposing_weight(moving: Moving, destination: Cell) -> Option<int> {
    match (moving, destination) {
        (_, Cell::Empty) => None,
        (Moving::Left(_), Cell::InMotion(Moving::Left(_))) => None,
        (Moving::Right(_), Cell::InMotion(Moving::Right(_))) => None,
        (_, Cell::InMotion(m)) => Some(moving_weight(m)),
        (_, Cell::Stationary(s)) => Some(s as int),
    }
}

/// The weight carried by the survivor of a collision outcome, if there is
/// exactly one survivor.
pub open spec fn survivor_of(r: CollisionResult) -> Option<int> {
    match r {
        CollisionResult::BothDestroyed => None,
        CollisionResult::MovingWon(p) => Some(moving_weight(p)),
        CollisionResult::DestinationWon(Cell::Stationary(w)) => Some(w as int),
        CollisionResult::DestinationWon(Cell::InMotion(p)) => Some(moving_weight(p)),
        CollisionResult::DestinationWon(Cell::Empty) => None,
        CollisionResult::DestinationEscapes { .. } => None,
    }
}

/// Weight conservation under "winner takes all": in every genuine collision
/// of unequal weights the survivor carries exactly `max(m, d)`, which is at
/// least the smaller of the two original weights and never negative; equal
/// weights annihilate.
pub proof fn lemma_winner_takes_all(rule: Rule, moving: Moving, destination: Cell)
    requires
        !rule.partial_destroy,
        valid_moving(moving),
        valid_cell(destination),
        opposing_weight(moving, destination) is Some,
    ensures
        ({
            let m = moving_weight(moving);
            let d = opposing_weight(moving, destination)->Some_0;
            let r = collision(rule, moving, destination);
            &&& (r is BothDestroyed <==> m == d)
            &&& (m != d ==> survivor_of(r) == Some(if m >= d { m } else { d }))
            &&& (m != d ==> survivor_of(r)->Some_0 >= (if m <= d { m } else { d }))
            &&& (m != d ==> survivor_of(r)->Some_0 >= 0)
        }),
{
}

/// Weight conservation under "damage": in every genuine collision of unequal
/// weights the survivor carries exactly `|m - d|`, which is strictly below
/// `max(m, d)` whenever both particles weigh something, and is never zero
/// (zero difference means equal weights, which annihilate instead).
pub proof fn lemma_damage(rule: Rule, moving: Moving, destination: Cell)
    requires
        rule.partial_destroy,
        valid_moving(moving),
        valid_cell(destination),
        opposing_weight(moving, destination) is Some,
    ensures
        ({
            let m = moving_weight(moving);
            let d = opposing_weight(moving, destination)->Some_0;
            let r = collision(rule, moving, destination);
            &&& (r is BothDestroyed <==> m == d)
            &&& (m != d ==> survivor_of(r) == Some(if m >= d { m - d } else { d - m }))
            &&& (m != d ==> survivor_of(r)->Some_0 > 0)
            &&& (m != d && m > 0 && d > 0 ==> survivor_of(r)->Some_0 < (if m >= d { m } else {
                d
            }))
        }),
{
}

/// Every cell written by a collision outcome carries a weight within bounds.
pub proof fn lemma_collision_valid(rule: Rule, moving: Moving, destination: Cell)
    requires
        valid_moving(moving),
        valid_cell(destination),
    ensures
        ({
            let r = collision(rule, moving, destination);
            &&& (r matches CollisionResult::MovingWon(p) ==> valid_moving(p))
            &&& (r matches CollisionResult::DestinationWon(c) ==> valid_cell(c))
            &&& (r matches CollisionResult::DestinationEscapes { bumped, moved } ==> {
                &&& valid_weight(bumped as int)
                &&& valid_moving(moved)
            })
        }),
{
}

/// The cell a leftward mover of weight `w` leaves in its own slot when it
/// runs into the left wall.
pub open spec fn left_wall_cell(rule: Rule, w: i8) -> Cell {
    if rule.bounce {
        Cell::InMotion(Moving::Right(w))
    } else {
        Cell::Stationary(w)
    }
}

/// The cell a rightward mover of weight `w` leaves in its own slot when it
/// runs into the right wall.
pub open spec fn right_wall_cell(rule: Rule, w: i8) -> Cell {
    if rule.bounce {
        Cell::InMotion(Moving::Left(w))
    } else {
        Cell::Stationary(w)
    }
}

/// One leftward move of a particle of weight `w` sitting at index `i`,
/// including any cascade of escapes it sets off further left.  When
/// `was_bumped` holds, slot `i` already carries the particle that displaced
/// this one and is not cleared.
pub open spec fn step_left(rule: Rule, cells: Seq<Cell>, i: int, w: i8, was_bumped: bool) -> Seq<
    Cell,
>
    decreases i,
{
    if i <= 0 {
        cells.update(0, left_wall_cell(rule, w))
    } else {
        let base = if was_bumped {
            cells
        } else {
            cells.update(i, Cell::Empty)
        };
        match collision(rule, Moving::Left(w), cells[i - 1]) {
            CollisionResult::BothDestroyed => base.update(i - 1, Cell::Empty),
            CollisionResult::MovingWon(p) => base.update(i - 1, Cell::InMotion(p)),
            CollisionResult::DestinationWon(c) => base.update(i - 1, c),
            CollisionResult::DestinationEscapes { bumped, moved } => step_left(
                rule,
                base.update(i - 1, Cell::InMotion(moved)),
                i - 1,
                bumped,
                true,
            ),
        }
    }
}

/// One rightward move of a particle of weight `w` sitting at index `i`,
/// including any cascade of escapes it sets off further right.  Returns the
/// updated cells together with the cursor position the scan should continue
/// from: rightward moves land in territory the scan has not visited yet, so
/// cells finalised by the move must be skipped.
pub open spec fn step_right(rule: Rule, cells: Seq<Cell>, i: int, w: i8, was_bumped: bool) -> (Seq<
    Cell,
>, int)
    decreases cells.len() - i,
{
    if i < 0 || i + 1 >= cells.len() {
        (cells.update(i, right_wall_cell(rule, w)), i + 1)
    } else {
        let base = if was_bumped {
            cells
        } else {
            cells.update(i, Cell::Empty)
        };
        match collision(rule, Moving::Right(w), cells[i + 1]) {
            CollisionResult::BothDestroyed => (base.update(i + 1, Cell::Empty), i + 2),
            CollisionResult::MovingWon(p) => (base.update(i + 1, Cell::InMotion(p)), i + 2),
            CollisionResult::DestinationWon(c) => (base.update(i + 1, c), i + 1),
            CollisionResult::DestinationEscapes { bumped, moved } => step_right(
                rule,
                base.update(i + 1, Cell::InMotion(moved)),
                i + 1,
                bumped,
                true,
            ),
        }
    }
}

proof fn lemma_step_left_len(rule: Rule, cells: Seq<Cell>, i: int, w: i8, was_bumped: bool)
    requires
        0 <= i < cells.len(),
    ensures
        step_left(rule, cells, i, w, was_bumped).len() == cells.len(),
    decreases i,
{
    if i > 0 {
        let base = if was_bumped {
            cells
        } else {
            cells.update(i, Cell::Empty)
        };
        match collision(rule, Moving::Left(w), cells[i - 1]) {
            CollisionResult::DestinationEscapes { bumped, moved } => {
                lemma_step_left_len(rule, base.update(i - 1, Cell::InMotion(moved)), i - 1, bumped, true);
            },
            _ => {},
        }
    }
}

proof fn lemma_step_right_shape(rule: Rule, cells: Seq<Cell>, i: int, w: i8, was_bumped: bool)
    requires
        0 <= i < cells.len(),
    ensures
        step_right(rule, cells, i, w, was_bumped).0.len() == cells.len(),
        i < step_right(rule, cells, i, w, was_bumped).1 <= cells.len(),
    decreases cells.len() - i,
{
    if i + 1 < cells.len() {
        let base = if was_bumped {
            cells
        } else {
            cells.update(i, Cell::Empty)
        };
        match collision(rule, Moving::Right(w), cells[i + 1]) {
            CollisionResult::DestinationEscapes { bumped, moved } => {
                lemma_step_right_shape(
                    rule,
                    base.update(i + 1, Cell::InMotion(moved)),
                    i + 1,
                    bumped,
                    true,
                );
            },
            _ => {},
        }
    }
}

proof fn lemma_valid_update(s: Seq<Cell>, j: int, c: Cell)
    requires
        valid_cells(s),
        valid_cell(c),
        0 <= j < s.len(),
    ensures
        valid_cells(s.update(j, c)),
{
    let t = s.update(j, c);
    assert forall|i: int| 0 <= i < t.len() implies valid_cell(#[trigger] t[i]) by {
        if i != j {
            assert(valid_cell(s[i]));
        }
    }
}

proof fn lemma_step_left_valid(rule: Rule, cells: Seq<Cell>, i: int, w: i8, was_bumped: bool)
    requires
        valid_cells(cells),
        valid_weight(w as int),
        0 <= i < cells.len(),
    ensures
        valid_cells(step_left(rule, cells, i, w, was_bumped)),
    decreases i,
{
    if i <= 0 {
        lemma_valid_update(cells, 0, left_wall_cell(rule, w));
    } else {
        let base = if was_bumped {
            cells
        } else {
            cells.update(i, Cell::Empty)
        };
        lemma_valid_update(cells, i, Cell::Empty);
        if 0 <= i - 1 < cells.len() {
            assert(valid_cell(cells[i - 1]));
        }
        lemma_collision_valid(rule, Moving::Left(w), cells[i - 1]);
        match collision(rule, Moving::Left(w), cells[i - 1]) {
            CollisionResult::BothDestroyed => {
                lemma_valid_update(base, i - 1, Cell::Empty);
            },
            CollisionResult::MovingWon(p) => {
                lemma_valid_update(base, i - 1, Cell::InMotion(p));
            },
            CollisionResult::DestinationWon(c) => {
                lemma_valid_update(base, i - 1, c);
            },
            CollisionResult::DestinationEscapes { bumped, moved } => {
                lemma_valid_update(base, i - 1, Cell::InMotion(moved));
                lemma_step_left_valid(
                    rule,
                    base.update(i - 1, Cell::InMotion(moved)),
                    i - 1,
                    bumped,
                    true,
                );
            },
        }
    }
}

proof fn lemma_step_right_valid(rule: Rule, cells: Seq<Cell>, i: int, w: i8, was_bumped: bool)
    requires
        valid_cells(cells),
        valid_weight(w as int),
        0 <= i < cells.len(),
    ensures
        valid_cells(step_right(rule, cells, i, w, was_bumped).0),
    decreases cells.len() - i,
{
    if i + 1 >= cells.len() {
        lemma_valid_update(cells, i, right_wall_cell(rule, w));
    } else {
        let base = if was_bumped {
            cells
        } else {
            cells.update(i, Cell::Empty)
        };
        lemma_valid_update(cells, i, Cell::Empty);
        assert(valid_cell(cells[i + 1]));
        lemma_collision_valid(rule, Moving::Right(w), cells[i + 1]);
        match collision(rule, Moving::Right(w), cells[i + 1]) {
            CollisionResult::BothDestroyed => {
                lemma_valid_update(base, i + 1, Cell::Empty);
            },
            CollisionResult::MovingWon(p) => {
                lemma_valid_update(base, i + 1, Cell::InMotion(p));
            },
            CollisionResult::DestinationWon(c) => {
                lemma_valid_update(base, i + 1, c);
            },
            CollisionResult::DestinationEscapes { bumped, moved } => {
                lemma_valid_update(base, i + 1, Cell::InMotion(moved));
                lemma_step_right_valid(
                    rule,
                    base.update(i + 1, Cell::InMotion(moved)),
                    i + 1,
                    bumped,
                    true,
                );
            },
        }
    }
}

/// The left-to-right scan that advances one whole generation, starting from
/// cursor position `i`.  Leftward moves land on already-visited cells, so
/// the cursor always advances by one past them; rightward moves report the
/// cursor to continue from.
pub open spec fn scan(rule: Rule, cells: Seq<Cell>, i: int) -> Seq<Cell>
    decreases cells.len() - i,
    via scan_decreases
{
    if i < 0 || i >= cells.len() {
        cells
    } else {
        match cells[i] {
            Cell::Empty => scan(rule, cells, i + 1),
            Cell::Stationary(_) => scan(rule, cells, i + 1),
            Cell::InMotion(Moving::Left(w)) => scan(rule, step_left(rule, cells, i, w, false), i + 1),
            Cell::InMotion(Moving::Right(w)) => scan(
                rule,
                step_right(rule, cells, i, w, false).0,
                step_right(rule, cells, i, w, false).1,
            ),
        }
    }
}

#[via_fn]
proof fn scan_decreases(rule: Rule, cells: Seq<Cell>, i: int) {
    if 0 <= i < cells.len() {
        match cells[i] {
            Cell::InMotion(Moving::Left(w)) => {
                lemma_step_left_len(rule, cells, i, w, false);
            },
            Cell::InMotion(Moving::Right(w)) => {
                if 0 <= i {
                    lemma_step_right_shape(rule, cells, i, w, false);
                }
            },
            _ => {},
        }
    }
}

/// Every cell is empty or moving left.
pub open spec fn empty_or_left_only(s: Seq<Cell>) -> bool {
    forall|i: int|
        0 <= i < s.len() ==> (#[trigger] s[i] matches Cell::Empty || s[i] matches Cell::InMotion(
            Moving::Left(_),
        ))
}

/// Every cell is empty or moving right.
pub open spec fn empty_or_right_only(s: Seq<Cell>) -> bool {
    forall|i: int|
        0 <= i < s.len() ==> (#[trigger] s[i] matches Cell::Empty || s[i] matches Cell::InMotion(
            Moving::Right(_),
        ))
}

/// Every cell is empty or stationary.
pub open spec fn empty_or_stationary_only(s: Seq<Cell>) -> bool {
    forall|i: int|
        0 <= i < s.len() ==> (#[trigger] s[i] matches Cell::Empty || s[i] matches Cell::Stationary(
            _,
        ))
}

/// The conservative fixpoint check: a row on which one of the three
/// predicates holds can never produce another collision.
pub open spec fn no_collisions_possible(s: Seq<Cell>) -> bool {
    empty_or_left_only(s) || empty_or_right_only(s) || empty_or_stationary_only(s)
}

/// An ordered, fixed-length line of cells: one generation of the simulation.
#[derive(Debug)]
pub struct State {
    cells: Vec<Cell>,
}

impl View for State {
    type V = Seq<Cell>;

    closed spec fn view(&self) -> Seq<Cell> {
        self.cells@
    }
}

impl State {
    /// Every weight a state carries stays within the two-digit range.
    #[verifier::type_invariant]
    spec fn wf(self) -> bool {
        valid_cells(self.cells@)
    }
}

impl Clone for State {
    fn clone(&self) -> (r: State)
        ensures
            r@ == self@,
    {
        proof {
            use_type_invariant(self);
        }
        State { cells: clone_cells(&self.cells) }
    }
}

/// An element-by-element copy of a cell vector.
fn clone_cells(v: &Vec<Cell>) -> (r: Vec<Cell>)
    ensures
        r@ == v@,
{
    let mut r: Vec<Cell> = Vec::new();
    let mut i: usize = 0;
    while i < v.len()
        invariant
            i <= v.len(),
            r@ == v@.subrange(0, i as int),
        decreases v.len() - i,
    {
        r.push(v[i]);
        i = i + 1;
        proof {
            assert(r@ =~= v@.subrange(0, i as int));
        }
    }
    proof {
        assert(r@ =~= v@);
    }
    r
}

impl State {
    fn all_empty_or_left(&self) -> (r: bool)
        ensures
            r == empty_or_left_only(self@),
    {
        let mut i: usize = 0;
        while i < self.cells.len()
            invariant
                i <= self.cells.len(),
                forall|j: int|
                    0 <= j < i ==> (#[trigger] self.cells@[j] matches Cell::Empty
                        || self.cells@[j] matches Cell::InMotion(Moving::Left(_))),
            decreases self.cells.len() - i,
        {
            match self.cells[i] {
                Cell::Empty => {},
                Cell::InMotion(Moving::Left(_)) => {},
                _ => {
                    return false;
                },
            }
            i = i + 1;
        }
        true
    }

    fn all_empty_or_right(&self) -> (r: bool)
        ensures
            r == empty_or_right_only(self@),
    {
        let mut i: usize = 0;
        while i < self.cells.len()
            invariant
                i <= self.cells.len(),
                forall|j: int|
                    0 <= j < i ==> (#[trigger] self.cells@[j] matches Cell::Empty
                        || self.cells@[j] matches Cell::InMotion(Moving::Right(_))),
            decreases self.cells.len() - i,
        {
            match self.cells[i] {
                Cell::Empty => {},
                Cell::InMotion(Moving::Right(_)) => {},
                _ => {
                    return false;
                },
            }
            i = i + 1;
        }
        true
    }

    fn all_empty_or_stationary(&self) -> (r: bool)
        ensures
            r == empty_or_stationary_only(self@),
    {
        let mut i: usize = 0;
        while i < self.cells.len()
            invariant
                i <= self.cells.len(),
                forall|j: int|
                    0 <= j < i ==> (#[trigger] self.cells@[j] matches Cell::Empty
                        || self.cells@[j] matches Cell::Stationary(_)),
            decreases self.cells.len() - i,
        {
            match self.cells[i] {
                Cell::Empty => {},
                Cell::Stationary(_) => {},
                _ => {
                    return false;
                },
            }
            i = i + 1;
        }
        true
    }

    /// Move the particle of weight `weight` at `index` one cell leftward,
    /// cascading escapes.  Leftward moves land on already-processed cells, so
    /// the scan cursor always advances by exactly one.
    fn move_left(cells: &mut Vec<Cell>, index: usize, weight: i8, was_bumped: bool, rule: &Rule) -> (r:
        usize)
        requires
            valid_cells(old(cells)@),
            valid_weight(weight as int),
            index < old(cells).len(),
        ensures
            final(cells)@ == step_left(*rule, old(cells)@, index as int, weight, was_bumped),
            final(cells)@.len() == old(cells)@.len(),
            valid_cells(final(cells)@),
            r == index + 1,
        decreases index,
    {
        proof {
            lemma_step_left_len(*rule, old(cells)@, index as int, weight, was_bumped);
            lemma_step_left_valid(*rule, old(cells)@, index as int, weight, was_bumped);
        }
        if index == 0 {
            // Hit the left wall: bounce back or come to rest.
            if rule.bounce {
                cells[0] = Cell::InMotion(Moving::Right(weight));
            } else {
                cells[0] = Cell::Stationary(weight);
            }
        } else {
            let destination = cells[index - 1];
            if !was_bumped {
                cells[index] = Cell::Empty;
            }
            match rule.collide(&Moving::Left(weight), &destination) {
                CollisionResult::BothDestroyed => {
                    cells[index - 1] = Cell::Empty;
                },
                CollisionResult::MovingWon(p) => {
                    cells[index - 1] = Cell::InMotion(p);
                },
                CollisionResult::DestinationWon(c) => {
                    cells[index - 1] = c;
                },
                CollisionResult::DestinationEscapes { bumped, moved } => {
                    cells[index - 1] = Cell::InMotion(moved);
                    proof {
                        lemma_collision_valid(*rule, Moving::Left(weight), old(cells)@[index - 1]);
                        lemma_valid_update(old(cells)@, index as int, Cell::Empty);
                        if !was_bumped {
                            lemma_valid_update(
                                old(cells)@.update(index as int, Cell::Empty),
                                index - 1,
                                Cell::InMotion(moved),
                            );
                        } else {
                            lemma_valid_update(old(cells)@, index - 1, Cell::InMotion(moved));
                        }
                    }
                    Self::move_left(cells, index - 1, bumped, true, rule);
                },
            }
        }
        index + 1
    }

    /// Move the particle of weight `weight` at `index` one cell rightward,
    /// cascading escapes.  Rightward moves land in unvisited territory, so
    /// the returned cursor skips exactly the cells this move finalised.
    fn move_right(cells: &mut Vec<Cell>, index: usize, weight: i8, was_bumped: bool, rule: &Rule) -> (r:
        usize)
        requires
            valid_cells(old(cells)@),
            valid_weight(weight as int),
            index < old(cells).len(),
        ensures
            final(cells)@ == step_right(*rule, old(cells)@, index as int, weight, was_bumped).0,
            r as int == step_right(*rule, old(cells)@, index as int, weight, was_bumped).1,
            final(cells)@.len() == old(cells)@.len(),
            valid_cells(final(cells)@),
            index < r <= old(cells)@.len(),
        decreases old(cells)@.len() - index,
    {
        proof {
            lemma_step_right_shape(*rule, old(cells)@, index as int, weight, was_bumped);
            lemma_step_right_valid(*rule, old(cells)@, index as int, weight, was_bumped);
        }
        if index + 1 >= cells.len() {
            // Hit the right wall: bounce back or come to rest.
            if rule.bounce {
                cells[index] = Cell::InMotion(Moving::Left(weight));
            } else {
                cells[index] = Cell::Stationary(weight);
            }
            index + 1
        } else {
            let destination = cells[index + 1];
            if !was_bumped {
                cells[index] = Cell::Empty;
            }
            match rule.collide(&Moving::Right(weight), &destination) {
                CollisionResult::BothDestroyed => {
                    cells[index + 1] = Cell::Empty;
                    index + 2
                },
                CollisionResult::MovingWon(p) => {
                    cells[index + 1] = Cell::InMotion(p);
                    index + 2
                },
                CollisionResult::DestinationWon(c) => {
                    cells[index + 1] = c;
                    index + 1
                },
                CollisionResult::DestinationEscapes { bumped, moved } => {
                    cells[index + 1] = Cell::InMotion(moved);
                    proof {
                        lemma_collision_valid(*rule, Moving::Right(weight), old(cells)@[index + 1]);
                        lemma_valid_update(old(cells)@, index as int, Cell::Empty);
                        if !was_bumped {
                            lemma_valid_update(
                                old(cells)@.update(index as int, Cell::Empty),
                                index + 1,
                                Cell::InMotion(moved),
                            );
                        } else {
                            lemma_valid_update(old(cells)@, index + 1, Cell::InMotion(moved));
                        }
                    }
                    Self::move_right(cells, index + 1, bumped, true, rule)
                },
            }
        }
    }

    /// Advance one generation.  Returns `None` exactly when the conservative
    /// fixpoint check says no further collision can ever happen; otherwise
    /// the scan runs left to right over a fresh copy of the cells and the
    /// result is the next generation, the current state untouched.
    pub fn next(&self, rule: &Rule) -> (r: Option<State>)
        ensures
            (r is None) == no_collisions_possible(self@),
            r matches Some(s1) ==> s1@ == scan(*rule, self@, 0),
            r matches Some(s1) ==> s1@.len() == self@.len(),
    {
        proof {
            use_type_invariant(self);
        }
        if self.all_empty_or_left() || self.all_empty_or_right() || self.all_empty_or_stationary() {
            return None;
        }
        let mut cells = clone_cells(&self.cells);
        let mut index: usize = 0;
        while index < cells.len()
            invariant
                valid_cells(cells@),
                cells@.len() == self@.len(),
                scan(*rule, self@, 0) == scan(*rule, cells@, index as int),
            decreases cells@.len() - index,
        {
            let cell = cells[index];
            match cell {
                Cell::Empty => {
                    index = index + 1;
                },
                Cell::Stationary(_) => {
                    index = index + 1;
                },
                Cell::InMotion(Moving::Left(weight)) => {
                    assert(valid_cell(cells@[index as int]));
                    index = Self::move_left(&mut cells, index, weight, false, rule);
                },
                Cell::InMotion(Moving::Right(weight)) => {
                    assert(valid_cell(cells@[index as int]));
                    index = Self::move_right(&mut cells, index, weight, false, rule);
                },
            }
        }
        Some(State { cells })
    }
}

// ---------------------------------------------------------------------------
// Textual encoding
//
// A state is written as whitespace-separated tokens: `_` for an empty cell,
// `<digits>` (0-99) for a stationary particle, `-<digits>` / `+<digits>` for
// leftward / rightward movers.  The verbose renderer emits exactly this
// grammar, so rendering and decoding round-trip.
// ---------------------------------------------------------------------------

/// Why a textual state failed to decode.
#[derive(Debug, Clone, Copy, PartialEq, Eq, Structural)]
pub enum DecodeError {
    /// A numeric token exceeds 99.
    ValueTooLarge,
    /// Both `-` and `+` are present on one token.
    OnlyOnePrefix,
    /// A `-` or `+` appears somewhere other than the start of a token.
    SignNotAtStart(char),
    /// A `_` is directly adjacent to other characters.
    UnderscoreAdjacent,
    /// Any other unexpected character.
    UnexpectedChar(char),
}

/// Token separators: ordinary whitespace.
pub open spec fn is_sep(c: char) -> bool {
    c == ' ' || c == '\t' || c == '\n' || c == '\r'
}

pub open spec fn is_digit_char(c: char) -> bool {
    48 <= c as u32 <= 57
}

pub open spec fn digit_val(c: char) -> int {
    c as u32 - 48
}

/// The decimal value of an all-digit token.
pub open spec fn token_value(t: Seq<char>) -> int
    decreases t.len(),
{
    if t.len() == 0 {
        0
    } else {
        token_value(t.drop_last()) * 10 + digit_val(t.last())
    }
}

/// Length of the maximal separator-free prefix.
pub open spec fn token_len(s: Seq<char>) -> int
    decreases s.len(),
{
    if s.len() == 0 || is_sep(s[0]) {
        0
    } else {
        1 + token_len(s.drop_first())
    }
}

pub open spec fn contains_underscore(t: Seq<char>) -> bool {
    exists|i: int| 0 <= i < t.len() && t[i] == '_'
}

/// Index of the first non-digit character, or -1 if all are digits.
pub open spec fn first_nondigit(t: Seq<char>) -> int
    decreases t.len(),
{
    if t.len() == 0 {
        -1
    } else if !is_digit_char(t[0]) {
        0
    } else {
        let r = first_nondigit(t.drop_first());
        if r < 0 {
            -1
        } else {
            r + 1
        }
    }
}

/// What one separator-free token decodes to: a cell, nothing (a bare sign is
/// skipped), or an error.
pub open spec fn parse_token(t: Seq<char>) -> Result<Option<Cell>, DecodeError> {
    if t.len() == 1 && t[0] == '_' {
        Ok(Some(Cell::Empty))
    } else if contains_underscore(t) {
        Err(DecodeError::UnderscoreAdjacent)
    } else {
        let has_sign = t[0] == '-' || t[0] == '+';
        let digits = if has_sign {
            t.drop_first()
        } else {
            t
        };
        if digits.len() == 0 {
            Ok(None)
        } else {
            let b = first_nondigit(digits);
            if b >= 0 {
                let c = digits[b];
                if c == '-' || c == '+' {
                    if b == 0 {
                        Err(DecodeError::OnlyOnePrefix)
                    } else {
                        Err(DecodeError::SignNotAtStart(c))
                    }
                } else {
                    Err(DecodeError::UnexpectedChar(c))
                }
            } else if token_value(digits) > 99 {
                Err(DecodeError::ValueTooLarge)
            } else {
                let w = token_value(digits) as i8;
                if t[0] == '-' {
                    Ok(Some(Cell::InMotion(Moving::Left(w))))
                } else if t[0] == '+' {
                    Ok(Some(Cell::InMotion(Moving::Right(w))))
                } else {
                    Ok(Some(Cell::Stationary(w)))
                }
            }
        }
    }
}

/// The whole decoder: skip separators, read one token at a time, fail on the
/// first bad token; all-or-nothing.
pub open spec fn decoded(s: Seq<char>) -> Result<Seq<Cell>, DecodeError>
    decreases s.len(),
    via decoded_decreases
{
    if s.len() == 0 {
        Ok(Seq::empty())
    } else if is_sep(s[0]) {
        decoded(s.drop_first())
    } else {
        let n = token_len(s);
        match parse_token(s.subrange(0, n)) {
            Err(e) => Err(e),
            Ok(None) => decoded(s.skip(n)),
            Ok(Some(c)) => match decoded(s.skip(n)) {
                Err(e) => Err(e),
                Ok(rest) => Ok(seq![c] + rest),
            },
        }
    }
}

proof fn lemma_token_len_bounds(s: Seq<char>)
    ensures
        0 <= token_len(s) <= s.len(),
        s.len() > 0 && !is_sep(s[0]) ==> token_len(s) >= 1,
    decreases s.len(),
{
    if s.len() > 0 && !is_sep(s[0]) {
        lemma_token_len_bounds(s.drop_first());
    }
}

#[via_fn]
proof fn decoded_decreases(s: Seq<char>) {
    lemma_token_len_bounds(s);
}

/// The error message the decoder reports for each failure.
pub open spec fn message_of(e: DecodeError) -> Seq<char> {
    match e {
        DecodeError::ValueTooLarge => "Value must be between 0 and 99"@,
        DecodeError::OnlyOnePrefix => "Only one prefix is allowed"@,
        DecodeError::SignNotAtStart(c) => seq!['\''] + seq![c]
            + "' must be at the start of a cell"@,
        DecodeError::UnderscoreAdjacent => "'_' must be separated from other cells by a space"@,
        DecodeError::UnexpectedChar(c) => "Unexpected character: '"@ + seq![c] + seq!['\''],
    }
}

fn build_message(e: &DecodeError) -> (r: String)
    ensures
        r@ == message_of(*e),
{
    match e {
        DecodeError::ValueTooLarge => String::from_str("Value must be between 0 and 99"),
        DecodeError::OnlyOnePrefix => String::from_str("Only one prefix is allowed"),
        DecodeError::SignNotAtStart(c) => {
            let mut s = String::from_str("'");
            proof {
                reveal_strlit("'");
            }
            push_char(&mut s, *c);
            s.append("' must be at the start of a cell");
            proof {
                assert(s@ =~= message_of(*e));
            }
            s
        },
        DecodeError::UnderscoreAdjacent => String::from_str(
            "'_' must be separated from other cells by a space",
        ),
        DecodeError::UnexpectedChar(c) => {
            let mut s = String::from_str("Unexpected character: '");
            push_char(&mut s, *c);
            proof {
                reveal_strlit("'");
            }
            let mut t = String::new();
            push_char(&mut t, '\'');
            s.append(t.as_str());
            proof {
                assert(s@ =~= message_of(*e));
            }
            s
        },
    }
}

proof fn lemma_first_nondigit_from_bounds(t: Seq<char>, k: int)
    requires
        0 <= k <= t.len(),
        forall|j: int| 0 <= j < k ==> is_digit_char(#[trigger] t[j]),
        k < t.len() ==> !is_digit_char(t[k]),
    ensures
        k == t.len() ==> first_nondigit(t) == -1,
        k < t.len() ==> first_nondigit(t) == k,
    decreases t.len(),
{
    if t.len() > 0 && k > 0 {
        assert(is_digit_char(t[0]));
        lemma_first_nondigit_from_bounds(t.drop_first(), k - 1);
    }
}

proof fn lemma_token_len_from_bounds(s: Seq<char>, m: int)
    requires
        0 <= m <= s.len(),
        forall|j: int| 0 <= j < m ==> !is_sep(#[trigger] s[j]),
        m < s.len() ==> is_sep(s[m]),
    ensures
        token_len(s) == m,
    decreases s.len(),
{
    if m > 0 {
        lemma_token_len_from_bounds(s.drop_first(), m - 1);
    }
}

/// `token_value` grows monotonically as digits are appended.
proof fn lemma_token_value_nonneg(t: Seq<char>)
    requires
        forall|j: int| 0 <= j < t.len() ==> is_digit_char(#[trigger] t[j]),
    ensures
        token_value(t) >= 0,
    decreases t.len(),
{
    if t.len() > 0 {
        assert(forall|j: int|
            0 <= j < t.drop_last().len() ==> is_digit_char(#[trigger] t.drop_last()[j]));
        lemma_token_value_nonneg(t.drop_last());
    }
}

/// Parse the token `chars[start..end]`.
#[verifier::loop_isolation(false)]
fn parse_token_exec(chars: &Vec<char>, start: usize, end: usize) -> (r: Result<
    Option<Cell>,
    DecodeError,
>)
    requires
        start < end <= chars@.len(),
    ensures
        r == parse_token(chars@.subrange(start as int, end as int)),
        r matches Ok(Some(c)) ==> valid_cell(c),
{
    let ghost t = chars@.subrange(start as int, end as int);
    proof {
        assert(t.len() == end - start);
        assert forall|j: int| 0 <= j < t.len() implies #[trigger] t[j] == chars@[start + j] by {
            assert(chars@.subrange(start as int, end as int)[j] == chars@[start + j]);
        }
        assert(t[0] == chars@[start as int]);
    }
    if end - start == 1 && chars[start] == '_' {
        return Ok(Some(Cell::Empty));
    }
    let mut k: usize = start;
    while k < end
        invariant
            start <= k <= end <= chars@.len(),
            forall|j: int| start <= j < k ==> chars@[j] != '_',
        decreases end - k,
    {
        if chars[k] == '_' {
            proof {
                assert(t[k - start] == chars@[k as int]);
                assert(contains_underscore(t));
            }
            return Err(DecodeError::UnderscoreAdjacent);
        }
        k = k + 1;
    }
    proof {
        assert(!contains_underscore(t));
    }
    let first = chars[start];
    let has_sign = first == '-' || first == '+';
    let dstart = if has_sign {
        start + 1
    } else {
        start
    };
    let ghost digits = chars@.subrange(dstart as int, end as int);
    proof {
        assert(digits.len() == end - dstart);
        assert forall|j: int| 0 <= j < digits.len() implies #[trigger] digits[j] == chars@[dstart
            + j] by {
            assert(chars@.subrange(dstart as int, end as int)[j] == chars@[dstart + j]);
        }
        if has_sign {
            assert(digits =~= t.drop_first());
        } else {
            assert(digits =~= t);
        }
    }
    if dstart == end {
        return Ok(None);
    }
    let mut k: usize = dstart;
    while k < end
        invariant
            dstart <= k <= end <= chars@.len(),
            forall|j: int| dstart <= j < k ==> is_digit_char(#[trigger] chars@[j]),
            digits == chars@.subrange(dstart as int, end as int),
        decreases end - k,
    {
        let c = chars[k];
        if !(48 <= c as u32 && c as u32 <= 57) {
            proof {
                assert forall|j: int| 0 <= j < k - dstart implies is_digit_char(
                    #[trigger] digits[j],
                ) by {
                    assert(digits[j] == chars@[dstart + j]);
                }
                assert(digits[k - dstart] == chars@[k as int]);
                lemma_first_nondigit_from_bounds(digits, k - dstart);
            }
            if c == '-' || c == '+' {
                if k == dstart {
                    return Err(DecodeError::OnlyOnePrefix);
                } else {
                    return Err(DecodeError::SignNotAtStart(c));
                }
            } else {
                return Err(DecodeError::UnexpectedChar(c));
            }
        }
        k = k + 1;
    }
    proof {
        assert forall|j: int| 0 <= j < end - dstart implies is_digit_char(
            #[trigger] digits[j],
        ) by {
            assert(digits[j] == chars@[dstart + j]);
        }
        lemma_first_nondigit_from_bounds(digits, end - dstart);
    }
    let mut val: u16 = 0;
    let mut k: usize = dstart;
    while k < end
        invariant
            dstart <= k <= end <= chars@.len(),
            forall|j: int| dstart <= j < end ==> is_digit_char(#[trigger] chars@[j]),
            digits == chars@.subrange(dstart as int, end as int),
            val <= 999,
            ({
                let pre = chars@.subrange(dstart as int, k as int);
                ||| (token_value(pre) <= 99 && val == token_value(pre))
                ||| (token_value(pre) > 99 && val >= 100)
            }),
        decreases end - k,
    {
        let c = chars[k];
        let d = (c as u32 - 48) as u16;
        let ghost pre = chars@.subrange(dstart as int, k as int);
        proof {
            assert forall|j: int| 0 <= j < pre.len() implies is_digit_char(#[trigger] pre[j]) by {
                assert(chars@.subrange(dstart as int, k as int)[j] == chars@[dstart + j]);
            }
            lemma_token_value_nonneg(pre);
            let pre2 = chars@.subrange(dstart as int, k + 1);
            assert(pre2.drop_last() =~= pre);
            assert(pre2.last() == chars@[k as int]);
        }
        val = if val > 99 {
            100
        } else {
            val * 10 + d
        };
        k = k + 1;
    }
    proof {
        assert(chars@.subrange(dstart as int, end as int) =~= digits);
    }
    if val > 99 {
        Err(DecodeError::ValueTooLarge)
    } else {
        let w = val as i8;
        if first == '-' {
            Ok(Some(Cell::InMotion(Moving::Left(w))))
        } else if first == '+' {
            Ok(Some(Cell::InMotion(Moving::Right(w))))
        } else {
            Ok(Some(Cell::Stationary(w)))
        }
    }
}

impl State {
    /// Decode a textual state.  Succeeds exactly when every token follows the
    /// grammar above, and then yields the written cells in order; otherwise
    /// reports the first offending token's error, and no partial state.
    #[verifier::loop_isolation(false)]
    #[verifier::rlimit(30)]
    pub fn from_string(raw: &str) -> (r: Result<State, String>)
        ensures
            decoded(raw@) matches Ok(cells) ==> r matches Ok(st) && st@ == cells,
            decoded(raw@) matches Err(e) ==> r matches Err(m) && m@ == message_of(e),
    {
        let chars = str_chars(raw);
        let ghost full = raw@;
        let n = chars.len();
        let mut cells: Vec<Cell> = Vec::new();
        let mut i: usize = 0;
        proof {
            assert(full.skip(0) =~= full);
            match decoded(full) {
                Ok(rest) => {
                    assert(Seq::<Cell>::empty() + rest =~= rest);
                },
                Err(_) => {},
            }
        }
        while i < n
            invariant
                i <= n,
                n == chars@.len(),
                chars@ == full,
                valid_cells(cells@),
                decoded(full) == match decoded(full.skip(i as int)) {
                    Ok(rest) => Ok::<Seq<Cell>, DecodeError>(cells@ + rest),
                    Err(e) => Err(e),
                },
            decreases n - i,
        {
            let ghost tail = full.skip(i as int);
            proof {
                assert(tail.len() == n - i);
                assert(tail[0] == full[i as int]);
            }
            if chars[i] == ' ' || chars[i] == '\t' || chars[i] == '\n' || chars[i] == '\r' {
                proof {
                    assert(is_sep(full[i as int]));
                    assert(tail.drop_first() =~= full.skip(i + 1));
                    assert(decoded(tail) == decoded(full.skip(i + 1)));
                }
                i = i + 1;
            } else {
                let mut j: usize = i + 1;
                while j < n && chars[j] != ' ' && chars[j] != '\t' && chars[j] != '\n' && chars[j]
                    != '\r'
                    invariant
                        i < j <= n,
                        n == chars@.len(),
                        chars@ == full,
                        forall|k: int| i <= k < j ==> !is_sep(#[trigger] full[k]),
                    decreases n - j,
                {
                    j = j + 1;
                }
                proof {
                    assert(j == n || is_sep(full[j as int]));
                    assert forall|k: int| 0 <= k < j - i implies !is_sep(#[trigger] tail[k]) by {
                        assert(tail[k] == full[i + k]);
                    }
                    if j < n {
                        assert(tail[j - i] == full[j as int]);
                    }
                    lemma_token_len_from_bounds(tail, j - i);
                    assert(tail.subrange(0, j - i) =~= full.subrange(i as int, j as int));
                    assert(tail.skip(j - i) =~= full.skip(j as int));
                }
                match parse_token_exec(&chars, i, j) {
                    Err(e) => {
                        proof {
                            assert(decoded(tail) == Err::<Seq<Cell>, DecodeError>(e));
                        }
                        return Err(build_message(&e));
                    },
                    Ok(None) => {
                        proof {
                            assert(decoded(tail) == decoded(full.skip(j as int)));
                        }
                        i = j;
                    },
                    Ok(Some(c)) => {
                        let ghost old_cells = cells@;
                        cells.push(c);
                        proof {
                            assert(decoded(tail) == match decoded(full.skip(j as int)) {
                                Ok(rest) => Ok::<Seq<Cell>, DecodeError>(seq![c] + rest),
                                Err(e2) => Err(e2),
                            });
                            match decoded(full.skip(j as int)) {
                                Ok(rest) => {
                                    assert(old_cells + (seq![c] + rest) =~= cells@ + rest);
                                },
                                Err(_) => {},
                            }
                        }
                        i = j;
                    },
                }
            }
        }
        proof {
            assert(full.skip(n as int) =~= Seq::<char>::empty());
            assert(decoded(full.skip(n as int)) == Ok::<Seq<Cell>, DecodeError>(Seq::empty()));
            match decoded(full) {
                Ok(cs) => {
                    assert(cs =~= cells@ + Seq::<Cell>::empty());
                    assert(cs =~= cells@);
                },
                Err(_) => {},
            }
        }
        Ok(State { cells })
    }
}

// ---------------------------------------------------------------------------
// Rendering
// ---------------------------------------------------------------------------

pub open spec fn digit_char(d: int) -> char {
    if d == 0 {
        '0'
    } else if d == 1 {
        '1'
    } else if d == 2 {
        '2'
    } else if d == 3 {
        '3'
    } else if d == 4 {
        '4'
    } else if d == 5 {
        '5'
    } else if d == 6 {
        '6'
    } else if d == 7 {
        '7'
    } else if d == 8 {
        '8'
    } else {
        '9'
    }
}

/// A weight written in decimal, without leading zeros.
pub open spec fn weight_chars(w: int) -> Seq<char> {
    if w < 10 {
        seq![digit_char(w)]
    } else {
        seq![digit_char(w / 10), digit_char(w % 10)]
    }
}

/// The verbose token for one cell: `_`, the bare weight, or the weight with
/// a direction sign.
pub open spec fn cell_token(c: Cell) -> Seq<char> {
    match c {
        Cell::Empty => seq!['_'],
        Cell::Stationary(w) => weight_chars(w as int),
        Cell::InMotion(Moving::Left(w)) => seq!['-'] + weight_chars(w as int),
        Cell::InMotion(Moving::Right(w)) => seq!['+'] + weight_chars(w as int),
    }
}

/// The verbose rendering: each cell's token followed by one space.
pub open spec fn rendered_verbose(s: Seq<Cell>) -> Seq<char>
    decreases s.len(),
{
    if s.len() == 0 {
        Seq::empty()
    } else {
        cell_token(s[0]) + seq![' '] + rendered_verbose(s.drop_first())
    }
}

/// The compact symbol for one cell.
pub open spec fn compact_char(c: Cell) -> char {
    match c {
        Cell::Empty => '_',
        Cell::Stationary(_) => 'X',
        Cell::InMotion(Moving::Left(_)) => '<',
        Cell::InMotion(Moving::Right(_)) => '>',
    }
}

pub open spec fn compact_chars(s: Seq<Cell>) -> Seq<char>
    decreases s.len(),
{
    if s.len() == 0 {
        Seq::empty()
    } else {
        seq![compact_char(s[0])] + compact_chars(s.drop_first())
    }
}

/// The compact rendering: one symbol per cell, framed in `|...|`.
pub open spec fn rendered_compact(s: Seq<Cell>) -> Seq<char> {
    seq!['|'] + compact_chars(s) + seq!['|']
}

proof fn lemma_compact_chars_snoc(s: Seq<Cell>, c: Cell)
    ensures
        compact_chars(s.push(c)) == compact_chars(s) + seq![compact_char(c)],
    decreases s.len(),
{
    if s.len() == 0 {
        assert(s.push(c)[0] == c);
        assert(s.push(c).drop_first() =~= s);
        assert(compact_chars(s.push(c)) =~= compact_chars(s) + seq![compact_char(c)]);
    } else {
        assert(s.push(c)[0] == s[0]);
        assert(s.push(c).drop_first() =~= s.drop_first().push(c));
        lemma_compact_chars_snoc(s.drop_first(), c);
        assert(compact_chars(s.push(c)) =~= compact_chars(s) + seq![compact_char(c)]);
    }
}

proof fn lemma_rendered_verbose_snoc(s: Seq<Cell>, c: Cell)
    ensures
        rendered_verbose(s.push(c)) == rendered_verbose(s) + cell_token(c) + seq![' '],
    decreases s.len(),
{
    if s.len() == 0 {
        assert(s.push(c)[0] == c);
        assert(s.push(c).drop_first() =~= s);
        assert(rendered_verbose(s.push(c)) =~= rendered_verbose(s) + cell_token(c) + seq![' ']);
    } else {
        assert(s.push(c)[0] == s[0]);
        assert(s.push(c).drop_first() =~= s.drop_first().push(c));
        lemma_rendered_verbose_snoc(s.drop_first(), c);
        assert(rendered_verbose(s.push(c)) =~= rendered_verbose(s) + cell_token(c) + seq![' ']);
    }
}

fn digit_to_char(d: u8) -> (c: char)
    requires
        d < 10,
    ensures
        c == digit_char(d as int),
{
    match d {
        0 => '0',
        1 => '1',
        2 => '2',
        3 => '3',
        4 => '4',
        5 => '5',
        6 => '6',
        7 => '7',
        8 => '8',
        _ => '9',
    }
}

/// Append a weight's decimal digits.
fn push_weight(s: &mut String, w: i8)
    requires
        valid_weight(w as int),
    ensures
        final(s)@ == old(s)@ + weight_chars(w as int),
{
    if w < 10 {
        push_char(s, digit_to_char(w as u8));
        proof {
            assert(s@ =~= old(s)@ + weight_chars(w as int));
        }
    } else {
        push_char(s, digit_to_char((w / 10) as u8));
        push_char(s, digit_to_char((w % 10) as u8));
        proof {
            assert(s@ =~= old(s)@ + weight_chars(w as int));
        }
    }
}

impl State {
    /// The compact display: `_` empty, `X` stationary, `<` and `>` movers,
    /// framed in `|...|`.
    #[verifier::loop_isolation(false)]
    pub fn render(&self) -> (r: String)
        ensures
            r@ == rendered_compact(self@),
    {
        let mut out = String::new();
        push_char(&mut out, '|');
        let mut i: usize = 0;
        while i < self.cells.len()
            invariant
                i <= self.cells.len(),
                out@ == seq!['|'] + compact_chars(self@.subrange(0, i as int)),
            decreases self.cells.len() - i,
        {
            let c = match self.cells[i] {
                Cell::Empty => '_',
                Cell::Stationary(_) => 'X',
                Cell::InMotion(Moving::Left(_)) => '<',
                Cell::InMotion(Moving::Right(_)) => '>',
            };
            push_char(&mut out, c);
            i = i + 1;
            proof {
                assert(self@.subrange(0, i as int) =~= self@.subrange(0, i - 1).push(
                    self@[i - 1],
                ));
                lemma_compact_chars_snoc(self@.subrange(0, i - 1), self@[i - 1]);
            }
        }
        push_char(&mut out, '|');
        proof {
            assert(self@.subrange(0, self@.len() as int) =~= self@);
        }
        out
    }

    /// The verbose display: each cell's textual token followed by a space,
    /// re-parseable by the decoder.
    #[verifier::loop_isolation(false)]
    fn render_verbose(&self) -> (r: String)
        ensures
            r@ == rendered_verbose(self@),
    {
        proof {
            use_type_invariant(self);
        }
        let mut out = String::new();
        let mut i: usize = 0;
        while i < self.cells.len()
            invariant
                i <= self.cells.len(),
                out@ == rendered_verbose(self@.subrange(0, i as int)),
            decreases self.cells.len() - i,
        {
            let ghost pre = self@.subrange(0, i as int);
            match self.cells[i] {
                Cell::Empty => {
                    push_char(&mut out, '_');
                },
                Cell::Stationary(w) => {
                    assert(valid_cell(self@[i as int]));
                    push_weight(&mut out, w);
                },
                Cell::InMotion(Moving::Left(w)) => {
                    assert(valid_cell(self@[i as int]));
                    push_char(&mut out, '-');
                    push_weight(&mut out, w);
                },
                Cell::InMotion(Moving::Right(w)) => {
                    assert(valid_cell(self@[i as int]));
                    push_char(&mut out, '+');
                    push_weight(&mut out, w);
                },
            }
            push_char(&mut out, ' ');
            i = i + 1;
            proof {
                assert(self@.subrange(0, i as int) =~= pre.push(self@[i - 1]));
                lemma_rendered_verbose_snoc(pre, self@[i - 1]);
                assert(out@ =~= rendered_verbose(pre) + cell_token(self@[i - 1]) + seq![' ']);
            }
        }
        proof {
            assert(self@.subrange(0, self@.len() as int) =~= self@);
        }
        out
    }
}

/// A wrapper that renders a state in the verbose format the decoder reads
/// back.
pub struct DebugOutput<'a>(pub &'a State);

impl<'a> DebugOutput<'a> {
    /// The verbose rendering of the wrapped state.
    pub fn render(&self) -> (r: String)
        ensures
            r@ == rendered_verbose(self.0@),
    {
        self.0.render_verbose()
    }
}

// ---------------------------------------------------------------------------
// The encoding round-trips
// ---------------------------------------------------------------------------

proof fn lemma_digit_char_props(d: int)
    requires
        0 <= d <= 9,
    ensures
        is_digit_char(digit_char(d)),
        digit_val(digit_char(d)) == d,
        digit_char(d) != '_' && digit_char(d) != '-' && digit_char(d) != '+',
        !is_sep(digit_char(d)),
{
}

proof fn lemma_weight_chars_props(w: int)
    requires
        0 <= w <= 99,
    ensures
        1 <= weight_chars(w).len() <= 2,
        forall|j: int|
            0 <= j < weight_chars(w).len() ==> is_digit_char(#[trigger] weight_chars(w)[j]),
        token_value(weight_chars(w)) == w,
        first_nondigit(weight_chars(w)) == -1,
{
    let t = weight_chars(w);
    if w < 10 {
        lemma_digit_char_props(w);
        assert(t.drop_last() =~= Seq::empty());
        assert(token_value(t) == token_value(Seq::<char>::empty()) * 10 + digit_val(t.last()));
        assert(token_value(t) == w);
    } else {
        vstd::arithmetic::div_mod::lemma_fundamental_div_mod(w, 10);
        lemma_digit_char_props(w / 10);
        lemma_digit_char_props(w % 10);
        assert(t.drop_last() =~= seq![digit_char(w / 10)]);
        assert(t.drop_last().drop_last() =~= Seq::empty());
        assert(token_value(Seq::<char>::empty()) == 0);
        assert(t.drop_last().last() == digit_char(w / 10));
        assert(token_value(t.drop_last()) == token_value(t.drop_last().drop_last()) * 10
            + digit_val(t.drop_last().last()));
        assert(token_value(t.drop_last()) == w / 10);
        assert(token_value(t) == (w / 10) * 10 + (w % 10));
    }
    assert forall|j: int| 0 <= j < t.len() implies is_digit_char(#[trigger] t[j]) by {
        if w < 10 {
            lemma_digit_char_props(w);
        } else {
            lemma_digit_char_props(w / 10);
            lemma_digit_char_props(w % 10);
        }
    }
    lemma_first_nondigit_from_bounds(t, t.len() as int);
}

proof fn lemma_cell_token_props(c: Cell)
    requires
        valid_cell(c),
    ensures
        cell_token(c).len() >= 1,
        forall|j: int| 0 <= j < cell_token(c).len() ==> !is_sep(#[trigger] cell_token(c)[j]),
        parse_token(cell_token(c)) == Ok::<Option<Cell>, DecodeError>(Some(c)),
{
    let t = cell_token(c);
    match c {
        Cell::Empty => {
            assert(t =~= seq!['_']);
            assert(t.len() == 1 && t[0] == '_');
            assert(!is_sep(t[0]));
        },
        Cell::Stationary(w) => {
            lemma_weight_chars_props(w as int);
            assert(t == weight_chars(w as int));
            assert forall|j: int| 0 <= j < t.len() implies !is_sep(#[trigger] t[j]) by {
                assert(is_digit_char(t[j]));
            }
            assert(!(t.len() == 1 && t[0] == '_'));
            assert(!contains_underscore(t)) by {
                assert forall|j: int| 0 <= j < t.len() implies t[j] != '_' by {
                    assert(is_digit_char(t[j]));
                }
            }
            assert(t[0] != '-' && t[0] != '+');
            assert(token_value(t) == w as int);
            assert(parse_token(t) == Ok::<Option<Cell>, DecodeError>(Some(c)));
        },
        Cell::InMotion(Moving::Left(w)) => {
            lemma_weight_chars_props(w as int);
            let digits = weight_chars(w as int);
            assert(t == seq!['-'] + digits);
            assert(t[0] == '-');
            assert(t.len() == 1 + digits.len());
            assert(t.drop_first() =~= digits);
            assert forall|j: int| 0 <= j < t.len() implies !is_sep(#[trigger] t[j]) by {
                if j > 0 {
                    assert(t[j] == digits[j - 1]);
                    assert(is_digit_char(t[j]));
                }
            }
            assert(!contains_underscore(t)) by {
                assert forall|j: int| 0 <= j < t.len() implies t[j] != '_' by {
                    if j > 0 {
                        assert(t[j] == digits[j - 1]);
                        assert(is_digit_char(t[j]));
                    }
                }
            }
            assert(!(t.len() == 1 && t[0] == '_'));
            assert(parse_token(t) == Ok::<Option<Cell>, DecodeError>(Some(c)));
        },
        Cell::InMotion(Moving::Right(w)) => {
            lemma_weight_chars_props(w as int);
            let digits = weight_chars(w as int);
            assert(t == seq!['+'] + digits);
            assert(t[0] == '+');
            assert(t.len() == 1 + digits.len());
            assert(t.drop_first() =~= digits);
            assert forall|j: int| 0 <= j < t.len() implies !is_sep(#[trigger] t[j]) by {
                if j > 0 {
                    assert(t[j] == digits[j - 1]);
                    assert(is_digit_char(t[j]));
                }
            }
            assert(!contains_underscore(t)) by {
                assert forall|j: int| 0 <= j < t.len() implies t[j] != '_' by {
                    if j > 0 {
                        assert(t[j] == digits[j - 1]);
                        assert(is_digit_char(t[j]));
                    }
                }
            }
            assert(!(t.len() == 1 && t[0] == '_'));
            assert(parse_token(t) == Ok::<Option<Cell>, DecodeError>(Some(c)));
        },
    }
}

/// The encoding round-trips: decoding the verbose rendering of any state
/// whose weights are within the two-digit range yields exactly that state's
/// cells, never an error and never a different row.
pub proof fn lemma_round_trip(cells: Seq<Cell>)
    requires
        valid_cells(cells),
    ensures
        decoded(rendered_verbose(cells)) == Ok::<Seq<Cell>, DecodeError>(cells),
    decreases cells.len(),
{
    if cells.len() == 0 {
        assert(rendered_verbose(cells) =~= Seq::<char>::empty());
        assert(cells =~= Seq::<Cell>::empty());
    } else {
        let c = cells[0];
        let rest_cells = cells.drop_first();
        let tok = cell_token(c);
        let rest = rendered_verbose(rest_cells);
        let full = rendered_verbose(cells);
        assert(full == tok + seq![' '] + rest);
        assert(valid_cell(c));
        lemma_cell_token_props(c);
        assert(valid_cells(rest_cells)) by {
            assert(forall|j: int|
                0 <= j < rest_cells.len() ==> valid_cell(#[trigger] rest_cells[j]) && rest_cells[j]
                    == cells[j + 1]);
        }
        lemma_round_trip(rest_cells);
        assert(full.len() == tok.len() + 1 + rest.len());
        assert forall|j: int| 0 <= j < tok.len() implies !is_sep(#[trigger] full[j]) by {
            assert(full[j] == tok[j]);
        }
        assert(full[tok.len() as int] == ' ');
        lemma_token_len_from_bounds(full, tok.len() as int);
        assert(full.subrange(0, tok.len() as int) =~= tok);
        assert(full[0] == tok[0]);
        assert(!is_sep(full[0]));
        let after = full.skip(tok.len() as int);
        assert(after =~= seq![' '] + rest);
        assert(after[0] == ' ');
        assert(after.drop_first() =~= rest);
        assert(decoded(after) == decoded(rest));
        assert(decoded(full) == Ok::<Seq<Cell>, DecodeError>(seq![c] + rest_cells));
        assert(seq![c] + rest_cells =~= cells);
    }
}

// ---------------------------------------------------------------------------
// Random initial states
// ---------------------------------------------------------------------------

impl State {
    /// Generate a random initial state: each cell is drawn independently
    /// from the weighted choice (stationary / left / right / empty), and a
    /// chosen particle's weight is drawn from 1-99.  A category whose weight
    /// is zero is never chosen; when every weight is zero the row is all
    /// empty cells.
    #[verifier::loop_isolation(false)]
    pub fn random(
        length: usize,
        weight_stationary: u16,
        weight_left: u16,
        weight_right: u16,
        weight_empty: u16,
    ) -> (r: State)
        requires
            weight_stationary + weight_left + weight_right + weight_empty <= u16::MAX,
        ensures
            r@.len() == length,
            forall|i: int|
                0 <= i < length ==> match (#[trigger] r@[i]) {
                    Cell::Empty => true,
                    Cell::Stationary(w) => 1 <= w <= 99,
                    Cell::InMotion(Moving::Left(w)) => 1 <= w <= 99,
                    Cell::InMotion(Moving::Right(w)) => 1 <= w <= 99,
                },
            weight_stationary == 0 ==> forall|i: int|
                0 <= i < length ==> !(#[trigger] r@[i] matches Cell::Stationary(_)),
            weight_left == 0 ==> forall|i: int|
                0 <= i < length ==> !(#[trigger] r@[i] matches Cell::InMotion(Moving::Left(_))),
            weight_right == 0 ==> forall|i: int|
                0 <= i < length ==> !(#[trigger] r@[i] matches Cell::InMotion(Moving::Right(_))),
            weight_empty == 0 && weight_stationary + weight_left + weight_right > 0 ==> forall|
                i: int,
            |
                0 <= i < length ==> !((#[trigger] r@[i]) matches Cell::Empty),
            weight_stationary + weight_left + weight_right + weight_empty == 0 ==> forall|i: int|
                0 <= i < length ==> (#[trigger] r@[i]) matches Cell::Empty,
    {
        let total_weight = weight_stationary + weight_left + weight_right + weight_empty;
        let spec_stationary = weight_stationary;
        let spec_left = spec_stationary + weight_left;
        let spec_right = spec_left + weight_right;
        let mut cells: Vec<Cell> = Vec::new();
        let mut i: usize = 0;
        while i < length
            invariant
                i <= length,
                cells@.len() == i,
                valid_cells(cells@),
                forall|j: int|
                    0 <= j < i ==> match (#[trigger] cells@[j]) {
                        Cell::Empty => true,
                        Cell::Stationary(w) => 1 <= w <= 99,
                        Cell::InMotion(Moving::Left(w)) => 1 <= w <= 99,
                        Cell::InMotion(Moving::Right(w)) => 1 <= w <= 99,
                    },
                weight_stationary == 0 ==> forall|j: int|
                    0 <= j < i ==> !(#[trigger] cells@[j] matches Cell::Stationary(_)),
                weight_left == 0 ==> forall|j: int|
                    0 <= j < i ==> !(#[trigger] cells@[j] matches Cell::InMotion(Moving::Left(_))),
                weight_right == 0 ==> forall|j: int|
                    0 <= j < i ==> !(#[trigger] cells@[j] matches Cell::InMotion(
                        Moving::Right(_),
                    )),
                weight_empty == 0 && weight_stationary + weight_left + weight_right > 0 ==> forall|
                    j: int,
                |
                    0 <= j < i ==> !((#[trigger] cells@[j]) matches Cell::Empty),
                total_weight == 0 ==> forall|j: int|
                    0 <= j < i ==> (#[trigger] cells@[j]) matches Cell::Empty,
            decreases length - i,
        {
            // A draw below `total_weight` can only pick a category whose
            // weight is positive; a zero total means there is nothing to
            // draw from and the cell stays empty.
            let cell = if total_weight == 0 {
                Cell::Empty
            } else {
                let choice = random_u16_inclusive(0, total_weight - 1);
                if choice < spec_stationary {
                    Cell::Stationary(random_i8_range(1, 100))
                } else if choice < spec_left {
                    Cell::InMotion(Moving::Left(random_i8_range(1, 100)))
                } else if choice < spec_right {
                    Cell::InMotion(Moving::Right(random_i8_range(1, 100)))
                } else {
                    Cell::Empty
                }
            };
            cells.push(cell);
            i = i + 1;
        }
        State { cells }
    }
}

} // verus!
