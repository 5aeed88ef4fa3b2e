//! An elementary cellular automaton driven by a Wolfram code: each of the
//! eight (left, middle, right) neighbourhoods maps to the corresponding bit
//! of an eight-bit rule number, and the row wraps around at its ends.

use vstd::prelude::*;

verus! {

use crate::text::char_is_whitespace;
use crate::text::push_char;
use crate::text::unicode_whitespace;

/// Whether bit `i` of the rule code is set.
pub open spec fn code_bit(code: u8, i: u8) -> bool {
    ((code >> i) & 1) == 1
}

/// The lookup index for a (left, middle, right) neighbourhood: left is the
/// high bit.
pub open spec fn merge_index(left: bool, middle: bool, right: bool) -> int {
    (if left {
        4int
    } else {
        0int
    }) + (if middle {
        2int
    } else {
        0int
    }) + (if right {
        1int
    } else {
        0int
    })
}

/// An elementary automaton rule: one output bit per three-cell
/// neighbourhood.
#[derive(Debug)]
pub struct Wolfram {
    lookup: Vec<bool>,
}

impl View for Wolfram {
    type V = Seq<bool>;

    closed spec fn view(&self) -> Seq<bool> {
        self.lookup@
    }
}

impl Wolfram {
    /// The lookup table always covers the eight neighbourhoods.
    #[verifier::type_invariant]
    spec fn wf(self) -> bool {
        self.lookup@.len() == 8
    }

    /// Build the rule from its standard eight-bit code: entry `i` of the
    /// table is bit `i` of the code.
    #[verifier::loop_isolation(false)]
    pub fn from_code(code: u8) -> (r: Wolfram)
        ensures
            r@.len() == 8,
            forall|i: int| 0 <= i < 8 ==> r@[i] == code_bit(code, i as u8),
    {
        let mut lookup: Vec<bool> = Vec::new();
        let mut i: u8 = 0;
        while i < 8
            invariant
                i <= 8,
                lookup@.len() == i as int,
                forall|j: int| 0 <= j < i as int ==> lookup@[j] == code_bit(code, j as u8),
            decreases 8 - i,
        {
            let is_set = code & (1u8 << i);
            proof {
                assert(((code & (1u8 << i)) != 0) == (((code >> i) & 1) == 1)) by (bit_vector)
                    requires
                        i < 8,
                ;
            }
            lookup.push(is_set != 0);
            i = i + 1;
        }
        Wolfram { lookup }
    }

    /// Look up the successor bit for one neighbourhood.
    pub fn merge(&self, left: &bool, middle: &bool, right: &bool) -> (r: bool)
        ensures
            r == self@[merge_index(*left, *middle, *right)],
    {
        proof {
            use_type_invariant(self);
        }
        let l_mask: usize = if *left {
            4
        } else {
            0
        };
        let m_mask: usize = if *middle {
            2
        } else {
            0
        };
        let r_mask: usize = if *right {
            1
        } else {
            0
        };
        self.lookup[l_mask + m_mask + r_mask]
    }
}

/// A row of cells, each on or off, with wrap-around neighbours.  A row is
/// always at least three cells wide; shorter input is padded with off cells.
pub struct State {
    cells: Vec<bool>,
}

impl View for State {
    type V = Seq<bool>;

    closed spec fn view(&self) -> Seq<bool> {
        self.cells@
    }
}

/// The padded row a construction yields: the given cells, extended with
/// `false` up to a minimum width of three.
pub open spec fn padded(cells: Seq<bool>) -> Seq<bool> {
    if cells.len() >= 3 {
        cells
    } else {
        cells + Seq::new((3 - cells.len()) as nat, |i: int| false)
    }
}

impl State {
    /// A row never has fewer than three cells.
    #[verifier::type_invariant]
    spec fn wf(self) -> bool {
        self.cells@.len() >= 3
    }

    /// Build a row from the given cells, padding with off cells up to the
    /// minimum width of three.
    #[verifier::loop_isolation(false)]
    pub fn new(cells: &[bool]) -> (r: State)
        ensures
            r@ == padded(cells@),
    {
        let n = cells.len();
        let mut v: Vec<bool> = Vec::new();
        let mut i: usize = 0;
        while i < n
            invariant
                i <= n,
                n == cells@.len(),
                v@ == cells@.subrange(0, i as int),
            decreases n - i,
        {
            v.push(*vstd::slice::slice_index_get(cells, i));
            i = i + 1;
            proof {
                assert(v@ =~= cells@.subrange(0, i as int));
            }
        }
        proof {
            assert(v@ =~= cells@);
        }
        while v.len() < 3
            invariant
                v@.len() >= cells@.len(),
                v@.subrange(0, cells@.len() as int) =~= cells@,
                cells@.len() < 3 ==> v@.len() <= 3,
                cells@.len() >= 3 ==> v@.len() == cells@.len(),
                forall|j: int| cells@.len() <= j < v@.len() ==> v@[j] == false,
            decreases 3 - v@.len(),
        {
            v.push(false);
        }
        proof {
            assert(v@ =~= padded(cells@));
        }
        State { cells: v }
    }

    /// Build a row from text: whitespace is off, anything else is on.
    #[verifier::loop_isolation(false)]
    pub fn from_string(raw: &str) -> (r: State)
        ensures
            r@ == padded(Seq::new(raw@.len(), |i: int| !unicode_whitespace(raw@[i]))),
    {
        let n = raw.unicode_len();
        let mut bits: Vec<bool> = Vec::new();
        let mut i: usize = 0;
        while i < n
            invariant
                i <= n,
                n == raw@.len(),
                bits@.len() == i as int,
                forall|j: int| 0 <= j < i as int ==> bits@[j] == !unicode_whitespace(raw@[j]),
            decreases n - i,
        {
            bits.push(!char_is_whitespace(raw.get_char(i)));
            i = i + 1;
        }
        let st = State::new(bits.as_slice());
        proof {
            assert(bits@ =~= Seq::new(raw@.len(), |i: int| !unicode_whitespace(raw@[i])));
        }
        st
    }

    /// Advance one generation: every cell is replaced by the rule's output
    /// for its (left, self, right) neighbourhood, wrapping at the ends.
    #[verifier::loop_isolation(false)]
    pub fn next(&self, rule: &Wolfram) -> (r: State)
        ensures
            r@.len() == self@.len(),
            forall|i: int|
                0 <= i < self@.len() ==> r@[i] == rule@[merge_index(
                    self@[if i == 0 {
                        self@.len() - 1
                    } else {
                        i - 1
                    }],
                    self@[i],
                    self@[if i == self@.len() - 1 {
                        0int
                    } else {
                        i + 1
                    }],
                )],
    {
        proof {
            use_type_invariant(self);
        }
        let n = self.cells.len();
        let mut out: Vec<bool> = Vec::new();
        let mut i: usize = 0;
        while i < n
            invariant
                i <= n,
                n == self@.len(),
                out@.len() == i as int,
                forall|k: int|
                    0 <= k < i as int ==> out@[k] == rule@[merge_index(
                        self@[if k == 0 {
                            self@.len() - 1
                        } else {
                            k - 1
                        }],
                        self@[k],
                        self@[if k == self@.len() - 1 {
                            0int
                        } else {
                            k + 1
                        }],
                    )],
            decreases n - i,
        {
            let prev = if i == 0 {
                self.cells[n - 1]
            } else {
                self.cells[i - 1]
            };
            let next = if i == n - 1 {
                self.cells[0]
            } else {
                self.cells[i + 1]
            };
            out.push(rule.merge(&prev, &self.cells[i], &next));
            i = i + 1;
        }
        State { cells: out }
    }

    /// The textual display: `X` for an on cell, a space for an off cell.
    #[verifier::loop_isolation(false)]
    pub fn render(&self) -> (r: String)
        ensures
            r@ == Seq::new(self@.len(), |i: int| if self@[i] { 'X' } else { ' ' }),
    {
        let mut out = String::new();
        let mut i: usize = 0;
        while i < self.cells.len()
            invariant
                i <= self@.len(),
                out@.len() == i as int,
                forall|j: int| 0 <= j < i as int ==> out@[j] == (if self@[j] { 'X' } else { ' ' }),
            decreases self@.len() - i,
        {
            push_char(&mut out, if self.cells[i] { 'X' } else { ' ' });
            i = i + 1;
        }
        proof {
            assert(out@ =~= Seq::new(self@.len(), |i: int| if self@[i] { 'X' } else { ' ' }));
        }
        out
    }
}

} // verus!
