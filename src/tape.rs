//! The tape: cells addressed from an origin and unbounded to the right,
//! stored in a vector that grows by doubling as the cursor reaches its end.
use vstd::prelude::*;

use crate::cell::{modulus, Cell};
use crate::config::EofBehavior;

verus! {

/// The number of cells a new tape stores before it first grows.
pub const INITIAL_CELLS: usize = 100;

/// What `,` stores in a cell that holds `prior`: the byte read, or what the
/// end-of-input policy prescribes.
pub open spec fn read_value(input: Option<u8>, eof: EofBehavior, prior: nat, width: nat) -> nat {
    match input {
        Some(b) => b as nat,
        None => match eof {
            EofBehavior::Zero => 0,
            EofBehavior::Neg1 => (modulus(width) - 1) as nat,
            EofBehavior::NoChange => prior,
        },
    }
}

/// A tape of cells and the cursor on it.
pub struct Tape<N: Cell> {
    cells: Vec<N>,
    pos: usize,
}

impl<N: Cell> Tape<N> {
    /// The cursor addresses a stored cell.
    pub closed spec fn wf(&self) -> bool {
        self.pos < self.cells.len()
    }

    /// The cursor's address.
    pub closed spec fn cursor(&self) -> nat {
        self.pos as nat
    }

    /// The value of the cell at address `i`; a cell never stored is zero.
    pub closed spec fn cell(&self, i: int) -> nat {
        if 0 <= i < self.cells.len() {
            self.cells[i].value()
        } else {
            0
        }
    }

    /// The value under the cursor.
    pub open spec fn current_value(&self) -> nat {
        self.cell(self.cursor() as int)
    }

    /// Every cell but the one at `i` holds the same value on both tapes.
    pub open spec fn agrees_except(&self, other: &Tape<N>, i: int) -> bool {
        forall|j: int| j != i ==> self.cell(j) == other.cell(j)
    }

    /// Every cell holds the same value on both tapes.
    pub open spec fn agrees(&self, other: &Tape<N>) -> bool {
        forall|j: int| self.cell(j) == other.cell(j)
    }

    /// An all-zero tape with the cursor at the origin.
    pub fn new() -> (r: Tape<N>)
        ensures
            r.wf(),
            r.cursor() == 0,
            forall|i: int| r.cell(i) == 0,
    {
        let mut cells: Vec<N> = Vec::new();
        while cells.len() < INITIAL_CELLS
            invariant
                cells.len() <= INITIAL_CELLS,
                forall|j: int| 0 <= j < cells.len() ==> (#[trigger] cells@[j]).value() == 0,
            decreases INITIAL_CELLS - cells.len(),
        {
            cells.push(N::zero());
        }
        Tape { cells, pos: 0 }
    }

    /// The cursor's address.
    pub fn position(&self) -> (r: usize)
        ensures
            r == self.cursor(),
    {
        self.pos
    }

    /// Stores more cells, all zero, so that the cursor may pass the last
    /// stored one.
    fn grow(&mut self)
        requires
            old(self).cells.len() < usize::MAX,
        ensures
            final(self).cells.len() > old(self).cells.len(),
            final(self).pos == old(self).pos,
            forall|i: int| final(self).cell(i) == old(self).cell(i),
    {
        let len = self.cells.len();
        let target: usize = if len <= usize::MAX / 2 {
            if len == 0 {
                1
            } else {
                len * 2
            }
        } else {
            usize::MAX
        };
        let ghost before = self.cells@;
        while self.cells.len() < target
            invariant
                len == before.len(),
                len < target,
                len <= self.cells.len() <= target,
                self.pos == old(self).pos,
                before == old(self).cells@,
                forall|j: int| 0 <= j < len ==> self.cells@[j] == before[j],
                forall|j: int|
                    len <= j < self.cells.len() ==> (#[trigger] self.cells@[j]).value() == 0,
            decreases target - self.cells.len(),
        {
            self.cells.push(N::zero());
        }
        assert forall|i: int| self.cell(i) == old(self).cell(i) by {
            if 0 <= i < len {
                assert(self.cells@[i] == before[i]);
            }
        }
    }

    /// Moves the cursor one cell to the right.
    pub fn move_right(&mut self)
        requires
            old(self).wf(),
            old(self).cursor() + 1 < usize::MAX,
        ensures
            final(self).wf(),
            final(self).cursor() == old(self).cursor() + 1,
            final(self).agrees(old(self)),
    {
        self.pos = self.pos + 1;
        if self.pos == self.cells.len() {
            self.grow();
        }
    }

    /// Moves the cursor one cell to the left.
    pub fn move_left(&mut self)
        requires
            old(self).wf(),
            old(self).cursor() > 0,
        ensures
            final(self).wf(),
            final(self).cursor() == old(self).cursor() - 1,
            final(self).agrees(old(self)),
    {
        self.pos = self.pos - 1;
    }

    /// The value under the cursor.
    pub fn current(&self) -> (r: N)
        requires
            self.wf(),
        ensures
            r.value() == self.current_value(),
    {
        self.cells[self.pos]
    }

    /// Stores `v` under the cursor.
    pub fn set_current(&mut self, v: N)
        requires
            old(self).wf(),
        ensures
            final(self).wf(),
            final(self).cursor() == old(self).cursor(),
            final(self).current_value() == v.value(),
            final(self).agrees_except(old(self), old(self).cursor() as int),
    {
        self.cells.set(self.pos, v);
    }

    /// Adds one to the cell under the cursor, wrapping.
    pub fn increase(&mut self)
        requires
            old(self).wf(),
        ensures
            final(self).wf(),
            final(self).cursor() == old(self).cursor(),
            final(self).current_value() as int == (old(self).current_value() as int + 1) % (modulus(
                N::width(),
            ) as int),
            final(self).agrees_except(old(self), old(self).cursor() as int),
    {
        let mut v = self.cells[self.pos];
        v.overflowing_inc_assign();
        self.set_current(v);
    }

    /// Subtracts one from the cell under the cursor, wrapping.
    pub fn decrease(&mut self)
        requires
            old(self).wf(),
        ensures
            final(self).wf(),
            final(self).cursor() == old(self).cursor(),
            final(self).current_value() as int == (old(self).current_value() as int - 1) % (modulus(
                N::width(),
            ) as int),
            final(self).agrees_except(old(self), old(self).cursor() as int),
    {
        let mut v = self.cells[self.pos];
        v.overflowing_dec_assign();
        self.set_current(v);
    }

    /// Stores the result of a read under the cursor: the byte read, or on
    /// end of input what the policy prescribes.
    pub fn read_and_set(&mut self, input: Option<u8>, eof: EofBehavior)
        requires
            old(self).wf(),
        ensures
            final(self).wf(),
            final(self).cursor() == old(self).cursor(),
            final(self).current_value() == read_value(
                input,
                eof,
                old(self).current_value(),
                N::width(),
            ),
            final(self).agrees_except(old(self), old(self).cursor() as int),
    {
        let v = match input {
            Some(b) => N::from_byte(b),
            None => match eof {
                EofBehavior::Zero => N::zero(),
                EofBehavior::Neg1 => {
                    let mut n = N::zero();
                    n.overflowing_dec_assign();
                    proof {
                        vstd::arithmetic::power2::lemma_pow2_pos(N::width());
                        crate::cell::lemma_wrap_dec(0, modulus(N::width()) as int);
                    }
                    n
                },
                EofBehavior::NoChange => self.cells[self.pos],
            },
        };
        self.set_current(v);
    }
}

} // verus!
