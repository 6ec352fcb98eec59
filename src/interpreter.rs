//! The execution engine: an instruction cursor over the program and a tape.
//! Each call of `step` runs one instruction and says what the caller has to
//! do next; reading and writing bytes is left to the caller, which hands a
//! read back through `provide_input`.
use vstd::prelude::*;
use vstd::string::{StrSliceExecFns, StringSliceAdditionalSpecFns};

use crate::cell::{modulus, output_unit, Cell};
use crate::config::EofBehavior;
use crate::error::Error;
use crate::program::{
    balanced, check_brackets, find_paired_left_bracket, find_paired_right_bracket, is_pair, CLOSE,
    COMMA, DOT, LEFT, MINUS, OPEN, PLUS, RIGHT,
};
use crate::tape::{read_value, Tape};

verus! {

/// What the caller of `Runner::step` has to do next.
pub enum Action {
    /// Nothing: step again.
    Continue,
    /// Read one byte and hand it, or the end of input, to
    /// `Runner::provide_input`.
    Input,
    /// Write these bytes, flush, and step again.
    Output(Vec<u8>),
    /// The program has ended.
    Halt,
}

/// One run of a program over a tape of `N` cells.
pub struct Runner<N: Cell> {
    program: Vec<u8>,
    ip: usize,
    tape: Tape<N>,
    eof: EofBehavior,
}

impl<N: Cell> Runner<N> {
    /// The program's bytes; those outside the alphabet are skipped.
    pub closed spec fn program(&self) -> Seq<u8> {
        self.program@
    }

    /// The instruction cursor.
    pub closed spec fn ip(&self) -> nat {
        self.ip as nat
    }

    /// The tape.
    pub closed spec fn tape(&self) -> Tape<N> {
        self.tape
    }

    /// The end-of-input policy.
    pub closed spec fn eof(&self) -> EofBehavior {
        self.eof
    }

    /// The program is balanced, the instruction cursor lies within it or
    /// just past its end, and the tape is well formed.
    pub open spec fn wf(&self) -> bool {
        &&& balanced(self.program())
        &&& self.ip() <= self.program().len()
        &&& self.tape().wf()
    }

    /// The instruction under the cursor is a `,`.
    pub open spec fn awaits_input(&self) -> bool {
        self.ip() < self.program().len() && self.program()[self.ip() as int] == COMMA
    }

    /// What one `step` does, from `before` to `after`, returning `r`.
    pub open spec fn step_spec(before: Runner<N>, after: Runner<N>, r: Result<Action, Error>) -> bool {
        let p = before.program();
        let ip = before.ip() as int;
        let t = before.tape();
        let nt = after.tape();
        let v = t.current_value();
        let s = p[ip];
        if ip >= p.len() {
            r is Ok && r->Ok_0 is Halt && after == before
        } else if s == COMMA {
            r is Ok && r->Ok_0 is Input && after == before
        } else if s == LEFT && t.cursor() == 0 {
            r == Err::<Action, Error>(Error::CursorBeforeOrigin) && after == before
        } else if s == RIGHT && t.cursor() + 1 >= usize::MAX {
            r == Err::<Action, Error>(Error::TapeExhausted) && after == before
        } else if s == DOT && output_unit(N::width(), v) is Err {
            r == Err::<Action, Error>(output_unit(N::width(), v)->Err_0) && after == before
        } else {
            &&& after.program() == p
            &&& after.eof() == before.eof()
            &&& if s == DOT {
                r matches Ok(Action::Output(b)) && output_unit(N::width(), v) == Ok::<
                    Seq<u8>,
                    Error,
                >(b@)
            } else {
                r is Ok && r->Ok_0 is Continue
            }
            &&& if s == OPEN && v == 0 {
                is_pair(p, ip, after.ip() - 1)
            } else if s == CLOSE && v != 0 {
                is_pair(p, after.ip() - 1, ip)
            } else {
                after.ip() == ip + 1
            }
            &&& if s == LEFT {
                nt.cursor() == t.cursor() - 1 && nt.agrees(&t)
            } else if s == RIGHT {
                nt.cursor() == t.cursor() + 1 && nt.agrees(&t)
            } else if s == PLUS {
                &&& nt.cursor() == t.cursor()
                &&& nt.current_value() as int == (v as int + 1) % (modulus(N::width()) as int)
                &&& nt.agrees_except(&t, t.cursor() as int)
            } else if s == MINUS {
                &&& nt.cursor() == t.cursor()
                &&& nt.current_value() as int == (v as int - 1) % (modulus(N::width()) as int)
                &&& nt.agrees_except(&t, t.cursor() as int)
            } else {
                nt.cursor() == t.cursor() && nt.agrees(&t)
            }
        }
    }

    /// A run of `src` on an all-zero tape, or `UnpairedBrackets` when its
    /// brackets are not balanced.
    pub fn new(src: &str, eof: EofBehavior) -> (r: Result<Runner<N>, Error>)
        ensures
            r is Ok <==> balanced(src.spec_bytes()),
            r matches Err(e) ==> e == Error::UnpairedBrackets,
            r matches Ok(m) ==> {
                &&& m.wf()
                &&& m.program() == src.spec_bytes()
                &&& m.ip() == 0
                &&& m.eof() == eof
                &&& m.tape().cursor() == 0
                &&& forall|i: int| m.tape().cell(i) == 0
            },
    {
        if !check_brackets(src) {
            return Err(Error::UnpairedBrackets);
        }
        let program = src.as_bytes_vec();
        Ok(Runner { program, ip: 0, tape: Tape::new(), eof })
    }

    /// The tape.
    pub fn tape_ref(&self) -> (r: &Tape<N>)
        ensures
            *r == self.tape(),
    {
        &self.tape
    }

    /// The instruction cursor.
    pub fn position(&self) -> (r: usize)
        ensures
            r == self.ip(),
    {
        self.ip
    }

    /// Runs the instruction under the cursor and moves the cursor on, or,
    /// at a `,`, asks for input and waits for `provide_input`.
    pub fn step(&mut self) -> (r: Result<Action, Error>)
        requires
            old(self).wf(),
        ensures
            final(self).wf(),
            Self::step_spec(*old(self), *final(self), r),
    {
        if self.ip >= self.program.len() {
            return Ok(Action::Halt);
        }
        let s = self.program[self.ip];
        if s == COMMA {
            return Ok(Action::Input);
        }
        if s == LEFT {
            if self.tape.position() == 0 {
                return Err(Error::CursorBeforeOrigin);
            }
            self.tape.move_left();
        } else if s == RIGHT {
            if self.tape.position() >= usize::MAX - 1 {
                return Err(Error::TapeExhausted);
            }
            self.tape.move_right();
        } else if s == PLUS {
            self.tape.increase();
        } else if s == MINUS {
            self.tape.decrease();
        } else if s == DOT {
            let out = self.tape.current().print_bytes();
            match out {
                Ok(b) => {
                    self.ip = self.ip + 1;
                    return Ok(Action::Output(b));
                },
                Err(e) => {
                    return Err(e);
                },
            }
        } else if s == OPEN {
            if self.tape.current().is_zero() {
                self.ip = find_paired_right_bracket(self.program.as_slice(), self.ip);
            }
        } else if s == CLOSE {
            if !self.tape.current().is_zero() {
                self.ip = find_paired_left_bracket(self.program.as_slice(), self.ip);
            }
        }
        self.ip = self.ip + 1;
        Ok(Action::Continue)
    }

    /// Hands the result of a read to a run that waits at a `,`: the byte
    /// read, or `None` at the end of input. The cell under the tape cursor
    /// takes the byte, or what the end-of-input policy prescribes, and the
    /// instruction cursor moves on. A run that is not at a `,` is left as
    /// it is.
    pub fn provide_input(&mut self, input: Option<u8>)
        requires
            old(self).wf(),
        ensures
            final(self).wf(),
            old(self).awaits_input() ==> {
                &&& final(self).program() == old(self).program()
                &&& final(self).eof() == old(self).eof()
                &&& final(self).ip() == old(self).ip() + 1
                &&& final(self).tape().cursor() == old(self).tape().cursor()
                &&& final(self).tape().current_value() == read_value(
                    input,
                    old(self).eof(),
                    old(self).tape().current_value(),
                    N::width(),
                )
                &&& final(self).tape().agrees_except(
                    &old(self).tape(),
                    old(self).tape().cursor() as int,
                )
            },
            !old(self).awaits_input() ==> *final(self) == *old(self),
    {
        if self.ip < self.program.len() && self.program[self.ip] == COMMA {
            self.tape.read_and_set(input, self.eof);
            self.ip = self.ip + 1;
        }
    }
}

} // verus!
