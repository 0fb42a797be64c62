//! The execution engine: a tree-walking interpreter over the instruction tree,
//! holding the tape, the cursor and the I/O adapter.
//!
//! Every run is proved to return exactly what the step-bounded semantics in
//! [`machine`] yields for the same budget: `Some(Ok(()))` when the semantics
//! halts normally, `Some(Err(_))` carrying the first fault, and `None` when
//! the budget is exhausted before the program halts.

pub mod ast;
pub mod io;
pub mod machine;
pub mod parser;
pub mod stack;

use vstd::prelude::*;

use crate::interpreter::ast::Instr;
use crate::interpreter::ast::tokens_model;
use crate::interpreter::ast::Token;
use crate::interpreter::io::IO;
use crate::interpreter::machine::MachineState;
use crate::interpreter::machine::RunOutcome;
use crate::interpreter::machine::run_instr;
use crate::interpreter::machine::run_instrs;
use crate::interpreter::parser::ParseResult;

verus! {

broadcast use crate::interpreter::ast::lemma_tokens_model_props;

/// Runtime error when running the interpreter.
#[derive(Debug, Clone, Copy, PartialEq, Eq)]
pub enum ProgramError {
    /// Attempted to move the cursor out of the buffer's bounds.
    OutOfBounds,
    /// An input operation yielded no value.
    IOError,
    /// Reserved for dialects in which some operation is illegal; the
    /// wraparound policy adopted here never produces it.
    IllegalOperation,
}

/// Number of cells in the interpreter's buffer.
pub const BUFFER_SIZE: usize = 30000;

/// The buffer used internally by the interpreter: a fixed-length run of
/// byte cells and a cursor into it.
pub struct ArrayBuffer {
    /// The data held in the buffer.
    pub data: Vec<u8>,
    /// The *current location* in the buffer.
    pub pointer: usize,
}

impl ArrayBuffer {
    /// Well-formedness: the buffer has its fixed length and the cursor is in bounds.
    pub open spec fn wf(&self) -> bool {
        &&& self.data@.len() == BUFFER_SIZE
        &&& self.pointer < BUFFER_SIZE
    }

    /// Creates a buffer with every cell set to 0 and the cursor at position 0.
    pub fn new() -> (r: Self)
        ensures
            r.wf(),
            r.pointer == 0,
            r.data@ =~= Seq::new(BUFFER_SIZE as nat, |k: int| 0u8),
    {
        let mut data: Vec<u8> = Vec::new();
        let mut j: usize = 0;
        while j < BUFFER_SIZE
            invariant
                j <= BUFFER_SIZE,
                data@.len() == j,
                forall|k: int| 0 <= k < j ==> data@[k] == 0u8,
            decreases BUFFER_SIZE - j,
        {
            data.push(0);
            j += 1;
        }
        ArrayBuffer { data, pointer: 0 }
    }

    /// Returns the value of the cursor.
    pub fn pointer(&self) -> (r: usize)
        ensures
            r == self.pointer,
    {
        self.pointer
    }

    /// Returns the value currently pointed at in the buffer.
    pub fn get(&self) -> (r: u8)
        requires
            self.wf(),
        ensures
            r == self.data@[self.pointer as int],
    {
        self.data[self.pointer]
    }

    /// Sets the position currently pointed at in the buffer to hold `value`.
    pub fn set(&mut self, value: u8)
        requires
            old(self).wf(),
        ensures
            final(self).wf(),
            final(self).pointer == old(self).pointer,
            final(self).data@ == old(self).data@.update(old(self).pointer as int, value),
    {
        self.data[self.pointer] = value;
    }

    /// Increments by 1 the value currently pointed at, wrapping 255 to 0.
    pub fn inc(&mut self)
        requires
            old(self).wf(),
        ensures
            final(self).wf(),
            final(self).pointer == old(self).pointer,
            final(self).data@ == old(self).data@.update(
                old(self).pointer as int,
                (((old(self).data@[old(self).pointer as int] as int) + 1) % 256) as u8,
            ),
    {
        let v = self.data[self.pointer];
        self.data[self.pointer] = v.wrapping_add(1);
    }

    /// Decrements by 1 the value currently pointed at, wrapping 0 to 255.
    pub fn dec(&mut self)
        requires
            old(self).wf(),
        ensures
            final(self).wf(),
            final(self).pointer == old(self).pointer,
            final(self).data@ == old(self).data@.update(
                old(self).pointer as int,
                (((old(self).data@[old(self).pointer as int] as int) + 255) % 256) as u8,
            ),
    {
        let v = self.data[self.pointer];
        self.data[self.pointer] = v.wrapping_sub(1);
    }

    /// Moves the cursor one position to the left.
    pub fn pointer_left(&mut self)
        requires
            old(self).wf(),
            old(self).pointer >= 1,
        ensures
            final(self).wf(),
            final(self).data@ == old(self).data@,
            final(self).pointer == old(self).pointer - 1,
    {
        self.pointer = self.pointer - 1;
    }

    /// Moves the cursor one position to the right.
    pub fn pointer_right(&mut self)
        requires
            old(self).wf(),
            old(self).pointer + 1 < BUFFER_SIZE,
        ensures
            final(self).wf(),
            final(self).data@ == old(self).data@,
            final(self).pointer == old(self).pointer + 1,
    {
        self.pointer = self.pointer + 1;
    }
}

/// An interpreting engine that consumes parsed instruction trees and simulates
/// them against its own tape and I/O adapter.
pub struct Interpreter {
    /// The tape and cursor used by the interpreter.
    data: ArrayBuffer,
    /// The adapter that abstracts I/O operations away from the engine.
    io: IO,
}

impl View for Interpreter {
    type V = MachineState;

    closed spec fn view(&self) -> MachineState {
        MachineState {
            tape: self.data.data@,
            cursor: self.data.pointer as int,
            input: self.io.input@,
            output: self.io.output@,
        }
    }
}

impl Interpreter {
    /// Creates an interpreter with a zeroed buffer and an adapter with no
    /// input available.
    pub fn new() -> (r: Self)
        ensures
            r@.wf(),
            r@ == (MachineState {
                tape: Seq::new(BUFFER_SIZE as nat, |k: int| 0u8),
                cursor: 0,
                input: Seq::<u8>::empty(),
                output: Seq::<u8>::empty(),
            }),
    {
        Interpreter { data: ArrayBuffer::new(), io: IO::new() }
    }

    /// Creates an interpreter with a zeroed buffer driving the given adapter.
    pub fn with_io(io: IO) -> (r: Self)
        ensures
            r@.wf(),
            r@ == (MachineState {
                tape: Seq::new(BUFFER_SIZE as nat, |k: int| 0u8),
                cursor: 0,
                input: io.input@,
                output: io.output@,
            }),
    {
        Interpreter { data: ArrayBuffer::new(), io }
    }

    /// Borrows the I/O adapter, exposing the input not yet consumed and the
    /// output recorded so far.
    pub fn io(&self) -> (r: &IO)
        ensures
            r.input@ == self@.input,
            r.output@ == self@.output,
    {
        &self.io
    }

    /// Returns the value of the cell at the cursor.
    pub fn current_cell(&self) -> (r: u8)
        requires
            self@.wf(),
        ensures
            r == self@.cell(),
    {
        self.data.get()
    }

    /// Returns the position of the cursor.
    pub fn cursor(&self) -> (r: usize)
        ensures
            r == self@.cursor,
    {
        self.data.pointer()
    }

    /// Processes one token under the given loop budget.
    #[verifier::loop_isolation(false)]
    fn process_token(&mut self, token: &Token, fuel: u64) -> (r: Option<
        Result<(), ProgramError>,
    >)
        requires
            old(self)@.wf(),
        ensures
            final(self)@.wf(),
            match r {
                Some(Ok(())) => run_instr(token.model(), old(self)@, fuel as nat)
                    == RunOutcome::Done(final(self)@),
                Some(Err(e)) => run_instr(token.model(), old(self)@, fuel as nat)
                    == RunOutcome::Fault(e, final(self)@),
                None => run_instr(token.model(), old(self)@, fuel as nat)
                    == RunOutcome::Hung,
            },
        decreases fuel, *token,
    {
        match token {
            Token::Inc => {
                self.data.inc();
                Some(Ok(()))
            },
            Token::Dec => {
                self.data.dec();
                Some(Ok(()))
            },
            Token::MoveLeft => {
                if self.data.pointer() == 0 {
                    return Some(Err(ProgramError::OutOfBounds));
                }
                self.data.pointer_left();
                Some(Ok(()))
            },
            Token::MoveRight => {
                if self.data.pointer() == BUFFER_SIZE - 1 {
                    return Some(Err(ProgramError::OutOfBounds));
                }
                self.data.pointer_right();
                Some(Ok(()))
            },
            Token::Print => {
                let value = self.data.get();
                self.io.print(value);
                Some(Ok(()))
            },
            Token::Read => {
                match self.io.read() {
                    None => Some(Err(ProgramError::IOError)),
                    Some(value) => {
                        self.data.set(value);
                        Some(Ok(()))
                    },
                }
            },
            Token::Loop(body) => self.run_loop(body, fuel),
        }
    }

    /// Runs a loop body repeatedly while the pointed-at cell is non-zero,
    /// spending one unit of budget per iteration.
    #[verifier::loop_isolation(false)]
    fn run_loop(&mut self, body: &Vec<Token>, fuel: u64) -> (r: Option<Result<(), ProgramError>>)
        requires
            old(self)@.wf(),
        ensures
            final(self)@.wf(),
            match r {
                Some(Ok(())) => run_instr(Instr::Loop(tokens_model(body@)), old(self)@, fuel as nat)
                    == RunOutcome::Done(final(self)@),
                Some(Err(e)) => run_instr(Instr::Loop(tokens_model(body@)), old(self)@, fuel as nat)
                    == RunOutcome::Fault(e, final(self)@),
                None => run_instr(Instr::Loop(tokens_model(body@)), old(self)@, fuel as nat)
                    == RunOutcome::Hung,
            },
        decreases fuel, *body,
    {
        if self.data.get() == 0 {
            return Some(Ok(()));
        }
        if fuel == 0 {
            return None;
        }
        let f2 = fuel - 1;
        let ghost s_entry = self@;
        let ghost bv = tokens_model(body@);
        proof {
            assert(bv.skip(0) =~= bv);
        }
        let mut j: usize = 0;
        while j < body.len()
            invariant
                j <= body@.len(),
                bv.len() == body@.len(),
                self@.wf(),
                run_instrs(bv.skip(j as int), self@, f2 as nat) == run_instrs(
                    bv,
                    s_entry,
                    f2 as nat,
                ),
            decreases body@.len() - j,
        {
            proof {
                assert(bv.skip(j as int).len() > 0);
                assert(bv.skip(j as int)[0] == body[j as int].model());
                assert(bv.skip(j as int).drop_first() =~= bv.skip(j as int + 1));
            }
            match self.process_token(&body[j], f2) {
                Some(Ok(())) => {},
                Some(Err(e)) => {
                    return Some(Err(e));
                },
                None => {
                    return None;
                },
            }
            j += 1;
        }
        proof {
            assert(bv.skip(j as int) =~= Seq::<Instr>::empty());
        }
        self.run_loop(body, f2)
    }

    /// Consumes the input tokens and runs the corresponding program, spending
    /// at most `steps` iterations on each loop it enters.
    ///
    /// Returns `Some(Ok(()))` when the program halts normally, `Some(Err(_))`
    /// carrying the first fault encountered, and `None` when some loop was
    /// still running after `steps` iterations; in the last case a fresh
    /// interpreter with a larger budget reproduces the run and may complete
    /// it ([`machine::lemma_budget_monotonic`] shows a larger budget never
    /// changes a determined outcome).
    #[verifier::loop_isolation(false)]
    pub fn run(&mut self, tokens: ParseResult, steps: u64) -> (r: Option<
        Result<(), ProgramError>,
    >)
        requires
            old(self)@.wf(),
        ensures
            final(self)@.wf(),
            match r {
                Some(Ok(())) => run_instrs(tokens_model(tokens@), old(self)@, steps as nat)
                    == RunOutcome::Done(final(self)@),
                Some(Err(e)) => run_instrs(tokens_model(tokens@), old(self)@, steps as nat)
                    == RunOutcome::Fault(e, final(self)@),
                None => run_instrs(tokens_model(tokens@), old(self)@, steps as nat)
                    == RunOutcome::Hung,
            },
    {
        let ghost prog = tokens_model(tokens@);
        let ghost s_entry = self@;
        proof {
            assert(prog.skip(0) =~= prog);
        }
        let mut i: usize = 0;
        while i < tokens.len()
            invariant
                i <= tokens@.len(),
                prog.len() == tokens@.len(),
                self@.wf(),
                run_instrs(prog.skip(i as int), self@, steps as nat) == run_instrs(
                    prog,
                    s_entry,
                    steps as nat,
                ),
            decreases tokens@.len() - i,
        {
            proof {
                assert(prog.skip(i as int).len() > 0);
                assert(prog.skip(i as int)[0] == tokens[i as int].model());
                assert(prog.skip(i as int).drop_first() =~= prog.skip(i as int + 1));
            }
            match self.process_token(&tokens[i], steps) {
                Some(Ok(())) => {},
                Some(Err(e)) => {
                    return Some(Err(e));
                },
                None => {
                    return None;
                },
            }
            i += 1;
        }
        proof {
            assert(prog.skip(i as int) =~= Seq::<Instr>::empty());
        }
        Some(Ok(()))
    }
}

} // verus!
