//! The mathematical semantics of a run: an abstract machine state and a
//! step-bounded, deterministic big-step evaluator over instruction trees.
//!
//! Executable code in [`crate::interpreter`] is proved to return exactly what
//! [`run_instrs`] says for the same step budget. A budget is consumed one unit
//! per loop iteration; a program whose loops finish within the budget gets the
//! same outcome under every larger budget ([`lemma_budget_monotonic`]).

use vstd::prelude::*;

use crate::interpreter::ast::Instr;
use crate::interpreter::BUFFER_SIZE;
use crate::interpreter::ProgramError;

verus! {

/// The abstract state of one interpreter run: the tape and cursor, the input
/// bytes not yet consumed, and the output bytes emitted so far.
pub struct MachineState {
    pub tape: Seq<u8>,
    pub cursor: int,
    pub input: Seq<u8>,
    pub output: Seq<u8>,
}

impl MachineState {
    /// Well-formedness: the tape has its fixed length and the cursor is within bounds.
    pub open spec fn wf(self) -> bool {
        &&& self.tape.len() == BUFFER_SIZE
        &&& 0 <= self.cursor < BUFFER_SIZE
    }

    /// The value of the cell at the cursor.
    pub open spec fn cell(self) -> u8 {
        self.tape[self.cursor]
    }
}

/// The outcome of evaluating instructions under a step budget: the machine
/// halted normally, halted on the first fault (carrying the state at the
/// fault), or did not halt within the budget.
pub enum RunOutcome {
    Done(MachineState),
    Fault(ProgramError, MachineState),
    Hung,
}

/// Evaluates a single instruction from state `s` under `fuel` loop-iteration
/// budget per loop.
///
/// A loop whose cell is non-zero spends one unit of budget per iteration; its
/// body is evaluated under the remaining budget. Every other instruction is a
/// single step that costs nothing.
pub open spec fn run_instr(i: Instr, s: MachineState, fuel: nat) -> RunOutcome
    decreases fuel, i,
{
    match i {
        Instr::Inc => RunOutcome::Done(
            MachineState {
                tape: s.tape.update(s.cursor, (((s.cell() as int) + 1) % 256) as u8),
                ..s
            },
        ),
        Instr::Dec => RunOutcome::Done(
            MachineState {
                tape: s.tape.update(s.cursor, (((s.cell() as int) + 255) % 256) as u8),
                ..s
            },
        ),
        Instr::MoveRight => if s.cursor == BUFFER_SIZE - 1 {
            RunOutcome::Fault(ProgramError::OutOfBounds, s)
        } else {
            RunOutcome::Done(MachineState { cursor: s.cursor + 1, ..s })
        },
        Instr::MoveLeft => if s.cursor == 0 {
            RunOutcome::Fault(ProgramError::OutOfBounds, s)
        } else {
            RunOutcome::Done(MachineState { cursor: s.cursor - 1, ..s })
        },
        Instr::Print => RunOutcome::Done(MachineState { output: s.output.push(s.cell()), ..s }),
        Instr::Read => if s.input.len() == 0 {
            RunOutcome::Fault(ProgramError::IOError, s)
        } else {
            RunOutcome::Done(
                MachineState {
                    tape: s.tape.update(s.cursor, s.input[0]),
                    input: s.input.drop_first(),
                    ..s
                },
            )
        },
        Instr::Loop(body) => if s.cell() == 0 {
            RunOutcome::Done(s)
        } else if fuel == 0 {
            RunOutcome::Hung
        } else {
            match run_instrs(body, s, (fuel - 1) as nat) {
                RunOutcome::Done(s2) => run_instr(i, s2, (fuel - 1) as nat),
                RunOutcome::Fault(e, sf) => RunOutcome::Fault(e, sf),
                RunOutcome::Hung => RunOutcome::Hung,
            }
        },
    }
}

/// Evaluates an instruction sequence left to right from state `s`; the first
/// fault short-circuits the remaining instructions.
pub open spec fn run_instrs(p: Seq<Instr>, s: MachineState, fuel: nat) -> RunOutcome
    decreases fuel, p,
{
    if p.len() == 0 {
        RunOutcome::Done(s)
    } else {
        match run_instr(p[0], s, fuel) {
            RunOutcome::Done(s2) => run_instrs(p.drop_first(), s2, fuel),
            RunOutcome::Fault(e, sf) => RunOutcome::Fault(e, sf),
            RunOutcome::Hung => RunOutcome::Hung,
        }
    }
}

/// Evaluation preserves well-formedness of the machine state, both on normal
/// halt and at a fault.
pub proof fn lemma_run_instr_wf(i: Instr, s: MachineState, fuel: nat)
    requires
        s.wf(),
    ensures
        run_instr(i, s, fuel) matches RunOutcome::Done(s2) ==> s2.wf(),
        run_instr(i, s, fuel) matches RunOutcome::Fault(e, sf) ==> sf.wf(),
    decreases fuel, i,
{
    match i {
        Instr::Loop(body) => {
            if s.cell() != 0 && fuel > 0 {
                lemma_run_instrs_wf(body, s, (fuel - 1) as nat);
                match run_instrs(body, s, (fuel - 1) as nat) {
                    RunOutcome::Done(s2) => {
                        lemma_run_instr_wf(i, s2, (fuel - 1) as nat);
                    },
                    _ => {},
                }
            }
        },
        _ => {},
    }
}

/// Evaluation of a sequence preserves well-formedness of the machine state.
pub proof fn lemma_run_instrs_wf(p: Seq<Instr>, s: MachineState, fuel: nat)
    requires
        s.wf(),
    ensures
        run_instrs(p, s, fuel) matches RunOutcome::Done(s2) ==> s2.wf(),
        run_instrs(p, s, fuel) matches RunOutcome::Fault(e, sf) ==> sf.wf(),
    decreases fuel, p,
{
    if p.len() > 0 {
        lemma_run_instr_wf(p[0], s, fuel);
        match run_instr(p[0], s, fuel) {
            RunOutcome::Done(s2) => {
                lemma_run_instrs_wf(p.drop_first(), s2, fuel);
            },
            _ => {},
        }
    }
}

/// A sequence of `n` copies of one instruction.
pub open spec fn repeated(i: Instr, n: nat) -> Seq<Instr> {
    Seq::new(n, |k: int| i)
}

/// Moving the cursor left from index 0, or right from the last index, always
/// yields `OutOfBounds` and leaves the machine state unchanged: the cursor is
/// neither clamped nor wrapped.
pub proof fn lemma_cursor_edges_fault(s: MachineState, fuel: nat)
    requires
        s.wf(),
    ensures
        s.cursor == 0 ==> run_instr(Instr::MoveLeft, s, fuel) == RunOutcome::Fault(
            ProgramError::OutOfBounds,
            s,
        ),
        s.cursor == BUFFER_SIZE - 1 ==> run_instr(Instr::MoveRight, s, fuel) == RunOutcome::Fault(
            ProgramError::OutOfBounds,
            s,
        ),
{
}

/// Running `n` increments adds `n` to the cell at the cursor modulo 256 and
/// changes nothing else.
pub proof fn lemma_inc_repeated(s: MachineState, n: nat, fuel: nat)
    requires
        s.wf(),
    ensures
        run_instrs(repeated(Instr::Inc, n), s, fuel) == RunOutcome::Done(
            MachineState {
                tape: s.tape.update(s.cursor, (((s.cell() as int) + n) % 256) as u8),
                ..s
            },
        ),
    decreases n,
{
    let c = s.cell() as int;
    if n == 0 {
        assert((c + 0) % 256 == c);
        assert(s.tape.update(s.cursor, s.cell()) =~= s.tape);
    } else {
        let s1 = MachineState { tape: s.tape.update(s.cursor, ((c + 1) % 256) as u8), ..s };
        assert(run_instr(Instr::Inc, s, fuel) == RunOutcome::Done(s1));
        assert(repeated(Instr::Inc, n).drop_first() =~= repeated(Instr::Inc, (n - 1) as nat));
        lemma_inc_repeated(s1, (n - 1) as nat, fuel);
        let c1 = s1.cell() as int;
        assert(c1 == (c + 1) % 256);
        vstd::arithmetic::div_mod::lemma_add_mod_noop_right(n - 1, c + 1, 256);
        assert((c1 + (n - 1)) % 256 == (c + n) % 256) by {
            assert((n - 1 + (c + 1) % 256) % 256 == (n - 1 + (c + 1)) % 256);
        }
        assert(s1.tape.update(s.cursor, ((c1 + (n - 1)) % 256) as u8) =~= s.tape.update(
            s.cursor,
            (((s.cell() as int) + n) % 256) as u8,
        ));
    }
}

/// Round trip: a program consisting solely of 256 increments leaves the
/// machine state, and in particular the cell at the cursor, exactly as it was.
pub proof fn lemma_inc_round_trip(s: MachineState, fuel: nat)
    requires
        s.wf(),
    ensures
        run_instrs(repeated(Instr::Inc, 256), s, fuel) == RunOutcome::Done(s),
{
    lemma_inc_repeated(s, 256, fuel);
    let c = s.cell() as int;
    assert((c + 256) % 256 == c) by {
        vstd::arithmetic::div_mod::lemma_mod_add_multiples_vanish(c, 256);
        assert(c % 256 == c);
    }
    assert(s.tape.update(s.cursor, s.cell()) =~= s.tape);
}

/// A budget large enough to determine an outcome is enough for every larger
/// budget: once evaluation of an instruction halts or faults under `f1`, it
/// yields the very same outcome under any `f2 >= f1`.
pub proof fn lemma_budget_monotonic_instr(i: Instr, s: MachineState, f1: nat, f2: nat)
    requires
        f1 <= f2,
        run_instr(i, s, f1) != RunOutcome::Hung,
    ensures
        run_instr(i, s, f2) == run_instr(i, s, f1),
    decreases f1, i,
{
    match i {
        Instr::Loop(body) => {
            if s.cell() != 0 {
                let b1 = run_instrs(body, s, (f1 - 1) as nat);
                assert(b1 != RunOutcome::Hung);
                lemma_budget_monotonic(body, s, (f1 - 1) as nat, (f2 - 1) as nat);
                match b1 {
                    RunOutcome::Done(s2) => {
                        lemma_budget_monotonic_instr(i, s2, (f1 - 1) as nat, (f2 - 1) as nat);
                    },
                    _ => {},
                }
            }
        },
        _ => {},
    }
}

/// A budget large enough to determine an outcome of an instruction sequence
/// is enough for every larger budget.
pub proof fn lemma_budget_monotonic(p: Seq<Instr>, s: MachineState, f1: nat, f2: nat)
    requires
        f1 <= f2,
        run_instrs(p, s, f1) != RunOutcome::Hung,
    ensures
        run_instrs(p, s, f2) == run_instrs(p, s, f1),
    decreases f1, p,
{
    if p.len() > 0 {
        assert(run_instr(p[0], s, f1) != RunOutcome::Hung);
        lemma_budget_monotonic_instr(p[0], s, f1, f2);
        match run_instr(p[0], s, f1) {
            RunOutcome::Done(s2) => {
                lemma_budget_monotonic(p.drop_first(), s2, f1, f2);
            },
            _ => {},
        }
    }
}

} // verus!
