//! An interpreter for a minimal esoteric tape language.
//!
//! Programs are sequences of twelve fixed three-glyph instructions operating
//! on a growable tape of `u32` cells, a one-slot register, and
//! character/integer I/O capabilities supplied by the host. The engine
//! [`Cowlang`] exposes a synchronous step/run contract — [`Cowlang::advance`]
//! and [`Cowlang::run`] — together with read-only accessors for every piece
//! of its state; its behaviour is specified against the abstract machine of
//! [`semantics`].

pub mod command;
pub mod error;
pub mod io;
pub mod laws;
pub mod semantics;

pub use command::{Command, Program};
pub use error::{Error, IoError};
pub use io::{Input, Output};

use vstd::prelude::*;
use crate::io::char_from_u32;
use crate::semantics::{
    advance_rel, backward_jump_rel, eval_rel, init_vm, rank, reaches_n, scan_back, scan_fwd,
    sub1, lemma_reaches_n_step, lemma_scan_back_lands, lemma_scan_fwd_lands, Vm,
};
use vstd::utf8::char_is_scalar;
use crate::command::lemma_code_of_command_of;

verus! {

/// The execution engine: it owns the tape, cursor, program, program counter
/// and register, together with the two I/O capabilities it was built from.
///
/// Each instance is fully self-contained; nothing is shared between engines,
/// and all work happens synchronously inside [`Cowlang::advance`] calls
/// driven by the caller.
pub struct Cowlang<I: Input, O: Output> {
    memory: Vec<u32>,
    memory_idx: usize,
    program: Program,
    program_idx: usize,
    reader: I,
    writer: O,
    register: Option<u32>,
    aborted: bool,
}

impl<I: Input, O: Output> Cowlang<I, O> {
    /// The abstract machine state of this engine.
    pub closed spec fn vm(self) -> Vm {
        Vm {
            memory: self.memory@,
            memory_idx: self.memory_idx as int,
            program: self.program@,
            program_idx: self.program_idx as int,
            register: self.register,
        }
    }

    /// Whether a previous step failed; once set, the engine stays stopped.
    pub closed spec fn is_aborted(self) -> bool {
        self.aborted
    }

    /// The input capability the engine holds.
    pub closed spec fn reader_spec(self) -> I {
        self.reader
    }

    /// The output capability the engine holds.
    pub closed spec fn writer_spec(self) -> O {
        self.writer
    }

    /// Well-formedness: the cursor always points at a cell and the program
    /// counter is at most one past the last instruction. Construction
    /// establishes it and every operation preserves it.
    pub open spec fn wf(self) -> bool {
        self.vm().wf()
    }

    /// Whether execution is over, by running past the program's end or by a
    /// terminal error.
    pub open spec fn completed_spec(self) -> bool {
        self.is_aborted() || self.vm().program_idx >= self.vm().program.len()
    }

    /// A fresh engine over `program`: one zero cell, cursor and program
    /// counter at zero, register empty.
    pub fn new(program: Program, reader: I, writer: O) -> (r: Cowlang<I, O>)
        ensures
            r.wf(),
            r.vm() == init_vm(program@),
            !r.is_aborted(),
            r.reader_spec() == reader,
            r.writer_spec() == writer,
    {
        let mut memory: Vec<u32> = Vec::new();
        memory.push(0);
        proof {
            assert(memory@ =~= seq![0u32]);
        }
        Cowlang {
            memory,
            memory_idx: 0,
            program,
            program_idx: 0,
            reader,
            writer,
            register: None,
            aborted: false,
        }
    }

    /// Replace the input capability.
    pub fn with_reader(&mut self, reader: I)
        ensures
            final(self).vm() == old(self).vm(),
            final(self).is_aborted() == old(self).is_aborted(),
            final(self).reader_spec() == reader,
            final(self).writer_spec() == old(self).writer_spec(),
    {
        self.reader = reader;
    }

    /// Replace the output capability.
    pub fn with_writer(&mut self, writer: O)
        ensures
            final(self).vm() == old(self).vm(),
            final(self).is_aborted() == old(self).is_aborted(),
            final(self).writer_spec() == writer,
            final(self).reader_spec() == old(self).reader_spec(),
    {
        self.writer = writer;
    }

    /// The tape.
    pub fn memory(&self) -> (r: &[u32])
        ensures
            r@ == self.vm().memory,
    {
        self.memory.as_slice()
    }

    /// The cursor: index of the current cell.
    pub fn memory_idx(&self) -> (r: usize)
        ensures
            r == self.vm().memory_idx,
    {
        self.memory_idx
    }

    /// The program.
    pub fn program(&self) -> (r: &[Command])
        ensures
            r@ == self.vm().program,
    {
        self.program.commands()
    }

    /// The program counter: index of the next instruction.
    pub fn program_idx(&self) -> (r: usize)
        ensures
            r == self.vm().program_idx,
    {
        self.program_idx
    }

    /// The instruction under the program counter, or `None` once execution
    /// has run past the program's end.
    pub fn current_instruction(&self) -> (r: Option<Command>)
        ensures
            self.vm().program_idx < self.vm().program.len() ==> r == Some(
                self.vm().program[self.vm().program_idx],
            ),
            self.vm().program_idx >= self.vm().program.len() ==> r is None,
    {
        if self.program_idx < self.program.len() {
            Some(self.program.get(self.program_idx))
        } else {
            None
        }
    }

    /// The current cell's value.
    pub fn current_value(&self) -> (r: u32)
        requires
            self.wf(),
        ensures
            r == self.vm().cell(),
    {
        self.memory[self.memory_idx]
    }

    /// The register's contents.
    pub fn register(&self) -> (r: Option<u32>)
        ensures
            r == self.vm().register,
    {
        self.register
    }

    /// Whether a previous step failed.
    pub fn aborted(&self) -> (r: bool)
        ensures
            r == self.is_aborted(),
    {
        self.aborted
    }

    /// Whether execution is over.
    pub fn completed(&self) -> (r: bool)
        ensures
            r == self.completed_spec(),
    {
        self.aborted || self.program_idx >= self.program.len()
    }

    /// One engine step, as [`advance_rel`] describes: a no-op success once
    /// the engine is completed or aborted; otherwise the instruction under
    /// the program counter is evaluated and, on success, the counter moves
    /// one past wherever evaluation left it. On failure the counter is put
    /// back on the failing instruction, the engine is marked aborted, and
    /// the error is returned.
    pub fn advance(&mut self) -> (r: Result<(), Error>)
        requires
            old(self).wf(),
        ensures
            final(self).wf(),
            advance_rel(
                old(self).vm(),
                old(self).is_aborted(),
                final(self).vm(),
                final(self).is_aborted(),
                r,
            ),
            final(self).vm().program == old(self).vm().program,
    {
        if self.aborted {
            return Ok(());
        }
        if self.program_idx >= self.program.len() {
            return Ok(());
        }
        let pc = self.program_idx;
        let command = self.program.get(pc);
        let ghost pre = self.vm();
        let result = self.evaluate(command);
        let ghost mid = self.vm();
        match result {
            Ok(()) => {
                self.program_idx = self.program_idx + 1;
                proof {
                    assert(eval_rel(pre, pre.program[pre.program_idx], mid, result));
                    assert(self.vm() == mid.with_pc(mid.program_idx + 1));
                }
            },
            Err(_) => {
                self.program_idx = pc;
                self.aborted = true;
                proof {
                    assert(eval_rel(pre, pre.program[pre.program_idx], mid, result));
                    assert(self.vm() == mid.with_pc(pre.program_idx));
                }
            },
        }
        result
    }

    /// Drive the engine until it completes or a step fails, stopping at the
    /// first error with no retry.
    ///
    /// The language has unbounded loops, so a run need not terminate of
    /// itself; a verified loop must, so the caller bounds it: at most
    /// `max_steps` engine steps are taken. On return the engine has either
    /// completed — run past the program's end, or stopped at the first
    /// error, which is returned — or used up the whole bound; `completed`
    /// tells which, and a host wanting an unbounded run calls again.
    pub fn run(&mut self, max_steps: u64) -> (r: Result<(), Error>)
        requires
            old(self).wf(),
        ensures
            final(self).wf(),
            exists|n: nat|
                #[trigger] reaches_n(
                    old(self).vm(),
                    old(self).is_aborted(),
                    final(self).vm(),
                    final(self).is_aborted(),
                    n,
                ) && n <= max_steps && (final(self).completed_spec() || n == max_steps),
            r is Err ==> final(self).is_aborted(),
            r is Ok ==> final(self).is_aborted() == old(self).is_aborted(),
            final(self).vm().program == old(self).vm().program,
    {
        let mut steps: u64 = 0;
        while steps < max_steps && !self.completed()
            invariant
                self.wf(),
                steps <= max_steps,
                self.vm().program == old(self).vm().program,
                self.is_aborted() == old(self).is_aborted(),
                reaches_n(
                    old(self).vm(),
                    old(self).is_aborted(),
                    self.vm(),
                    self.is_aborted(),
                    steps as nat,
                ),
            decreases max_steps - steps,
        {
            let ghost step_pre = self.vm();
            let ghost step_pre_aborted = self.is_aborted();
            let result = self.advance();
            proof {
                lemma_reaches_n_step(
                    old(self).vm(),
                    old(self).is_aborted(),
                    step_pre,
                    step_pre_aborted,
                    self.vm(),
                    self.is_aborted(),
                    result,
                    steps as nat,
                );
            }
            if let Err(e) = result {
                return Err(e);
            }
            steps = steps + 1;
        }
        Ok(())
    }

    /// Evaluate one instruction in place, as [`eval_rel`] describes.
    ///
    /// The caller, not this function, moves the program counter past the
    /// instruction afterwards; the jump instructions reposition the counter
    /// themselves and a backward jump re-evaluates the forward jump it lands
    /// on.
    fn evaluate(&mut self, command: Command) -> (r: Result<(), Error>)
        requires
            old(self).wf(),
            old(self).vm().program_idx < old(self).vm().program.len(),
        ensures
            final(self).wf(),
            eval_rel(old(self).vm(), command, final(self).vm(), r),
            final(self).vm().program == old(self).vm().program,
            final(self).is_aborted() == old(self).is_aborted(),
            r is Ok ==> final(self).vm().program_idx < final(self).vm().program.len(),
        decreases rank(command),
    {
        let ghost pre = self.vm();
        let plen = self.program.len();
        match command {
            Command::moo => {
                self.program_idx = self.program_idx.saturating_sub(1);
                let mut unmatched: usize = 1;
                while unmatched > 0
                    invariant
                        command == Command::moo,
                        pre == old(self).vm(),
                        pre.wf(),
                        pre.program_idx < pre.program.len(),
                        plen == pre.program.len(),
                        self.vm().memory == pre.memory,
                        self.vm().memory_idx == pre.memory_idx,
                        self.vm().register == pre.register,
                        self.vm().program == pre.program,
                        self.is_aborted() == old(self).is_aborted(),
                        0 <= self.vm().program_idx <= sub1(pre.program_idx),
                        unmatched as int <= sub1(pre.program_idx) - self.vm().program_idx + 1,
                        (if unmatched > 0 {
                            scan_back(pre.program, sub1(pre.program_idx), 1) == scan_back(
                                pre.program,
                                self.vm().program_idx,
                                unmatched as int,
                            )
                        } else {
                            scan_back(pre.program, sub1(pre.program_idx), 1) == Some(
                                self.vm().program_idx,
                            )
                        }),
                    decreases self.vm().program_idx,
                {
                    if self.program_idx == 0 {
                        return Err(Error::BeginlessJumpBackward);
                    }
                    self.program_idx = self.program_idx - 1;
                    let cur = self.program.get(self.program_idx);
                    if cur == Command::moo {
                        unmatched = unmatched + 1;
                    } else if cur == Command::MOO {
                        unmatched = unmatched - 1;
                    }
                }
                proof {
                    lemma_scan_back_lands(pre.program, sub1(pre.program_idx), 1);
                }
                let landed = self.program.get(self.program_idx);
                assert(landed == Command::MOO);
                let ghost landed_pre = self.vm();
                let result = self.evaluate(landed);
                proof {
                    assert(landed_pre == pre.with_pc(landed_pre.program_idx));
                    assert(backward_jump_rel(pre, self.vm(), result));
                }
                result
            },
            Command::mOo => {
                self.memory_idx = self.memory_idx.saturating_sub(1);
                Ok(())
            },
            Command::moO => {
                self.memory_idx = self.memory_idx.saturating_add(1);
                if self.memory_idx == self.memory.len() {
                    self.memory.push(0);
                }
                Ok(())
            },
            Command::mOO => {
                let value = self.memory[self.memory_idx];
                if value == Command::mOO.code() {
                    return Err(Error::RecursiveEval);
                }
                match Command::try_from(value) {
                    Err(()) => Err(Error::InvalidCommand),
                    Ok(decoded) => {
                        proof {
                            lemma_code_of_command_of(value);
                            assert(decoded != Command::mOO);
                        }
                        self.evaluate(decoded)
                    },
                }
            },
            Command::Moo => {
                let value = self.memory[self.memory_idx];
                if value == 0 {
                    match self.reader.input_char() {
                        Ok(c) => {
                            let code = c as u32;
                            self.memory[self.memory_idx] = code;
                            proof {
                                char_is_scalar(c);
                                assert(self.vm() == pre.with_cell(code));
                            }
                            Ok(())
                        },
                        Err(e) => Err(Error::Io(e)),
                    }
                } else {
                    match char_from_u32(value) {
                        None => Err(Error::UnwritableChar),
                        Some(c) => {
                            match self.writer.output_char(c) {
                                Ok(()) => Ok(()),
                                Err(e) => Err(Error::Io(e)),
                            }
                        },
                    }
                }
            },
            Command::MOo => {
                let value = self.memory[self.memory_idx];
                self.memory[self.memory_idx] = value.saturating_sub(1);
                Ok(())
            },
            Command::MoO => {
                let value = self.memory[self.memory_idx];
                self.memory[self.memory_idx] = value.saturating_add(1);
                Ok(())
            },
            Command::MOO => {
                let value = self.memory[self.memory_idx];
                if value != 0 {
                    return Ok(());
                }
                self.program_idx = self.program_idx + 1;
                let mut unmatched: usize = 1;
                while unmatched > 0
                    invariant
                        command == Command::MOO,
                        pre.cell() == 0,
                        pre == old(self).vm(),
                        pre.wf(),
                        pre.program_idx < pre.program.len(),
                        plen == pre.program.len(),
                        self.vm().memory == pre.memory,
                        self.vm().memory_idx == pre.memory_idx,
                        self.vm().register == pre.register,
                        self.vm().program == pre.program,
                        self.is_aborted() == old(self).is_aborted(),
                        pre.program_idx + 1 <= self.vm().program_idx <= pre.program.len(),
                        unmatched as int <= self.vm().program_idx - pre.program_idx,
                        (if unmatched > 0 {
                            scan_fwd(pre.program, pre.program_idx + 1, 1) == scan_fwd(
                                pre.program,
                                self.vm().program_idx,
                                unmatched as int,
                            )
                        } else {
                            scan_fwd(pre.program, pre.program_idx + 1, 1) == Some(
                                self.vm().program_idx,
                            )
                        }),
                    decreases self.vm().program.len() - self.vm().program_idx,
                {
                    if self.program_idx >= plen {
                        return Err(Error::EndlessJumpForward);
                    }
                    let prev = self.program.get(self.program_idx);
                    self.program_idx = self.program_idx + 1;
                    if self.program_idx < plen {
                        let cur = self.program.get(self.program_idx);
                        if cur == Command::moo {
                            unmatched = unmatched - 1;
                            if prev == Command::MOO && unmatched > 0 {
                                unmatched = unmatched - 1;
                            }
                        } else if cur == Command::MOO {
                            unmatched = unmatched + 1;
                        }
                    }
                }
                proof {
                    lemma_scan_fwd_lands(pre.program, pre.program_idx + 1, 1);
                }
                Ok(())
            },
            Command::OOO => {
                self.memory[self.memory_idx] = 0;
                Ok(())
            },
            Command::MMM => {
                match self.register {
                    Some(value) => {
                        self.register = None;
                        self.memory[self.memory_idx] = value;
                    },
                    None => {
                        self.register = Some(self.memory[self.memory_idx]);
                    },
                }
                Ok(())
            },
            Command::OOM => {
                let value = self.memory[self.memory_idx];
                match self.writer.output_int(value) {
                    Ok(()) => Ok(()),
                    Err(e) => Err(Error::Io(e)),
                }
            },
            Command::oom => {
                match self.reader.input_int() {
                    Ok(value) => {
                        self.memory[self.memory_idx] = value;
                        proof {
                            assert(self.vm() == pre.with_cell(value));
                        }
                        Ok(())
                    },
                    Err(e) => Err(Error::Io(e)),
                }
            },
        }
    }
}

} // verus!
