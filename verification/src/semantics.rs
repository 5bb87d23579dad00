//! The mathematical model of the machine.
//!
//! [`Vm`] is the abstract state of the engine: tape, cursor, program, program
//! counter and register. [`eval_rel`] says what evaluating one instruction
//! does to that state; it is a relation rather than a function because the
//! two I/O-dependent outcomes (what a read produced, whether a write
//! succeeded) are decided by the host's capabilities, about which nothing is
//! assumed. [`advance_rel`] and [`reaches_n`] lift the relation to one engine
//! step and to a counted number of steps.

use vstd::prelude::*;
use vstd::utf8::is_scalar;
use crate::command::{code_of, command_of, Command};
use crate::error::{Error, IoError};

verus! {

/// The abstract state of the machine: everything the instruction semantics
/// can read or change.
pub ghost struct Vm {
    /// The tape of cells.
    pub memory: Seq<u32>,
    /// The cursor: index of the current cell.
    pub memory_idx: int,
    /// The immutable instruction sequence.
    pub program: Seq<Command>,
    /// The program counter: index of the next instruction.
    pub program_idx: int,
    /// The one-slot register.
    pub register: Option<u32>,
}

impl Vm {
    /// Well-formedness: the cursor always points at a cell, and the program
    /// counter never runs past one-past-the-end.
    pub open spec fn wf(self) -> bool {
        &&& 0 <= self.memory_idx < self.memory.len()
        &&& 0 <= self.program_idx <= self.program.len()
    }

    /// The current cell's value.
    pub open spec fn cell(self) -> u32 {
        self.memory[self.memory_idx]
    }

    /// This state with the current cell replaced by `value`.
    pub open spec fn with_cell(self, value: u32) -> Vm {
        Vm { memory: self.memory.update(self.memory_idx, value), ..self }
    }

    /// This state with the program counter moved to `pc`.
    pub open spec fn with_pc(self, pc: int) -> Vm {
        Vm { program_idx: pc, ..self }
    }

    /// This state with the register replaced by `register`.
    pub open spec fn with_register(self, register: Option<u32>) -> Vm {
        Vm { register, ..self }
    }
}

/// The state a fresh engine starts in: a tape of one zero cell, cursor and
/// program counter at zero, and an empty register.
pub open spec fn init_vm(program: Seq<Command>) -> Vm {
    Vm {
        memory: seq![0u32],
        memory_idx: 0,
        program,
        program_idx: 0,
        register: None,
    }
}

/// Decrement clamped at zero.
pub open spec fn sub1(i: int) -> int {
    if i > 0 {
        i - 1
    } else {
        0
    }
}

/// The backward scan of a backward jump.
///
/// `ptr` is the scan pointer and `unmatched` the nesting counter, starting at
/// one more than the number of enclosing backward jumps seen so far. The scan
/// steps the pointer back and examines the instruction there: a further
/// backward jump deepens the nesting, a forward jump closes one level. It
/// stops on the instruction that brings the counter to zero — the matching
/// forward jump — and returns its position, or `None` when it runs off the
/// start of the program first.
pub open spec fn scan_back(prog: Seq<Command>, ptr: int, unmatched: int) -> Option<int>
    decreases ptr,
{
    if ptr <= 0 {
        None
    } else {
        let next = ptr - 1;
        let adjusted = if prog[next] == Command::moo {
            unmatched + 1
        } else if prog[next] == Command::MOO {
            unmatched - 1
        } else {
            unmatched
        };
        if adjusted == 0 {
            Some(next)
        } else {
            scan_back(prog, next, adjusted)
        }
    }
}

/// The forward scan of a forward jump.
///
/// `ptr` is the scan pointer and `unmatched` the nesting counter. Each step
/// remembers the instruction under the pointer, advances, and examines the
/// instruction now under the pointer: a backward jump closes one nesting
/// level — two levels when the remembered instruction was itself a forward
/// jump, which is what makes adjacent empty loops match up — and a forward
/// jump opens one. The scan stops once the counter is spent, landing on the
/// closing backward jump, and returns its position, or `None` when the
/// pointer runs off the end of the program first.
pub open spec fn scan_fwd(prog: Seq<Command>, ptr: int, unmatched: int) -> Option<int>
    decreases prog.len() - ptr,
{
    if ptr < 0 || ptr >= prog.len() {
        None
    } else {
        let prev = prog[ptr];
        let next = ptr + 1;
        let adjusted = if next < prog.len() && prog[next] == Command::moo {
            if prev == Command::MOO {
                unmatched - 2
            } else {
                unmatched - 1
            }
        } else if next < prog.len() && prog[next] == Command::MOO {
            unmatched + 1
        } else {
            unmatched
        };
        if adjusted <= 0 {
            Some(next)
        } else {
            scan_fwd(prog, next, adjusted)
        }
    }
}

/// A successful backward scan lands inside the program, before the scan's
/// starting point, and on a forward-jump instruction.
pub proof fn lemma_scan_back_lands(prog: Seq<Command>, ptr: int, unmatched: int)
    requires
        unmatched >= 1,
        ptr <= prog.len(),
        scan_back(prog, ptr, unmatched) is Some,
    ensures
        0 <= scan_back(prog, ptr, unmatched).unwrap() < ptr,
        prog[scan_back(prog, ptr, unmatched).unwrap()] == Command::MOO,
    decreases ptr,
{
    let next = ptr - 1;
    let adjusted = if prog[next] == Command::moo {
        unmatched + 1
    } else if prog[next] == Command::MOO {
        unmatched - 1
    } else {
        unmatched
    };
    if adjusted != 0 {
        lemma_scan_back_lands(prog, next, adjusted);
    }
}

/// A successful forward scan lands inside the program, after the scan's
/// starting point, and on a backward-jump instruction.
pub proof fn lemma_scan_fwd_lands(prog: Seq<Command>, ptr: int, unmatched: int)
    requires
        unmatched >= 1,
        0 <= ptr,
        scan_fwd(prog, ptr, unmatched) is Some,
    ensures
        ptr < scan_fwd(prog, ptr, unmatched).unwrap() < prog.len(),
        prog[scan_fwd(prog, ptr, unmatched).unwrap()] == Command::moo,
    decreases prog.len() - ptr,
{
    let prev = prog[ptr];
    let next = ptr + 1;
    let adjusted = if next < prog.len() && prog[next] == Command::moo {
        if prev == Command::MOO {
            unmatched - 2
        } else {
            unmatched - 1
        }
    } else if next < prog.len() && prog[next] == Command::MOO {
        unmatched + 1
    } else {
        unmatched
    };
    if adjusted > 0 {
        lemma_scan_fwd_lands(prog, next, adjusted);
    }
}

/// The recursion measure of evaluation: self-eval may evaluate any other
/// instruction, and a backward jump re-evaluates the forward jump it lands
/// on, so evaluation nests at most three deep.
pub open spec fn rank(command: Command) -> nat {
    match command {
        Command::mOO => 2,
        Command::moo => 1,
        _ => 0,
    }
}

/// Effect of `mOo`: the cursor moves back one cell, clamped at zero.
pub open spec fn cursor_back_rel(pre: Vm, post: Vm, r: Result<(), Error>) -> bool {
    &&& post == (Vm { memory_idx: sub1(pre.memory_idx), ..pre })
    &&& r == Ok::<(), Error>(())
}

/// Effect of `moO`: the cursor moves forward one cell; stepping past the
/// current end appends exactly one zero cell, and nothing else ever grows the
/// tape.
pub open spec fn cursor_fwd_rel(pre: Vm, post: Vm, r: Result<(), Error>) -> bool {
    &&& post.memory == (if pre.memory_idx + 1 == pre.memory.len() {
        pre.memory.push(0u32)
    } else {
        pre.memory
    })
    &&& post.memory_idx == pre.memory_idx + 1
    &&& post.program == pre.program
    &&& post.program_idx == pre.program_idx
    &&& post.register == pre.register
    &&& r == Ok::<(), Error>(())
}

/// Effect of `MOo`: the cell is decremented, saturating at zero.
pub open spec fn cell_dec_rel(pre: Vm, post: Vm, r: Result<(), Error>) -> bool {
    &&& post == pre.with_cell(if pre.cell() == 0 {
        0u32
    } else {
        (pre.cell() - 1) as u32
    })
    &&& r == Ok::<(), Error>(())
}

/// Effect of `MoO`: the cell is incremented, saturating at the cell-width
/// maximum.
pub open spec fn cell_inc_rel(pre: Vm, post: Vm, r: Result<(), Error>) -> bool {
    &&& post == pre.with_cell(if pre.cell() == u32::MAX {
        u32::MAX
    } else {
        (pre.cell() + 1) as u32
    })
    &&& r == Ok::<(), Error>(())
}

/// Effect of `OOO`: the cell is set to zero.
pub open spec fn cell_zero_rel(pre: Vm, post: Vm, r: Result<(), Error>) -> bool {
    &&& post == pre.with_cell(0u32)
    &&& r == Ok::<(), Error>(())
}

/// Effect of `MMM`: with the register empty, the cell is copied into it and
/// the cell is left unchanged; with the register occupied, its value is moved
/// into the cell and the register is emptied. The asymmetry — copy in, move
/// out — is intentional.
pub open spec fn register_swap_rel(pre: Vm, post: Vm, r: Result<(), Error>) -> bool {
    &&& post == (match pre.register {
        Some(value) => pre.with_cell(value).with_register(None),
        None => pre.with_register(Some(pre.cell())),
    })
    &&& r == Ok::<(), Error>(())
}

/// Effect of `Moo`: with the cell zero, one character is read and its code
/// stored in the cell, or the read's failure is reported; with the cell
/// nonzero, the cell is written as a character — refused as unwritable when
/// it is no Unicode scalar value — and a write failure is reported. The state
/// is untouched except for a read's result.
pub open spec fn char_io_rel(pre: Vm, post: Vm, r: Result<(), Error>) -> bool {
    if pre.cell() == 0 {
        ||| ((exists|value: u32| is_scalar(value) && post == pre.with_cell(value))
            && r == Ok::<(), Error>(()))
        ||| (post == pre && r == Err::<(), Error>(Error::Io(IoError)))
    } else if !is_scalar(pre.cell()) {
        post == pre && r == Err::<(), Error>(Error::UnwritableChar)
    } else {
        post == pre && (r == Ok::<(), Error>(()) || r == Err::<(), Error>(Error::Io(IoError)))
    }
}

/// Effect of `OOM`: the cell is written as an integer; the state is
/// untouched, and a write failure is reported.
pub open spec fn int_output_rel(pre: Vm, post: Vm, r: Result<(), Error>) -> bool {
    &&& post == pre
    &&& (r == Ok::<(), Error>(()) || r == Err::<(), Error>(Error::Io(IoError)))
}

/// Effect of `oom`: one integer is read into the cell, or the read's failure
/// is reported and the state left untouched.
pub open spec fn int_input_rel(pre: Vm, post: Vm, r: Result<(), Error>) -> bool {
    ||| ((exists|value: u32| post == pre.with_cell(value)) && r == Ok::<(), Error>(()))
    ||| (post == pre && r == Err::<(), Error>(Error::Io(IoError)))
}

/// Effect of `MOO`: with the cell nonzero, nothing. With the cell zero, the
/// forward scan runs from just past the program counter; on success the
/// counter lands on the matching backward jump (the step's post-increment
/// then moves one past it), and when the scan runs off the end the
/// evaluation fails with the counter parked at the program's end.
pub open spec fn forward_jump_rel(pre: Vm, post: Vm, r: Result<(), Error>) -> bool {
    if pre.cell() != 0 {
        post == pre && r == Ok::<(), Error>(())
    } else {
        match scan_fwd(pre.program, pre.program_idx + 1, 1) {
            None => {
                &&& post == pre.with_pc(pre.program.len() as int)
                &&& r == Err::<(), Error>(Error::EndlessJumpForward)
            },
            Some(land) => {
                &&& post == pre.with_pc(land)
                &&& r == Ok::<(), Error>(())
            },
        }
    }
}

/// Effect of `moo`: the backward scan runs from just before the program
/// counter; on success the counter lands on the matching forward jump, which
/// is immediately re-evaluated in place — that re-entry, not a mere
/// repositioning, is what drives loops — and when the scan runs off the start
/// the evaluation fails with the counter parked at zero.
pub open spec fn backward_jump_rel(pre: Vm, post: Vm, r: Result<(), Error>) -> bool {
    match scan_back(pre.program, sub1(pre.program_idx), 1) {
        None => {
            &&& post == pre.with_pc(0)
            &&& r == Err::<(), Error>(Error::BeginlessJumpBackward)
        },
        Some(land) => forward_jump_rel(pre.with_pc(land), post, r),
    }
}

/// What evaluating `command` in state `pre` does: the result is `r` and the
/// state becomes `post`. Self-eval decodes the cell and evaluates the decoded
/// instruction in place, refusing a direct self-reference and a value that is
/// no code.
pub open spec fn eval_rel(pre: Vm, command: Command, post: Vm, r: Result<(), Error>) -> bool
    decreases rank(command),
{
    match command {
        Command::moo => backward_jump_rel(pre, post, r),
        Command::mOo => cursor_back_rel(pre, post, r),
        Command::moO => cursor_fwd_rel(pre, post, r),
        Command::mOO => {
            if pre.cell() == code_of(Command::mOO) {
                post == pre && r == Err::<(), Error>(Error::RecursiveEval)
            } else {
                match command_of(pre.cell()) {
                    None => post == pre && r == Err::<(), Error>(Error::InvalidCommand),
                    Some(decoded) => {
                        if decoded != Command::mOO {
                            eval_rel(pre, decoded, post, r)
                        } else {
                            false
                        }
                    },
                }
            }
        },
        Command::Moo => char_io_rel(pre, post, r),
        Command::MOo => cell_dec_rel(pre, post, r),
        Command::MoO => cell_inc_rel(pre, post, r),
        Command::MOO => forward_jump_rel(pre, post, r),
        Command::OOO => cell_zero_rel(pre, post, r),
        Command::MMM => register_swap_rel(pre, post, r),
        Command::OOM => int_output_rel(pre, post, r),
        Command::oom => int_input_rel(pre, post, r),
    }
}

/// What one engine step does. A step on a completed or aborted machine is a
/// no-op success. Otherwise the instruction under the program counter is
/// evaluated; on success the counter then moves one past wherever evaluation
/// left it, and on failure the counter is put back on the failing instruction
/// and the machine is marked aborted.
pub open spec fn advance_rel(
    pre: Vm,
    pre_aborted: bool,
    post: Vm,
    post_aborted: bool,
    r: Result<(), Error>,
) -> bool {
    if pre_aborted || pre.program_idx >= pre.program.len() {
        &&& post == pre
        &&& post_aborted == pre_aborted
        &&& r == Ok::<(), Error>(())
    } else {
        exists|mid: Vm|
            {
                &&& #[trigger] eval_rel(pre, pre.program[pre.program_idx], mid, r)
                &&& (r is Ok ==> post == mid.with_pc(mid.program_idx + 1) && !post_aborted)
                &&& (r is Err ==> post == mid.with_pc(pre.program_idx) && post_aborted)
            }
    }
}

/// The machine goes from `pre` to `post` in exactly `n` engine steps.
pub open spec fn reaches_n(
    pre: Vm,
    pre_aborted: bool,
    post: Vm,
    post_aborted: bool,
    n: nat,
) -> bool
    decreases n,
{
    if n == 0 {
        post == pre && post_aborted == pre_aborted
    } else {
        exists|mid: Vm, mid_aborted: bool, r: Result<(), Error>|
            {
                &&& #[trigger] advance_rel(pre, pre_aborted, mid, mid_aborted, r)
                &&& reaches_n(mid, mid_aborted, post, post_aborted, (n - 1) as nat)
            }
    }
}

/// A run of steps followed by one more step is a run of steps.
pub proof fn lemma_reaches_n_step(
    s: Vm,
    s_aborted: bool,
    m: Vm,
    m_aborted: bool,
    t: Vm,
    t_aborted: bool,
    r: Result<(), Error>,
    n: nat,
)
    requires
        reaches_n(s, s_aborted, m, m_aborted, n),
        advance_rel(m, m_aborted, t, t_aborted, r),
    ensures
        reaches_n(s, s_aborted, t, t_aborted, n + 1),
    decreases n,
{
    if n == 0 {
        assert(advance_rel(s, s_aborted, t, t_aborted, r));
        assert(reaches_n(t, t_aborted, t, t_aborted, 0));
    } else {
        let (mid, mid_aborted, r0): (Vm, bool, Result<(), Error>) = choose|
            mid: Vm,
            mid_aborted: bool,
            r0: Result<(), Error>,
        |
            {
                &&& #[trigger] advance_rel(s, s_aborted, mid, mid_aborted, r0)
                &&& reaches_n(mid, mid_aborted, m, m_aborted, (n - 1) as nat)
            };
        lemma_reaches_n_step(mid, mid_aborted, m, m_aborted, t, t_aborted, r, (n - 1) as nat);
        assert(advance_rel(s, s_aborted, mid, mid_aborted, r0));
    }
}

} // verus!
