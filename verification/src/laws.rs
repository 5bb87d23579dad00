//! Laws of the machine: properties that hold of every input, stated over the
//! abstract semantics and proved once and for all.

use vstd::prelude::*;
use crate::command::{code_of, Command};
use crate::error::Error;
use crate::semantics::{
    advance_rel, eval_rel, init_vm, reaches_n, scan_back, scan_fwd, Vm,
};

verus! {

/// The cursor clamps at zero: in a program consisting only of cursor-back
/// instructions, any number of engine steps from a state with the cursor at
/// zero never errors, and leaves the cursor at zero with the tape and
/// register untouched.
pub proof fn lemma_cursor_back_only_clamps(s: Vm, t: Vm, t_aborted: bool, n: nat)
    requires
        forall|i: int| 0 <= i < s.program.len() ==> s.program[i] == Command::mOo,
        s.wf(),
        s.memory_idx == 0,
        reaches_n(s, false, t, t_aborted, n),
    ensures
        !t_aborted,
        t.wf(),
        t.memory_idx == 0,
        t.memory == s.memory,
        t.register == s.register,
        t.program == s.program,
    decreases n,
{
    if n != 0 {
        let (mid, mid_aborted, r): (Vm, bool, Result<(), Error>) = choose|
            mid: Vm,
            mid_aborted: bool,
            r: Result<(), Error>,
        |
            {
                &&& #[trigger] advance_rel(s, false, mid, mid_aborted, r)
                &&& reaches_n(mid, mid_aborted, t, t_aborted, (n - 1) as nat)
            };
        if s.program_idx < s.program.len() {
            assert(s.program[s.program_idx] == Command::mOo);
            let m2: Vm = choose|m2: Vm|
                {
                    &&& #[trigger] eval_rel(s, s.program[s.program_idx], m2, r)
                    &&& (r is Ok ==> mid == m2.with_pc(m2.program_idx + 1) && !mid_aborted)
                    &&& (r is Err ==> mid == m2.with_pc(s.program_idx) && mid_aborted)
                };
            lemma_cursor_back_only_clamps(mid, t, t_aborted, (n - 1) as nat);
        } else {
            lemma_cursor_back_only_clamps(mid, t, t_aborted, (n - 1) as nat);
        }
    }
}

/// Tape growth is append-only, exactly one cell per first-time forward step:
/// in a program consisting only of cursor-forward instructions, engine steps
/// from a state whose cursor sits on the last cell never error, keep the
/// cursor on the last cell, keep the old tape as a prefix, and append exactly
/// one zero cell for each instruction stepped past. From a fresh start the
/// tape thus holds `N + 1` cells once `N` instructions have run.
pub proof fn lemma_cursor_forward_only_grows(s: Vm, t: Vm, t_aborted: bool, n: nat)
    requires
        forall|i: int| 0 <= i < s.program.len() ==> s.program[i] == Command::moO,
        s.wf(),
        s.memory_idx == s.memory.len() - 1,
        reaches_n(s, false, t, t_aborted, n),
    ensures
        !t_aborted,
        t.wf(),
        t.program == s.program,
        t.register == s.register,
        t.memory_idx == t.memory.len() - 1,
        s.program_idx <= t.program_idx <= s.program.len(),
        t.memory.len() - s.memory.len() == t.program_idx - s.program_idx,
        t.memory.subrange(0, s.memory.len() as int) == s.memory,
    decreases n,
{
    if n == 0 {
        assert(t.memory.subrange(0, s.memory.len() as int) =~= s.memory);
    } else {
        let (mid, mid_aborted, r): (Vm, bool, Result<(), Error>) = choose|
            mid: Vm,
            mid_aborted: bool,
            r: Result<(), Error>,
        |
            {
                &&& #[trigger] advance_rel(s, false, mid, mid_aborted, r)
                &&& reaches_n(mid, mid_aborted, t, t_aborted, (n - 1) as nat)
            };
        if s.program_idx < s.program.len() {
            assert(s.program[s.program_idx] == Command::moO);
            let m2: Vm = choose|m2: Vm|
                {
                    &&& #[trigger] eval_rel(s, s.program[s.program_idx], m2, r)
                    &&& (r is Ok ==> mid == m2.with_pc(m2.program_idx + 1) && !mid_aborted)
                    &&& (r is Err ==> mid == m2.with_pc(s.program_idx) && mid_aborted)
                };
            assert(mid.memory == s.memory.push(0u32));
            lemma_cursor_forward_only_grows(mid, t, t_aborted, (n - 1) as nat);
            assert(t.memory.subrange(0, s.memory.len() as int) =~= t.memory.subrange(
                0,
                mid.memory.len() as int,
            ).subrange(0, s.memory.len() as int));
            assert(t.memory.subrange(0, s.memory.len() as int) =~= s.memory);
        } else {
            lemma_cursor_forward_only_grows(mid, t, t_aborted, (n - 1) as nat);
            assert(t.memory.subrange(0, s.memory.len() as int) =~= s.memory);
        }
    }
}

/// From a fresh start, a cursor-forward-only program that has completed all
/// its `N` instructions leaves a tape of exactly `N + 1` cells.
pub proof fn lemma_fresh_forward_run_tape_length(
    program: Seq<Command>,
    t: Vm,
    t_aborted: bool,
    n: nat,
)
    requires
        forall|i: int| 0 <= i < program.len() ==> program[i] == Command::moO,
        reaches_n(init_vm(program), false, t, t_aborted, n),
        t.program_idx == program.len(),
    ensures
        !t_aborted,
        t.memory.len() == program.len() + 1,
{
    lemma_cursor_forward_only_grows(init_vm(program), t, t_aborted, n);
}

/// Register asymmetry, first half: a swap with the register empty copies the
/// cell into the register and leaves the whole tape unchanged — it is a
/// copy, not a move.
pub proof fn lemma_register_swap_copies(s: Vm, t: Vm, r: Result<(), Error>)
    requires
        s.wf(),
        s.register is None,
        eval_rel(s, Command::MMM, t, r),
    ensures
        r == Ok::<(), Error>(()),
        t.memory == s.memory,
        t.register == Some(s.cell()),
        t.memory_idx == s.memory_idx,
        t.program_idx == s.program_idx,
{
}

/// Register asymmetry, second half: a swap with the register occupied moves
/// the register's value into the cell — overwriting whatever the cell held —
/// and empties the register.
pub proof fn lemma_register_swap_overwrites(s: Vm, t: Vm, r: Result<(), Error>, value: u32)
    requires
        s.wf(),
        s.register == Some(value),
        eval_rel(s, Command::MMM, t, r),
    ensures
        r == Ok::<(), Error>(()),
        t.register is None,
        t.cell() == value,
        t.memory == s.memory.update(s.memory_idx, value),
        t.memory_idx == s.memory_idx,
{
}

/// Register asymmetry, round trip: swapping twice from an empty register
/// restores the cell's value — the first swap copied it, the second wrote
/// the same value back — and leaves the register empty again.
pub proof fn lemma_register_swap_round_trip(
    s: Vm,
    mid: Vm,
    t: Vm,
    r1: Result<(), Error>,
    r2: Result<(), Error>,
)
    requires
        s.wf(),
        s.register is None,
        eval_rel(s, Command::MMM, mid, r1),
        eval_rel(mid, Command::MMM, t, r2),
    ensures
        r1 == Ok::<(), Error>(()),
        r2 == Ok::<(), Error>(()),
        t.register is None,
        t.cell() == s.cell(),
        t.memory == s.memory,
{
    lemma_register_swap_copies(s, mid, r1);
    lemma_register_swap_overwrites(mid, t, r2, s.cell());
    assert(t.memory =~= s.memory);
}

/// Saturating arithmetic, lower end: decrementing a zero cell leaves it at
/// zero, and the tape unchanged.
pub proof fn lemma_cell_decrement_saturates(s: Vm, t: Vm, r: Result<(), Error>)
    requires
        s.wf(),
        s.cell() == 0,
        eval_rel(s, Command::MOo, t, r),
    ensures
        r == Ok::<(), Error>(()),
        t.cell() == 0,
        t.memory == s.memory,
{
    assert(s.memory.update(s.memory_idx, 0u32) =~= s.memory);
}

/// Saturating arithmetic, upper end: incrementing a cell at the cell-width
/// maximum leaves it there, and the tape unchanged.
pub proof fn lemma_cell_increment_saturates(s: Vm, t: Vm, r: Result<(), Error>)
    requires
        s.wf(),
        s.cell() == u32::MAX,
        eval_rel(s, Command::MoO, t, r),
    ensures
        r == Ok::<(), Error>(()),
        t.cell() == u32::MAX,
        t.memory == s.memory,
{
    assert(s.memory.update(s.memory_idx, u32::MAX) =~= s.memory);
}

/// The self-eval guard: a cell holding self-eval's own code fails with
/// `RecursiveEval`, and a cell holding no instruction's code fails with
/// `InvalidCommand`; both leave the state untouched.
pub proof fn lemma_self_eval_guard(s: Vm, t: Vm, r: Result<(), Error>)
    requires
        s.wf(),
        eval_rel(s, Command::mOO, t, r),
    ensures
        s.cell() == code_of(Command::mOO) ==> r == Err::<(), Error>(Error::RecursiveEval) && t
            == s,
        s.cell() >= 12 ==> r == Err::<(), Error>(Error::InvalidCommand) && t == s,
{
}

/// The canonical countdown loop: a zero-guarded forward jump around one
/// decrement, closed by a backward jump.
pub open spec fn countdown_program() -> Seq<Command> {
    seq![Command::MOO, Command::MOo, Command::moo]
}

/// One successful engine step, witnessed by the state evaluation left.
proof fn lemma_advance_step(pre: Vm, mid: Vm, post: Vm)
    requires
        pre.program_idx < pre.program.len(),
        eval_rel(pre, pre.program[pre.program_idx], mid, Ok::<(), Error>(())),
        post == mid.with_pc(mid.program_idx + 1),
    ensures
        advance_rel(pre, false, post, false, Ok::<(), Error>(())),
{
}

/// From the countdown loop's body — the counter on the decrement, the cell
/// nonzero — the machine reaches completion without error, the cell counted
/// down to zero. Returns the final state and the number of steps.
proof fn lemma_countdown_body(s: Vm) -> (r: (Vm, nat))
    requires
        s.wf(),
        s.program == countdown_program(),
        s.program_idx == 1,
        s.cell() >= 1,
    ensures
        reaches_n(s, false, r.0, false, r.1),
        r.0.program_idx == 3,
        r.0.memory == s.memory.update(s.memory_idx, 0u32),
        r.0.memory_idx == s.memory_idx,
        r.0.register == s.register,
        r.0.program == s.program,
    decreases s.cell(),
{
    let v = s.cell();
    // The decrement under the counter.
    let mid1 = s.with_cell((v - 1) as u32);
    assert(eval_rel(s, s.program[s.program_idx], mid1, Ok::<(), Error>(())));
    let t1 = mid1.with_pc(2);
    lemma_advance_step(s, mid1, t1);
    // The backward jump lands on the guard and re-evaluates it.
    assert(scan_back(s.program, 1, 1) == Some(0int));
    if v == 1 {
        // The cell is now zero: the guard jumps past the loop.
        assert(scan_fwd(s.program, 1, 1) == Some(2int));
        let mid2 = t1.with_pc(2);
        assert(eval_rel(t1, t1.program[t1.program_idx], mid2, Ok::<(), Error>(())));
        let t2 = mid2.with_pc(3);
        lemma_advance_step(t1, mid2, t2);
        assert(reaches_n(t2, false, t2, false, 0));
        assert(reaches_n(t1, false, t2, false, 1));
        assert(reaches_n(s, false, t2, false, 2));
        (t2, 2)
    } else {
        // The cell is still nonzero: the guard falls through into the body.
        let mid2 = t1.with_pc(0);
        assert(eval_rel(t1, t1.program[t1.program_idx], mid2, Ok::<(), Error>(())));
        let t2 = mid2.with_pc(1);
        lemma_advance_step(t1, mid2, t2);
        let (t, n) = lemma_countdown_body(t2);
        assert(t.memory =~= s.memory.update(s.memory_idx, 0u32));
        assert(reaches_n(t1, false, t, false, n + 1));
        assert(reaches_n(s, false, t, false, n + 2));
        (t, n + 2)
    }
}

/// Balanced loop round trip: the canonical countdown loop runs from any
/// starting cell value to completion without error, leaving the cell at
/// zero. Returns the final state and the number of steps.
pub proof fn lemma_countdown_loop_runs_to_zero(s: Vm) -> (r: (Vm, nat))
    requires
        s.wf(),
        s.program == countdown_program(),
        s.program_idx == 0,
    ensures
        reaches_n(s, false, r.0, false, r.1),
        r.0.program_idx == 3,
        r.0.cell() == 0,
        r.0.memory == s.memory.update(s.memory_idx, 0u32),
        r.0.memory_idx == s.memory_idx,
        r.0.register == s.register,
        r.0.program == s.program,
{
    let v = s.cell();
    if v == 0 {
        // The guard jumps past the loop at once.
        assert(scan_fwd(s.program, 1, 1) == Some(2int));
        let mid = s.with_pc(2);
        assert(eval_rel(s, s.program[s.program_idx], mid, Ok::<(), Error>(())));
        let t = mid.with_pc(3);
        lemma_advance_step(s, mid, t);
        assert(reaches_n(t, false, t, false, 0));
        assert(reaches_n(s, false, t, false, 1));
        assert(t.memory =~= s.memory.update(s.memory_idx, 0u32));
        (t, 1)
    } else {
        // The guard falls through into the body.
        assert(eval_rel(s, s.program[s.program_idx], s, Ok::<(), Error>(())));
        let t1 = s.with_pc(1);
        lemma_advance_step(s, s, t1);
        let (t, n) = lemma_countdown_body(t1);
        assert(reaches_n(s, false, t, false, n + 1));
        (t, n + 1)
    }
}

/// A backward jump with no instructions before it — nothing can match it —
/// fails with `BeginlessJumpBackward`. A one-instruction program holding
/// only a backward jump is the simplest instance.
pub proof fn lemma_beginless_backward_jump(s: Vm, t: Vm, r: Result<(), Error>)
    requires
        s.wf(),
        s.program_idx == 0,
        eval_rel(s, Command::moo, t, r),
    ensures
        r == Err::<(), Error>(Error::BeginlessJumpBackward),
{
    assert(scan_back(s.program, 0, 1) is None);
}

/// A forward jump on a zero cell with no instructions after it — nothing can
/// match it — fails with `EndlessJumpForward`. A one-instruction program
/// holding only a forward jump is the simplest instance.
pub proof fn lemma_endless_forward_jump(s: Vm, t: Vm, r: Result<(), Error>)
    requires
        s.wf(),
        s.cell() == 0,
        s.program_idx == s.program.len() - 1,
        eval_rel(s, Command::MOO, t, r),
    ensures
        r == Err::<(), Error>(Error::EndlessJumpForward),
{
    assert(scan_fwd(s.program, s.program_idx + 1, 1) is None);
}

} // verus!
