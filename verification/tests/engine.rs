use std::cell::RefCell;
use std::rc::Rc;

use cowlang::{Command, Cowlang, Error, Input, IoError, Output, Program};

/// A capability that refuses every read and write.
struct NoIo;

impl Input for NoIo {
    fn input_int(&mut self) -> Result<u32, IoError> {
        Err(IoError)
    }

    fn input_char(&mut self) -> Result<char, IoError> {
        Err(IoError)
    }
}

impl Output for NoIo {
    fn output_int(&mut self, _value: u32) -> Result<(), IoError> {
        Err(IoError)
    }

    fn output_char(&mut self, _c: char) -> Result<(), IoError> {
        Err(IoError)
    }
}

/// A source that hands out pre-scripted values, then fails.
struct ScriptedInput {
    ints: Vec<u32>,
    chars: Vec<char>,
}

impl Input for ScriptedInput {
    fn input_int(&mut self) -> Result<u32, IoError> {
        if self.ints.is_empty() {
            Err(IoError)
        } else {
            Ok(self.ints.remove(0))
        }
    }

    fn input_char(&mut self) -> Result<char, IoError> {
        if self.chars.is_empty() {
            Err(IoError)
        } else {
            Ok(self.chars.remove(0))
        }
    }
}

#[derive(Debug, PartialEq, Eq)]
enum Written {
    Int(u32),
    Char(char),
}

/// A sink that records everything written, shared with the test.
struct SharedOutput {
    written: Rc<RefCell<Vec<Written>>>,
}

impl Output for SharedOutput {
    fn output_int(&mut self, value: u32) -> Result<(), IoError> {
        self.written.borrow_mut().push(Written::Int(value));
        Ok(())
    }

    fn output_char(&mut self, c: char) -> Result<(), IoError> {
        self.written.borrow_mut().push(Written::Char(c));
        Ok(())
    }
}

fn engine_for(text: &str) -> Cowlang<NoIo, NoIo> {
    Cowlang::new(Program::parse(text), NoIo, NoIo)
}

fn engine_with_input(text: &str, ints: Vec<u32>, chars: Vec<char>) -> Cowlang<ScriptedInput, NoIo> {
    Cowlang::new(Program::parse(text), ScriptedInput { ints, chars }, NoIo)
}

const PLENTY: u64 = 100_000;

#[test]
fn fresh_engine_state() {
    let engine = engine_for("MoO MoO");
    assert_eq!(engine.memory(), &[0]);
    assert_eq!(engine.memory_idx(), 0);
    assert_eq!(engine.program_idx(), 0);
    assert_eq!(engine.register(), None);
    assert_eq!(engine.current_value(), 0);
    assert_eq!(engine.current_instruction(), Some(Command::MoO));
    assert_eq!(engine.program(), &[Command::MoO, Command::MoO]);
    assert!(!engine.aborted());
    assert!(!engine.completed());
}

#[test]
fn empty_program_is_complete_at_once() {
    let mut engine = engine_for("");
    assert!(engine.completed());
    assert_eq!(engine.run(PLENTY), Ok(()));
    assert!(engine.completed());
    assert!(!engine.aborted());
}

#[test]
fn cursor_clamps_at_zero() {
    let mut engine = engine_for("mOo mOo mOo");
    assert_eq!(engine.run(PLENTY), Ok(()));
    assert!(engine.completed());
    assert!(!engine.aborted());
    assert_eq!(engine.memory_idx(), 0);
    assert_eq!(engine.memory(), &[0]);
}

#[test]
fn tape_grows_one_cell_per_first_time_forward_step() {
    let mut engine = engine_for("moO moO moO");
    assert_eq!(engine.run(PLENTY), Ok(()));
    assert!(!engine.aborted());
    assert_eq!(engine.memory(), &[0, 0, 0, 0]);
    assert_eq!(engine.memory_idx(), 3);
}

#[test]
fn tape_does_not_grow_on_revisited_cells() {
    let mut engine = engine_for("moO mOo moO mOo moO");
    assert_eq!(engine.run(PLENTY), Ok(()));
    // Only the first forward step reaches a new index; the tape ends with
    // two cells, not four.
    assert_eq!(engine.memory(), &[0, 0]);
    assert_eq!(engine.memory_idx(), 1);
}

#[test]
fn register_swap_copies_then_restores() {
    // Build cell = 5, then swap twice: the first swap copies the value into
    // the register and leaves the cell at 5, the second writes it back and
    // empties the register.
    let mut engine = engine_for("MoO MoO MoO MoO MoO MMM MMM");
    for _ in 0..5 {
        assert_eq!(engine.advance(), Ok(()));
    }
    assert_eq!(engine.current_value(), 5);
    assert_eq!(engine.register(), None);
    assert_eq!(engine.advance(), Ok(()));
    assert_eq!(engine.register(), Some(5));
    assert_eq!(engine.current_value(), 5);
    assert_eq!(engine.advance(), Ok(()));
    assert_eq!(engine.register(), None);
    assert_eq!(engine.current_value(), 5);
    assert!(engine.completed());
}

#[test]
fn register_swap_overwrites_a_mutated_cell() {
    // cell = 5; copy to register; zero the cell; swap back: the register's 5
    // overwrites the 0 — a move, not a copy.
    let mut engine = engine_for("MoO MoO MoO MoO MoO MMM OOO MMM");
    assert_eq!(engine.run(PLENTY), Ok(()));
    assert!(!engine.aborted());
    assert_eq!(engine.current_value(), 5);
    assert_eq!(engine.register(), None);
}

#[test]
fn cell_decrement_saturates_at_zero() {
    let mut engine = engine_for("MOo MOo");
    assert_eq!(engine.run(PLENTY), Ok(()));
    assert!(!engine.aborted());
    assert_eq!(engine.memory(), &[0]);
}

#[test]
fn cell_increment_saturates_at_the_maximum() {
    let mut engine = engine_with_input("oom MoO MoO", vec![u32::MAX], vec![]);
    assert_eq!(engine.run(PLENTY), Ok(()));
    assert!(!engine.aborted());
    assert_eq!(engine.current_value(), u32::MAX);
}

#[test]
fn self_eval_runs_the_decoded_instruction() {
    // cell = 8, the code of the cell-zeroing instruction: self-eval zeroes
    // the cell in place.
    let mut engine = engine_with_input("oom mOO", vec![8], vec![]);
    assert_eq!(engine.run(PLENTY), Ok(()));
    assert!(!engine.aborted());
    assert_eq!(engine.memory(), &[0]);
}

#[test]
fn self_eval_refuses_direct_recursion() {
    // cell = 3 is self-eval's own code.
    let mut engine = engine_for("MoO MoO MoO mOO");
    assert_eq!(engine.run(PLENTY), Err(Error::RecursiveEval));
    assert!(engine.aborted());
    assert!(engine.completed());
    // The program counter stays on the failing instruction.
    assert_eq!(engine.program_idx(), 3);
    assert_eq!(engine.current_value(), 3);
}

#[test]
fn self_eval_refuses_values_out_of_range() {
    let mut engine = engine_with_input("oom mOO", vec![12], vec![]);
    assert_eq!(engine.run(PLENTY), Err(Error::InvalidCommand));
    assert!(engine.aborted());
    assert_eq!(engine.program_idx(), 1);
    assert_eq!(engine.current_value(), 12);
}

#[test]
fn balanced_loop_counts_down_to_zero() {
    // cell = 3, then a zero-guarded loop around one decrement.
    let mut engine = engine_for("MoO MoO MoO MOO MOo moo");
    assert_eq!(engine.run(PLENTY), Ok(()));
    assert!(engine.completed());
    assert!(!engine.aborted());
    assert_eq!(engine.current_value(), 0);
    assert_eq!(engine.program_idx(), 6);
}

#[test]
fn forward_jump_skips_loop_on_zero_cell() {
    let mut engine = engine_for("MOO MOo moo");
    assert_eq!(engine.run(PLENTY), Ok(()));
    assert!(!engine.aborted());
    // The loop body never ran: the cell was never decremented from zero's
    // saturated floor, and the whole program completed.
    assert_eq!(engine.memory(), &[0]);
    assert_eq!(engine.program_idx(), 3);
}

#[test]
fn backward_jump_reenters_and_exits_loop() {
    // cell = 1: the forward jump falls through, the loop body zeroes the
    // cell, and the backward jump re-evaluates the forward jump, which now
    // exits past the loop.
    let mut engine = engine_for("MoO MOO OOO moo");
    assert_eq!(engine.run(PLENTY), Ok(()));
    assert!(engine.completed());
    assert!(!engine.aborted());
    assert_eq!(engine.current_value(), 0);
    assert_eq!(engine.program_idx(), 4);
}

#[test]
fn adjacent_empty_loops_match_up() {
    // The forward scan's extra decrement when the previous instruction was
    // itself a forward jump lets this adjacent pair complete.
    let mut engine = engine_for("MOO MOO moo moo");
    assert_eq!(engine.run(PLENTY), Ok(()));
    assert!(engine.completed());
    assert!(!engine.aborted());
}

#[test]
fn lone_backward_jump_fails_beginless() {
    let mut engine = engine_for("moo");
    assert_eq!(engine.run(PLENTY), Err(Error::BeginlessJumpBackward));
    assert!(engine.aborted());
    assert!(engine.completed());
    assert_eq!(engine.program_idx(), 0);
}

#[test]
fn lone_forward_jump_fails_endless() {
    let mut engine = engine_for("MOO");
    assert_eq!(engine.run(PLENTY), Err(Error::EndlessJumpForward));
    assert!(engine.aborted());
    assert_eq!(engine.program_idx(), 0);
}

#[test]
fn char_gate_reads_into_a_zero_cell() {
    let mut engine = engine_with_input("Moo", vec![], vec!['A']);
    assert_eq!(engine.run(PLENTY), Ok(()));
    assert!(!engine.aborted());
    assert_eq!(engine.memory(), &[65]);
}

#[test]
fn char_gate_writes_a_nonzero_cell() {
    let written = Rc::new(RefCell::new(Vec::new()));
    let output = SharedOutput {
        written: Rc::clone(&written),
    };
    let reader = ScriptedInput {
        ints: vec![66],
        chars: vec![],
    };
    let mut engine = Cowlang::new(Program::parse("oom Moo"), reader, output);
    assert_eq!(engine.run(PLENTY), Ok(()));
    assert!(!engine.aborted());
    assert_eq!(*written.borrow(), vec![Written::Char('B')]);
    assert_eq!(engine.current_value(), 66);
}

#[test]
fn char_gate_refuses_an_unwritable_cell() {
    // 0xD800 is a surrogate: no character has that code.
    let mut engine = engine_with_input("oom Moo", vec![0xD800], vec![]);
    assert_eq!(engine.run(PLENTY), Err(Error::UnwritableChar));
    assert!(engine.aborted());
    assert_eq!(engine.program_idx(), 1);
    assert_eq!(engine.current_value(), 0xD800);
}

#[test]
fn int_output_writes_the_cell() {
    let written = Rc::new(RefCell::new(Vec::new()));
    let output = SharedOutput {
        written: Rc::clone(&written),
    };
    let mut engine = Cowlang::new(Program::parse("MoO MoO OOM"), NoIo, output);
    assert_eq!(engine.run(PLENTY), Ok(()));
    assert_eq!(*written.borrow(), vec![Written::Int(2)]);
}

#[test]
fn int_input_reads_into_the_cell() {
    let mut engine = engine_with_input("oom", vec![41], vec![]);
    assert_eq!(engine.run(PLENTY), Ok(()));
    assert_eq!(engine.memory(), &[41]);
}

#[test]
fn failed_reads_are_wrapped_and_terminal() {
    let mut engine = engine_for("oom");
    assert_eq!(engine.run(PLENTY), Err(Error::Io(IoError)));
    assert!(engine.aborted());
    assert_eq!(engine.program_idx(), 0);
    assert_eq!(engine.memory(), &[0]);
}

#[test]
fn failed_writes_are_wrapped_and_terminal() {
    let mut engine = engine_for("MoO OOM");
    assert_eq!(engine.run(PLENTY), Err(Error::Io(IoError)));
    assert!(engine.aborted());
    assert_eq!(engine.program_idx(), 1);
}

#[test]
fn advance_is_a_no_op_once_complete() {
    let mut engine = engine_for("MoO");
    assert_eq!(engine.advance(), Ok(()));
    assert!(engine.completed());
    assert_eq!(engine.advance(), Ok(()));
    assert_eq!(engine.current_value(), 1);
    assert_eq!(engine.program_idx(), 1);
}

#[test]
fn advance_is_a_no_op_once_aborted() {
    let mut engine = engine_for("moo MoO");
    assert_eq!(engine.advance(), Err(Error::BeginlessJumpBackward));
    assert!(engine.aborted());
    assert_eq!(engine.advance(), Ok(()));
    assert_eq!(engine.program_idx(), 0);
    assert_eq!(engine.current_value(), 0);
}

#[test]
fn run_honors_its_step_bound() {
    let mut engine = engine_for("MoO MoO MoO");
    assert_eq!(engine.run(0), Ok(()));
    assert!(!engine.completed());
    assert_eq!(engine.current_value(), 0);
    assert_eq!(engine.run(2), Ok(()));
    assert!(!engine.completed());
    assert_eq!(engine.current_value(), 2);
    assert_eq!(engine.run(PLENTY), Ok(()));
    assert!(engine.completed());
    assert_eq!(engine.current_value(), 3);
}

#[test]
fn capabilities_can_be_replaced() {
    let mut engine = engine_with_input("oom oom", vec![7], vec![]);
    assert_eq!(engine.advance(), Ok(()));
    assert_eq!(engine.current_value(), 7);
    engine.with_reader(ScriptedInput {
        ints: vec![9],
        chars: vec![],
    });
    assert_eq!(engine.run(PLENTY), Ok(()));
    assert_eq!(engine.current_value(), 9);

    let first = Rc::new(RefCell::new(Vec::new()));
    let second = Rc::new(RefCell::new(Vec::new()));
    let mut writer_engine = Cowlang::new(
        Program::parse("OOM OOM"),
        NoIo,
        SharedOutput {
            written: Rc::clone(&first),
        },
    );
    assert_eq!(writer_engine.advance(), Ok(()));
    writer_engine.with_writer(SharedOutput {
        written: Rc::clone(&second),
    });
    assert_eq!(writer_engine.run(PLENTY), Ok(()));
    assert_eq!(*first.borrow(), vec![Written::Int(0)]);
    assert_eq!(*second.borrow(), vec![Written::Int(0)]);
}
