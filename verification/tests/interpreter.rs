use bft::{
    Action, BrainfuckInterpreter, BrainfuckProgram, Event, RunSummary, RuntimeError,
    RuntimeErrorKind,
};

const PLENTY: u64 = 10_000_000;

fn program(content: &str) -> BrainfuckProgram {
    BrainfuckProgram::from_string("test", content).unwrap()
}

fn run(content: &str, input: &[u8]) -> (Result<RunSummary, RuntimeError>, Vec<u8>) {
    let mut interpreter = BrainfuckInterpreter::new(0, true);
    let mut output = Vec::new();
    let r = interpreter.interpret(&program(content), input, &mut output, PLENTY);
    (r, output)
}

#[test]
fn new_interpreter_is_fresh() {
    let interpreter = BrainfuckInterpreter::new(50, false);
    assert_eq!(interpreter.instruction_pointer(), 0);
    assert_eq!(interpreter.tape().len(), 50);
    assert_eq!(interpreter.tape().cursor(), 0);
    assert!(!interpreter.tape().is_expandable());
    assert!(interpreter.tape().cells().iter().all(|&cell| cell == 0));
}

#[test]
fn new_interpreter_of_size_zero_has_the_default_tape() {
    let interpreter = BrainfuckInterpreter::new(0, true);
    assert_eq!(interpreter.tape().len(), 30_000);
    assert!(interpreter.tape().is_expandable());
}

#[test]
fn three_increments_and_an_output() {
    let (r, output) = run("+++.", &[]);
    assert_eq!(r, Ok(RunSummary { halted: true, steps: 4, consumed: 0 }));
    assert_eq!(output, vec![3]);
}

#[test]
fn echo_until_a_zero_byte() {
    let (r, output) = run(",[.,]", b"hello\0world");
    assert_eq!(r, Ok(RunSummary { halted: true, steps: 17, consumed: 6 }));
    assert_eq!(output, b"hello");
}

#[test]
fn end_of_input_leaves_the_cell_unchanged() {
    let mut interpreter = BrainfuckInterpreter::new(1, false);
    let mut output = Vec::new();
    let r = interpreter.interpret(&program("+++,."), &[], &mut output, PLENTY);
    assert_eq!(r, Ok(RunSummary { halted: true, steps: 5, consumed: 0 }));
    assert_eq!(output, vec![3]);
}

#[test]
fn echo_without_a_zero_byte_goes_on_with_the_last_byte() {
    let mut interpreter = BrainfuckInterpreter::new(1, false);
    let mut output = Vec::new();
    let r = interpreter.interpret(&program(",[.,]"), b"ab", &mut output, 12);
    assert_eq!(r, Ok(RunSummary { halted: false, steps: 12, consumed: 2 }));
    assert_eq!(output, b"abbb");
}

#[test]
fn empty_loop_on_a_zero_cell_is_skipped() {
    let mut interpreter = BrainfuckInterpreter::new(0, false);
    let mut output = Vec::new();
    let r = interpreter.interpret(&program("[]"), &[], &mut output, PLENTY);
    assert_eq!(r, Ok(RunSummary { halted: true, steps: 1, consumed: 0 }));
    assert_eq!(output, vec![]);
    assert_eq!(interpreter.instruction_pointer(), 2);
}

#[test]
fn empty_program_halts_at_once() {
    let (r, output) = run("only a comment", b"unread");
    assert_eq!(r, Ok(RunSummary { halted: true, steps: 0, consumed: 0 }));
    assert_eq!(output, vec![]);
}

#[test]
fn loop_runs_until_the_cell_is_zero() {
    let (r, output) = run("+++[>++<-]>.", &[]);
    assert_eq!(r.unwrap().halted, true);
    assert_eq!(output, vec![6]);
}

#[test]
fn loop_end_jumps_back_past_the_loop_start() {
    // The loop body runs twice; the loop start is carried out only once.
    let (r, _) = run("++[-]", &[]);
    assert_eq!(r, Ok(RunSummary { halted: true, steps: 7, consumed: 0 }));
}

#[test]
fn nested_loops() {
    let (r, output) = run("++[>+++[>++++<-]<-]>>.", &[]);
    assert!(r.unwrap().halted);
    assert_eq!(output, vec![24]);
}

#[test]
fn cells_wrap_round_in_a_run() {
    let (_, output) = run("-.+.", &[]);
    assert_eq!(output, vec![255, 0]);
}

#[test]
fn hello_world() {
    let source = "++++++++[>++++[>++>+++>+++>+<<<<-]>+>+>->>+[<]<-]>>.>---.+++++++..+++.\
                  >>.<-.<.+++.------.--------.>>+.>++.";
    let (r, output) = run(source, &[]);
    assert!(r.unwrap().halted);
    assert_eq!(output, b"Hello World!\n");
}

#[test]
fn input_is_stored_in_the_cell() {
    let mut interpreter = BrainfuckInterpreter::new(4, false);
    let mut output = Vec::new();
    let r = interpreter.interpret(&program(",>,>,"), &[7, 8, 9, 10], &mut output, PLENTY);
    assert_eq!(r, Ok(RunSummary { halted: true, steps: 5, consumed: 3 }));
    assert_eq!(interpreter.tape().cells(), &[7, 8, 9, 0]);
    assert_eq!(interpreter.tape().cursor(), 2);
}

#[test]
fn output_is_appended() {
    let mut interpreter = BrainfuckInterpreter::new(1, false);
    let mut output = vec![42];
    interpreter
        .interpret(&program("+."), &[], &mut output, PLENTY)
        .unwrap();
    assert_eq!(output, vec![42, 1]);
}

#[test]
fn moving_left_at_the_start_fails() {
    let mut interpreter = BrainfuckInterpreter::new(0, true);
    let mut output = Vec::new();
    let r = interpreter.interpret(&program("+.\n  <+."), &[], &mut output, PLENTY);
    assert_eq!(
        r,
        Err(RuntimeError { kind: RuntimeErrorKind::TapeUnderflow, line: 2, column: 3 })
    );
    assert_eq!(output, vec![1]);
    assert_eq!(interpreter.instruction_pointer(), 2);
    assert_eq!(interpreter.tape().cursor(), 0);
    assert_eq!(interpreter.tape().read(), 1);
}

#[test]
fn moving_right_on_a_fixed_tape_of_one_cell_fails() {
    let mut interpreter = BrainfuckInterpreter::new(1, false);
    let mut output = Vec::new();
    let r = interpreter.interpret(&program("+>"), &[], &mut output, PLENTY);
    assert_eq!(
        r,
        Err(RuntimeError { kind: RuntimeErrorKind::TapeOverflow, line: 1, column: 2 })
    );
    assert_eq!(interpreter.instruction_pointer(), 1);
    assert_eq!(interpreter.tape().cells(), &[1]);
}

#[test]
fn moving_right_on_an_expandable_tape_grows_it() {
    let mut interpreter = BrainfuckInterpreter::new(1, true);
    let mut output = Vec::new();
    let r = interpreter.interpret(&program("+>++>+++>"), &[], &mut output, PLENTY);
    assert!(r.unwrap().halted);
    assert_eq!(interpreter.tape().cells(), &[1, 2, 3, 0]);
    assert_eq!(interpreter.tape().cursor(), 3);
}

#[test]
fn endless_loop_uses_up_its_steps() {
    let mut interpreter = BrainfuckInterpreter::new(1, false);
    let mut output = Vec::new();
    let r = interpreter.interpret(&program("+[]"), &[], &mut output, 1000);
    assert_eq!(r, Ok(RunSummary { halted: false, steps: 1000, consumed: 0 }));
    assert!(!interpreter.is_halted(&program("+[]")));
}

#[test]
fn no_steps_allowed() {
    let mut interpreter = BrainfuckInterpreter::new(1, false);
    let mut output = Vec::new();
    let r = interpreter.interpret(&program("+"), &[], &mut output, 0);
    assert_eq!(r, Ok(RunSummary { halted: false, steps: 0, consumed: 0 }));
    assert_eq!(interpreter.tape().read(), 0);
    let r = interpreter.interpret(&program(""), &[], &mut output, 0);
    assert_eq!(r, Ok(RunSummary { halted: true, steps: 0, consumed: 0 }));
}

#[test]
fn halting_with_the_last_step_allowed() {
    let mut interpreter = BrainfuckInterpreter::new(1, false);
    let mut output = Vec::new();
    let r = interpreter.interpret(&program("++"), &[], &mut output, 2);
    assert_eq!(r, Ok(RunSummary { halted: true, steps: 2, consumed: 0 }));
}

#[test]
fn resume_goes_on_where_the_run_stopped() {
    let p = program("+++++.");
    let mut interpreter = BrainfuckInterpreter::new(1, false);
    let mut output = Vec::new();
    let r = interpreter.interpret(&p, &[], &mut output, 2);
    assert_eq!(r, Ok(RunSummary { halted: false, steps: 2, consumed: 0 }));
    assert_eq!(interpreter.instruction_pointer(), 2);
    let r = interpreter.resume(&p, &[], &mut output, PLENTY);
    assert_eq!(r, Ok(RunSummary { halted: true, steps: 4, consumed: 0 }));
    assert_eq!(output, vec![5]);
}

#[test]
fn programs_are_chained_on_one_tape() {
    let mut interpreter = BrainfuckInterpreter::new(2, false);
    let mut output = Vec::new();
    interpreter
        .interpret(&program("+++>++"), &[], &mut output, PLENTY)
        .unwrap();
    interpreter
        .interpret(&program(".<."), &[], &mut output, PLENTY)
        .unwrap();
    assert_eq!(output, vec![2, 3]);
}

#[test]
fn reset_clears_tape_and_pointer() {
    let mut interpreter = BrainfuckInterpreter::new(2, true);
    let mut output = Vec::new();
    interpreter
        .interpret(&program("+>+>+>+"), &[], &mut output, PLENTY)
        .unwrap();
    assert_eq!(interpreter.tape().cells(), &[1, 1, 1, 1]);
    assert_eq!(interpreter.instruction_pointer(), 7);
    interpreter.reset();
    assert_eq!(interpreter.instruction_pointer(), 0);
    assert_eq!(interpreter.tape().cells(), &[0, 0]);
    assert_eq!(interpreter.tape().cursor(), 0);
    interpreter
        .interpret(&program("."), &[], &mut output, PLENTY)
        .unwrap();
    assert_eq!(output, vec![0]);
}

#[test]
fn rewind_keeps_the_tape() {
    let mut interpreter = BrainfuckInterpreter::new(2, false);
    let mut output = Vec::new();
    interpreter
        .interpret(&program("+>++"), &[], &mut output, PLENTY)
        .unwrap();
    interpreter.rewind();
    assert_eq!(interpreter.instruction_pointer(), 0);
    assert_eq!(interpreter.tape().cells(), &[1, 2]);
    assert_eq!(interpreter.tape().cursor(), 1);
}

#[test]
fn machine_says_what_it_needs() {
    let p = program("+.,>");
    let mut interpreter = BrainfuckInterpreter::new(1, true);
    assert_eq!(interpreter.next_action(&p), Action::Compute);
    assert_eq!(interpreter.step(&p, Event::Done), Ok(()));
    assert_eq!(interpreter.next_action(&p), Action::Write(1));
    assert_eq!(interpreter.step(&p, Event::Done), Ok(()));
    assert_eq!(interpreter.next_action(&p), Action::Read);
    assert_eq!(interpreter.step(&p, Event::Byte(200)), Ok(()));
    assert_eq!(interpreter.tape().read(), 200);
    assert_eq!(interpreter.next_action(&p), Action::Compute);
    assert_eq!(interpreter.step(&p, Event::Done), Ok(()));
    assert_eq!(interpreter.next_action(&p), Action::Halt);
    assert!(interpreter.is_halted(&p));
    assert_eq!(interpreter.instruction_pointer(), 4);
}

#[test]
fn step_of_a_halted_machine_changes_nothing() {
    let p = program("+");
    let mut interpreter = BrainfuckInterpreter::new(1, false);
    assert_eq!(interpreter.step(&p, Event::Done), Ok(()));
    assert!(interpreter.is_halted(&p));
    for event in [Event::Done, Event::Byte(4), Event::EndOfInput, Event::Failed] {
        assert_eq!(interpreter.step(&p, event), Ok(()));
        assert_eq!(interpreter.instruction_pointer(), 1);
        assert_eq!(interpreter.tape().cells(), &[1]);
    }
}

#[test]
fn failed_input_aborts_the_run() {
    let p = program("+\n+ ,");
    let mut interpreter = BrainfuckInterpreter::new(1, false);
    assert_eq!(interpreter.step(&p, Event::Done), Ok(()));
    assert_eq!(interpreter.step(&p, Event::Done), Ok(()));
    assert_eq!(interpreter.next_action(&p), Action::Read);
    assert_eq!(
        interpreter.step(&p, Event::Failed),
        Err(RuntimeError { kind: RuntimeErrorKind::IOError, line: 2, column: 3 })
    );
    assert_eq!(interpreter.instruction_pointer(), 2);
    assert_eq!(interpreter.tape().read(), 2);
}

#[test]
fn failed_output_aborts_the_run() {
    let p = program("+.");
    let mut interpreter = BrainfuckInterpreter::new(1, false);
    assert_eq!(interpreter.step(&p, Event::Done), Ok(()));
    assert_eq!(interpreter.next_action(&p), Action::Write(1));
    assert_eq!(
        interpreter.step(&p, Event::Failed),
        Err(RuntimeError { kind: RuntimeErrorKind::IOError, line: 1, column: 2 })
    );
    assert_eq!(interpreter.instruction_pointer(), 1);
    assert_eq!(interpreter.next_action(&p), Action::Write(1));
}

#[test]
fn failure_is_of_no_account_without_input_or_output() {
    let p = program("+");
    let mut interpreter = BrainfuckInterpreter::new(1, false);
    assert_eq!(interpreter.step(&p, Event::Failed), Ok(()));
    assert_eq!(interpreter.tape().read(), 1);
}

#[test]
fn input_without_a_byte_leaves_the_cell() {
    let p = program("+,,");
    let mut interpreter = BrainfuckInterpreter::new(1, false);
    assert_eq!(interpreter.step(&p, Event::Done), Ok(()));
    assert_eq!(interpreter.step(&p, Event::EndOfInput), Ok(()));
    assert_eq!(interpreter.tape().read(), 1);
    assert_eq!(interpreter.step(&p, Event::Done), Ok(()));
    assert_eq!(interpreter.tape().read(), 1);
    assert!(interpreter.is_halted(&p));
}

#[test]
fn loop_start_jumps_past_the_loop_end() {
    let p = program("[+]-");
    let mut interpreter = BrainfuckInterpreter::new(1, false);
    assert_eq!(interpreter.step(&p, Event::Done), Ok(()));
    assert_eq!(interpreter.instruction_pointer(), 3);
    assert_eq!(interpreter.tape().read(), 0);
}

#[test]
fn loop_start_enters_on_a_cell_that_is_not_zero() {
    let p = program("+[-]");
    let mut interpreter = BrainfuckInterpreter::new(1, false);
    assert_eq!(interpreter.step(&p, Event::Done), Ok(()));
    assert_eq!(interpreter.step(&p, Event::Done), Ok(()));
    assert_eq!(interpreter.instruction_pointer(), 2);
}

#[test]
fn loop_end_leaves_on_a_zero_cell() {
    let p = program("+[-]+");
    let mut interpreter = BrainfuckInterpreter::new(1, false);
    for _ in 0..3 {
        assert_eq!(interpreter.step(&p, Event::Done), Ok(()));
    }
    assert_eq!(interpreter.instruction_pointer(), 3);
    assert_eq!(interpreter.tape().read(), 0);
    assert_eq!(interpreter.step(&p, Event::Done), Ok(()));
    assert_eq!(interpreter.instruction_pointer(), 4);
}

#[test]
fn loop_end_jumps_back_on_a_cell_that_is_not_zero() {
    let p = program("++[-]");
    let mut interpreter = BrainfuckInterpreter::new(1, false);
    for _ in 0..4 {
        assert_eq!(interpreter.step(&p, Event::Done), Ok(()));
    }
    assert_eq!(interpreter.instruction_pointer(), 4);
    assert_eq!(interpreter.tape().read(), 1);
    assert_eq!(interpreter.step(&p, Event::Done), Ok(()));
    assert_eq!(interpreter.instruction_pointer(), 3);
}
