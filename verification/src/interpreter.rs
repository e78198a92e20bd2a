//! The fetch-execute engine.
//!
//! The machine is a tape and an instruction pointer. One step carries out
//! the instruction under the pointer and moves the pointer on; the machine
//! has halted when the pointer stands past the last token.
//!
//! The machine does no reading or writing of its own. Before each step it
//! says what it needs ([`Action`]), the host does it, and the step takes what
//! came of it ([`Event`]). For input and output held in memory,
//! [`BrainfuckInterpreter::interpret`] plays the host.

use vstd::prelude::*;
use crate::error::{RuntimeError, RuntimeErrorKind};
use crate::instruction::RawInstruction;
use crate::loops::{linked, matched};
use crate::program::{lemma_jump_table_involution, BrainfuckProgram, ProgramModel};
use crate::tape::{Tape, TapeModel};

verus! {

/// What the host has to do before the machine takes its next step.
#[derive(Debug, PartialEq, Eq, Clone, Copy)]
pub enum Action {
    /// Nothing more: the machine has halted.
    Halt,
    /// Nothing: the next instruction needs no input or output.
    Compute,
    /// Read one byte of input.
    Read,
    /// Write this byte to the output.
    Write(u8),
}

/// What came of the host's part of a step.
#[derive(Debug, PartialEq, Eq, Clone, Copy)]
pub enum Event {
    /// The byte was written, or there was nothing to do.
    Done,
    /// This byte was read.
    Byte(u8),
    /// The input has no more bytes.
    EndOfInput,
    /// Reading or writing failed.
    Failed,
}

/// How a run in memory ended, short of a failure.
#[derive(Debug, PartialEq, Eq, Clone, Copy)]
pub struct RunSummary {
    /// Whether the machine halted; if not, the run used up its steps.
    pub halted: bool,
    /// The number of steps taken.
    pub steps: u64,
    /// The number of input bytes read.
    pub consumed: usize,
}

/// What a machine is: its tape and the index of the next instruction.
pub struct MachineModel {
    pub tape: TapeModel,
    pub ip: nat,
}

impl MachineModel {
    /// The tape is valid.
    pub open spec fn wf(self) -> bool {
        self.tape.wf()
    }

    /// A machine as it is made: a fresh tape, the pointer at the start.
    pub open spec fn fresh(tape_size: usize, expandable: bool) -> MachineModel {
        MachineModel { tape: TapeModel::fresh(tape_size, expandable), ip: 0 }
    }

    /// The machine with the pointer at the start and the tape as it is.
    pub open spec fn rewound(self) -> MachineModel {
        MachineModel { ip: 0, ..self }
    }

    /// The machine after a reset: the tape as it was made, the pointer at
    /// the start.
    pub open spec fn cleared(self) -> MachineModel {
        MachineModel { tape: self.tape.cleared(), ip: 0 }
    }

    /// Whether the pointer stands past the last token of `program`.
    pub open spec fn halted(self, program: ProgramModel) -> bool {
        self.ip >= program.tokens.len()
    }

    /// The instruction under the pointer.
    pub open spec fn fetch(self, program: ProgramModel) -> RawInstruction {
        program.tokens[self.ip as int].instruction
    }

    /// What the host has to do before the next step.
    pub open spec fn action(self, program: ProgramModel) -> Action {
        if self.halted(program) {
            Action::Halt
        } else {
            match self.fetch(program) {
                RawInstruction::Input => Action::Read,
                RawInstruction::Output => Action::Write(self.tape.current()),
                _ => Action::Compute,
            }
        }
    }

    /// A failure of the given kind at the instruction under the pointer.
    pub open spec fn fault(self, program: ProgramModel, kind: RuntimeErrorKind) -> RuntimeError {
        RuntimeError {
            kind,
            line: program.tokens[self.ip as int].line_number,
            column: program.tokens[self.ip as int].col_number,
        }
    }

    /// The machine with this tape and the pointer on the next instruction.
    pub open spec fn proceed(self, tape: TapeModel) -> MachineModel {
        MachineModel { tape, ip: self.ip + 1 }
    }

    /// The machine with the pointer just past the partner of the loop
    /// instruction under it.
    pub open spec fn jump(self, program: ProgramModel) -> MachineModel {
        MachineModel { ip: (program.jump_table()[self.ip as int] + 1) as nat, ..self }
    }

    /// One step: the machine after carrying out the instruction under the
    /// pointer, or the failure that aborts the run.
    ///
    /// A halted machine stays as it is. A failed event aborts an input or
    /// output instruction; no other instruction looks at the event. An input
    /// instruction stores the byte of the event, and leaves the cell as it
    /// is if the event holds none.
    pub open spec fn step(self, program: ProgramModel, event: Event) -> Result<
        MachineModel,
        RuntimeError,
    > {
        if self.halted(program) {
            Ok(self)
        } else {
            match self.fetch(program) {
                RawInstruction::IncrementPointer => if self.tape.can_move_right() {
                    Ok(self.proceed(self.tape.moved_right()))
                } else {
                    Err(self.fault(program, RuntimeErrorKind::TapeOverflow))
                },
                RawInstruction::DecrementPointer => if self.tape.can_move_left() {
                    Ok(self.proceed(self.tape.moved_left()))
                } else {
                    Err(self.fault(program, RuntimeErrorKind::TapeUnderflow))
                },
                RawInstruction::Increment => Ok(self.proceed(self.tape.incremented())),
                RawInstruction::Decrement => Ok(self.proceed(self.tape.decremented())),
                RawInstruction::Output => if event == Event::Failed {
                    Err(self.fault(program, RuntimeErrorKind::IOError))
                } else {
                    Ok(self.proceed(self.tape))
                },
                RawInstruction::Input => match event {
                    Event::Failed => Err(self.fault(program, RuntimeErrorKind::IOError)),
                    Event::Byte(byte) => Ok(self.proceed(self.tape.written(byte))),
                    _ => Ok(self.proceed(self.tape)),
                },
                RawInstruction::StartLoop => if self.tape.current() == 0 {
                    Ok(self.jump(program))
                } else {
                    Ok(self.proceed(self.tape))
                },
                RawInstruction::EndLoop => if self.tape.current() != 0 {
                    Ok(self.jump(program))
                } else {
                    Ok(self.proceed(self.tape))
                },
            }
        }
    }
}

/// A run in memory, as far as it has come: the machine, the number of input
/// bytes read, the output so far, and the number of steps taken.
pub struct RunState {
    pub machine: MachineModel,
    pub consumed: nat,
    pub output: Seq<u8>,
    pub steps: nat,
}

/// Why a run in memory stopped.
pub enum Stop {
    /// The machine halted.
    Halted,
    /// The steps allowed were used up.
    OutOfSteps,
    /// A step failed.
    Failed(RuntimeError),
}

impl RunState {
    /// The start of a run: nothing read, nothing taken, and `output` as the
    /// caller handed it over.
    pub open spec fn start(machine: MachineModel, output: Seq<u8>) -> RunState {
        RunState { machine, consumed: 0, output, steps: 0 }
    }

    /// What reading a byte from `input` gives: the next byte, or the end of
    /// the input once all bytes are read.
    pub open spec fn read(self, input: Seq<u8>) -> Event {
        if self.consumed < input.len() {
            Event::Byte(input[self.consumed as int])
        } else {
            Event::EndOfInput
        }
    }

    /// The event that the next step gets when input and output are held in
    /// memory, where nothing fails.
    pub open spec fn event(self, program: ProgramModel, input: Seq<u8>) -> Event {
        match self.machine.action(program) {
            Action::Read => self.read(input),
            _ => Event::Done,
        }
    }

    /// The number of input bytes read after the next step.
    pub open spec fn consumed_after(self, program: ProgramModel, input: Seq<u8>) -> nat {
        if self.machine.action(program) == Action::Read && self.consumed < input.len() {
            self.consumed + 1
        } else {
            self.consumed
        }
    }

    /// The output after the next step.
    pub open spec fn output_after(self, program: ProgramModel) -> Seq<u8> {
        match self.machine.action(program) {
            Action::Write(byte) => self.output.push(byte),
            _ => self.output,
        }
    }

    /// One step of a run in memory.
    pub open spec fn advance(self, program: ProgramModel, input: Seq<u8>) -> Result<
        RunState,
        RuntimeError,
    > {
        match self.machine.step(program, self.event(program, input)) {
            Ok(machine) => Ok(
                RunState {
                    machine,
                    consumed: self.consumed_after(program, input),
                    output: self.output_after(program),
                    steps: self.steps + 1,
                },
            ),
            Err(e) => Err(e),
        }
    }

    /// A run in memory of at most `fuel` steps: where it stops, and why. A
    /// failed step leaves the run where it stood before that step.
    pub open spec fn run(self, program: ProgramModel, input: Seq<u8>, fuel: nat) -> (
        RunState,
        Stop,
    )
        decreases fuel,
    {
        if self.machine.halted(program) {
            (self, Stop::Halted)
        } else if fuel == 0 {
            (self, Stop::OutOfSteps)
        } else {
            match self.advance(program, input) {
                Ok(next) => next.run(program, input, (fuel - 1) as nat),
                Err(e) => (self, Stop::Failed(e)),
            }
        }
    }
}

/// Whether what a run in memory returned and left behind is what `run`
/// says, from the state `start` with at most `fuel` steps.
pub open spec fn run_result(
    start: RunState,
    program: ProgramModel,
    input: Seq<u8>,
    fuel: nat,
    r: Result<RunSummary, RuntimeError>,
    machine: MachineModel,
    output: Seq<u8>,
) -> bool {
    let (end, stop) = start.run(program, input, fuel);
    &&& machine == end.machine
    &&& output == end.output
    &&& match r {
        Ok(summary) => {
            &&& stop == if summary.halted {
                Stop::Halted
            } else {
                Stop::OutOfSteps
            }
            &&& summary.steps == end.steps
            &&& summary.consumed == end.consumed
        },
        Err(e) => stop == Stop::Failed(e),
    }
}

/// Encapsulates the local state of a Brainfuck interpreter.
/// Once created, the interpreter accepts [`BrainfuckProgram`].
pub struct BrainfuckInterpreter {
    tape: Tape,
    instruction_pointer: usize,
}

impl View for BrainfuckInterpreter {
    type V = MachineModel;

    closed spec fn view(&self) -> MachineModel {
        MachineModel { tape: self.tape@, ip: self.instruction_pointer as nat }
    }
}

impl BrainfuckInterpreter {
    /// Whether the interpreter is in a valid state. Every interpreter that
    /// this module hands out is, and every operation keeps it so.
    pub open spec fn wf(&self) -> bool {
        self@.wf()
    }

    /// Creates a new [`BrainfuckInterpreter`] with an initial tape size.
    /// By setting `expandable` to `true`, the interpreter will automatically
    /// expand the tape size as needed if the pointer overflows.
    ///
    /// **note:** Setting `tape_size` to 0 results in the interpreter using
    ///           the default size of 30,000.
    pub fn new(tape_size: usize, expandable: bool) -> (interpreter: BrainfuckInterpreter)
        ensures
            interpreter.wf(),
            interpreter@ == MachineModel::fresh(tape_size, expandable),
    {
        BrainfuckInterpreter { tape: Tape::new(tape_size, expandable), instruction_pointer: 0 }
    }

    /// Resets the state (memory) of the interpreter: the tape as it was
    /// made, the instruction pointer at the start.
    pub fn reset(&mut self)
        requires
            old(self).wf(),
        ensures
            final(self).wf(),
            final(self)@ == old(self)@.cleared(),
    {
        self.instruction_pointer = 0;
        self.tape.reset();
    }

    /// Puts the instruction pointer at the start and leaves the tape as it
    /// is, ready to run a program on what the last one left.
    pub fn rewind(&mut self)
        ensures
            final(self)@ == old(self)@.rewound(),
    {
        self.instruction_pointer = 0;
    }

    /// The tape.
    pub fn tape(&self) -> (tape: &Tape)
        ensures
            tape@ == self@.tape,
    {
        &self.tape
    }

    /// The index of the next instruction.
    pub fn instruction_pointer(&self) -> (ip: usize)
        ensures
            ip == self@.ip,
    {
        self.instruction_pointer
    }

    /// Whether the machine has halted on `program`.
    pub fn is_halted(&self, program: &BrainfuckProgram) -> (halted: bool)
        ensures
            halted == self@.halted(program@),
    {
        self.instruction_pointer >= program.len()
    }

    /// What the host has to do before the next step on `program`.
    pub fn next_action(&self, program: &BrainfuckProgram) -> (action: Action)
        requires
            self.wf(),
        ensures
            action == self@.action(program@),
    {
        let tokens = program.get_tokens();
        if self.instruction_pointer >= tokens.len() {
            return Action::Halt;
        }
        match tokens[self.instruction_pointer].instruction {
            RawInstruction::Input => Action::Read,
            RawInstruction::Output => Action::Write(self.tape.read()),
            _ => Action::Compute,
        }
    }

    /// Takes one step on `program`, given what came of the host's part.
    ///
    /// On a failure the interpreter stays as it was, so that the caller can
    /// inspect it.
    pub fn step(&mut self, program: &BrainfuckProgram, event: Event) -> (r: Result<
        (),
        RuntimeError,
    >)
        requires
            old(self).wf(),
            program.wf(),
        ensures
            final(self).wf(),
            r is Ok <==> old(self)@.step(program@, event) is Ok,
            r is Ok ==> old(self)@.step(program@, event) == Ok::<MachineModel, RuntimeError>(
                final(self)@,
            ),
            r matches Err(e) ==> {
                &&& old(self)@.step(program@, event) == Err::<MachineModel, RuntimeError>(e)
                &&& final(self)@ == old(self)@
            },
    {
        let tokens = program.get_tokens();
        let ip = self.instruction_pointer;
        if ip >= tokens.len() {
            return Ok(());
        }
        let token = tokens[ip];
        let mut next = ip + 1;
        match token.instruction {
            RawInstruction::IncrementPointer => {
                match self.tape.move_right() {
                    Ok(()) => {},
                    Err(e) => {
                        return Err(
                            RuntimeError {
                                kind: e.kind(),
                                line: token.line_number,
                                column: token.col_number,
                            },
                        );
                    },
                }
            },
            RawInstruction::DecrementPointer => {
                match self.tape.move_left() {
                    Ok(()) => {},
                    Err(e) => {
                        return Err(
                            RuntimeError {
                                kind: e.kind(),
                                line: token.line_number,
                                column: token.col_number,
                            },
                        );
                    },
                }
            },
            RawInstruction::Increment => {
                self.tape.increment();
            },
            RawInstruction::Decrement => {
                self.tape.decrement();
            },
            RawInstruction::Output => {
                match event {
                    Event::Failed => {
                        return Err(
                            RuntimeError {
                                kind: RuntimeErrorKind::IOError,
                                line: token.line_number,
                                column: token.col_number,
                            },
                        );
                    },
                    _ => {},
                }
            },
            RawInstruction::Input => {
                match event {
                    Event::Failed => {
                        return Err(
                            RuntimeError {
                                kind: RuntimeErrorKind::IOError,
                                line: token.line_number,
                                column: token.col_number,
                            },
                        );
                    },
                    Event::Byte(byte) => {
                        self.tape.write(byte);
                    },
                    _ => {},
                }
            },
            RawInstruction::StartLoop => {
                if self.tape.read() == 0 {
                    next = program.partner(ip) + 1;
                }
            },
            RawInstruction::EndLoop => {
                if self.tape.read() != 0 {
                    next = program.partner(ip) + 1;
                }
            },
        }
        self.instruction_pointer = next;
        Ok(())
    }

    /// Interprets the given [`BrainfuckProgram`] from its first instruction,
    /// reading from `input` and appending to `output`, for at most
    /// `max_steps` steps.
    ///
    /// **note:** This does not reset the tape state. If you need fresh state,
    ///           use [`BrainfuckInterpreter::reset`]. This is so that multiple
    ///           programs could be chained together.
    ///
    /// The run ends when the machine halts, when the steps are used up, or
    /// with the first step that fails. After a failure the interpreter is as
    /// it was before the failed step, and `output` holds what was written
    /// until then.
    pub fn interpret(
        &mut self,
        program: &BrainfuckProgram,
        input: &[u8],
        output: &mut Vec<u8>,
        max_steps: u64,
    ) -> (r: Result<RunSummary, RuntimeError>)
        requires
            old(self).wf(),
            program.wf(),
        ensures
            final(self).wf(),
            run_result(
                RunState::start(old(self)@.rewound(), old(output)@),
                program@,
                input@,
                max_steps as nat,
                r,
                final(self)@,
                final(output)@,
            ),
    {
        self.rewind();
        self.resume(program, input, output, max_steps)
    }

    /// Goes on interpreting the given [`BrainfuckProgram`] from where the
    /// instruction pointer stands, reading from `input` and appending to
    /// `output`, for at most `max_steps` steps.
    ///
    /// The run ends as that of [`BrainfuckInterpreter::interpret`] does.
    pub fn resume(
        &mut self,
        program: &BrainfuckProgram,
        input: &[u8],
        output: &mut Vec<u8>,
        max_steps: u64,
    ) -> (r: Result<RunSummary, RuntimeError>)
        requires
            old(self).wf(),
            program.wf(),
        ensures
            final(self).wf(),
            run_result(
                RunState::start(old(self)@, old(output)@),
                program@,
                input@,
                max_steps as nat,
                r,
                final(self)@,
                final(output)@,
            ),
    {
        let ghost start = RunState::start(self@, output@);
        let mut steps: u64 = 0;
        let mut consumed: usize = 0;
        while steps < max_steps
            invariant
                self.wf(),
                program.wf(),
                steps <= max_steps,
                consumed <= input@.len(),
                start == RunState::start(old(self)@, old(output)@),
                start.run(program@, input@, max_steps as nat) == (RunState {
                    machine: self@,
                    consumed: consumed as nat,
                    output: output@,
                    steps: steps as nat,
                }).run(program@, input@, (max_steps - steps) as nat),
            decreases max_steps - steps,
        {
            let ghost here = RunState {
                machine: self@,
                consumed: consumed as nat,
                output: output@,
                steps: steps as nat,
            };
            let event = match self.next_action(program) {
                Action::Halt => {
                    return Ok(RunSummary { halted: true, steps, consumed });
                },
                Action::Compute => Event::Done,
                Action::Read => {
                    if consumed < input.len() {
                        let byte = input[consumed];
                        consumed += 1;
                        Event::Byte(byte)
                    } else {
                        Event::EndOfInput
                    }
                },
                Action::Write(byte) => {
                    output.push(byte);
                    Event::Done
                },
            };
            assert(event == here.event(program@, input@));
            match self.step(program, event) {
                Ok(()) => {},
                Err(e) => {
                    return Err(e);
                },
            }
            steps += 1;
        }
        let halted = self.is_halted(program);
        Ok(RunSummary { halted, steps, consumed })
    }
}

/// The pointer never leaves the program: a step from a pointer within the
/// program, or just past its end, leads to such a pointer again, and keeps
/// the tape valid.
pub proof fn lemma_step_stays_in_range(machine: MachineModel, program: ProgramModel, event: Event)
    requires
        machine.wf(),
        program.wf(),
        machine.ip <= program.tokens.len(),
    ensures
        machine.step(program, event) matches Ok(next) ==> next.wf() && next.ip
            <= program.tokens.len(),
{
    if !machine.halted(program) {
        let ip = machine.ip as int;
        assert(program.code()[ip] == program.tokens[ip].instruction);
        if program.is_loop(ip) {
            lemma_jump_table_involution(program, ip);
        }
    }
}

/// A loop is skipped or repeated through its partner: the step at a loop
/// start on a zero cell leads just past the matching loop end, the step at a
/// loop end on any other cell leads just past the matching loop start, and
/// neither touches the tape.
pub proof fn lemma_loop_jumps(machine: MachineModel, program: ProgramModel, event: Event)
    requires
        machine.wf(),
        program.wf(),
        !machine.halted(program),
    ensures
        machine.fetch(program) == RawInstruction::StartLoop && machine.tape.current() == 0 ==> {
            &&& machine.step(program, event) is Ok
            &&& machine.step(program, event)->Ok_0.tape == machine.tape
            &&& matched(
                program.code(),
                machine.ip as int,
                machine.step(program, event)->Ok_0.ip - 1,
            )
        },
        machine.fetch(program) == RawInstruction::EndLoop && machine.tape.current() != 0 ==> {
            &&& machine.step(program, event) is Ok
            &&& machine.step(program, event)->Ok_0.tape == machine.tape
            &&& matched(
                program.code(),
                machine.step(program, event)->Ok_0.ip - 1,
                machine.ip as int,
            )
        },
{
    let ip = machine.ip as int;
    assert(program.code()[ip] == program.tokens[ip].instruction);
    if program.is_loop(ip) {
        lemma_jump_table_involution(program, ip);
        assert(linked(program.code(), program.jumps, ip));
    }
}

/// What holds of every run in memory, however it ends: the tape stays
/// valid and the pointer within the program, no more is read than the input
/// holds, no more steps are taken than allowed, what was written stays
/// written, and the run ends as halted exactly when the machine has halted.
pub proof fn lemma_run_invariants(
    start: RunState,
    program: ProgramModel,
    input: Seq<u8>,
    fuel: nat,
)
    requires
        start.machine.wf(),
        program.wf(),
        start.machine.ip <= program.tokens.len(),
        start.consumed <= input.len(),
    ensures
        ({
            let (end, stop) = start.run(program, input, fuel);
            &&& end.machine.wf()
            &&& end.machine.ip <= program.tokens.len()
            &&& start.consumed <= end.consumed <= input.len()
            &&& start.steps <= end.steps <= start.steps + fuel
            &&& start.output.is_prefix_of(end.output)
            &&& stop == Stop::Halted <==> end.machine.halted(program)
            &&& stop == Stop::OutOfSteps ==> end.steps == start.steps + fuel
        }),
    decreases fuel,
{
    if !start.machine.halted(program) && fuel > 0 {
        lemma_step_stays_in_range(start.machine, program, start.event(program, input));
        match start.advance(program, input) {
            Ok(next) => {
                lemma_run_invariants(next, program, input, (fuel - 1) as nat);
            },
            Err(_) => {},
        }
    }
}

} // verus!
