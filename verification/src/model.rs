//! The mathematical model of the machine: its state, what one instruction
//! does to it, and what a run of many instructions is.
//!
//! Everything here is specification. The executable machine is proved to
//! follow it step for step.

use vstd::prelude::*;
use crate::symbol::{
    is_text_byte, symbol_of, Symbol, BYTE_FOR_CLOSE, BYTE_FOR_OPEN, BYTE_LOOP_CLOSE,
    BYTE_LOOP_OPEN,
};

verus! {

/// Number of cells on the tape.
pub const TAPE_SIZE: usize = 4096;

/// Why an execution was aborted. A fault is final: the machine does not
/// recover from it, and its output is not handed out.
#[derive(Clone, Copy, Debug, PartialEq, Eq, Structural)]
pub enum Fault {
    /// A cell was accessed through a pointer or iterator beyond the tape.
    TapeOutOfBounds,
    /// A program byte that is no text by itself (0x80 and above) was reached.
    Decode,
    /// `,` found the input exhausted.
    InputExhausted,
    /// A loop was to be skipped, and the program ended before its closing bracket.
    UnclosedLoop,
    /// `}` found the iterator's cell at 0: the count-down has no wraparound.
    CellUnderflow,
}

/// Where a machine stands.
#[derive(Clone, Copy, Debug, PartialEq, Eq, Structural)]
pub enum Status {
    /// The next instruction can be dispatched.
    Running,
    /// The machine has met a `,` and waits to be handed a byte.
    AwaitingInput,
    /// The execution has ended: the program ran off its end, or a closing
    /// bracket was met outside every loop body.
    Halted,
    /// The execution was aborted.
    Faulted(Fault),
}

/// `+` on a cell: one more, 255 wraps to 0.
pub open spec fn incremented(cell: u8) -> u8 {
    if cell == 255 {
        0
    } else {
        (cell + 1) as u8
    }
}

/// `-` on a cell: one less, 0 wraps to 255.
pub open spec fn decremented(cell: u8) -> u8 {
    if cell == 0 {
        255
    } else {
        (cell - 1) as u8
    }
}

/// A cursor moved one cell up. Cursors are 16 bits wide and wrap; one that
/// left the tape faults only when a cell is accessed through it.
pub open spec fn cursor_up(cursor: u16) -> u16 {
    if cursor == 0xffff {
        0
    } else {
        (cursor + 1) as u16
    }
}

/// A cursor moved one cell down, 0 wrapping to 65535.
pub open spec fn cursor_down(cursor: u16) -> u16 {
    if cursor == 0 {
        0xffff
    } else {
        (cursor - 1) as u16
    }
}

/// Looks for the bracket that closes a loop. The search reads the program
/// from `from` on and stands `depth` bodies deep: a byte `open` goes one
/// deeper, a byte `close` one back, and the `close` that leaves the last body
/// is the answer. Only the two given bytes count, so the two kinds of loop
/// nest without seeing each other. A byte that is no text faults the search,
/// and so does the end of the program.
pub open spec fn closing_bracket(
    program: Seq<u8>,
    from: nat,
    depth: nat,
    open: u8,
    close: u8,
) -> Result<nat, Fault>
    decreases program.len() - from,
{
    if from >= program.len() {
        Err(Fault::UnclosedLoop)
    } else if !is_text_byte(program[from as int]) {
        Err(Fault::Decode)
    } else if program[from as int] == close {
        if depth <= 1 {
            Ok(from)
        } else {
            closing_bracket(program, from + 1, (depth - 1) as nat, open, close)
        }
    } else if program[from as int] == open {
        closing_bracket(program, from + 1, depth + 1, open, close)
    } else {
        closing_bracket(program, from + 1, depth, open, close)
    }
}

/// Everything that an execution consists of at one moment.
pub struct MachineState {
    /// The program; it never changes.
    pub program: Seq<u8>,
    /// Index of the next instruction.
    pub ip: nat,
    /// The loop bodies that are running, outermost first: for each the index
    /// of its opening bracket.
    pub frames: Seq<nat>,
    /// The cells.
    pub tape: Seq<u8>,
    /// The data pointer.
    pub ptr: u16,
    /// The iterator register of the counted loop. It addresses cell 0 until
    /// a `{` assigns it.
    pub iterator: u16,
    /// Whether a `{` has assigned the iterator yet.
    pub iterator_set: bool,
    /// The bytes written so far.
    pub output: Seq<u8>,
    /// Where the machine stands.
    pub status: Status,
}

impl MachineState {
    /// The machine before its first instruction: a tape of zeros, both
    /// cursors at 0, no output. An empty program has ended at once.
    pub open spec fn initial(program: Seq<u8>) -> MachineState {
        MachineState {
            program,
            ip: 0,
            frames: Seq::empty(),
            tape: Seq::new(TAPE_SIZE as nat, |i: int| 0u8),
            ptr: 0,
            iterator: 0,
            iterator_set: false,
            output: Seq::empty(),
            status: if program.len() > 0 {
                Status::Running
            } else {
                Status::Halted
            },
        }
    }

    /// The machine with its instruction pointer at `ip`: running if there is
    /// an instruction, ended if `ip` is past the program.
    pub open spec fn at(self, ip: nat) -> MachineState {
        MachineState {
            ip,
            status: if ip < self.program.len() {
                Status::Running
            } else {
                Status::Halted
            },
            ..self
        }
    }

    /// The machine aborted by `fault`, otherwise as it was.
    pub open spec fn fault(self, fault: Fault) -> MachineState {
        MachineState { status: Status::Faulted(fault), ..self }
    }

    /// The machine with `value` in cell `index`.
    pub open spec fn store(self, index: u16, value: u8) -> MachineState {
        MachineState { tape: self.tape.update(index as int, value), ..self }
    }

    /// Entering a loop body: a frame for the bracket at `ip` is opened and
    /// the body's first instruction is next.
    pub open spec fn enter(self) -> MachineState {
        MachineState { frames: self.frames.push(self.ip), ..self }.at(self.ip + 1)
    }

    /// Skipping a loop body: the instruction behind the closing bracket is
    /// next, or the search for that bracket faults.
    pub open spec fn skip(self, open: u8, close: u8) -> MachineState {
        match closing_bracket(self.program, self.ip + 1, 1, open, close) {
            Ok(bracket) => self.at(bracket + 1),
            Err(fault) => self.fault(fault),
        }
    }

    /// Meeting a closing bracket: the innermost frame ends and its opening
    /// bracket is next, to test its condition anew. Outside every body the
    /// execution ends.
    pub open spec fn leave(self) -> MachineState {
        if self.frames.len() == 0 {
            MachineState { status: Status::Halted, ..self }
        } else {
            MachineState { frames: self.frames.drop_last(), ..self }.at(self.frames.last())
        }
    }

    /// The cell that `{` tests and `}` counts down: the iterator's, and for
    /// a `{` that finds the iterator unassigned the data pointer's.
    pub open spec fn counted_cell(self) -> u16 {
        if self.iterator_set {
            self.iterator
        } else {
            self.ptr
        }
    }

    /// What `{` does.
    pub open spec fn for_open(self) -> MachineState {
        let cell = self.counted_cell();
        if cell >= TAPE_SIZE {
            self.fault(Fault::TapeOutOfBounds)
        } else if self.tape[cell as int] != 0 {
            MachineState {
                iterator: cell,
                iterator_set: true,
                ptr: cursor_up(self.ptr),
                ..self
            }.enter()
        } else {
            match closing_bracket(self.program, self.ip + 1, 1, BYTE_FOR_OPEN, BYTE_FOR_CLOSE) {
                Ok(bracket) => MachineState {
                    iterator: cursor_down(cell),
                    iterator_set: true,
                    ..self
                }.at(bracket + 1),
                Err(fault) => self.fault(fault),
            }
        }
    }

    /// What `}` does.
    pub open spec fn for_close(self) -> MachineState {
        if self.iterator >= TAPE_SIZE {
            self.fault(Fault::TapeOutOfBounds)
        } else if self.tape[self.iterator as int] == 0 {
            self.fault(Fault::CellUnderflow)
        } else {
            self.store(
                self.iterator,
                (self.tape[self.iterator as int] - 1) as u8,
            ).leave()
        }
    }

    /// What holds of every machine that an execution can come to: the tape
    /// has its cells, the instruction pointer is in the program or just
    /// behind it, and the frames are those of brackets that lie one inside
    /// the other before the instruction pointer.
    pub open spec fn well_formed(self) -> bool {
        &&& self.tape.len() == TAPE_SIZE
        &&& self.ip <= self.program.len()
        &&& (self.status == Status::Running ==> self.ip < self.program.len())
        &&& forall|i: int| 0 <= i < self.frames.len() ==> #[trigger] self.frames[i] < self.ip
        &&& forall|i: int, j: int|
            0 <= i < j < self.frames.len() ==> #[trigger] self.frames[i] < #[trigger] self.frames[j]
    }

    /// What the instruction `symbol` does to a running machine that stands
    /// on it.
    pub open spec fn execute(self, symbol: Symbol) -> MachineState {
        match symbol {
            Symbol::Right => MachineState { ptr: cursor_up(self.ptr), ..self }.at(self.ip + 1),
            Symbol::Left => MachineState { ptr: cursor_down(self.ptr), ..self }.at(self.ip + 1),
            Symbol::Increment => if self.ptr < TAPE_SIZE {
                self.store(self.ptr, incremented(self.tape[self.ptr as int])).at(self.ip + 1)
            } else {
                self.fault(Fault::TapeOutOfBounds)
            },
            Symbol::Decrement => if self.ptr < TAPE_SIZE {
                self.store(self.ptr, decremented(self.tape[self.ptr as int])).at(self.ip + 1)
            } else {
                self.fault(Fault::TapeOutOfBounds)
            },
            Symbol::Output => if self.ptr < TAPE_SIZE {
                MachineState {
                    output: self.output.push(self.tape[self.ptr as int]),
                    ..self
                }.at(self.ip + 1)
            } else {
                self.fault(Fault::TapeOutOfBounds)
            },
            Symbol::Input => if self.ptr < TAPE_SIZE {
                MachineState { status: Status::AwaitingInput, ip: self.ip + 1, ..self }
            } else {
                self.fault(Fault::TapeOutOfBounds)
            },
            Symbol::LoopOpen => if self.ptr >= TAPE_SIZE {
                self.fault(Fault::TapeOutOfBounds)
            } else if self.tape[self.ptr as int] != 0 {
                self.enter()
            } else {
                self.skip(BYTE_LOOP_OPEN, BYTE_LOOP_CLOSE)
            },
            Symbol::LoopClose => self.leave(),
            Symbol::ForOpen => self.for_open(),
            Symbol::ForClose => self.for_close(),
            Symbol::Ignore => self.at(self.ip + 1),
        }
    }

    /// One step: the instruction at `ip` is decoded and executed. A machine
    /// that is not running does not move.
    pub open spec fn step(self) -> MachineState {
        if self.status != Status::Running {
            self
        } else if self.ip >= self.program.len() {
            MachineState { status: Status::Halted, ..self }
        } else if !is_text_byte(self.program[self.ip as int]) {
            self.fault(Fault::Decode)
        } else {
            self.execute(symbol_of(self.program[self.ip as int]))
        }
    }

    /// The answer to a `,`: the byte goes into the current cell and the
    /// machine runs on; with no byte left the machine faults.
    /// A machine that does not wait for input does not move.
    pub open spec fn supply(self, byte: Option<u8>) -> MachineState {
        if self.status != Status::AwaitingInput {
            self
        } else {
            match byte {
                None => self.fault(Fault::InputExhausted),
                Some(value) => if self.ptr < TAPE_SIZE {
                    self.store(self.ptr, value).at(self.ip)
                } else {
                    self.fault(Fault::TapeOutOfBounds)
                },
            }
        }
    }

    /// The machine after at most `steps` steps: it stops earlier where it
    /// is no longer running.
    pub open spec fn run(self, steps: nat) -> MachineState
        decreases steps,
    {
        if steps == 0 || self.status != Status::Running {
            self
        } else {
            self.step().run((steps - 1) as nat)
        }
    }

    /// How many steps [`Self::run`] takes when it is allowed `steps`.
    pub open spec fn steps_taken(self, steps: nat) -> nat
        decreases steps,
    {
        if steps == 0 || self.status != Status::Running {
            0
        } else {
            1 + self.step().steps_taken((steps - 1) as nat)
        }
    }

    /// One move of an execution that is fed from `input`: a step of a running
    /// machine, or the answer to a waiting one, which takes the first byte
    /// of `input`.
    pub open spec fn advance(self, input: Seq<u8>) -> MachineState {
        match self.status {
            Status::Running => self.step(),
            Status::AwaitingInput => if input.len() > 0 {
                self.supply(Some(input[0]))
            } else {
                self.supply(None)
            },
            _ => self,
        }
    }

    /// The input that is left after [`Self::advance`].
    pub open spec fn unread(self, input: Seq<u8>) -> Seq<u8> {
        if self.status == Status::AwaitingInput && input.len() > 0 {
            input.drop_first()
        } else {
            input
        }
    }

    /// The machine after at most `moves` moves of an execution fed from
    /// `input`.
    pub open spec fn drive(self, input: Seq<u8>, moves: nat) -> MachineState
        decreases moves,
    {
        if moves == 0 {
            self
        } else {
            self.advance(input).drive(self.unread(input), (moves - 1) as nat)
        }
    }
}

} // verus!
