//! The executable machine. Each of its operations is proved to do what the
//! model says of it.

use vstd::prelude::*;
use crate::model::{
    closing_bracket, cursor_down, cursor_up, decremented, incremented, Fault, MachineState,
    Status, TAPE_SIZE,
};
use crate::symbol::{
    decode, Symbol, BYTE_FOR_CLOSE, BYTE_FOR_OPEN, BYTE_LOOP_CLOSE, BYTE_LOOP_OPEN,
};

verus! {

/// Finds the bracket that closes the loop opened at index `opening`, for the
/// loop kind written with the bytes `open` and `close`. The byte at
/// `opening` itself is not looked at.
pub fn find_closing_bracket(program: &[u8], opening: usize, open: u8, close: u8) -> (found:
    Result<usize, Fault>)
    ensures
        match found {
            Ok(bracket) => bracket < program.len() && closing_bracket(
                program@,
                (opening + 1) as nat,
                1,
                open,
                close,
            ) == Ok::<nat, Fault>(bracket as nat),
            Err(fault) => closing_bracket(program@, (opening + 1) as nat, 1, open, close) == Err::<
                nat,
                Fault,
            >(fault),
        },
{
    if opening >= program.len() {
        return Err(Fault::UnclosedLoop);
    }
    let first: usize = opening + 1;
    let mut at: usize = first;
    let mut depth: usize = 1;
    while at < program.len()
        invariant
            first == opening + 1,
            first <= at,
            1 <= depth <= at - first + 1,
            closing_bracket(program@, at as nat, depth as nat, open, close) == closing_bracket(
                program@,
                first as nat,
                1,
                open,
                close,
            ),
        decreases program.len() - at,
    {
        let byte: u8 = program[at];
        if byte >= 0x80 {
            return Err(Fault::Decode);
        }
        if byte == close {
            if depth == 1 {
                return Ok(at);
            }
            depth = depth - 1;
        } else if byte == open {
            depth = depth + 1;
        }
        at = at + 1;
    }
    Err(Fault::UnclosedLoop)
}

/// A cell after `+`.
fn cell_incremented(cell: u8) -> (next: u8)
    ensures
        next == incremented(cell),
{
    if cell == 0xff {
        0x00
    } else {
        cell + 1
    }
}

/// A cell after `-`.
fn cell_decremented(cell: u8) -> (next: u8)
    ensures
        next == decremented(cell),
{
    if cell == 0x00 {
        0xff
    } else {
        cell - 1
    }
}

/// A cursor after one move up.
fn cursor_moved_up(cursor: u16) -> (next: u16)
    ensures
        next == cursor_up(cursor),
{
    if cursor == 0xffff {
        0
    } else {
        cursor + 1
    }
}

/// A cursor after one move down.
fn cursor_moved_down(cursor: u16) -> (next: u16)
    ensures
        next == cursor_down(cursor),
{
    if cursor == 0 {
        0xffff
    } else {
        cursor - 1
    }
}

/// A machine with its program: the tape, the two cursors, the instruction
/// pointer, the frames of the running loop bodies and the output written so
/// far.
///
/// The frames are kept on a stack of their own, not on the call stack: a
/// loop may run for any number of iterations, and the depth of the stack is
/// the depth to which loop bodies are nested at that moment.
pub struct Machine {
    program: Vec<u8>,
    ip: usize,
    frames: Vec<usize>,
    tape: [u8; 4096],
    ptr: u16,
    iterator: u16,
    iterator_set: bool,
    output: Vec<u8>,
    status: Status,
}

impl View for Machine {
    type V = MachineState;

    closed spec fn view(&self) -> MachineState {
        MachineState {
            program: self.program@,
            ip: self.ip as nat,
            frames: self.frames@.map_values(|bracket: usize| bracket as nat),
            tape: self.tape@,
            ptr: self.ptr,
            iterator: self.iterator,
            iterator_set: self.iterator_set,
            output: self.output@,
            status: self.status,
        }
    }
}

impl Machine {
    /// A machine that is about to execute the first byte of `program` on a
    /// tape of zeros.
    pub fn new(program: Vec<u8>) -> (machine: Machine)
        ensures
            machine@ == MachineState::initial(program@),
    {
        let status = if program.len() > 0 {
            Status::Running
        } else {
            Status::Halted
        };
        let machine = Machine {
            program,
            ip: 0,
            frames: Vec::new(),
            tape: [0u8;4096],
            ptr: 0,
            iterator: 0,
            iterator_set: false,
            output: Vec::new(),
            status,
        };
        proof {
            assert(machine@.tape =~= MachineState::initial(program@).tape);
            assert(machine@.frames =~= MachineState::initial(program@).frames);
        }
        machine
    }

    /// Where the machine stands.
    pub fn status(&self) -> (status: Status)
        ensures
            status == self@.status,
    {
        self.status
    }

    /// The output written so far.
    pub fn output(&self) -> (output: &Vec<u8>)
        ensures
            output@ == self@.output,
    {
        &self.output
    }

    /// Ends the machine's life and hands out what it has written.
    pub fn into_output(self) -> (output: Vec<u8>)
        ensures
            output@ == self@.output,
    {
        self.output
    }

    /// The data pointer.
    pub fn pointer(&self) -> (ptr: u16)
        ensures
            ptr == self@.ptr,
    {
        self.ptr
    }

    /// The iterator register, if a `{` has assigned it yet.
    pub fn iterator(&self) -> (iterator: Option<u16>)
        ensures
            iterator == if self@.iterator_set {
                Some(self@.iterator)
            } else {
                None::<u16>
            },
    {
        if self.iterator_set {
            Some(self.iterator)
        } else {
            None
        }
    }

    /// Index of the next instruction.
    pub fn instruction_pointer(&self) -> (ip: usize)
        ensures
            ip == self@.ip,
    {
        self.ip
    }

    /// How many loop bodies are running, one inside the other.
    pub fn depth(&self) -> (depth: usize)
        ensures
            depth == self@.frames.len(),
    {
        self.frames.len()
    }

    /// The value of cell `index`, or `None` beyond the tape.
    pub fn cell(&self, index: usize) -> (cell: Option<u8>)
        ensures
            self@.tape.len() == TAPE_SIZE,
            cell == if index < TAPE_SIZE {
                Some(self@.tape[index as int])
            } else {
                None::<u8>
            },
    {
        if index < TAPE_SIZE {
            Some(self.tape[index])
        } else {
            None
        }
    }

    fn jump(&mut self, ip: usize)
        ensures
            final(self)@ == old(self)@.at(ip as nat),
    {
        self.ip = ip;
        if ip < self.program.len() {
            self.status = Status::Running;
        } else {
            self.status = Status::Halted;
        }
    }

    fn abort(&mut self, fault: Fault)
        ensures
            final(self)@ == old(self)@.fault(fault),
    {
        self.status = Status::Faulted(fault);
    }

    fn store(&mut self, index: u16, value: u8)
        requires
            index < TAPE_SIZE,
        ensures
            final(self)@ == old(self)@.store(index, value),
    {
        self.tape[index as usize] = value;
    }

    fn enter(&mut self)
        requires
            old(self).ip < old(self).program.len(),
        ensures
            final(self)@ == old(self)@.enter(),
    {
        self.frames.push(self.ip);
        proof {
            assert(self@.frames =~= old(self)@.frames.push(old(self)@.ip));
        }
        self.jump(self.ip + 1);
    }

    fn skip(&mut self, open: u8, close: u8)
        ensures
            final(self)@ == old(self)@.skip(open, close),
    {
        match find_closing_bracket(self.program.as_slice(), self.ip, open, close) {
            Ok(bracket) => self.jump(bracket + 1),
            Err(fault) => self.abort(fault),
        }
    }

    fn leave(&mut self)
        ensures
            final(self)@ == old(self)@.leave(),
    {
        match self.frames.pop() {
            None => {
                self.status = Status::Halted;
            },
            Some(bracket) => {
                proof {
                    assert(self@.frames =~= old(self)@.frames.drop_last());
                }
                self.jump(bracket);
            },
        }
    }

    fn for_open(&mut self)
        requires
            old(self).ip < old(self).program.len(),
        ensures
            final(self)@ == old(self)@.for_open(),
    {
        let cell: u16 = if self.iterator_set {
            self.iterator
        } else {
            self.ptr
        };
        if cell as usize >= TAPE_SIZE {
            self.abort(Fault::TapeOutOfBounds);
        } else if self.tape[cell as usize] != 0 {
            self.iterator = cell;
            self.iterator_set = true;
            self.ptr = cursor_moved_up(self.ptr);
            self.enter();
        } else {
            match find_closing_bracket(
                self.program.as_slice(),
                self.ip,
                BYTE_FOR_OPEN,
                BYTE_FOR_CLOSE,
            ) {
                Ok(bracket) => {
                    self.iterator = cursor_moved_down(cell);
                    self.iterator_set = true;
                    self.jump(bracket + 1);
                },
                Err(fault) => self.abort(fault),
            }
        }
    }

    fn for_close(&mut self)
        ensures
            final(self)@ == old(self)@.for_close(),
    {
        if self.iterator as usize >= TAPE_SIZE {
            self.abort(Fault::TapeOutOfBounds);
        } else {
            let count: u8 = self.tape[self.iterator as usize];
            if count == 0 {
                self.abort(Fault::CellUnderflow);
            } else {
                self.store(self.iterator, count - 1);
                self.leave();
            }
        }
    }

    fn execute(&mut self, symbol: Symbol)
        requires
            old(self).ip < old(self).program.len(),
        ensures
            final(self)@ == old(self)@.execute(symbol),
    {
        match symbol {
            Symbol::Right => {
                self.ptr = cursor_moved_up(self.ptr);
                self.jump(self.ip + 1);
            },
            Symbol::Left => {
                self.ptr = cursor_moved_down(self.ptr);
                self.jump(self.ip + 1);
            },
            Symbol::Increment => {
                if (self.ptr as usize) < TAPE_SIZE {
                    let cell: u8 = self.tape[self.ptr as usize];
                    self.store(self.ptr, cell_incremented(cell));
                    self.jump(self.ip + 1);
                } else {
                    self.abort(Fault::TapeOutOfBounds);
                }
            },
            Symbol::Decrement => {
                if (self.ptr as usize) < TAPE_SIZE {
                    let cell: u8 = self.tape[self.ptr as usize];
                    self.store(self.ptr, cell_decremented(cell));
                    self.jump(self.ip + 1);
                } else {
                    self.abort(Fault::TapeOutOfBounds);
                }
            },
            Symbol::Output => {
                if (self.ptr as usize) < TAPE_SIZE {
                    let cell: u8 = self.tape[self.ptr as usize];
                    self.output.push(cell);
                    self.jump(self.ip + 1);
                } else {
                    self.abort(Fault::TapeOutOfBounds);
                }
            },
            Symbol::Input => {
                if (self.ptr as usize) < TAPE_SIZE {
                    self.ip = self.ip + 1;
                    self.status = Status::AwaitingInput;
                } else {
                    self.abort(Fault::TapeOutOfBounds);
                }
            },
            Symbol::LoopOpen => {
                if self.ptr as usize >= TAPE_SIZE {
                    self.abort(Fault::TapeOutOfBounds);
                } else if self.tape[self.ptr as usize] != 0 {
                    self.enter();
                } else {
                    self.skip(BYTE_LOOP_OPEN, BYTE_LOOP_CLOSE);
                }
            },
            Symbol::LoopClose => self.leave(),
            Symbol::ForOpen => self.for_open(),
            Symbol::ForClose => self.for_close(),
            Symbol::Ignore => self.jump(self.ip + 1),
        }
    }

    /// Dispatches one instruction. A machine that is not running is left as
    /// it is.
    pub fn step(&mut self)
        ensures
            final(self)@ == old(self)@.step(),
    {
        if self.status != Status::Running {
            return ;
        }
        if self.ip >= self.program.len() {
            self.status = Status::Halted;
            return ;
        }
        let byte: u8 = self.program[self.ip];
        if byte >= 0x80 {
            self.abort(Fault::Decode);
        } else {
            self.execute(decode(byte));
        }
    }

    /// Answers the `,` on which the machine waits: `Some` byte is stored in
    /// the current cell, `None` says that the input is exhausted. A machine
    /// that does not wait is left as it is.
    pub fn supply_input(&mut self, byte: Option<u8>)
        ensures
            final(self)@ == old(self)@.supply(byte),
    {
        if self.status != Status::AwaitingInput {
            return ;
        }
        match byte {
            None => self.abort(Fault::InputExhausted),
            Some(value) => {
                if (self.ptr as usize) < TAPE_SIZE {
                    self.store(self.ptr, value);
                    self.jump(self.ip);
                } else {
                    self.abort(Fault::TapeOutOfBounds);
                }
            },
        }
    }
}

} // verus!
