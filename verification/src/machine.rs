use vstd::prelude::*;

use crate::brackets::{lemma_matching_bounds, matching, unmatched, Direction};
use crate::errors::ErrorKind;
use crate::instruction::Instruction;
use crate::number::{decimal, parse_line};

verus! {

/// The number of cells in the memory.
pub const MEMORY_SIZE: usize = 30000;

/// What the host has read for an instruction.
#[derive(Debug, Clone)]
pub enum Input {
    /// Nothing was read, or nothing was left to read.
    Nothing,
    /// One byte.
    Byte(u8),
    /// One line, with its line break if it had one.
    Line(String),
}

/// What an instruction needs the host to read before it can be carried out.
#[derive(Debug, Clone, Copy, PartialEq, Eq, Structural)]
pub enum Request {
    Nothing,
    Byte,
    Line,
}

impl Input {
    /// The line that was read. Where none was, the line is empty, as it is at
    /// the end of the input.
    pub open spec fn line(self) -> Seq<char> {
        match self {
            Input::Line(line) => line@,
            _ => Seq::empty(),
        }
    }

    /// Whether this is what `request` asks for. Only a byte has to be there:
    /// a line that is not there is read as the empty line.
    pub open spec fn meets(self, request: Request) -> bool {
        request == Request::Byte ==> self is Byte
    }
}

/// The byte that a cell is written as: its lowest eight bits.
pub open spec fn low_byte(value: i32) -> u8 {
    (value as int % 256) as u8
}

/// The number after `value`; after the greatest comes the least.
pub open spec fn increment(value: i32) -> i32 {
    if value == i32::MAX {
        i32::MIN
    } else {
        (value + 1) as i32
    }
}

/// The number before `value`; before the least comes the greatest.
pub open spec fn decrement(value: i32) -> i32 {
    if value == i32::MIN {
        i32::MAX
    } else {
        (value - 1) as i32
    }
}

/// Whether a byte is an ASCII character.
pub open spec fn is_ascii(byte: u8) -> bool {
    byte < 128
}

/// The state of the interpreter, as contracts speak of it.
pub struct Machine {
    /// The instructions, which never change.
    pub program: Seq<Instruction>,
    /// The cells.
    pub memory: Seq<i32>,
    /// The index of the cell that instructions act on.
    pub pointer: int,
    /// The index of the instruction that comes next.
    pub program_counter: int,
    /// The value that was copied and not yet pasted.
    pub register: Option<i32>,
}

impl Machine {
    /// What holds of every state: the memory has its size, the pointer is in
    /// it, and the program counter is in the program or right behind it.
    pub open spec fn valid(self) -> bool {
        &&& self.memory.len() == MEMORY_SIZE
        &&& 0 <= self.pointer < MEMORY_SIZE
        &&& 0 <= self.program_counter <= self.program.len()
    }

    /// The state in which a program starts: all cells 0, the pointer and the
    /// program counter at 0, the register empty.
    pub open spec fn initial(program: Seq<Instruction>) -> Machine {
        Machine {
            program,
            memory: Seq::new(MEMORY_SIZE as nat, |i: int| 0i32),
            pointer: 0,
            program_counter: 0,
            register: None,
        }
    }

    /// The value of the cell under the pointer.
    pub open spec fn cell(self) -> i32 {
        self.memory[self.pointer]
    }

    /// The state with `value` in the cell under the pointer.
    pub open spec fn store(self, value: i32) -> Machine {
        Machine { memory: self.memory.update(self.pointer, value), ..self }
    }

    /// The state with the program counter at `target`.
    pub open spec fn at(self, target: int) -> Machine {
        Machine { program_counter: target, ..self }
    }

    /// Whether the program has come to its end.
    pub open spec fn finished(self) -> bool {
        self.program_counter >= self.program.len()
    }

    /// The instruction under the program counter.
    pub open spec fn current(self) -> Instruction {
        self.program[self.program_counter]
    }

    /// The state after a jump to the partner of the loop instruction under
    /// the program counter, or the failure where it has none.
    pub open spec fn jump(self, direction: Direction) -> Result<Machine, ErrorKind> {
        match matching(self.program, self.program_counter, direction) {
            Some(target) => Ok(self.at(target)),
            None => Err(unmatched(direction)),
        }
    }

    /// The instruction that is carried out for `instruction`: itself, but for
    /// `ExecuteValue` the one whose code the cell holds. That one cannot be
    /// `ExecuteValue` again.
    pub open spec fn resolve(self, instruction: Instruction) -> Result<Instruction, ErrorKind> {
        if instruction == Instruction::ExecuteValue {
            match Instruction::from_code(self.cell() as int) {
                None => Err(ErrorKind::InvalidCode),
                Some(Instruction::ExecuteValue) => Err(ErrorKind::InfiniteLoop),
                Some(resolved) => Ok(resolved),
            }
        } else {
            Ok(instruction)
        }
    }

    /// What `instruction` does to the state, where it is not `ExecuteValue`.
    /// The program counter moves only where a loop instruction jumps. Where
    /// `ReadOrWrite` is to read and `stdin` holds no byte, nothing is read.
    pub open spec fn perform(self, instruction: Instruction, stdin: Input) -> Result<
        Machine,
        ErrorKind,
    > {
        match instruction {
            Instruction::EndLoop => if self.cell() != 0 {
                self.jump(Direction::Backward)
            } else {
                Ok(self)
            },
            Instruction::DecrementPointer => if self.pointer == 0 {
                Err(ErrorKind::OverFlow)
            } else {
                Ok(Machine { pointer: self.pointer - 1, ..self })
            },
            Instruction::IncrementPointer => if self.pointer == MEMORY_SIZE - 1 {
                Err(ErrorKind::OverFlow)
            } else {
                Ok(Machine { pointer: self.pointer + 1, ..self })
            },
            Instruction::ExecuteValue => Err(ErrorKind::InfiniteLoop),
            Instruction::ReadOrWrite => if self.cell() == 0 {
                match stdin {
                    Input::Byte(byte) => if is_ascii(byte) {
                        Ok(self.store(byte as i32))
                    } else {
                        Err(ErrorKind::NotAscii)
                    },
                    _ => Ok(self),
                }
            } else {
                Ok(self)
            },
            Instruction::DecrementByte => Ok(self.store(decrement(self.cell()))),
            Instruction::IncrementByte => Ok(self.store(increment(self.cell()))),
            Instruction::BeginLoop => if self.cell() == 0 {
                self.jump(Direction::Forward)
            } else {
                Ok(self)
            },
            Instruction::SetZero => Ok(self.store(0)),
            Instruction::CopyOrPaste => match self.register {
                Some(value) => Ok(Machine { register: None, ..self.store(value) }),
                None => Ok(Machine { register: Some(self.cell()), ..self }),
            },
            Instruction::WriteStdout => Ok(self),
            Instruction::ReadStdin => match parse_line(stdin.line()) {
                Some(value) => Ok(self.store(value)),
                None => Err(ErrorKind::NotInteger),
            },
        }
    }

    /// What `instruction` writes, where it is not `ExecuteValue`.
    pub open spec fn emit(self, instruction: Instruction) -> Seq<u8> {
        match instruction {
            Instruction::ReadOrWrite => if self.cell() != 0 {
                seq![low_byte(self.cell())]
            } else {
                Seq::empty()
            },
            Instruction::WriteStdout => decimal(self.cell() as int),
            _ => Seq::empty(),
        }
    }

    /// What `instruction` needs the host to read.
    pub open spec fn request(self, instruction: Instruction) -> Request {
        match self.resolve(instruction) {
            Ok(Instruction::ReadStdin) => Request::Line,
            Ok(Instruction::ReadOrWrite) => if self.cell() == 0 {
                Request::Byte
            } else {
                Request::Nothing
            },
            _ => Request::Nothing,
        }
    }

    /// What `instruction` does to the state, or the failure that it ends in.
    pub open spec fn execute(self, instruction: Instruction, stdin: Input) -> Result<
        Machine,
        ErrorKind,
    > {
        match self.resolve(instruction) {
            Ok(resolved) => self.perform(resolved, stdin),
            Err(e) => Err(e),
        }
    }

    /// What `instruction` writes. One that fails writes nothing.
    pub open spec fn output(self, instruction: Instruction) -> Seq<u8> {
        match self.resolve(instruction) {
            Ok(resolved) => self.emit(resolved),
            Err(_) => Seq::empty(),
        }
    }

    /// What the next step needs the host to read.
    pub open spec fn pending(self) -> Request {
        if self.finished() {
            Request::Nothing
        } else {
            self.request(self.current())
        }
    }

    /// The state after one step: the instruction under the program counter
    /// is carried out, and the program counter moves behind the place where
    /// that left it. At the end of the program nothing happens.
    pub open spec fn step(self, stdin: Input) -> Result<Machine, ErrorKind> {
        if self.finished() {
            Ok(self)
        } else {
            match self.execute(self.current(), stdin) {
                Ok(next) => Ok(next.at(next.program_counter + 1)),
                Err(e) => Err(e),
            }
        }
    }

    /// What one step writes.
    pub open spec fn step_output(self) -> Seq<u8> {
        if self.finished() {
            Seq::empty()
        } else {
            self.output(self.current())
        }
    }

    /// Whether a run stops in this state: at the end of the program, or in
    /// front of an instruction that reads.
    pub open spec fn halted(self) -> bool {
        self.finished() || self.pending() != Request::Nothing
    }

    /// The state in which a run of at most `fuel` steps stops, or the failure
    /// that ends it.
    pub open spec fn run(self, fuel: nat) -> Result<Machine, ErrorKind>
        decreases fuel,
    {
        if fuel == 0 || self.halted() {
            Ok(self)
        } else {
            match self.step(Input::Nothing) {
                Ok(next) => next.run((fuel - 1) as nat),
                Err(e) => Err(e),
            }
        }
    }

    /// What a run of at most `fuel` steps writes. A run that fails has
    /// written what the steps before the failure wrote.
    pub open spec fn run_output(self, fuel: nat) -> Seq<u8>
        decreases fuel,
    {
        if fuel == 0 || self.halted() {
            Seq::empty()
        } else {
            match self.step(Input::Nothing) {
                Ok(next) => self.step_output() + next.run_output((fuel - 1) as nat),
                Err(_) => Seq::empty(),
            }
        }
    }

    /// The state in which a program starts is valid.
    pub proof fn lemma_initial_valid(program: Seq<Instruction>)
        ensures
            Machine::initial(program).valid(),
            Machine::initial(program).cell() == 0,
    {
    }

    /// An instruction leaves a valid state valid, keeps the program, and
    /// leaves the program counter inside the program.
    pub proof fn lemma_execute_valid(self, instruction: Instruction, stdin: Input)
        requires
            self.valid(),
            !self.finished(),
        ensures
            self.execute(instruction, stdin) matches Ok(next) ==> {
                &&& next.valid()
                &&& !next.finished()
                &&& next.program == self.program
            },
    {
        lemma_matching_bounds(self.program, self.program_counter, Direction::Forward);
        lemma_matching_bounds(self.program, self.program_counter, Direction::Backward);
    }

    /// A step leaves a valid state valid and keeps the program.
    pub proof fn lemma_step_valid(self, stdin: Input)
        requires
            self.valid(),
        ensures
            self.step(stdin) matches Ok(next) ==> next.valid() && next.program == self.program,
    {
        if !self.finished() {
            self.lemma_execute_valid(self.current(), stdin);
        }
    }

    /// A run leaves a valid state valid and keeps the program.
    pub proof fn lemma_run_valid(self, fuel: nat)
        requires
            self.valid(),
        ensures
            self.run(fuel) matches Ok(end) ==> end.valid() && end.program == self.program,
        decreases fuel,
    {
        if fuel != 0 && !self.halted() {
            self.lemma_step_valid(Input::Nothing);
            if let Ok(next) = self.step(Input::Nothing) {
                next.lemma_run_valid((fuel - 1) as nat);
            }
        }
    }

    /// `ExecuteValue` on a cell that holds the code of another instruction
    /// does, writes and reads what that instruction would.
    pub proof fn lemma_execute_value_dispatches(self, instruction: Instruction, stdin: Input)
        requires
            self.cell() == instruction.code(),
            instruction != Instruction::ExecuteValue,
        ensures
            self.execute(Instruction::ExecuteValue, stdin) == self.execute(instruction, stdin),
            self.output(Instruction::ExecuteValue) == self.output(instruction),
            self.request(Instruction::ExecuteValue) == self.request(instruction),
    {
        instruction.lemma_code_round_trip();
    }

    /// `ExecuteValue` on a cell that holds its own code fails, whatever the
    /// rest of the state.
    pub proof fn lemma_execute_value_on_itself(self, stdin: Input)
        requires
            self.cell() == Instruction::ExecuteValue.code(),
        ensures
            self.execute(Instruction::ExecuteValue, stdin) == Err::<Machine, ErrorKind>(
                ErrorKind::InfiniteLoop,
            ),
            self.output(Instruction::ExecuteValue) == Seq::<u8>::empty(),
    {
        Instruction::ExecuteValue.lemma_code_round_trip();
    }

    /// `ExecuteValue` on a cell that holds no code fails.
    pub proof fn lemma_execute_value_without_code(self, stdin: Input)
        requires
            self.cell() < 0 || self.cell() > 11,
        ensures
            self.execute(Instruction::ExecuteValue, stdin) == Err::<Machine, ErrorKind>(
                ErrorKind::InvalidCode,
            ),
            self.output(Instruction::ExecuteValue) == Seq::<u8>::empty(),
    {
        Instruction::lemma_codes(self.cell() as int);
    }

    /// The pointer moves by one cell and nothing else changes, but at the
    /// first cell it cannot move back and at the last it cannot move on.
    pub proof fn lemma_pointer_moves(self, stdin: Input)
        requires
            self.valid(),
        ensures
            self.execute(Instruction::DecrementPointer, stdin) == if self.pointer == 0 {
                Err::<Machine, ErrorKind>(ErrorKind::OverFlow)
            } else {
                Ok(Machine { pointer: self.pointer - 1, ..self })
            },
            self.execute(Instruction::IncrementPointer, stdin) == if self.pointer == MEMORY_SIZE
                - 1 {
                Err::<Machine, ErrorKind>(ErrorKind::OverFlow)
            } else {
                Ok(Machine { pointer: self.pointer + 1, ..self })
            },
    {
    }

    /// A cell never fails to count: one more than the greatest value is the
    /// least, and one less than the least is the greatest.
    pub proof fn lemma_cell_wraps(self, stdin: Input)
        requires
            self.valid(),
        ensures
            self.execute(Instruction::IncrementByte, stdin) is Ok,
            self.execute(Instruction::DecrementByte, stdin) is Ok,
            self.cell() == i32::MAX ==> self.execute(Instruction::IncrementByte, stdin).unwrap().cell()
                == i32::MIN,
            self.cell() == i32::MIN ==> self.execute(Instruction::DecrementByte, stdin).unwrap().cell()
                == i32::MAX,
            self.cell() < i32::MAX ==> self.execute(Instruction::IncrementByte, stdin).unwrap().cell()
                == self.cell() + 1,
            self.cell() > i32::MIN ==> self.execute(Instruction::DecrementByte, stdin).unwrap().cell()
                == self.cell() - 1,
    {
    }

    /// With the register empty, `CopyOrPaste` fills it with the cell and
    /// leaves the memory as it is.
    pub proof fn lemma_copy(self, stdin: Input)
        requires
            self.valid(),
            self.register is None,
        ensures
            self.execute(Instruction::CopyOrPaste, stdin) == Ok::<Machine, ErrorKind>(
                Machine { register: Some(self.cell()), ..self },
            ),
    {
    }

    /// With a value in the register, `CopyOrPaste` puts it into the cell and
    /// empties the register.
    pub proof fn lemma_paste(self, stdin: Input)
        requires
            self.valid(),
            self.register is Some,
        ensures
            self.execute(Instruction::CopyOrPaste, stdin) matches Ok(next) && {
                &&& next.register is None
                &&& next.cell() == self.register.unwrap()
                &&& next.memory == self.memory.update(self.pointer, self.register.unwrap())
                &&& next.pointer == self.pointer
                &&& next.program_counter == self.program_counter
                &&& next.program == self.program
            },
    {
    }

    /// What was copied from one cell is pasted into the cell where the
    /// pointer stands at the next `CopyOrPaste`, once.
    pub proof fn lemma_copy_then_paste(self, target: int, stdin: Input)
        requires
            self.valid(),
            self.register is None,
            0 <= target < MEMORY_SIZE,
        ensures
            self.execute(Instruction::CopyOrPaste, stdin) matches Ok(copied) && (Machine {
                pointer: target,
                ..copied
            }).execute(Instruction::CopyOrPaste, stdin) matches Ok(pasted) && {
                &&& pasted.register is None
                &&& pasted.memory == self.memory.update(target, self.cell())
            },
    {
    }

    /// More fuel goes on where less fuel stopped: a run of `first + second`
    /// steps is a run of `first` steps and then one of `second`, and writes
    /// what the two write.
    pub proof fn lemma_run_split(self, first: nat, second: nat)
        ensures
            self.run(first + second) == match self.run(first) {
                Ok(middle) => middle.run(second),
                Err(e) => Err(e),
            },
            self.run_output(first + second) == self.run_output(first) + match self.run(first) {
                Ok(middle) => middle.run_output(second),
                Err(_) => Seq::empty(),
            },
        decreases first,
    {
        if first == 0 {
            assert(self.run_output(second) =~= Seq::<u8>::empty() + self.run_output(second));
        } else if self.halted() {
            assert(self.run_output(first + second) =~= Seq::<u8>::empty() + Seq::<u8>::empty());
        } else {
            match self.step(Input::Nothing) {
                Ok(next) => {
                    next.lemma_run_split((first - 1) as nat, second);
                    let rest = match next.run((first - 1) as nat) {
                        Ok(middle) => middle.run_output(second),
                        Err(_) => Seq::empty(),
                    };
                    assert(self.step_output() + (next.run_output((first - 1) as nat) + rest) =~= (
                    self.step_output() + next.run_output((first - 1) as nat)) + rest);
                    assert((first + second - 1) as nat == (first - 1) as nat + second);
                },
                Err(_) => {
                    assert(self.run_output(first + second) =~= Seq::<u8>::empty()
                        + Seq::<u8>::empty());
                },
            }
        }
    }

    /// A run that has stopped for another reason than its fuel stops in the
    /// same state with any more fuel.
    pub proof fn lemma_run_halted(self, fuel: nat, more: nat)
        requires
            fuel <= more,
            self.run(fuel) matches Ok(end) && end.halted(),
        ensures
            self.run(more) == self.run(fuel),
            self.run_output(more) == self.run_output(fuel),
    {
        self.lemma_run_split(fuel, (more - fuel) as nat);
        assert(self.run_output(fuel) + Seq::<u8>::empty() =~= self.run_output(fuel));
    }
}

} // verus!
