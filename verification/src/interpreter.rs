use vstd::prelude::*;

use crate::brackets::{find_matching, lemma_matching_bounds, matching, Direction};
use crate::errors::ErrorKind;
use crate::instruction::{AsInstruction, Instruction};
use crate::machine::{
    decrement, increment, is_ascii, low_byte, Input, Machine, Request, MEMORY_SIZE,
};
use crate::number::{decimal, parse, parse_line, to_decimal};

verus! {

/// A program together with the state that it runs in.
pub struct Interpreter {
    program: Vec<Instruction>,
    memory: [i32; MEMORY_SIZE],
    pointer: usize,
    program_counter: usize,
    register: Option<i32>,
}

impl View for Interpreter {
    type V = Machine;

    /// The state, as contracts speak of it. It is valid at all times.
    closed spec fn view(&self) -> Machine {
        Machine {
            program: self.program@,
            memory: self.memory@,
            pointer: self.pointer as int,
            program_counter: self.program_counter as int,
            register: self.register,
        }
    }
}

impl Interpreter {
    #[verifier::type_invariant]
    spec fn valid(&self) -> bool {
        self@.valid()
    }

    /// An interpreter at the start of `program`, with all cells 0 and the
    /// register empty.
    pub fn new(program: Vec<Instruction>) -> (interpreter: Self)
        ensures
            interpreter@ == Machine::initial(program@),
    {
        let interpreter = Interpreter {
            program,
            memory: [0; MEMORY_SIZE],
            pointer: 0,
            program_counter: 0,
            register: None,
        };
        assert(interpreter.memory@ =~= Machine::initial(program@).memory);
        interpreter
    }

    /// `mOo`: moves the pointer back by one cell. At the first cell it fails
    /// and changes nothing.
    pub fn decrement_pointer(&mut self) -> (done: Result<(), ErrorKind>)
        ensures
            match done {
                Ok(_) => {
                    &&& old(self)@.pointer > 0
                    &&& final(self)@ == (Machine { pointer: old(self)@.pointer - 1, ..old(self)@ })
                },
                Err(e) => {
                    &&& old(self)@.pointer == 0
                    &&& e == ErrorKind::OverFlow
                    &&& final(self)@ == old(self)@
                },
            },
    {
        proof {
            use_type_invariant(&*self);
        }
        if self.pointer == 0 {
            return Err(ErrorKind::OverFlow);
        }
        self.pointer -= 1;
        Ok(())
    }

    /// `moO`: moves the pointer on by one cell. At the last cell it fails and
    /// changes nothing.
    pub fn increment_pointer(&mut self) -> (done: Result<(), ErrorKind>)
        ensures
            match done {
                Ok(_) => {
                    &&& old(self)@.pointer < MEMORY_SIZE - 1
                    &&& final(self)@ == (Machine { pointer: old(self)@.pointer + 1, ..old(self)@ })
                },
                Err(e) => {
                    &&& old(self)@.pointer == MEMORY_SIZE - 1
                    &&& e == ErrorKind::OverFlow
                    &&& final(self)@ == old(self)@
                },
            },
    {
        proof {
            use_type_invariant(&*self);
        }
        if self.pointer == MEMORY_SIZE - 1 {
            return Err(ErrorKind::OverFlow);
        }
        self.pointer += 1;
        Ok(())
    }

    /// `MOo`: takes 1 from the cell. The least value becomes the greatest.
    pub fn decrement_byte(&mut self) -> (done: Result<(), ErrorKind>)
        ensures
            done is Ok,
            final(self)@ == old(self)@.store(decrement(old(self)@.cell())),
    {
        proof {
            use_type_invariant(&*self);
        }
        self.memory[self.pointer] = self.memory[self.pointer].wrapping_sub(1);
        Ok(())
    }

    /// `MoO`: adds 1 to the cell. The greatest value becomes the least.
    pub fn increment_byte(&mut self) -> (done: Result<(), ErrorKind>)
        ensures
            done is Ok,
            final(self)@ == old(self)@.store(increment(old(self)@.cell())),
    {
        proof {
            use_type_invariant(&*self);
        }
        self.memory[self.pointer] = self.memory[self.pointer].wrapping_add(1);
        Ok(())
    }

    /// `OOO`: sets the cell to 0.
    pub fn set_zero(&mut self) -> (done: Result<(), ErrorKind>)
        ensures
            done is Ok,
            final(self)@ == old(self)@.store(0),
    {
        proof {
            use_type_invariant(&*self);
        }
        self.memory[self.pointer] = 0;
        Ok(())
    }

    /// `MMM`: with the register empty, copies the cell into it; else puts the
    /// register's value into the cell and empties the register.
    pub fn copy_or_paste(&mut self) -> (done: Result<(), ErrorKind>)
        ensures
            done is Ok,
            final(self)@ == match old(self)@.register {
                Some(value) => Machine { register: None, ..old(self)@.store(value) },
                None => Machine { register: Some(old(self)@.cell()), ..old(self)@ },
            },
    {
        proof {
            use_type_invariant(&*self);
        }
        if let Some(value) = self.register {
            self.memory[self.pointer] = value;
            self.register = None;
        } else {
            self.register = Some(self.memory[self.pointer]);
        }
        Ok(())
    }

    /// `OOM`: writes the cell as a number in base ten.
    pub fn write_stdout(&mut self, stdout: &mut Vec<u8>) -> (done: Result<(), ErrorKind>)
        ensures
            done is Ok,
            final(self)@ == old(self)@,
            final(stdout)@ == old(stdout)@ + decimal(old(self)@.cell() as int),
    {
        proof {
            use_type_invariant(&*self);
        }
        let mut text = to_decimal(self.memory[self.pointer]);
        stdout.append(&mut text);
        Ok(())
    }

    /// `oom`: reads the line as a number into the cell. Where the line is no
    /// number of 32 bits, or `stdin` holds no line, it fails and changes
    /// nothing.
    pub fn read_stdin(&mut self, stdin: &Input) -> (done: Result<(), ErrorKind>)
        ensures
            match parse_line(stdin.line()) {
                Some(value) => done is Ok && final(self)@ == old(self)@.store(value),
                None => {
                    &&& done == Err::<(), ErrorKind>(ErrorKind::NotInteger)
                    &&& final(self)@ == old(self)@
                },
            },
    {
        proof {
            use_type_invariant(&*self);
            reveal_strlit("");
        }
        let parsed = match stdin {
            Input::Line(line) => parse(line.as_str()),
            _ => {
                assert(""@ =~= Seq::<char>::empty());
                parse("")
            },
        };
        match parsed {
            Some(value) => {
                self.memory[self.pointer] = value;
                Ok(())
            },
            None => Err(ErrorKind::NotInteger),
        }
    }

    /// `Moo`: on a cell that is 0, reads the byte into it, and fails where
    /// the byte is not ASCII; on any other cell, writes the cell's lowest
    /// eight bits as one byte. A cell that is 0 needs a byte in `stdin`.
    pub fn read_or_write(&mut self, stdin: &Input, stdout: &mut Vec<u8>) -> (done: Result<
        (),
        ErrorKind,
    >)
        requires
            old(self)@.cell() == 0 ==> *stdin is Byte,
        ensures
            old(self)@.cell() != 0 ==> {
                &&& done is Ok
                &&& final(self)@ == old(self)@
                &&& final(stdout)@ == old(stdout)@.push(low_byte(old(self)@.cell()))
            },
            old(self)@.cell() == 0 ==> final(stdout)@ == old(stdout)@,
            old(self)@.cell() == 0 ==> (*stdin matches Input::Byte(byte) ==> if is_ascii(byte) {
                &&& done is Ok
                &&& final(self)@ == old(self)@.store(byte as i32)
            } else {
                &&& done == Err::<(), ErrorKind>(ErrorKind::NotAscii)
                &&& final(self)@ == old(self)@
            }),
    {
        proof {
            use_type_invariant(&*self);
        }
        let cell: i32 = self.memory[self.pointer];
        if cell == 0 {
            match stdin {
                Input::Byte(byte) => {
                    if *byte >= 128 {
                        return Err(ErrorKind::NotAscii);
                    }
                    self.memory[self.pointer] = *byte as i32;
                },
                _ => {},
            }
        } else {
            let lifted: i64 = cell as i64 + 0x8000_0000;
            let byte: u8 = (lifted % 256) as u8;
            assert(byte == low_byte(cell));
            stdout.push(byte);
        }
        Ok(())
    }

    /// `MOO`: on a cell that is 0, moves the program counter to the `moo`
    /// that a forward search finds, and fails where it finds none; on any
    /// other cell, does nothing.
    pub fn begin_loop(&mut self) -> (done: Result<(), ErrorKind>)
        ensures
            old(self)@.cell() != 0 ==> done is Ok && final(self)@ == old(self)@,
            old(self)@.cell() == 0 ==> match matching(
                old(self)@.program,
                old(self)@.program_counter,
                Direction::Forward,
            ) {
                Some(target) => done is Ok && final(self)@ == old(self)@.at(target),
                None => {
                    &&& done == Err::<(), ErrorKind>(ErrorKind::UnmatchedEndLoop)
                    &&& final(self)@ == old(self)@
                },
            },
    {
        proof {
            use_type_invariant(&*self);
        }
        if self.memory[self.pointer] == 0 {
            let target = find_matching(&self.program, self.program_counter, Direction::Forward)?;
            proof {
                lemma_matching_bounds(self.program@, self.program_counter as int, Direction::Forward);
            }
            self.program_counter = target;
        }
        Ok(())
    }

    /// `moo`: on a cell that is not 0, moves the program counter to the
    /// `MOO` that a backward search finds, and fails where it finds none; on
    /// a cell that is 0, does nothing.
    pub fn end_loop(&mut self) -> (done: Result<(), ErrorKind>)
        ensures
            old(self)@.cell() == 0 ==> done is Ok && final(self)@ == old(self)@,
            old(self)@.cell() != 0 ==> match matching(
                old(self)@.program,
                old(self)@.program_counter,
                Direction::Backward,
            ) {
                Some(target) => done is Ok && final(self)@ == old(self)@.at(target),
                None => {
                    &&& done == Err::<(), ErrorKind>(ErrorKind::UnmatchedBeginLoop)
                    &&& final(self)@ == old(self)@
                },
            },
    {
        proof {
            use_type_invariant(&*self);
        }
        if self.memory[self.pointer] != 0 {
            let target = find_matching(&self.program, self.program_counter, Direction::Backward)?;
            proof {
                lemma_matching_bounds(self.program@, self.program_counter as int, Direction::Backward);
            }
            self.program_counter = target;
        }
        Ok(())
    }

    /// `mOO`: carries out the instruction whose code the cell holds. It
    /// fails where the cell holds no code, or the code of `mOO` itself.
    pub fn execute_value(&mut self, stdin: &Input, stdout: &mut Vec<u8>) -> (done: Result<
        (),
        ErrorKind,
    >)
        requires
            stdin.meets(old(self)@.request(Instruction::ExecuteValue)),
        ensures
            match old(self)@.execute(Instruction::ExecuteValue, *stdin) {
                Ok(next) => {
                    &&& done is Ok
                    &&& final(self)@ == next
                    &&& final(stdout)@ == old(stdout)@ + old(self)@.output(Instruction::ExecuteValue)
                },
                Err(e) => {
                    &&& done == Err::<(), ErrorKind>(e)
                    &&& final(self)@ == old(self)@
                    &&& final(stdout)@ == old(stdout)@
                },
            },
        decreases 1int,
    {
        proof {
            use_type_invariant(&*self);
        }
        match self.memory[self.pointer].as_instruction() {
            None => Err(ErrorKind::InvalidCode),
            Some(Instruction::ExecuteValue) => Err(ErrorKind::InfiniteLoop),
            Some(instruction) => self.instruction_matches(instruction, stdin, stdout),
        }
    }

    /// Carries out one instruction. The program counter moves only where a
    /// loop instruction jumps. An instruction that fails changes nothing and
    /// writes nothing.
    pub fn instruction_matches(
        &mut self,
        instruction: Instruction,
        stdin: &Input,
        stdout: &mut Vec<u8>,
    ) -> (done: Result<(), ErrorKind>)
        requires
            stdin.meets(old(self)@.request(instruction)),
        ensures
            match old(self)@.execute(instruction, *stdin) {
                Ok(next) => {
                    &&& done is Ok
                    &&& final(self)@ == next
                    &&& final(stdout)@ == old(stdout)@ + old(self)@.output(instruction)
                },
                Err(e) => {
                    &&& done == Err::<(), ErrorKind>(e)
                    &&& final(self)@ == old(self)@
                    &&& final(stdout)@ == old(stdout)@
                },
            },
        decreases
            (if instruction == Instruction::ExecuteValue {
                2int
            } else {
                0int
            }),
    {
        assert(stdout@ + Seq::<u8>::empty() =~= stdout@);
        match instruction {
            Instruction::EndLoop => self.end_loop(),
            Instruction::DecrementPointer => self.decrement_pointer(),
            Instruction::IncrementPointer => self.increment_pointer(),
            Instruction::ExecuteValue => self.execute_value(stdin, stdout),
            Instruction::ReadOrWrite => self.read_or_write(stdin, stdout),
            Instruction::DecrementByte => self.decrement_byte(),
            Instruction::IncrementByte => self.increment_byte(),
            Instruction::BeginLoop => self.begin_loop(),
            Instruction::SetZero => self.set_zero(),
            Instruction::CopyOrPaste => self.copy_or_paste(),
            Instruction::WriteStdout => self.write_stdout(stdout),
            Instruction::ReadStdin => self.read_stdin(stdin),
        }
    }

    /// What `instruction` would need the host to read, were it carried out
    /// now.
    pub fn request(&self, instruction: Instruction) -> (request: Request)
        ensures
            request == self@.request(instruction),
    {
        proof {
            use_type_invariant(self);
        }
        let cell: i32 = self.memory[self.pointer];
        let resolved = if instruction == Instruction::ExecuteValue {
            match cell.as_instruction() {
                Some(resolved) => resolved,
                None => {
                    return Request::Nothing;
                },
            }
        } else {
            instruction
        };
        match resolved {
            Instruction::ReadStdin => Request::Line,
            Instruction::ReadOrWrite => if cell == 0 {
                Request::Byte
            } else {
                Request::Nothing
            },
            _ => Request::Nothing,
        }
    }

    /// What the next step needs the host to read.
    pub fn pending(&self) -> (request: Request)
        ensures
            request == self@.pending(),
    {
        if self.program_counter >= self.program.len() {
            Request::Nothing
        } else {
            self.request(self.program[self.program_counter])
        }
    }

    /// Whether the program has come to its end.
    pub fn is_finished(&self) -> (yes: bool)
        ensures
            yes == self@.finished(),
    {
        self.program_counter >= self.program.len()
    }

    /// Carries out the instruction under the program counter and moves the
    /// program counter on. At the end of the program nothing happens. A step
    /// that fails changes nothing and writes nothing. Where `pending` asks for
    /// a byte, `stdin` holds it.
    pub fn step(&mut self, stdin: &Input, stdout: &mut Vec<u8>) -> (done: Result<(), ErrorKind>)
        requires
            stdin.meets(old(self)@.pending()),
        ensures
            match old(self)@.step(*stdin) {
                Ok(next) => {
                    &&& done is Ok
                    &&& final(self)@ == next
                    &&& final(stdout)@ == old(stdout)@ + old(self)@.step_output()
                },
                Err(e) => {
                    &&& done == Err::<(), ErrorKind>(e)
                    &&& final(self)@ == old(self)@
                    &&& final(stdout)@ == old(stdout)@
                },
            },
    {
        proof {
            use_type_invariant(&*self);
        }
        if self.program_counter >= self.program.len() {
            assert(stdout@ + Seq::<u8>::empty() =~= stdout@);
            return Ok(());
        }
        let instruction = self.program[self.program_counter];
        proof {
            self@.lemma_execute_valid(instruction, *stdin);
        }
        self.instruction_matches(instruction, stdin, stdout)?;
        self.program_counter += 1;
        Ok(())
    }

    /// Carries out steps until the program ends, an instruction needs the
    /// host to read, a step fails, or `fuel` steps are done. What the steps
    /// wrote stands behind what `stdout` held, also where a step failed.
    pub fn run(self, fuel: usize, stdout: &mut Vec<u8>) -> (done: Result<Self, ErrorKind>)
        ensures
            match self@.run(fuel as nat) {
                Ok(end) => done matches Ok(interpreter) && interpreter@ == end,
                Err(e) => done matches Err(failure) && failure == e,
            },
            final(stdout)@ == old(stdout)@ + self@.run_output(fuel as nat),
    {
        let mut interpreter = self;
        let mut left: usize = fuel;
        assert(stdout@ + self@.run_output(fuel as nat) =~= old(stdout)@ + interpreter@.run_output(
            left as nat,
        ));
        while left > 0 && !interpreter.is_finished() && interpreter.pending() == Request::Nothing
            invariant
                self@.run(fuel as nat) == interpreter@.run(left as nat),
                old(stdout)@ + self@.run_output(fuel as nat) == stdout@ + interpreter@.run_output(
                    left as nat,
                ),
            decreases left,
        {
            let ghost before = interpreter@;
            let ghost written = stdout@;
            match interpreter.step(&Input::Nothing, stdout) {
                Ok(()) => {},
                Err(e) => {
                    assert(written + Seq::<u8>::empty() =~= written);
                    return Err(e);
                },
            }
            left = left - 1;
            assert(written + (before.step_output() + interpreter@.run_output(left as nat)) =~= (
            written + before.step_output()) + interpreter@.run_output(left as nat));
        }
        assert(stdout@ + Seq::<u8>::empty() =~= stdout@);
        Ok(interpreter)
    }

    /// The interpreter with its pointer at `pointer`, or the failure where
    /// the memory has no such cell.
    pub fn with_pointer(self, pointer: usize) -> (moved: Result<Self, ErrorKind>)
        ensures
            match moved {
                Ok(interpreter) => pointer < MEMORY_SIZE && interpreter@ == (Machine {
                    pointer: pointer as int,
                    ..self@
                }),
                Err(e) => pointer >= MEMORY_SIZE && e == ErrorKind::OverFlow,
            },
    {
        proof {
            use_type_invariant(&self);
        }
        if pointer >= MEMORY_SIZE {
            return Err(ErrorKind::OverFlow);
        }
        let mut interpreter = self;
        interpreter.pointer = pointer;
        Ok(interpreter)
    }

    /// The interpreter at the start of another program, with its memory, its
    /// pointer and its register as they are.
    pub fn with_program(self, program: Vec<Instruction>) -> (interpreter: Self)
        ensures
            interpreter@ == (Machine { program: program@, program_counter: 0, ..self@ }),
    {
        proof {
            use_type_invariant(&self);
        }
        Interpreter {
            program,
            memory: self.memory,
            pointer: self.pointer,
            program_counter: 0,
            register: self.register,
        }
    }

    /// The program.
    pub fn program(&self) -> (program: &Vec<Instruction>)
        ensures
            program@ == self@.program,
    {
        &self.program
    }

    /// The cells.
    pub fn memory(&self) -> (memory: &[i32; MEMORY_SIZE])
        ensures
            memory@ == self@.memory,
    {
        &self.memory
    }

    /// The index of the cell that instructions act on.
    pub fn pointer(&self) -> (pointer: usize)
        ensures
            pointer == self@.pointer,
            pointer < MEMORY_SIZE,
    {
        proof {
            use_type_invariant(self);
        }
        self.pointer
    }

    /// The index of the instruction that comes next.
    pub fn program_counter(&self) -> (program_counter: usize)
        ensures
            program_counter == self@.program_counter,
            program_counter <= self@.program.len(),
    {
        proof {
            use_type_invariant(self);
        }
        self.program_counter
    }

    /// The value that was copied and not yet pasted.
    pub fn register(&self) -> (register: Option<i32>)
        ensures
            register == self@.register,
    {
        self.register
    }
}

} // verus!
