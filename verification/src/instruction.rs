use vstd::prelude::*;

verus! {

/// The letter `M` in a token.
pub const UPPER_M: u8 = 0x4d;

/// The letter `O` in a token.
pub const UPPER_O: u8 = 0x4f;

/// The letter `m` in a token.
pub const LOWER_M: u8 = 0x6d;

/// The letter `o` in a token.
pub const LOWER_O: u8 = 0x6f;

/// The commands of COW.
///
/// | Code | Token | Instruction        |
/// |------|-------|--------------------|
/// | 0    | `moo` | `EndLoop`          |
/// | 1    | `mOo` | `DecrementPointer` |
/// | 2    | `moO` | `IncrementPointer` |
/// | 3    | `mOO` | `ExecuteValue`     |
/// | 4    | `Moo` | `ReadOrWrite`      |
/// | 5    | `MOo` | `DecrementByte`    |
/// | 6    | `MoO` | `IncrementByte`    |
/// | 7    | `MOO` | `BeginLoop`        |
/// | 8    | `OOO` | `SetZero`          |
/// | 9    | `MMM` | `CopyOrPaste`      |
/// | 10   | `OOM` | `WriteStdout`      |
/// | 11   | `oom` | `ReadStdin`        |
#[derive(Debug, Clone, Copy, PartialEq, Eq, Structural)]
pub enum Instruction {
    EndLoop,
    DecrementPointer,
    IncrementPointer,
    ExecuteValue,
    ReadOrWrite,
    DecrementByte,
    IncrementByte,
    BeginLoop,
    SetZero,
    CopyOrPaste,
    WriteStdout,
    ReadStdin,
}

impl Instruction {
    /// The number that stands for this instruction in a memory cell.
    pub open spec fn code(self) -> int {
        match self {
            Instruction::EndLoop => 0,
            Instruction::DecrementPointer => 1,
            Instruction::IncrementPointer => 2,
            Instruction::ExecuteValue => 3,
            Instruction::ReadOrWrite => 4,
            Instruction::DecrementByte => 5,
            Instruction::IncrementByte => 6,
            Instruction::BeginLoop => 7,
            Instruction::SetZero => 8,
            Instruction::CopyOrPaste => 9,
            Instruction::WriteStdout => 10,
            Instruction::ReadStdin => 11,
        }
    }

    /// The three letters that stand for this instruction in source text.
    pub open spec fn token(self) -> (u8, u8, u8) {
        match self {
            Instruction::EndLoop => (LOWER_M, LOWER_O, LOWER_O),
            Instruction::DecrementPointer => (LOWER_M, UPPER_O, LOWER_O),
            Instruction::IncrementPointer => (LOWER_M, LOWER_O, UPPER_O),
            Instruction::ExecuteValue => (LOWER_M, UPPER_O, UPPER_O),
            Instruction::ReadOrWrite => (UPPER_M, LOWER_O, LOWER_O),
            Instruction::DecrementByte => (UPPER_M, UPPER_O, LOWER_O),
            Instruction::IncrementByte => (UPPER_M, LOWER_O, UPPER_O),
            Instruction::BeginLoop => (UPPER_M, UPPER_O, UPPER_O),
            Instruction::SetZero => (UPPER_O, UPPER_O, UPPER_O),
            Instruction::CopyOrPaste => (UPPER_M, UPPER_M, UPPER_M),
            Instruction::WriteStdout => (UPPER_O, UPPER_O, UPPER_M),
            Instruction::ReadStdin => (LOWER_O, LOWER_O, LOWER_M),
        }
    }

    /// The instruction whose code is `code`, if there is one.
    pub open spec fn from_code(code: int) -> Option<Instruction> {
        if exists|i: Instruction| i.code() == code {
            Some(choose|i: Instruction| i.code() == code)
        } else {
            None
        }
    }

    /// The instruction whose token is `a b c`, if there is one.
    pub open spec fn from_token(a: u8, b: u8, c: u8) -> Option<Instruction> {
        if exists|i: Instruction| i.token() == (a, b, c) {
            Some(choose|i: Instruction| i.token() == (a, b, c))
        } else {
            None
        }
    }

    /// Every instruction is found again from its code.
    pub proof fn lemma_code_round_trip(self)
        ensures
            0 <= self.code() <= 11,
            Instruction::from_code(self.code()) == Some(self),
    {
        let found = choose|i: Instruction| i.code() == self.code();
        assert(found.code() == self.code());
    }

    /// Every instruction is found again from its token.
    pub proof fn lemma_token_round_trip(self)
        ensures
            Instruction::from_token(self.token().0, self.token().1, self.token().2) == Some(self),
    {
        let t = self.token();
        assert(t == (t.0, t.1, t.2));
        let found = choose|i: Instruction| i.token() == (t.0, t.1, t.2);
        assert(found.token() == self.token());
    }

    /// The codes are the numbers 0 to 11 and no others.
    pub proof fn lemma_codes(code: int)
        ensures
            Instruction::from_code(code) is Some <==> 0 <= code <= 11,
            Instruction::from_code(code) matches Some(i) ==> i.code() == code,
    {
        if 0 <= code <= 11 {
            let i = Instruction::of_code(code);
            assert(i.code() == code);
        }
    }

    /// Two instructions with one code, or with one token, are the same.
    pub proof fn lemma_injective(self, other: Instruction)
        ensures
            self.code() == other.code() ==> self == other,
            self.token() == other.token() ==> self == other,
    {
    }

    /// The instruction with the code `code`, for the codes from 0 to 11.
    spec fn of_code(code: int) -> Instruction {
        if code == 0 {
            Instruction::EndLoop
        } else if code == 1 {
            Instruction::DecrementPointer
        } else if code == 2 {
            Instruction::IncrementPointer
        } else if code == 3 {
            Instruction::ExecuteValue
        } else if code == 4 {
            Instruction::ReadOrWrite
        } else if code == 5 {
            Instruction::DecrementByte
        } else if code == 6 {
            Instruction::IncrementByte
        } else if code == 7 {
            Instruction::BeginLoop
        } else if code == 8 {
            Instruction::SetZero
        } else if code == 9 {
            Instruction::CopyOrPaste
        } else if code == 10 {
            Instruction::WriteStdout
        } else {
            Instruction::ReadStdin
        }
    }
}

/// Values that may stand for an instruction.
pub trait AsInstruction {
    /// The instruction that this value stands for, if any.
    spec fn instruction(&self) -> Option<Instruction>;

    /// Looks the instruction up.
    fn as_instruction(&self) -> (found: Option<Instruction>)
        ensures
            found == self.instruction(),
    ;
}

impl AsInstruction for [u8; 3] {
    open spec fn instruction(&self) -> Option<Instruction> {
        Instruction::from_token(self[0], self[1], self[2])
    }

    fn as_instruction(&self) -> (found: Option<Instruction>) {
        let a: u8 = self[0];
        let b: u8 = self[1];
        let c: u8 = self[2];
        let found = if a == LOWER_M && b == LOWER_O && c == LOWER_O {
            Some(Instruction::EndLoop)
        } else if a == LOWER_M && b == UPPER_O && c == LOWER_O {
            Some(Instruction::DecrementPointer)
        } else if a == LOWER_M && b == LOWER_O && c == UPPER_O {
            Some(Instruction::IncrementPointer)
        } else if a == LOWER_M && b == UPPER_O && c == UPPER_O {
            Some(Instruction::ExecuteValue)
        } else if a == UPPER_M && b == LOWER_O && c == LOWER_O {
            Some(Instruction::ReadOrWrite)
        } else if a == UPPER_M && b == UPPER_O && c == LOWER_O {
            Some(Instruction::DecrementByte)
        } else if a == UPPER_M && b == LOWER_O && c == UPPER_O {
            Some(Instruction::IncrementByte)
        } else if a == UPPER_M && b == UPPER_O && c == UPPER_O {
            Some(Instruction::BeginLoop)
        } else if a == UPPER_O && b == UPPER_O && c == UPPER_O {
            Some(Instruction::SetZero)
        } else if a == UPPER_M && b == UPPER_M && c == UPPER_M {
            Some(Instruction::CopyOrPaste)
        } else if a == UPPER_O && b == UPPER_O && c == UPPER_M {
            Some(Instruction::WriteStdout)
        } else if a == LOWER_O && b == LOWER_O && c == LOWER_M {
            Some(Instruction::ReadStdin)
        } else {
            None
        };
        proof {
            match found {
                Some(i) => {
                    assert(i.token() == (a, b, c));
                    i.lemma_token_round_trip();
                },
                None => {
                    assert forall|i: Instruction| i.token() != (a, b, c) by {}
                },
            }
        }
        found
    }
}

impl AsInstruction for i32 {
    open spec fn instruction(&self) -> Option<Instruction> {
        Instruction::from_code(*self as int)
    }

    fn as_instruction(&self) -> (found: Option<Instruction>) {
        let found = match *self {
            0 => Some(Instruction::EndLoop),
            1 => Some(Instruction::DecrementPointer),
            2 => Some(Instruction::IncrementPointer),
            3 => Some(Instruction::ExecuteValue),
            4 => Some(Instruction::ReadOrWrite),
            5 => Some(Instruction::DecrementByte),
            6 => Some(Instruction::IncrementByte),
            7 => Some(Instruction::BeginLoop),
            8 => Some(Instruction::SetZero),
            9 => Some(Instruction::CopyOrPaste),
            10 => Some(Instruction::WriteStdout),
            11 => Some(Instruction::ReadStdin),
            _ => None,
        };
        proof {
            match found {
                Some(i) => {
                    i.lemma_code_round_trip();
                },
                None => {
                    Instruction::lemma_codes(*self as int);
                },
            }
        }
        found
    }
}

} // verus!
