use vstd::prelude::*;

use crate::instruction::{AsInstruction, Instruction};

verus! {

/// The number of bytes in a token.
pub const TOKEN_SIZE: usize = 3;

/// The program that a source text stands for.
///
/// The text is read from left to right. Where three bytes form a token, its
/// instruction is taken and reading goes on behind the token; where they do
/// not, reading goes on one byte further.
pub open spec fn decode(bytes: Seq<u8>) -> Seq<Instruction>
    decreases bytes.len(),
{
    if bytes.len() < TOKEN_SIZE {
        Seq::empty()
    } else {
        match Instruction::from_token(bytes[0], bytes[1], bytes[2]) {
            Some(instruction) => seq![instruction] + decode(bytes.skip(TOKEN_SIZE as int)),
            None => decode(bytes.skip(1)),
        }
    }
}

/// A program has at most one instruction for every three bytes of its text.
pub proof fn lemma_decode_len(bytes: Seq<u8>)
    ensures
        TOKEN_SIZE * decode(bytes).len() <= bytes.len(),
    decreases bytes.len(),
{
    if bytes.len() >= TOKEN_SIZE {
        match Instruction::from_token(bytes[0], bytes[1], bytes[2]) {
            Some(_) => lemma_decode_len(bytes.skip(TOKEN_SIZE as int)),
            None => lemma_decode_len(bytes.skip(1)),
        }
    }
}

/// A text with fewer bytes than a token stands for the empty program.
pub proof fn lemma_decode_short(bytes: Seq<u8>)
    requires
        bytes.len() < TOKEN_SIZE,
    ensures
        decode(bytes) == Seq::<Instruction>::empty(),
{
}

/// The token of an instruction, alone, stands for that instruction alone.
pub proof fn lemma_decode_token(instruction: Instruction)
    ensures
        decode(seq![instruction.token().0, instruction.token().1, instruction.token().2]) == seq![
            instruction,
        ],
{
    let t = instruction.token();
    let text = seq![t.0, t.1, t.2];
    instruction.lemma_token_round_trip();
    lemma_decode_short(text.skip(TOKEN_SIZE as int));
    assert(decode(text) =~= seq![instruction] + decode(text.skip(TOKEN_SIZE as int)));
}

/// A token in front of a text puts its instruction in front of the program.
pub proof fn lemma_decode_prepend(instruction: Instruction, rest: Seq<u8>)
    ensures
        decode(
            seq![instruction.token().0, instruction.token().1, instruction.token().2] + rest,
        ) == seq![instruction] + decode(rest),
{
    let t = instruction.token();
    let text = seq![t.0, t.1, t.2] + rest;
    instruction.lemma_token_round_trip();
    assert(text.skip(TOKEN_SIZE as int) =~= rest);
}

/// A source text, not yet decoded.
pub struct Lexer {
    bytes: Vec<u8>,
}

impl View for Lexer {
    type V = Seq<u8>;

    /// The bytes of the text.
    closed spec fn view(&self) -> Seq<u8> {
        self.bytes@
    }
}

impl Lexer {
    /// A lexer for the text `bytes`.
    pub fn new(bytes: Vec<u8>) -> (lexer: Self)
        ensures
            lexer@ == bytes@,
    {
        Lexer { bytes }
    }

    /// Decodes the text. Bytes that belong to no token are passed over: no
    /// text fails to decode.
    pub fn lex(self) -> (program: Vec<Instruction>)
        ensures
            program@ == decode(self@),
            TOKEN_SIZE * program.len() <= self@.len(),
    {
        let length = self.bytes.len();
        let mut cursor: usize = 0;
        let mut program: Vec<Instruction> = Vec::new();
        assert(self.bytes@.skip(0) =~= self.bytes@);
        assert(program@ + decode(self.bytes@) =~= decode(self.bytes@));
        while length - cursor >= TOKEN_SIZE
            invariant
                length == self.bytes.len(),
                cursor <= length,
                decode(self.bytes@) == program@ + decode(self.bytes@.skip(cursor as int)),
            decreases length - cursor,
        {
            let buffer: [u8; 3] = [self.bytes[cursor], self.bytes[cursor + 1], self.bytes[cursor + 2]];
            let ghost rest = self.bytes@.skip(cursor as int);
            assert(rest[0] == buffer[0] && rest[1] == buffer[1] && rest[2] == buffer[2]);
            if let Some(instruction) = buffer.as_instruction() {
                assert(rest.skip(TOKEN_SIZE as int) =~= self.bytes@.skip(cursor + TOKEN_SIZE));
                assert(program@.push(instruction) + decode(rest.skip(TOKEN_SIZE as int))
                    =~= program@ + (seq![instruction] + decode(rest.skip(TOKEN_SIZE as int))));
                program.push(instruction);
                cursor = cursor + TOKEN_SIZE;
            } else {
                assert(rest.skip(1) =~= self.bytes@.skip(cursor + 1));
                cursor = cursor + 1;
            }
        }
        proof {
            lemma_decode_len(self.bytes@);
        }
        program
    }
}

} // verus!
