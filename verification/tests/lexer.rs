use cowi::instruction::Instruction;
use cowi::lexer::Lexer;

fn lex(text: &str) -> Vec<Instruction> {
    Lexer::new(text.as_bytes().to_vec()).lex()
}

#[test]
fn lex_works() {
    let lexer = Lexer::new(vec![
        0x6d, 0x6f, 0x6f, 0x20, 0x6d, 0x4f, 0x6f, 0x20, 0x6d, 0x6f, 0x4f, 0x20, 0x6d, 0x4f, 0x4f,
        0x20, 0x4d, 0x6f, 0x6f, 0x20, 0x4d, 0x4f, 0x6f, 0x20, 0x4d, 0x6f, 0x4f, 0x20, 0x4d, 0x4f,
        0x4f, 0x20, 0x4f, 0x4f, 0x4f, 0x20, 0x4d, 0x4d, 0x4d, 0x20, 0x4f, 0x4f, 0x4d, 0x20, 0x6f,
        0x6f, 0x6d,
    ]);
    assert_eq!(
        lexer.lex(),
        vec![
            Instruction::EndLoop,
            Instruction::DecrementPointer,
            Instruction::IncrementPointer,
            Instruction::ExecuteValue,
            Instruction::ReadOrWrite,
            Instruction::DecrementByte,
            Instruction::IncrementByte,
            Instruction::BeginLoop,
            Instruction::SetZero,
            Instruction::CopyOrPaste,
            Instruction::WriteStdout,
            Instruction::ReadStdin,
        ]
    );
}

#[test]
fn lex_of_short_texts_is_empty() {
    assert_eq!(lex(""), vec![]);
    assert_eq!(lex("m"), vec![]);
    assert_eq!(lex("mo"), vec![]);
}

#[test]
fn lex_without_tokens_is_empty() {
    assert_eq!(lex("The quick brown fox jumps over the lazy dog."), vec![]);
    assert_eq!(lex("MOM mom oOo Omo"), vec![]);
}

#[test]
fn lex_each_token_alone() {
    let table = [
        ("moo", Instruction::EndLoop),
        ("mOo", Instruction::DecrementPointer),
        ("moO", Instruction::IncrementPointer),
        ("mOO", Instruction::ExecuteValue),
        ("Moo", Instruction::ReadOrWrite),
        ("MOo", Instruction::DecrementByte),
        ("MoO", Instruction::IncrementByte),
        ("MOO", Instruction::BeginLoop),
        ("OOO", Instruction::SetZero),
        ("MMM", Instruction::CopyOrPaste),
        ("OOM", Instruction::WriteStdout),
        ("oom", Instruction::ReadStdin),
    ];
    for (token, instruction) in table {
        assert_eq!(lex(token), vec![instruction], "{token}");
    }
}

#[test]
fn lex_is_case_sensitive() {
    assert_eq!(lex("MOO"), vec![Instruction::BeginLoop]);
    assert_eq!(lex("moo"), vec![Instruction::EndLoop]);
    assert_eq!(lex("mmm"), vec![]);
    assert_eq!(lex("ooo"), vec![]);
}

#[test]
fn lex_takes_tokens_without_overlap() {
    // `OOO` is taken whole, so the `OOM` that begins at its second letter is not seen.
    assert_eq!(lex("OOOM"), vec![Instruction::SetZero]);
    assert_eq!(lex("OOOOOO"), vec![Instruction::SetZero, Instruction::SetZero]);
    assert_eq!(lex("MoOmoo"), vec![Instruction::IncrementByte, Instruction::EndLoop]);
}

#[test]
fn lex_moves_on_by_one_byte_where_no_token_is() {
    // `xMo` and `MoO`: the token begins one byte behind the stray one.
    assert_eq!(lex("xMoO"), vec![Instruction::IncrementByte]);
    assert_eq!(lex("xxMoO"), vec![Instruction::IncrementByte]);
    // `oOO` is no token, `OOO` behind its first letter is.
    assert_eq!(lex("oOOO"), vec![Instruction::SetZero]);
    // `MMO` is no token; `MOO` follows.
    assert_eq!(lex("MMOO"), vec![Instruction::BeginLoop]);
}

#[test]
fn lex_finds_tokens_inside_words() {
    assert_eq!(lex("smooth"), vec![Instruction::EndLoop]);
    assert_eq!(lex("a MoOn"), vec![Instruction::IncrementByte]);
}

#[test]
fn lex_gives_at_most_one_instruction_for_three_bytes() {
    let texts: [&[u8]; 6] = [
        b"",
        b"MoO",
        b"MoOMoOMoO",
        b"MoO MoO MoO OOM",
        b"mooMOOmooMOOmo",
        b"\xff\xfeMoO\x00OOM\x80",
    ];
    for text in texts {
        let program = Lexer::new(text.to_vec()).lex();
        assert!(3 * program.len() <= text.len());
    }
    assert_eq!(Lexer::new(b"MoOMoOMoO".to_vec()).lex().len(), 3);
}

#[test]
fn lex_reads_bytes_that_are_no_text() {
    let program = Lexer::new(vec![0xff, 0x00, 0x4d, 0x4d, 0x4d, 0xc3, 0x28]).lex();
    assert_eq!(program, vec![Instruction::CopyOrPaste]);
}
