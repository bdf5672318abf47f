use cowi::brackets::{find_matching, Direction};
use cowi::errors::ErrorKind;
use cowi::instruction::Instruction::{
    self, BeginLoop, CopyOrPaste, DecrementByte, DecrementPointer, EndLoop, ExecuteValue, IncrementByte, IncrementPointer, ReadOrWrite, ReadStdin, SetZero, WriteStdout,
};

fn forward(program: &Vec<Instruction>, origin: usize) -> Result<usize, ErrorKind> {
    find_matching(program, origin, Direction::Forward)
}

fn backward(program: &Vec<Instruction>, origin: usize) -> Result<usize, ErrorKind> {
    find_matching(program, origin, Direction::Backward)
}

#[test]
fn forward_search_skips_the_next_instruction() {
    let program = vec![SetZero, BeginLoop, EndLoop, EndLoop];
    assert_eq!(forward(&program, 1), Ok(3));
}

#[test]
fn forward_search_counts_nested_loops() {
    //                 0          1        2          3        4        5        6
    let program = vec![BeginLoop, SetZero, BeginLoop, SetZero, EndLoop, SetZero, EndLoop];
    assert_eq!(forward(&program, 0), Ok(6));
    assert_eq!(forward(&program, 2), Ok(4));
}

#[test]
fn forward_search_of_three_opens() {
    //                 0          1          2          3        4        5        6
    let program = vec![BeginLoop, BeginLoop, BeginLoop, EndLoop, EndLoop, EndLoop, EndLoop];
    // From 0 the open at 1 is passed over: the one at 2 counts, and closes at 3.
    assert_eq!(forward(&program, 0), Ok(4));
    assert_eq!(forward(&program, 1), Ok(3));
    assert_eq!(forward(&program, 2), Ok(4));
}

#[test]
fn forward_search_fails_at_the_end() {
    assert_eq!(forward(&vec![], 0), Err(ErrorKind::UnmatchedEndLoop));
    assert_eq!(forward(&vec![BeginLoop], 0), Err(ErrorKind::UnmatchedEndLoop));
    assert_eq!(forward(&vec![BeginLoop, EndLoop], 0), Err(ErrorKind::UnmatchedEndLoop));
    assert_eq!(forward(&vec![BeginLoop, SetZero, SetZero], 0), Err(ErrorKind::UnmatchedEndLoop));
    assert_eq!(
        forward(&vec![BeginLoop, SetZero, BeginLoop, EndLoop], 0),
        Err(ErrorKind::UnmatchedEndLoop)
    );
    assert_eq!(forward(&vec![BeginLoop, SetZero, EndLoop], 1), Err(ErrorKind::UnmatchedEndLoop));
    assert_eq!(forward(&vec![BeginLoop, SetZero, EndLoop], 7), Err(ErrorKind::UnmatchedEndLoop));
    assert_eq!(
        forward(&vec![BeginLoop, SetZero, EndLoop], usize::MAX),
        Err(ErrorKind::UnmatchedEndLoop)
    );
}

#[test]
fn forward_search_ends_at_the_first_close() {
    let program = vec![BeginLoop, SetZero, EndLoop, EndLoop, EndLoop];
    assert_eq!(forward(&program, 0), Ok(2));
}

#[test]
fn backward_search_skips_the_instruction_before() {
    let program = vec![BeginLoop, BeginLoop, EndLoop];
    assert_eq!(backward(&program, 2), Ok(0));
}

#[test]
fn backward_search_counts_nested_loops() {
    //                 0          1        2          3        4        5        6
    let program = vec![BeginLoop, SetZero, BeginLoop, SetZero, EndLoop, SetZero, EndLoop];
    assert_eq!(backward(&program, 6), Ok(0));
    assert_eq!(backward(&program, 4), Ok(2));
}

#[test]
fn backward_search_fails_at_the_start() {
    assert_eq!(backward(&vec![], 0), Err(ErrorKind::UnmatchedBeginLoop));
    assert_eq!(backward(&vec![EndLoop], 0), Err(ErrorKind::UnmatchedBeginLoop));
    assert_eq!(backward(&vec![BeginLoop, EndLoop], 1), Err(ErrorKind::UnmatchedBeginLoop));
    assert_eq!(backward(&vec![SetZero, SetZero, EndLoop], 2), Err(ErrorKind::UnmatchedBeginLoop));
    assert_eq!(
        backward(&vec![BeginLoop, EndLoop, SetZero, EndLoop], 3),
        Err(ErrorKind::UnmatchedBeginLoop)
    );
    assert_eq!(backward(&vec![BeginLoop, SetZero, EndLoop], 9), Err(ErrorKind::UnmatchedBeginLoop));
}

#[test]
fn backward_search_ends_at_the_nearest_open() {
    let program = vec![BeginLoop, BeginLoop, SetZero, EndLoop];
    assert_eq!(backward(&program, 3), Ok(1));
}

#[test]
fn searches_look_at_the_two_loop_instructions_only() {
    let program = vec![
        BeginLoop,
        ExecuteValue,
        CopyOrPaste,
        ReadOrWrite,
        ReadStdin,
        WriteStdout,
        IncrementPointer,
        DecrementPointer,
        IncrementByte,
        DecrementByte,
        SetZero,
        EndLoop,
    ];
    assert_eq!(forward(&program, 0), Ok(11));
    assert_eq!(backward(&program, 11), Ok(0));
}
