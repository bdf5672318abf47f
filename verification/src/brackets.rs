use vstd::prelude::*;

use crate::errors::ErrorKind;
use crate::instruction::Instruction;

verus! {

/// The way a search for the partner of a loop instruction goes.
#[derive(Debug, Clone, Copy, PartialEq, Eq, Structural)]
pub enum Direction {
    /// From a `BeginLoop` towards the end of the program.
    Forward,
    /// From an `EndLoop` towards the start of the program.
    Backward,
}

/// What an instruction adds to the nesting depth: a loop that begins is one
/// level more, a loop that ends is one level less.
pub open spec fn nesting(instruction: Instruction) -> int {
    match instruction {
        Instruction::BeginLoop => 1,
        Instruction::EndLoop => -1,
        _ => 0,
    }
}

/// The count that a forward search holds once it has read the instructions
/// from `start` up to `at`. It begins at 1; each `BeginLoop` adds 1 and each
/// `EndLoop` takes 1 away.
pub open spec fn depth_forward(program: Seq<Instruction>, start: int, at: int) -> int
    decreases at - start + 1,
{
    if at < start {
        1
    } else {
        depth_forward(program, start, at - 1) + nesting(program[at])
    }
}

/// The count that a backward search holds once it has read the instructions
/// from `start` down to `at`. It begins at 1; each `EndLoop` adds 1 and each
/// `BeginLoop` takes 1 away.
pub open spec fn depth_backward(program: Seq<Instruction>, start: int, at: int) -> int
    decreases start - at + 1,
{
    if at > start {
        1
    } else {
        depth_backward(program, start, at + 1) - nesting(program[at])
    }
}

/// Where a search from `origin` begins. It passes over the instruction next
/// to `origin`.
pub open spec fn search_start(origin: int, direction: Direction) -> int {
    match direction {
        Direction::Forward => origin + 2,
        Direction::Backward => origin - 2,
    }
}

/// Whether `at` is a place that a search from `origin` reads.
pub open spec fn in_search(
    program: Seq<Instruction>,
    origin: int,
    direction: Direction,
    at: int,
) -> bool {
    match direction {
        Direction::Forward => 0 <= origin + 2 <= at < program.len(),
        Direction::Backward => 0 <= at <= origin - 2 < program.len(),
    }
}

/// The count that a search from `origin` holds once it has read `at`.
pub open spec fn depth(program: Seq<Instruction>, origin: int, direction: Direction, at: int) -> int {
    match direction {
        Direction::Forward => depth_forward(program, origin + 2, at),
        Direction::Backward => depth_backward(program, origin - 2, at),
    }
}

/// Whether `at` comes before `target` in the order in which a search reads.
pub open spec fn reads_before(direction: Direction, at: int, target: int) -> bool {
    match direction {
        Direction::Forward => at < target,
        Direction::Backward => at > target,
    }
}

/// Whether a search from `origin` ends at `target`: the count is 0 there, and
/// nowhere before.
pub open spec fn is_match(
    program: Seq<Instruction>,
    origin: int,
    direction: Direction,
    target: int,
) -> bool {
    &&& in_search(program, origin, direction, target)
    &&& depth(program, origin, direction, target) == 0
    &&& forall|at: int|
        in_search(program, origin, direction, at) && reads_before(direction, at, target)
            ==> #[trigger] depth(program, origin, direction, at) != 0
}

/// The place where a search from `origin` ends, if it ends.
pub open spec fn matching(program: Seq<Instruction>, origin: int, direction: Direction) -> Option<
    int,
> {
    if exists|target: int| is_match(program, origin, direction, target) {
        Some(choose|target: int| is_match(program, origin, direction, target))
    } else {
        None
    }
}

/// The failure of a search that finds no partner.
pub open spec fn unmatched(direction: Direction) -> ErrorKind {
    match direction {
        Direction::Forward => ErrorKind::UnmatchedEndLoop,
        Direction::Backward => ErrorKind::UnmatchedBeginLoop,
    }
}

/// A search ends at one place at most.
pub proof fn lemma_match_unique(
    program: Seq<Instruction>,
    origin: int,
    direction: Direction,
    first: int,
    second: int,
)
    requires
        is_match(program, origin, direction, first),
        is_match(program, origin, direction, second),
    ensures
        first == second,
{
    if reads_before(direction, first, second) {
        assert(depth(program, origin, direction, first) != 0);
    }
    if reads_before(direction, second, first) {
        assert(depth(program, origin, direction, second) != 0);
    }
}

/// The place where a search ends lies in the program, two instructions or
/// more away from the origin.
pub proof fn lemma_matching_bounds(program: Seq<Instruction>, origin: int, direction: Direction)
    ensures
        matching(program, origin, direction) matches Some(target) ==> {
            &&& is_match(program, origin, direction, target)
            &&& 0 <= target < program.len()
            &&& direction == Direction::Forward ==> origin + 2 <= target
            &&& direction == Direction::Backward ==> target <= origin - 2
        },
{
}

fn search_forward(program: &Vec<Instruction>, origin: usize) -> (found: Result<usize, ErrorKind>)
    ensures
        match found {
            Ok(target) => is_match(program@, origin as int, Direction::Forward, target as int),
            Err(e) => e == ErrorKind::UnmatchedEndLoop && forall|target: int|
                !is_match(program@, origin as int, Direction::Forward, target),
        },
{
    let len = program.len();
    if len < 3 || origin >= len - 2 {
        return Err(ErrorKind::UnmatchedEndLoop);
    }
    let start: usize = origin + 2;
    let mut at: usize = start;
    let mut count: usize = 1;
    loop
        invariant
            len == program.len(),
            start == origin + 2,
            start <= at < len,
            count == depth_forward(program@, start as int, at - 1),
            1 <= count <= at - start + 1,
            forall|p: int| start <= p < at ==> #[trigger] depth_forward(program@, start as int, p) != 0,
        decreases len - at,
    {
        match program[at] {
            Instruction::BeginLoop => {
                count = count + 1;
            },
            Instruction::EndLoop => {
                count = count - 1;
            },
            _ => {},
        }
        if count == 0 {
            return Ok(at);
        }
        if at + 1 >= len {
            return Err(ErrorKind::UnmatchedEndLoop);
        }
        at = at + 1;
    }
}

fn search_backward(program: &Vec<Instruction>, origin: usize) -> (found: Result<usize, ErrorKind>)
    ensures
        match found {
            Ok(target) => is_match(program@, origin as int, Direction::Backward, target as int),
            Err(e) => e == ErrorKind::UnmatchedBeginLoop && forall|target: int|
                !is_match(program@, origin as int, Direction::Backward, target),
        },
{
    let len = program.len();
    if origin < 2 || origin - 2 >= len {
        return Err(ErrorKind::UnmatchedBeginLoop);
    }
    let start: usize = origin - 2;
    let mut at: usize = start;
    let mut count: usize = 1;
    loop
        invariant
            len == program.len(),
            start == origin - 2,
            at <= start < len,
            count == depth_backward(program@, start as int, at + 1),
            1 <= count <= start - at + 1,
            forall|p: int| at < p <= start ==> #[trigger] depth_backward(program@, start as int, p) != 0,
        decreases at,
    {
        match program[at] {
            Instruction::BeginLoop => {
                count = count - 1;
            },
            Instruction::EndLoop => {
                count = count + 1;
            },
            _ => {},
        }
        if count == 0 {
            return Ok(at);
        }
        if at == 0 {
            return Err(ErrorKind::UnmatchedBeginLoop);
        }
        at = at - 1;
    }
}

/// Looks for the partner of the loop instruction at `origin`.
pub fn find_matching(program: &Vec<Instruction>, origin: usize, direction: Direction) -> (found:
    Result<usize, ErrorKind>)
    ensures
        match found {
            Ok(target) => matching(program@, origin as int, direction) == Some(target as int),
            Err(e) => matching(program@, origin as int, direction) is None && e == unmatched(
                direction,
            ),
        },
{
    let found = match direction {
        Direction::Forward => search_forward(program, origin),
        Direction::Backward => search_backward(program, origin),
    };
    proof {
        if let Ok(target) = found {
            let chosen = choose|t: int| is_match(program@, origin as int, direction, t);
            lemma_match_unique(program@, origin as int, direction, target as int, chosen);
        }
    }
    found
}

} // verus!
