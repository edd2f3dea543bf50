//! The exhaustive search: rotations are tried in the order of the
//! enumeration until one solves the puzzle or none is left.

use crate::puzzle::{shipped_rows, Puzzle, Rotation};
use crate::solver::{nth, Solver, ROTATIONS};
use vstd::prelude::*;

verus! {

/// How a search ended.
#[derive(Clone, Copy, Debug, PartialEq, Eq)]
pub enum Outcome {
    /// The rotation solves the puzzle; it was the `tries`-th one examined.
    Solved { rotation: Rotation, tries: usize },
    /// All `tries` rotations that were left have been examined and none
    /// solves the puzzle.
    ExhaustedWithoutSolution { tries: usize },
}

/// None of the rotations at the places `from` up to, but not including,
/// `to` of the enumeration solves the puzzle.
pub open spec fn none_solves(puzzle: Puzzle, from: int, to: int) -> bool {
    forall|i: int| from <= i < to ==> !puzzle.solves(#[trigger] nth(i))
}

/// Tries the rotations that `solver` has left, in its order, and stops at the
/// first that solves the puzzle. The count of tries includes the winning one.
pub fn search(puzzle: &Puzzle, solver: Solver) -> (outcome: Outcome)
    ensures
        0 <= solver.position() <= ROTATIONS,
        match outcome {
            Outcome::Solved { rotation, tries } => {
                &&& 1 <= tries <= ROTATIONS - solver.position()
                &&& rotation == nth(solver.position() + tries - 1)
                &&& puzzle.solves(rotation)
                &&& none_solves(*puzzle, solver.position(), solver.position() + tries - 1)
            },
            Outcome::ExhaustedWithoutSolution { tries } => {
                &&& tries == ROTATIONS - solver.position()
                &&& none_solves(*puzzle, solver.position(), ROTATIONS as int)
            },
        },
{
    let mut rest = solver;
    let mut tries: usize = 0;
    loop
        invariant
            rest.position() == solver.position() + tries,
            tries > 0 ==> 0 <= solver.position(),
            none_solves(*puzzle, solver.position(), solver.position() + tries),
        decreases ROTATIONS - rest.position(),
    {
        match rest.next() {
            Some(rotation) => {
                tries += 1;
                if puzzle.is_solution(rotation) {
                    return Outcome::Solved { rotation, tries };
                }
            },
            None => {
                return Outcome::ExhaustedWithoutSolution { tries };
            },
        }
    }
}

/// The puzzle as built has a solution: the rotation (7, 8, 3, 3), which the
/// enumeration holds at place 13287. A search from the start therefore
/// never ends exhausted.
pub proof fn lemma_built_puzzle_is_solvable(puzzle: Puzzle)
    requires
        puzzle.wf(),
        forall|layer: int| 0 <= layer < 5 ==> (#[trigger] puzzle.layers()[layer]).rows() == shipped_rows(layer),
    ensures
        nth(13287) == (7usize, 8usize, 3usize, 3usize),
        puzzle.solves(nth(13287)),
        !none_solves(puzzle, 0, ROTATIONS as int),
{
    let rotation: Rotation = (7, 8, 3, 3);
    assert(nth(13287) == rotation);
    assert forall|column: int| 0 <= column < 12 implies #[trigger] puzzle.column_sum(column, rotation)
        == 42 by {
        lemma_solved_column(puzzle, column);
    }
}

/// One column of the puzzle as built, under the rotation that solves it.
proof fn lemma_solved_column(puzzle: Puzzle, column: int)
    requires
        puzzle.wf(),
        forall|layer: int| 0 <= layer < 5 ==> (#[trigger] puzzle.layers()[layer]).rows() == shipped_rows(layer),
        0 <= column < 12,
    ensures
        puzzle.column_sum(column, (7, 8, 3, 3)) == 42,
{
}

} // verus!
