//! The maze: a fixed layout, the positions the agent may occupy, moves and
//! rewards.

use vstd::prelude::*;
use crate::action::Action;
use crate::state::Contract;

verus! {

/// Side length of the square maze.
pub const MAZE_SIZE: usize = 5;

/// Reward for a step that ends on the goal cell.
pub const GOAL_REWARD: i32 = 100;

/// Reward for every other step.
pub const STEP_REWARD: i32 = -1;

/// What a grid cell holds.
#[derive(Copy, Clone, Debug, PartialEq, Eq, Structural)]
pub enum Cell {
    Empty,
    Wall,
    Start,
    Goal,
}

/// The maze, row by row. It has one `Start` and one `Goal` cell
/// (`lemma_layout`).
pub const MAZE_LAYOUT: [[Cell; MAZE_SIZE]; MAZE_SIZE] = [
    [Cell::Start, Cell::Empty, Cell::Wall, Cell::Empty, Cell::Empty],
    [Cell::Empty, Cell::Empty, Cell::Wall, Cell::Empty, Cell::Wall],
    [Cell::Wall, Cell::Empty, Cell::Empty, Cell::Empty, Cell::Empty],
    [Cell::Empty, Cell::Wall, Cell::Wall, Cell::Wall, Cell::Empty],
    [Cell::Empty, Cell::Empty, Cell::Empty, Cell::Goal, Cell::Empty],
];

/// Both coordinates lie on the grid.
pub open spec fn in_bounds(row: int, col: int) -> bool {
    0 <= row < MAZE_SIZE && 0 <= col < MAZE_SIZE
}

/// The cell at `(row, col)` of the layout.
pub open spec fn maze_cell(row: int, col: int) -> Cell
    recommends
        in_bounds(row, col),
{
    MAZE_LAYOUT[row][col]
}

/// A position the agent may occupy: on the grid and not a wall.
pub open spec fn valid_position(row: int, col: int) -> bool {
    in_bounds(row, col) && maze_cell(row, col) != Cell::Wall
}

/// Where every episode begins.
pub open spec fn start_position() -> (int, int) {
    (0, 0)
}

/// The cell that ends an episode.
pub open spec fn goal_position() -> (int, int) {
    (4, 3)
}

/// The reward for a step that ends on `(row, col)`.
pub open spec fn reward_at(row: int, col: int) -> i32 {
    if maze_cell(row, col) == Cell::Goal {
        GOAL_REWARD
    } else {
        STEP_REWARD
    }
}

/// The position reached from `(row, col)` by `action`: the neighbouring cell
/// if the agent may occupy it, the same cell otherwise.
pub open spec fn transition(row: int, col: int, action: Action) -> (int, int) {
    let r = row + action.row_delta();
    let c = col + action.col_delta();
    if valid_position(r, c) {
        (r, c)
    } else {
        (row, col)
    }
}

/// The layout has exactly one start cell and exactly one goal cell: the
/// cells at `start_position()` and `goal_position()`.
pub proof fn lemma_layout()
    ensures
        forall|row: int, col: int| #[trigger]
            in_bounds(row, col) ==> (maze_cell(row, col) == Cell::Start <==> (row, col)
                == start_position()),
        forall|row: int, col: int| #[trigger]
            in_bounds(row, col) ==> (maze_cell(row, col) == Cell::Goal <==> (row, col)
                == goal_position()),
{
    assert forall|row: int, col: int| #[trigger] in_bounds(row, col) implies (maze_cell(row, col)
        == Cell::Start <==> (row, col) == start_position()) && (maze_cell(row, col) == Cell::Goal
        <==> (row, col) == goal_position()) by {
        lemma_row_cases(row, col);
    }
}

proof fn lemma_row_cases(row: int, col: int)
    requires
        in_bounds(row, col),
    ensures
        maze_cell(row, col) == Cell::Start <==> (row == 0 && col == 0),
        maze_cell(row, col) == Cell::Goal <==> (row == 4 && col == 3),
{
    let r0 = MAZE_LAYOUT[0];
    let r1 = MAZE_LAYOUT[1];
    let r2 = MAZE_LAYOUT[2];
    let r3 = MAZE_LAYOUT[3];
    let r4 = MAZE_LAYOUT[4];
    assert(r0[0] == Cell::Start && r0[1] == Cell::Empty && r0[2] == Cell::Wall && r0[3]
        == Cell::Empty && r0[4] == Cell::Empty);
    assert(r1[0] == Cell::Empty && r1[1] == Cell::Empty && r1[2] == Cell::Wall && r1[3]
        == Cell::Empty && r1[4] == Cell::Wall);
    assert(r2[0] == Cell::Wall && r2[1] == Cell::Empty && r2[2] == Cell::Empty && r2[3]
        == Cell::Empty && r2[4] == Cell::Empty);
    assert(r3[0] == Cell::Empty && r3[1] == Cell::Wall && r3[2] == Cell::Wall && r3[3]
        == Cell::Wall && r3[4] == Cell::Empty);
    assert(r4[0] == Cell::Empty && r4[1] == Cell::Empty && r4[2] == Cell::Empty && r4[3]
        == Cell::Goal && r4[4] == Cell::Empty);
    assert(row == 0 || row == 1 || row == 2 || row == 3 || row == 4);
    assert(col == 0 || col == 1 || col == 2 || col == 3 || col == 4);
}

/// The cell at `(row, col)`.
pub fn cell_at(row: usize, col: usize) -> (cell: Cell)
    requires
        in_bounds(row as int, col as int),
    ensures
        cell == maze_cell(row as int, col as int),
{
    MAZE_LAYOUT[row][col]
}

impl Contract {
    /// Finds the start cell by scanning the layout row by row.
    ///
    /// On a layout without a start cell the scan would end on `(0, 0)`. This
    /// layout has exactly one, so the scan finds it: the result is a start
    /// cell, and no other cell is one.
    pub fn get_start_position() -> (pos: (usize, usize))
        ensures
            (pos.0 as int, pos.1 as int) == start_position(),
            in_bounds(pos.0 as int, pos.1 as int),
            maze_cell(pos.0 as int, pos.1 as int) == Cell::Start,
            forall|row: int, col: int| #[trigger]
                in_bounds(row, col) && maze_cell(row, col) == Cell::Start ==> (row, col) == (
                    pos.0 as int,
                    pos.1 as int,
                ),
    {
        proof {
            lemma_layout();
        }
        let mut i: usize = 0;
        while i < MAZE_SIZE
            invariant
                i <= MAZE_SIZE,
                forall|row: int, col: int| #[trigger]
                    in_bounds(row, col) && row < i ==> maze_cell(row, col) != Cell::Start,
            decreases MAZE_SIZE - i,
        {
            let mut j: usize = 0;
            while j < MAZE_SIZE
                invariant
                    i < MAZE_SIZE,
                    j <= MAZE_SIZE,
                    forall|row: int, col: int| #[trigger]
                        in_bounds(row, col) && row < i ==> maze_cell(row, col) != Cell::Start,
                    forall|col: int| 0 <= col < j ==> maze_cell(i as int, col) != Cell::Start,
                decreases MAZE_SIZE - j,
            {
                if cell_at(i, j) == Cell::Start {
                    assert(in_bounds(i as int, j as int));
                    return (i, j);
                }
                j += 1;
            }
            i += 1;
        }
        assert(in_bounds(0, 0));
        (0, 0)
    }

    /// Whether the agent may occupy `(x, y)`: both coordinates on the grid and
    /// the cell not a wall.
    pub fn is_valid_position(x: isize, y: isize) -> (ok: bool)
        ensures
            ok == valid_position(x as int, y as int),
    {
        if x < 0 || y < 0 || x >= MAZE_SIZE as isize || y >= MAZE_SIZE as isize {
            return false;
        }
        cell_at(x as usize, y as usize) != Cell::Wall
    }

    /// The position after taking `action` in `(x, y)`; a move off the grid or
    /// into a wall leaves the agent where it is.
    pub fn next_state(x: usize, y: usize, action: Action) -> (next: (usize, usize))
        requires
            in_bounds(x as int, y as int),
        ensures
            (next.0 as int, next.1 as int) == transition(x as int, y as int, action),
            in_bounds(next.0 as int, next.1 as int),
            valid_position(x as int, y as int) ==> valid_position(next.0 as int, next.1 as int),
    {
        let (dx, dy): (isize, isize) = match action {
            Action::Up => (-1, 0),
            Action::Down => (1, 0),
            Action::Left => (0, -1),
            Action::Right => (0, 1),
        };
        let new_x: isize = x as isize + dx;
        let new_y: isize = y as isize + dy;
        if Self::is_valid_position(new_x, new_y) {
            (new_x as usize, new_y as usize)
        } else {
            (x, y)
        }
    }

    /// The reward for a step that ends on `(x, y)`: 100 on the goal cell and
    /// -1 on any other.
    pub fn get_reward(x: usize, y: usize) -> (reward: i32)
        requires
            in_bounds(x as int, y as int),
        ensures
            reward == reward_at(x as int, y as int),
            reward == 100 <==> (x as int, y as int) == goal_position(),
            reward == 100 || reward == -1,
    {
        proof {
            lemma_layout();
        }
        if cell_at(x, y) == Cell::Goal {
            GOAL_REWARD
        } else {
            STEP_REWARD
        }
    }
}

} // verus!
