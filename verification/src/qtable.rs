//! The flat Q-table: addresses, reading and writing the values of a cell,
//! and the greedy policy of a table.

use vstd::prelude::*;
use crate::action::{action_of, Action, ACTION_COUNT};
use crate::maze::{cell_at, in_bounds, maze_cell, Cell, MAZE_SIZE};
use crate::policy::greedy_index;
use crate::state::{Contract, Q_TABLE_SIZE};

verus! {

/// Number of cells of the maze.
pub const CELL_COUNT: usize = MAZE_SIZE * MAZE_SIZE;

/// The address of `action` in cell `(row, col)` of the flat table.
pub open spec fn q_index(row: int, col: int, action: int) -> int {
    row * MAZE_SIZE * ACTION_COUNT + col * ACTION_COUNT + action
}

/// The four values of cell `(row, col)`, in ordinal order of their actions.
pub open spec fn decode_spec(table: Seq<i32>, row: int, col: int) -> Seq<i32> {
    table.subrange(q_index(row, col, 0), q_index(row, col, ACTION_COUNT as int))
}

/// The table with the four values of cell `(row, col)` replaced by `values`.
pub open spec fn encode_spec(table: Seq<i32>, row: int, col: int, values: Seq<i32>) -> Seq<i32> {
    Seq::new(
        table.len(),
        |i: int|
            if q_index(row, col, 0) <= i < q_index(row, col, ACTION_COUNT as int) {
                values[i - q_index(row, col, 0)]
            } else {
                table[i]
            },
    )
}

/// The policy in cell `(row, col)`: nothing in a wall, the greedy action
/// anywhere else.
pub open spec fn policy_at(table: Seq<i32>, row: int, col: int) -> Option<Action> {
    if maze_cell(row, col) == Cell::Wall {
        None
    } else {
        Some(action_of(greedy_index(decode_spec(table, row, col))))
    }
}

/// Addresses of cells on the grid lie in the table, and no two of them
/// coincide.
pub proof fn lemma_q_index(row: int, col: int, action: int)
    requires
        in_bounds(row, col),
        0 <= action < ACTION_COUNT,
    ensures
        0 <= q_index(row, col, action) < Q_TABLE_SIZE,
        q_index(row, col, action) == q_index(row, col, 0) + action,
        q_index(row, col, action) / (ACTION_COUNT as int) == row * MAZE_SIZE + col,
        q_index(row, col, action) % (ACTION_COUNT as int) == action,
{
}

/// Writing back what was read changes nothing.
pub proof fn lemma_encode_decode(table: Seq<i32>, row: int, col: int)
    requires
        table.len() == Q_TABLE_SIZE,
        in_bounds(row, col),
    ensures
        encode_spec(table, row, col, decode_spec(table, row, col)) == table,
{
    lemma_q_index(row, col, 0);
    assert(encode_spec(table, row, col, decode_spec(table, row, col)) =~= table);
}

/// Reading back what was written gives the written values, and every other
/// cell reads as before.
pub proof fn lemma_decode_encode(
    table: Seq<i32>,
    row: int,
    col: int,
    values: Seq<i32>,
    other_row: int,
    other_col: int,
)
    requires
        table.len() == Q_TABLE_SIZE,
        values.len() == ACTION_COUNT,
        in_bounds(row, col),
        in_bounds(other_row, other_col),
    ensures
        encode_spec(table, row, col, values).len() == Q_TABLE_SIZE,
        decode_spec(encode_spec(table, row, col, values), row, col) == values,
        (other_row, other_col) != (row, col) ==> decode_spec(
            encode_spec(table, row, col, values),
            other_row,
            other_col,
        ) == decode_spec(table, other_row, other_col),
{
    lemma_q_index(row, col, 0);
    lemma_q_index(other_row, other_col, 0);
    assert(decode_spec(encode_spec(table, row, col, values), row, col) =~= values);
    if (other_row, other_col) != (row, col) {
        assert(decode_spec(encode_spec(table, row, col, values), other_row, other_col)
            =~= decode_spec(table, other_row, other_col));
    }
}

/// Replacing one value of a cell and writing the cell back changes exactly
/// one entry of the table.
pub proof fn lemma_encode_update(table: Seq<i32>, row: int, col: int, action: int, value: i32)
    requires
        table.len() == Q_TABLE_SIZE,
        in_bounds(row, col),
        0 <= action < ACTION_COUNT,
    ensures
        encode_spec(table, row, col, decode_spec(table, row, col).update(action, value))
            == table.update(q_index(row, col, action), value),
{
    lemma_q_index(row, col, 0);
    assert(encode_spec(table, row, col, decode_spec(table, row, col).update(action, value))
        =~= table.update(q_index(row, col, action), value));
}

impl Contract {
    /// Reads the four values of cell `(x, y)`.
    pub fn decode_q(&self, x: usize, y: usize) -> (values: [i32; ACTION_COUNT])
        requires
            in_bounds(x as int, y as int),
        ensures
            values@ == decode_spec(self@.q_table, x as int, y as int),
            forall|a: int|
                0 <= a < ACTION_COUNT ==> values[a] == self@.q_table[q_index(
                    x as int,
                    y as int,
                    a,
                )],
    {
        let mut arr: [i32; ACTION_COUNT] = [0; ACTION_COUNT];
        let base: usize = x * MAZE_SIZE * ACTION_COUNT + y * ACTION_COUNT;
        let mut i: usize = 0;
        while i < ACTION_COUNT
            invariant
                i <= ACTION_COUNT,
                base == q_index(x as int, y as int, 0),
                base + ACTION_COUNT <= Q_TABLE_SIZE,
                forall|a: int| 0 <= a < i ==> arr[a] == self.q_table[base + a],
            decreases ACTION_COUNT - i,
        {
            arr[i] = self.q_table[base + i];
            i += 1;
        }
        assert(arr@ =~= decode_spec(self@.q_table, x as int, y as int));
        arr
    }

    /// Writes the four values of cell `(x, y)`; nothing else changes.
    pub fn encode_q(&mut self, x: usize, y: usize, q_values: [i32; ACTION_COUNT])
        requires
            in_bounds(x as int, y as int),
        ensures
            final(self)@.q_table == encode_spec(old(self)@.q_table, x as int, y as int, q_values@),
            final(self)@.owner == old(self)@.owner,
            final(self)@.rng_seed == old(self)@.rng_seed,
    {
        let base: usize = x * MAZE_SIZE * ACTION_COUNT + y * ACTION_COUNT;
        let mut i: usize = 0;
        while i < ACTION_COUNT
            invariant
                i <= ACTION_COUNT,
                base == q_index(x as int, y as int, 0),
                base + ACTION_COUNT <= Q_TABLE_SIZE,
                self.owner == old(self).owner,
                self.rng_seed == old(self).rng_seed,
                forall|k: int| 0 <= k < Q_TABLE_SIZE ==> self.q_table[k] == (if base <= k < base + i {
                    q_values[k - base]
                } else {
                    old(self).q_table[k]
                }),
            decreases ACTION_COUNT - i,
        {
            self.q_table[base + i] = q_values[i];
            i += 1;
        }
        assert(self@.q_table =~= encode_spec(old(self)@.q_table, x as int, y as int, q_values@));
    }

    /// The greedy policy: for every cell that is not a wall, the action with
    /// the greatest value, the lowest ordinal winning among equals.
    ///
    /// Cell `(row, col)` is entry `row * MAZE_SIZE + col` of the result.
    pub fn extract_policy(&self) -> (policy: [Option<Action>; CELL_COUNT])
        ensures
            forall|row: int, col: int| #[trigger]
                in_bounds(row, col) ==> policy[row * MAZE_SIZE + col] == policy_at(
                    self@.q_table,
                    row,
                    col,
                ),
    {
        let mut policy: [Option<Action>; CELL_COUNT] = [None; CELL_COUNT];
        let mut row: usize = 0;
        while row < MAZE_SIZE
            invariant
                row <= MAZE_SIZE,
                forall|r: int, c: int| #[trigger]
                    in_bounds(r, c) && r < row ==> policy[r * MAZE_SIZE + c] == policy_at(
                        self@.q_table,
                        r,
                        c,
                    ),
            decreases MAZE_SIZE - row,
        {
            let mut col: usize = 0;
            while col < MAZE_SIZE
                invariant
                    row < MAZE_SIZE,
                    col <= MAZE_SIZE,
                    forall|r: int, c: int| #[trigger]
                        in_bounds(r, c) && (r < row || (r == row && c < col)) ==> policy[r
                            * MAZE_SIZE + c] == policy_at(self@.q_table, r, c),
                decreases MAZE_SIZE - col,
            {
                assert(in_bounds(row as int, col as int));
                if cell_at(row, col) != Cell::Wall {
                    let values = self.decode_q(row, col);
                    policy[row * MAZE_SIZE + col] = Some(Self::greedy_action(&values));
                } else {
                    policy[row * MAZE_SIZE + col] = None;
                }
                col += 1;
            }
            row += 1;
        }
        policy
    }
}

} // verus!
