//! The four moves of the agent and their ordinals.

use vstd::prelude::*;

verus! {

/// Number of actions available in every cell.
pub const ACTION_COUNT: usize = 4;

/// A move on the grid.
///
/// The declaration order is the ordinal of each action, and the ordinal is the
/// last component of a Q-table address: reordering the variants would change
/// the meaning of every stored table.
#[derive(Copy, Clone, Debug, PartialEq, Eq, Structural)]
pub enum Action {
    Up,
    Down,
    Left,
    Right,
}

/// The action whose ordinal is `i`; ordinals past the last one name `Right`.
pub open spec fn action_of(i: int) -> Action {
    if i == 0 {
        Action::Up
    } else if i == 1 {
        Action::Down
    } else if i == 2 {
        Action::Left
    } else {
        Action::Right
    }
}

impl Action {
    /// The ordinal of the action: `Up` is 0, `Down` 1, `Left` 2, `Right` 3.
    pub open spec fn ordinal(self) -> int {
        match self {
            Action::Up => 0,
            Action::Down => 1,
            Action::Left => 2,
            Action::Right => 3,
        }
    }

    /// Row displacement of the move.
    pub open spec fn row_delta(self) -> int {
        match self {
            Action::Up => -1,
            Action::Down => 1,
            Action::Left => 0,
            Action::Right => 0,
        }
    }

    /// Column displacement of the move.
    pub open spec fn col_delta(self) -> int {
        match self {
            Action::Up => 0,
            Action::Down => 0,
            Action::Left => -1,
            Action::Right => 1,
        }
    }

    /// All actions, in ordinal order.
    pub fn iterator() -> (all: [Action; ACTION_COUNT])
        ensures
            forall|i: int| 0 <= i < ACTION_COUNT ==> all[i] == action_of(i),
    {
        [Action::Up, Action::Down, Action::Left, Action::Right]
    }

    /// The ordinal as a table offset.
    pub fn index(self) -> (i: usize)
        ensures
            i == self.ordinal(),
            i < ACTION_COUNT,
    {
        match self {
            Action::Up => 0,
            Action::Down => 1,
            Action::Left => 2,
            Action::Right => 3,
        }
    }

    /// The action with the given ordinal; any ordinal above 2 gives `Right`.
    pub fn from_index(i: usize) -> (a: Action)
        ensures
            a == action_of(i as int),
    {
        if i == 0 {
            Action::Up
        } else if i == 1 {
            Action::Down
        } else if i == 2 {
            Action::Left
        } else {
            Action::Right
        }
    }
}

/// The ordinal mapping is a bijection between the actions and `0..4`.
pub proof fn lemma_ordinal_roundtrip(a: Action, i: int)
    ensures
        0 <= a.ordinal() < ACTION_COUNT,
        action_of(a.ordinal()) == a,
        0 <= i < ACTION_COUNT ==> action_of(i).ordinal() == i,
{
}

} // verus!
