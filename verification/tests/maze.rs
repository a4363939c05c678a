use qlearning_maze::maze::{cell_at, GOAL_REWARD, STEP_REWARD};
use qlearning_maze::{Action, Cell, Contract, MAZE_LAYOUT, MAZE_SIZE};

const ROWS: [&str; 5] = ["SEWEE", "EEWEW", "WEEEE", "EWWWE", "EEEGE"];

fn expected_cell(row: usize, col: usize) -> Cell {
    match ROWS[row].as_bytes()[col] {
        b'S' => Cell::Start,
        b'G' => Cell::Goal,
        b'W' => Cell::Wall,
        _ => Cell::Empty,
    }
}

#[test]
fn layout_is_the_fixed_grid() {
    assert_eq!(MAZE_SIZE, 5);
    for row in 0..MAZE_SIZE {
        for col in 0..MAZE_SIZE {
            assert_eq!(MAZE_LAYOUT[row][col], expected_cell(row, col));
            assert_eq!(cell_at(row, col), expected_cell(row, col));
        }
    }
}

#[test]
fn layout_has_one_start_and_one_goal() {
    let mut starts = 0;
    let mut goals = 0;
    for row in 0..MAZE_SIZE {
        for col in 0..MAZE_SIZE {
            if cell_at(row, col) == Cell::Start {
                starts += 1;
            }
            if cell_at(row, col) == Cell::Goal {
                goals += 1;
            }
        }
    }
    assert_eq!(starts, 1);
    assert_eq!(goals, 1);
    assert_eq!(cell_at(4, 3), Cell::Goal);
}

#[test]
fn start_position_is_the_start_cell() {
    let start = Contract::get_start_position();
    assert_eq!(start, (0, 0));
    assert_eq!(cell_at(start.0, start.1), Cell::Start);
}

#[test]
fn positions_off_the_grid_are_invalid() {
    assert!(!Contract::is_valid_position(-1, 0));
    assert!(!Contract::is_valid_position(0, -1));
    assert!(!Contract::is_valid_position(5, 0));
    assert!(!Contract::is_valid_position(0, 5));
    assert!(!Contract::is_valid_position(isize::MIN, isize::MAX));
    assert!(!Contract::is_valid_position(isize::MAX, 2));
}

#[test]
fn walls_are_invalid_and_everything_else_is_valid() {
    for row in 0..MAZE_SIZE {
        for col in 0..MAZE_SIZE {
            let valid = Contract::is_valid_position(row as isize, col as isize);
            assert_eq!(valid, expected_cell(row, col) != Cell::Wall);
        }
    }
    assert!(Contract::is_valid_position(0, 0));
    assert!(Contract::is_valid_position(4, 3));
    assert!(!Contract::is_valid_position(0, 2));
    assert!(!Contract::is_valid_position(3, 1));
}

#[test]
fn moves_into_free_cells_succeed() {
    assert_eq!(Contract::next_state(0, 0, Action::Down), (1, 0));
    assert_eq!(Contract::next_state(0, 0, Action::Right), (0, 1));
    assert_eq!(Contract::next_state(1, 1, Action::Up), (0, 1));
    assert_eq!(Contract::next_state(1, 1, Action::Left), (1, 0));
    assert_eq!(Contract::next_state(4, 2, Action::Right), (4, 3));
    assert_eq!(Contract::next_state(3, 4, Action::Down), (4, 4));
}

#[test]
fn moves_off_the_grid_stay_in_place() {
    assert_eq!(Contract::next_state(0, 0, Action::Up), (0, 0));
    assert_eq!(Contract::next_state(0, 0, Action::Left), (0, 0));
    assert_eq!(Contract::next_state(4, 4, Action::Down), (4, 4));
    assert_eq!(Contract::next_state(4, 4, Action::Right), (4, 4));
    assert_eq!(Contract::next_state(0, 4, Action::Right), (0, 4));
}

#[test]
fn moves_into_walls_stay_in_place() {
    assert_eq!(Contract::next_state(0, 1, Action::Right), (0, 1));
    assert_eq!(Contract::next_state(1, 0, Action::Down), (1, 0));
    assert_eq!(Contract::next_state(2, 1, Action::Down), (2, 1));
    assert_eq!(Contract::next_state(0, 4, Action::Down), (0, 4));
    assert_eq!(Contract::next_state(4, 1, Action::Up), (4, 1));
}

#[test]
fn next_state_agrees_with_validity_everywhere() {
    let deltas: [(isize, isize); 4] = [(-1, 0), (1, 0), (0, -1), (0, 1)];
    for row in 0..MAZE_SIZE {
        for col in 0..MAZE_SIZE {
            for (k, action) in Action::iterator().iter().enumerate() {
                let r = row as isize + deltas[k].0;
                let c = col as isize + deltas[k].1;
                let expected = if Contract::is_valid_position(r, c) {
                    (r as usize, c as usize)
                } else {
                    (row, col)
                };
                assert_eq!(Contract::next_state(row, col, *action), expected);
            }
        }
    }
}

#[test]
fn reward_is_100_on_the_goal_and_minus_1_elsewhere() {
    assert_eq!(GOAL_REWARD, 100);
    assert_eq!(STEP_REWARD, -1);
    for row in 0..MAZE_SIZE {
        for col in 0..MAZE_SIZE {
            let expected = if (row, col) == (4, 3) { 100 } else { -1 };
            assert_eq!(Contract::get_reward(row, col), expected);
        }
    }
}

#[test]
fn actions_come_in_ordinal_order() {
    let all = Action::iterator();
    assert_eq!(all, [Action::Up, Action::Down, Action::Left, Action::Right]);
    for (i, action) in all.iter().enumerate() {
        assert_eq!(action.index(), i);
        assert_eq!(Action::from_index(i), *action);
    }
    assert_eq!(Action::from_index(4), Action::Right);
    assert_eq!(Action::from_index(usize::MAX), Action::Right);
}
