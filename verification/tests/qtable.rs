use qlearning_maze::maze::cell_at;
use qlearning_maze::qtable::CELL_COUNT;
use qlearning_maze::{Action, Cell, Contract, ACTION_COUNT, MAZE_SIZE, Q_TABLE_SIZE};

fn numbered_table() -> [i32; Q_TABLE_SIZE] {
    let mut table = [0i32; Q_TABLE_SIZE];
    for (i, entry) in table.iter_mut().enumerate() {
        *entry = 1000 + i as i32;
    }
    table
}

#[test]
fn table_has_one_entry_per_cell_and_action() {
    assert_eq!(ACTION_COUNT, 4);
    assert_eq!(Q_TABLE_SIZE, 100);
    assert_eq!(CELL_COUNT, 25);
}

#[test]
fn fresh_state_is_all_zero() {
    let state = Contract::new();
    assert_eq!(state.get_qtable(), [0i32; Q_TABLE_SIZE]);
    assert_eq!(state.rng_seed(), 0);
    assert_eq!(state.owner(), [0u8; 20]);
    assert_eq!(state.decode_q(2, 3), [0, 0, 0, 0]);
}

#[test]
fn from_parts_keeps_every_part() {
    let owner = [7u8; 20];
    let state = Contract::from_parts(owner, numbered_table(), 99);
    assert_eq!(state.owner(), owner);
    assert_eq!(state.get_qtable(), numbered_table());
    assert_eq!(state.rng_seed(), 99);
}

#[test]
fn decode_reads_the_flat_address() {
    let state = Contract::from_parts([0u8; 20], numbered_table(), 0);
    for row in 0..MAZE_SIZE {
        for col in 0..MAZE_SIZE {
            let base = (row * MAZE_SIZE * ACTION_COUNT + col * ACTION_COUNT) as i32;
            assert_eq!(
                state.decode_q(row, col),
                [1000 + base, 1001 + base, 1002 + base, 1003 + base]
            );
        }
    }
    assert_eq!(state.decode_q(0, 0), [1000, 1001, 1002, 1003]);
    assert_eq!(state.decode_q(2, 3), [1052, 1053, 1054, 1055]);
    assert_eq!(state.decode_q(4, 4), [1096, 1097, 1098, 1099]);
}

#[test]
fn encode_writes_four_entries_and_no_other() {
    let mut state = Contract::from_parts([3u8; 20], numbered_table(), 17);
    state.encode_q(2, 3, [-1, -2, -3, -4]);
    let mut expected = numbered_table();
    expected[52] = -1;
    expected[53] = -2;
    expected[54] = -3;
    expected[55] = -4;
    assert_eq!(state.get_qtable(), expected);
    assert_eq!(state.decode_q(2, 3), [-1, -2, -3, -4]);
    assert_eq!(state.decode_q(2, 2), [1048, 1049, 1050, 1051]);
    assert_eq!(state.decode_q(2, 4), [1056, 1057, 1058, 1059]);
    assert_eq!(state.rng_seed(), 17);
    assert_eq!(state.owner(), [3u8; 20]);
}

#[test]
fn encode_reaches_the_corners() {
    let mut state = Contract::new();
    state.encode_q(0, 0, [1, 2, 3, 4]);
    state.encode_q(4, 4, [5, 6, 7, 8]);
    let table = state.get_qtable();
    assert_eq!(&table[..4], &[1, 2, 3, 4]);
    assert_eq!(&table[96..], &[5, 6, 7, 8]);
    assert!(table[4..96].iter().all(|v| *v == 0));
}

#[test]
fn encoding_what_was_decoded_changes_nothing() {
    let mut state = Contract::from_parts([0u8; 20], numbered_table(), 5);
    for row in 0..MAZE_SIZE {
        for col in 0..MAZE_SIZE {
            let values = state.decode_q(row, col);
            state.encode_q(row, col, values);
            assert_eq!(state.get_qtable(), numbered_table());
        }
    }
    assert_eq!(state.rng_seed(), 5);
}

#[test]
fn decoding_what_was_encoded_gives_it_back() {
    let mut state = Contract::new();
    for row in 0..MAZE_SIZE {
        for col in 0..MAZE_SIZE {
            let values = [row as i32, -(col as i32), i32::MAX, i32::MIN];
            state.encode_q(row, col, values);
            assert_eq!(state.decode_q(row, col), values);
        }
    }
    for row in 0..MAZE_SIZE {
        for col in 0..MAZE_SIZE {
            assert_eq!(state.decode_q(row, col), [row as i32, -(col as i32), i32::MAX, i32::MIN]);
        }
    }
}

#[test]
fn policy_breaks_ties_by_lowest_ordinal() {
    let mut state = Contract::new();
    state.encode_q(1, 1, [5, 5, 3, 1]);
    let policy = state.extract_policy();
    assert_eq!(policy[MAZE_SIZE + 1], Some(Action::Up));
}

#[test]
fn policy_of_a_fresh_table_is_up_everywhere_but_in_walls() {
    let policy = Contract::new().extract_policy();
    for row in 0..MAZE_SIZE {
        for col in 0..MAZE_SIZE {
            let expected = if cell_at(row, col) == Cell::Wall { None } else { Some(Action::Up) };
            assert_eq!(policy[row * MAZE_SIZE + col], expected);
        }
    }
}

#[test]
fn policy_takes_the_greatest_value_of_each_cell() {
    let mut state = Contract::new();
    state.encode_q(0, 0, [1, 2, 3, 4]);
    state.encode_q(0, 1, [1, 9, 3, 9]);
    state.encode_q(0, 2, [1, 2, 3, 4]);
    state.encode_q(2, 2, [-5, -7, -1, -9]);
    state.encode_q(4, 3, [0, 0, 1, 0]);
    let policy = state.extract_policy();
    assert_eq!(policy[0], Some(Action::Right));
    assert_eq!(policy[1], Some(Action::Down));
    assert_eq!(policy[2], None);
    assert_eq!(policy[12], Some(Action::Left));
    assert_eq!(policy[23], Some(Action::Left));
}
