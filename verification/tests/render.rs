use qlearning_maze::maze::cell_at;
use qlearning_maze::render::{data_uri_string, decimal_string, CELL_SIZE, IMAGE_SIZE};
use qlearning_maze::{Action, Cell, Contract, MAZE_SIZE, Q_TABLE_SIZE};

const JSON_HEAD: &str = "{\"name\":\"Q-Learning Maze\",\"description\":\"An NFT of a maze with a path discovered through Q-learning reinforcement learning. Each arrow shows the optimal action learned for that position.\",\"image\":\"";

fn expected_svg(state: &Contract) -> String {
    let mut svg = format!(
        "<?xml version=\"1.0\" encoding=\"UTF-8\"?><svg xmlns=\"http://www.w3.org/2000/svg\" width=\"{w}\" height=\"{h}\" viewBox=\"0 0 {w} {h}\">",
        w = 320,
        h = 320
    );
    for i in 0..MAZE_SIZE {
        for j in 0..MAZE_SIZE {
            let cell = cell_at(i, j);
            let fill = match cell {
                Cell::Wall => "black",
                Cell::Start => "green",
                Cell::Goal => "red",
                Cell::Empty => "white",
            };
            svg += &format!(
                "<rect x=\"{x}\" y=\"{y}\" width=\"{s}\" height=\"{s}\" fill=\"{fill}\" stroke=\"gray\"/>",
                x = j * 64,
                y = i * 64,
                s = 64,
                fill = fill
            );
            if cell == Cell::Empty || cell == Cell::Start {
                let arrow = match Contract::greedy_action(&state.decode_q(i, j)) {
                    Action::Up => "↑",
                    Action::Down => "↓",
                    Action::Left => "←",
                    Action::Right => "→",
                };
                svg += &format!(
                    "<text x=\"{x}\" y=\"{y}\" font-size=\"{fs}\" text-anchor=\"middle\" fill=\"blue\">{arrow}</text>",
                    x = j * 64 + 32,
                    y = i * 64 + 42,
                    fs = 32,
                    arrow = arrow
                );
            }
        }
    }
    svg + "</svg>"
}

fn sextet(c: u8) -> u32 {
    match c {
        b'A'..=b'Z' => (c - b'A') as u32,
        b'a'..=b'z' => (c - b'a') as u32 + 26,
        b'0'..=b'9' => (c - b'0') as u32 + 52,
        b'+' => 62,
        b'/' => 63,
        _ => panic!("not a base64 character: {}", c),
    }
}

fn decode(text: &str) -> Vec<u8> {
    let bytes = text.as_bytes();
    assert_eq!(bytes.len() % 4, 0);
    let mut out = Vec::new();
    for group in bytes.chunks(4) {
        let pad = group.iter().filter(|c| **c == b'=').count();
        let mut packed = 0u32;
        for c in group {
            packed = (packed << 6) | if *c == b'=' { 0 } else { sextet(*c) };
        }
        out.push((packed >> 16) as u8);
        if pad < 2 {
            out.push((packed >> 8) as u8);
        }
        if pad < 1 {
            out.push(packed as u8);
        }
    }
    out
}

fn trained_state() -> Contract {
    let mut state = Contract::from_parts([0u8; 20], [0i32; Q_TABLE_SIZE], 1);
    state.train(500, 50, 0, 50, 90);
    state
}

#[test]
fn picture_is_320_wide_with_cells_of_64() {
    assert_eq!(IMAGE_SIZE, 320);
    assert_eq!(CELL_SIZE, 64);
}

#[test]
fn decimal_strings() {
    assert_eq!(decimal_string(0), "0");
    assert_eq!(decimal_string(7), "7");
    assert_eq!(decimal_string(10), "10");
    assert_eq!(decimal_string(99), "99");
    assert_eq!(decimal_string(100), "100");
    assert_eq!(decimal_string(320), "320");
    assert_eq!(decimal_string(4096), "4096");
    assert_eq!(decimal_string(usize::MAX), format!("{}", usize::MAX));
}

#[test]
fn data_uri_appends_the_base64_text() {
    assert_eq!(data_uri_string("data:,", ""), "data:,");
    assert_eq!(data_uri_string("data:text/plain;base64,", "foobar"), "data:text/plain;base64,Zm9vYmFy");
    assert_eq!(data_uri_string("", "<svg></svg>"), "PHN2Zz48L3N2Zz4=");
    // The arrow up is three bytes in UTF-8: e2 86 91.
    assert_eq!(data_uri_string("", "↑"), "4oaR");
}

#[test]
fn svg_of_a_fresh_table() {
    let state = Contract::new();
    let svg = state.render_svg();
    assert_eq!(svg, expected_svg(&state));
    assert_eq!(svg.len(), 3272);
    assert!(svg.starts_with(
        "<?xml version=\"1.0\" encoding=\"UTF-8\"?><svg xmlns=\"http://www.w3.org/2000/svg\" width=\"320\" height=\"320\" viewBox=\"0 0 320 320\"><rect x=\"0\" y=\"0\" width=\"64\" height=\"64\" fill=\"green\" stroke=\"gray\"/><text x=\"32\" y=\"42\" font-size=\"32\" text-anchor=\"middle\" fill=\"blue\">↑</text><rect x=\"64\" y=\"0\" width=\"64\" height=\"64\" fill=\"white\" stroke=\"gray\"/>"
    ));
    assert!(svg.ends_with(
        "<rect x=\"192\" y=\"256\" width=\"64\" height=\"64\" fill=\"red\" stroke=\"gray\"/><rect x=\"256\" y=\"256\" width=\"64\" height=\"64\" fill=\"white\" stroke=\"gray\"/><text x=\"288\" y=\"298\" font-size=\"32\" text-anchor=\"middle\" fill=\"blue\">↑</text></svg>"
    ));
}

#[test]
fn svg_has_a_square_per_cell_and_an_arrow_per_free_cell() {
    let svg = Contract::new().render_svg();
    assert_eq!(svg.matches("<rect ").count(), 25);
    assert_eq!(svg.matches("<text ").count(), 17);
    assert_eq!(svg.matches("fill=\"black\"").count(), 7);
    assert_eq!(svg.matches("fill=\"green\"").count(), 1);
    assert_eq!(svg.matches("fill=\"red\"").count(), 1);
    assert_eq!(svg.matches("fill=\"white\"").count(), 16);
}

#[test]
fn svg_of_a_trained_table_shows_the_policy() {
    let state = trained_state();
    let svg = state.render_svg();
    assert_eq!(svg, expected_svg(&state));
    let arrows: Vec<char> = svg.chars().filter(|c| "↑↓←→".contains(*c)).collect();
    assert_eq!(
        arrows,
        vec!['→', '↓', '→', '↑', '→', '↓', '↑', '→', '→', '→', '↓', '↑', '↓', '↑', '↑', '↑', '←']
    );
    assert!(svg.len() <= 8192);
}

#[test]
fn token_uri_wraps_the_picture_in_json() {
    for state in [Contract::new(), trained_state()] {
        let uri = state.token_uri([0u8; 32]);
        let json = String::from_utf8(decode(uri.strip_prefix("data:application/json;base64,").unwrap())).unwrap();
        assert!(json.len() <= 12288);
        let image = json.strip_prefix(JSON_HEAD).unwrap().strip_suffix("\"}").unwrap();
        let svg = String::from_utf8(decode(image.strip_prefix("data:image/svg+xml;base64,").unwrap())).unwrap();
        assert_eq!(svg, expected_svg(&state));
        assert_eq!(svg, state.render_svg());
    }
}

#[test]
fn token_uri_of_a_fresh_table() {
    let uri = Contract::new().token_uri([0u8; 32]);
    assert_eq!(uri.len(), 6149);
    assert!(uri.starts_with(
        "data:application/json;base64,eyJuYW1lIjoiUS1MZWFybmluZyBNYXplIiwiZGVzY3JpcHRpb24iOiJBbiBORlQgb2YgYSBtYXplIHdpdGggYSBwYXR"
    ));
    assert!(uri.ends_with("VWlJR1pwYkd3OUltSnNkV1VpUHVLR2tUd3ZkR1Y0ZEQ0OEwzTjJaejQ9In0="));
}

#[test]
fn token_uri_is_the_same_for_every_identifier() {
    let state = trained_state();
    let mut one = [0u8; 32];
    one[31] = 1;
    assert_eq!(state.token_uri(one), state.token_uri([0xffu8; 32]));
}
