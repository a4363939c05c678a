//! The picture of the maze with the learned policy, and the token's
//! metadata that carries it.

use vstd::prelude::*;
use vstd::utf8::encode_utf8;
use crate::action::{action_of, Action};
use crate::base64::base64_spec;
use crate::maze::{cell_at, in_bounds, maze_cell, Cell, MAZE_SIZE};
use crate::policy::greedy_index;
use crate::qtable::{decode_spec, CELL_COUNT};
use crate::state::Contract;
use crate::token::TOKEN_ID_BYTES;

verus! {

/// Width and height of the picture.
pub const IMAGE_SIZE: usize = 320;

/// Width and height of the square that shows one cell.
pub const CELL_SIZE: usize = IMAGE_SIZE / MAZE_SIZE;

/// The character for the digit `d`.
pub open spec fn decimal_digit(d: int) -> char {
    ('0' as int + d) as char
}

/// `n` in decimal, without leading zeros.
pub open spec fn decimal(n: nat) -> Seq<char>
    decreases n,
{
    if n < 10 {
        seq![decimal_digit(n as int)]
    } else {
        decimal(n / 10).push(decimal_digit((n % 10) as int))
    }
}

/// The colour of a cell.
pub open spec fn fill_of(cell: Cell) -> Seq<char> {
    match cell {
        Cell::Wall => "black"@,
        Cell::Start => "green"@,
        Cell::Goal => "red"@,
        Cell::Empty => "white"@,
    }
}

/// The arrow that shows an action.
pub open spec fn arrow_of(action: Action) -> Seq<char> {
    match action {
        Action::Up => "\u{2191}"@,
        Action::Down => "\u{2193}"@,
        Action::Left => "\u{2190}"@,
        Action::Right => "\u{2192}"@,
    }
}

/// Whether the picture shows the policy in this kind of cell: it does where
/// the agent moves on, in empty cells and in the start cell.
pub open spec fn shows_arrow(cell: Cell) -> bool {
    cell == Cell::Empty || cell == Cell::Start
}

/// The square of cell `(row, col)`.
pub open spec fn rect_svg(row: int, col: int) -> Seq<char> {
    "<rect x=\""@ + decimal((col * CELL_SIZE) as nat) + "\" y=\""@ + decimal(
        (row * CELL_SIZE) as nat,
    ) + "\" width=\""@ + decimal(CELL_SIZE as nat) + "\" height=\""@ + decimal(CELL_SIZE as nat)
        + "\" fill=\""@ + fill_of(maze_cell(row, col)) + "\" stroke=\"gray\"/>"@
}

/// The arrow of `action`, centred in cell `(row, col)`.
pub open spec fn arrow_svg(row: int, col: int, action: Action) -> Seq<char> {
    "<text x=\""@ + decimal((col * CELL_SIZE + CELL_SIZE / 2) as nat) + "\" y=\""@ + decimal(
        (row * CELL_SIZE + (CELL_SIZE / 2 + CELL_SIZE / 6)) as nat,
    ) + "\" font-size=\""@ + decimal((CELL_SIZE / 2) as nat)
        + "\" text-anchor=\"middle\" fill=\"blue\">"@ + arrow_of(action) + "</text>"@
}

/// Everything the picture holds for cell `(row, col)`: its square and, where
/// the policy is shown, the arrow of the greedy action.
pub open spec fn cell_svg(table: Seq<i32>, row: int, col: int) -> Seq<char> {
    if shows_arrow(maze_cell(row, col)) {
        rect_svg(row, col) + arrow_svg(
            row,
            col,
            action_of(greedy_index(decode_spec(table, row, col))),
        )
    } else {
        rect_svg(row, col)
    }
}

/// The first `n` cells of the picture, row by row.
pub open spec fn cells_svg(table: Seq<i32>, n: nat) -> Seq<char>
    decreases n,
{
    if n == 0 {
        Seq::empty()
    } else {
        cells_svg(table, (n - 1) as nat) + cell_svg(
            table,
            (n - 1) / (MAZE_SIZE as int),
            (n - 1) % (MAZE_SIZE as int),
        )
    }
}

/// The picture of the maze and of the greedy policy of `table`.
pub open spec fn svg_spec(table: Seq<i32>) -> Seq<char> {
    "<?xml version=\"1.0\" encoding=\"UTF-8\"?><svg xmlns=\"http://www.w3.org/2000/svg\" width=\""@
        + decimal(IMAGE_SIZE as nat) + "\" height=\""@ + decimal(IMAGE_SIZE as nat)
        + "\" viewBox=\"0 0 "@ + decimal(IMAGE_SIZE as nat) + " "@ + decimal(IMAGE_SIZE as nat)
        + "\">"@ + cells_svg(table, CELL_COUNT as nat) + "</svg>"@
}

/// A data address: the prefix, then the base64 text of the content's UTF-8
/// bytes.
pub open spec fn data_uri(prefix: Seq<char>, content: Seq<char>) -> Seq<char> {
    prefix + base64_spec(encode_utf8(content))
}

/// The metadata of the token: name, description and the picture as a data
/// address.
pub open spec fn metadata_spec(table: Seq<i32>) -> Seq<char> {
    "{\"name\":\"Q-Learning Maze\",\"description\":\"An NFT of a maze with a path discovered through Q-learning reinforcement learning. Each arrow shows the optimal action learned for that position.\",\"image\":\""@
        + data_uri("data:image/svg+xml;base64,"@, svg_spec(table)) + "\"}"@
}

/// What `token_uri` returns for a state with this table.
pub open spec fn token_uri_spec(table: Seq<i32>) -> Seq<char> {
    data_uri("data:application/json;base64,"@, metadata_spec(table))
}

/// `n` in decimal.
pub fn decimal_string(n: usize) -> (text: String)
    ensures
        text@ == decimal(n as nat),
    decreases n,
{
    let digit: char = (48 + (n % 10) as u8) as char;
    if n < 10 {
        let mut text = String::new();
        text.push(digit);
        assert(text@ =~= seq![digit]);
        text
    } else {
        let mut text = decimal_string(n / 10);
        text.push(digit);
        text
    }
}

/// The prefix followed by the base64 text of the content's UTF-8 bytes.
pub fn data_uri_string(prefix: &str, content: &str) -> (text: String)
    ensures
        text@ == data_uri(prefix@, content@),
{
    let encoded = Contract::base64_encode(content.as_bytes());
    let mut text = String::new();
    text.append(prefix);
    text.append(encoded.as_str());
    assert(text@ =~= prefix@ + encoded@);
    text
}

fn fill_name(cell: Cell) -> (name: &'static str)
    ensures
        name@ == fill_of(cell),
{
    match cell {
        Cell::Wall => "black",
        Cell::Start => "green",
        Cell::Goal => "red",
        Cell::Empty => "white",
    }
}

fn arrow_text(action: Action) -> (arrow: &'static str)
    ensures
        arrow@ == arrow_of(action),
{
    match action {
        Action::Up => "\u{2191}",
        Action::Down => "\u{2193}",
        Action::Left => "\u{2190}",
        Action::Right => "\u{2192}",
    }
}

fn rect_string(row: usize, col: usize) -> (text: String)
    requires
        in_bounds(row as int, col as int),
    ensures
        text@ == rect_svg(row as int, col as int),
{
    assert(CELL_SIZE == 64);
    let mut text = String::new();
    text.append("<rect x=\"");
    text.append(decimal_string(col * CELL_SIZE).as_str());
    text.append("\" y=\"");
    text.append(decimal_string(row * CELL_SIZE).as_str());
    text.append("\" width=\"");
    text.append(decimal_string(CELL_SIZE).as_str());
    text.append("\" height=\"");
    text.append(decimal_string(CELL_SIZE).as_str());
    text.append("\" fill=\"");
    text.append(fill_name(cell_at(row, col)));
    text.append("\" stroke=\"gray\"/>");
    assert(text@ =~= rect_svg(row as int, col as int));
    text
}

fn arrow_string(row: usize, col: usize, action: Action) -> (text: String)
    requires
        in_bounds(row as int, col as int),
    ensures
        text@ == arrow_svg(row as int, col as int, action),
{
    assert(CELL_SIZE == 64);
    let mut text = String::new();
    text.append("<text x=\"");
    text.append(decimal_string(col * CELL_SIZE + CELL_SIZE / 2).as_str());
    text.append("\" y=\"");
    text.append(decimal_string(row * CELL_SIZE + (CELL_SIZE / 2 + CELL_SIZE / 6)).as_str());
    text.append("\" font-size=\"");
    text.append(decimal_string(CELL_SIZE / 2).as_str());
    text.append("\" text-anchor=\"middle\" fill=\"blue\">");
    text.append(arrow_text(action));
    text.append("</text>");
    assert(text@ =~= arrow_svg(row as int, col as int, action));
    text
}

impl Contract {
    /// Draws the maze as an SVG picture: one square per cell, black for a
    /// wall, green for the start, red for the goal and white otherwise, and
    /// in every empty cell and in the start cell an arrow for the greedy
    /// action.
    pub fn render_svg(&self) -> (svg: String)
        ensures
            svg@ == svg_spec(self@.q_table),
    {
        let ghost table = self@.q_table;
        let size = decimal_string(IMAGE_SIZE);
        let mut svg = String::new();
        svg.append(
            "<?xml version=\"1.0\" encoding=\"UTF-8\"?><svg xmlns=\"http://www.w3.org/2000/svg\" width=\"",
        );
        svg.append(size.as_str());
        svg.append("\" height=\"");
        svg.append(size.as_str());
        svg.append("\" viewBox=\"0 0 ");
        svg.append(size.as_str());
        svg.append(" ");
        svg.append(size.as_str());
        svg.append("\">");
        let ghost head = svg@;
        assert(svg@ =~= head + cells_svg(table, 0));
        let mut row: usize = 0;
        while row < MAZE_SIZE
            invariant
                row <= MAZE_SIZE,
                table == self@.q_table,
                svg@ == head + cells_svg(table, (row * MAZE_SIZE) as nat),
            decreases MAZE_SIZE - row,
        {
            let mut col: usize = 0;
            while col < MAZE_SIZE
                invariant
                    row < MAZE_SIZE,
                    col <= MAZE_SIZE,
                    table == self@.q_table,
                    svg@ == head + cells_svg(table, (row * MAZE_SIZE + col) as nat),
                decreases MAZE_SIZE - col,
            {
                let ghost before = svg@;
                let ghost n = (row * MAZE_SIZE + col) as nat;
                let cell = cell_at(row, col);
                svg.append(rect_string(row, col).as_str());
                if cell == Cell::Empty || cell == Cell::Start {
                    let values = self.decode_q(row, col);
                    let best = Self::greedy_action(&values);
                    svg.append(arrow_string(row, col, best).as_str());
                }
                proof {
                    assert(n / (MAZE_SIZE as nat) == row && n % (MAZE_SIZE as nat) == col);
                    assert(cells_svg(table, n + 1) == cells_svg(table, n) + cell_svg(
                        table,
                        row as int,
                        col as int,
                    ));
                    assert(svg@ =~= head + cells_svg(table, n + 1));
                }
                col += 1;
            }
            row += 1;
        }
        svg.append("</svg>");
        svg
    }

    /// The metadata of the token as a data address: a JSON object with the
    /// name, a description and the picture of `render_svg`, itself a data
    /// address.
    ///
    /// There is one token, and every identifier gets its metadata.
    pub fn token_uri(&self, token_id: [u8; TOKEN_ID_BYTES]) -> (uri: String)
        ensures
            uri@ == token_uri_spec(self@.q_table),
    {
        let svg = self.render_svg();
        let svg_uri = data_uri_string("data:image/svg+xml;base64,", svg.as_str());
        let mut json = String::new();
        json.append(
            "{\"name\":\"Q-Learning Maze\",\"description\":\"An NFT of a maze with a path discovered through Q-learning reinforcement learning. Each arrow shows the optimal action learned for that position.\",\"image\":\"",
        );
        json.append(svg_uri.as_str());
        json.append("\"}");
        assert(json@ =~= metadata_spec(self@.q_table));
        data_uri_string("data:application/json;base64,", json.as_str())
    }
}

} // verus!
