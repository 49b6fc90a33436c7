//! Terrain, the fixed board layout, its text encoding, and grid distances.

use vstd::prelude::*;
use vstd::string::*;

verus! {

/// Terrain of one board cell. Rougher terrain shields the unit standing on it.
#[derive(Clone, Copy, Debug, PartialEq, Eq, Structural)]
pub enum TerrainType {
    Plains,
    Forest,
    Mountain,
}

/// Phase of a duel.
#[derive(Clone, Copy, Debug, PartialEq, Eq, Structural)]
pub enum GameStatus {
    WaitingForPlayers,
    InProgress,
    Finished,
}

/// Side length of the square board.
pub const BOARD_SIZE: usize = 5;

/// Defense level of a terrain: 0 for plains, 1 for forest, 2 for mountain.
pub open spec fn terrain_defense(terrain: TerrainType) -> int {
    match terrain {
        TerrainType::Plains => 0,
        TerrainType::Forest => 1,
        TerrainType::Mountain => 2,
    }
}

/// Terrain of cell (`row`, `col`) in the layout every duel is played on:
/// a mountain in the centre, five forests around it, plains elsewhere.
pub open spec fn standard_terrain(row: int, col: int) -> TerrainType {
    if row == 2 && col == 2 {
        TerrainType::Mountain
    } else if (row == 1 && col == 1) || (row == 3 && col == 3) || (row == 2 && col == 1) || (row
        == 1 && col == 3) || (row == 3 && col == 1) {
        TerrainType::Forest
    } else {
        TerrainType::Plains
    }
}

/// The letter that stands for a terrain in the text encoding.
pub open spec fn terrain_char(terrain: TerrainType) -> char {
    match terrain {
        TerrainType::Plains => 'P',
        TerrainType::Forest => 'F',
        TerrainType::Mountain => 'M',
    }
}

/// The terrain a letter stands for; every letter but `F` and `M` reads as plains.
pub open spec fn char_terrain(c: char) -> TerrainType {
    if c == 'F' {
        TerrainType::Forest
    } else if c == 'M' {
        TerrainType::Mountain
    } else {
        TerrainType::Plains
    }
}

/// Letters of one row, left to right.
pub open spec fn encode_row(row: Seq<TerrainType>) -> Seq<char> {
    Seq::new(row.len(), |j: int| terrain_char(row[j]))
}

/// Letters of the first `n` rows, top to bottom, each row left to right.
pub open spec fn encode_rows(board: Seq<Vec<TerrainType>>, n: nat) -> Seq<char>
    decreases n,
{
    if n == 0 {
        Seq::empty()
    } else {
        encode_rows(board, (n - 1) as nat) + encode_row(board[n - 1]@)
    }
}

/// Terrain of cell (`row`, `col`) as the text `data` gives it: the letter at
/// offset `5 * row + col`, or plains where the text is too short.
pub open spec fn decoded_cell(data: Seq<char>, row: int, col: int) -> TerrainType {
    if 5 * row + col < data.len() {
        char_terrain(data[5 * row + col])
    } else {
        TerrainType::Plains
    }
}

/// A board is a full 5x5 grid.
pub open spec fn is_full_board(board: Seq<Vec<TerrainType>>) -> bool {
    &&& board.len() == 5
    &&& forall|i: int| 0 <= i < 5 ==> (#[trigger] board[i]).len() == 5
}

/// The distance between two numbers.
pub open spec fn abs_diff(a: int, b: int) -> int {
    if a >= b {
        a - b
    } else {
        b - a
    }
}

/// Number of orthogonal steps between two cells.
pub open spec fn manhattan(x1: int, y1: int, x2: int, y2: int) -> int {
    abs_diff(x1, x2) + abs_diff(y1, y2)
}

/// Defense level of a terrain.
pub fn get_terrain_defense(terrain: TerrainType) -> (defense: i32)
    ensures
        defense == terrain_defense(terrain),
{
    match terrain {
        TerrainType::Plains => 0,
        TerrainType::Forest => 1,
        TerrainType::Mountain => 2,
    }
}

fn plains_row() -> (row: Vec<TerrainType>)
    ensures
        row.len() == 5,
        forall|j: int| 0 <= j < 5 ==> row[j] == TerrainType::Plains,
{
    let mut row: Vec<TerrainType> = Vec::new();
    let mut j: usize = 0;
    while j < BOARD_SIZE
        invariant
            j <= 5,
            row.len() == j,
            forall|k: int| 0 <= k < j ==> row[k] == TerrainType::Plains,
        decreases 5 - j,
    {
        row.push(TerrainType::Plains);
        j += 1;
    }
    row
}

fn plains_board() -> (board: Vec<Vec<TerrainType>>)
    ensures
        is_full_board(board@),
        forall|i: int, j: int|
            0 <= i < 5 && 0 <= j < 5 ==> #[trigger] board[i][j] == TerrainType::Plains,
{
    let mut board: Vec<Vec<TerrainType>> = Vec::new();
    let mut i: usize = 0;
    while i < BOARD_SIZE
        invariant
            i <= 5,
            board.len() == i,
            forall|k: int| 0 <= k < i ==> (#[trigger] board[k]).len() == 5,
            forall|k: int, j: int|
                0 <= k < i && 0 <= j < 5 ==> #[trigger] board[k][j] == TerrainType::Plains,
        decreases 5 - i,
    {
        board.push(plains_row());
        i += 1;
    }
    board
}

fn set_cell(board: &mut Vec<Vec<TerrainType>>, row: usize, col: usize, terrain: TerrainType)
    requires
        is_full_board(old(board)@),
        row < 5,
        col < 5,
    ensures
        is_full_board(final(board)@),
        final(board)[row as int][col as int] == terrain,
        forall|i: int, j: int|
            0 <= i < 5 && 0 <= j < 5 && !(i == row && j == col)
                ==> #[trigger] final(board)[i][j] == old(board)[i][j],
{
    let mut cells = plains_row();
    let mut j: usize = 0;
    while j < BOARD_SIZE
        invariant
            j <= 5,
            cells.len() == 5,
            row < 5,
            is_full_board(board@),
            forall|k: int| 0 <= k < j ==> cells[k] == board[row as int][k],
        decreases 5 - j,
    {
        cells.set(j, board[row][j]);
        j += 1;
    }
    cells.set(col, terrain);
    board.set(row, cells);
}

/// Builds the board every duel is played on.
pub fn generate_random_board() -> (board: Vec<Vec<TerrainType>>)
    ensures
        is_full_board(board@),
        forall|i: int, j: int|
            0 <= i < 5 && 0 <= j < 5 ==> #[trigger] board[i][j] == standard_terrain(i, j),
{
    let mut board = plains_board();
    set_cell(&mut board, 1, 1, TerrainType::Forest);
    set_cell(&mut board, 3, 3, TerrainType::Forest);
    set_cell(&mut board, 2, 1, TerrainType::Forest);
    set_cell(&mut board, 1, 3, TerrainType::Forest);
    set_cell(&mut board, 3, 1, TerrainType::Forest);
    set_cell(&mut board, 2, 2, TerrainType::Mountain);
    board
}

/// Writes a board as text, one letter per cell, rows top to bottom.
pub fn serialize_board(board: &Vec<Vec<TerrainType>>) -> (text: String)
    ensures
        text@ == encode_rows(board@, board@.len()),
{
    let mut text = String::new();
    let mut i: usize = 0;
    while i < board.len()
        invariant
            i <= board.len(),
            text@ == encode_rows(board@, i as nat),
        decreases board.len() - i,
    {
        let row = &board[i];
        let ghost before = text@;
        let mut j: usize = 0;
        while j < row.len()
            invariant
                j <= row.len(),
                text@ == before + encode_row(row@).take(j as int),
            decreases row.len() - j,
        {
            proof {
                reveal_strlit("P");
                reveal_strlit("F");
                reveal_strlit("M");
            }
            match row[j] {
                TerrainType::Plains => text.append("P"),
                TerrainType::Forest => text.append("F"),
                TerrainType::Mountain => text.append("M"),
            }
            j += 1;
        }
        i += 1;
    }
    text
}

/// Reads a board from text. Cells the text does not reach are plains, and
/// letters past the 25th are ignored.
pub fn deserialize_board(data: &str) -> (board: Vec<Vec<TerrainType>>)
    ensures
        is_full_board(board@),
        forall|i: int, j: int|
            0 <= i < 5 && 0 <= j < 5 ==> #[trigger] board[i][j] == decoded_cell(data@, i, j),
{
    let len = data.unicode_len();
    let mut board: Vec<Vec<TerrainType>> = Vec::new();
    let mut i: usize = 0;
    while i < BOARD_SIZE
        invariant
            i <= 5,
            len == data@.len(),
            board.len() == i,
            forall|k: int| 0 <= k < i ==> (#[trigger] board[k]).len() == 5,
            forall|k: int, j: int|
                0 <= k < i && 0 <= j < 5 ==> #[trigger] board[k][j] == decoded_cell(data@, k, j),
        decreases 5 - i,
    {
        let mut row: Vec<TerrainType> = Vec::new();
        let mut j: usize = 0;
        while j < BOARD_SIZE
            invariant
                i < 5,
                j <= 5,
                len == data@.len(),
                row.len() == j,
                forall|k: int| 0 <= k < j ==> row[k] == decoded_cell(data@, i as int, k),
            decreases 5 - j,
        {
            let idx = i * 5 + j;
            let terrain = if idx < len {
                let c = data.get_char(idx);
                if c == 'F' {
                    TerrainType::Forest
                } else if c == 'M' {
                    TerrainType::Mountain
                } else {
                    TerrainType::Plains
                }
            } else {
                TerrainType::Plains
            };
            row.push(terrain);
            j += 1;
        }
        board.push(row);
        i += 1;
    }
    board
}

/// Whether two cells share an edge (diagonal neighbours do not count).
pub fn is_adjacent(x1: u8, y1: u8, x2: u8, y2: u8) -> (adjacent: bool)
    ensures
        adjacent == (manhattan(x1 as int, y1 as int, x2 as int, y2 as int) == 1),
{
    let dx: u8 = if x1 >= x2 { x1 - x2 } else { x2 - x1 };
    let dy: u8 = if y1 >= y2 { y1 - y2 } else { y2 - y1 };
    (dx == 1 && dy == 0) || (dx == 0 && dy == 1)
}

/// Manhattan distance between two cells, kept to eight bits: on a board whose
/// coordinates stay below 128 this is the distance itself.
pub fn calculate_distance(x1: u8, y1: u8, x2: u8, y2: u8) -> (distance: u8)
    ensures
        distance == manhattan(x1 as int, y1 as int, x2 as int, y2 as int) % 256,
{
    let dx: u16 = if x1 >= x2 { (x1 - x2) as u16 } else { (x2 - x1) as u16 };
    let dy: u16 = if y1 >= y2 { (y1 - y2) as u16 } else { (y2 - y1) as u16 };
    let sum: u16 = dx + dy;
    (sum % 256) as u8
}

} // verus!
