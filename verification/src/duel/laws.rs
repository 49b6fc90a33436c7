//! What holds of the duel's board encoding.

use vstd::prelude::*;
use crate::duel::board::{decoded_cell, encode_rows, is_full_board, TerrainType};
use crate::duel::commands::lemma_encode_rows;

verus! {

/// Writing a full board as text and reading the text back gives the board.
pub proof fn lemma_board_round_trip(board: Seq<Vec<TerrainType>>, row: int, col: int)
    requires
        is_full_board(board),
        0 <= row < 5,
        0 <= col < 5,
    ensures
        decoded_cell(encode_rows(board, 5), row, col) == board[row][col],
{
    lemma_encode_rows(board, 5);
    let k = 5 * row + col;
    assert(k / 5 == row && k % 5 == col);
}

} // verus!
