//! Board primitives over a bit-packed Connect-Four position.
//!
//! A [`Bitboard`] packs seven columns of seven bits each: column `c` occupies
//! bits `c*7 .. c*7+6`, with bit `c*7 + r` standing for row `r` (row 0 at the
//! bottom). Rows 0 to 5 are playable; the seventh bit of each column is a
//! spacer that keeps shift-based arithmetic from crossing into the next
//! column. Each function carries an exact word-level contract; the
//! [`crate::model`] module relates those word formulas to the cell-level
//! reading of a board.

use vstd::arithmetic::div_mod::lemma_fundamental_div_mod;
use vstd::arithmetic::div_mod::lemma_fundamental_div_mod_converse;
use vstd::prelude::*;

use crate::bits::lemma_pow2_trailing_zeros;
use crate::bits::nth_bit;
use crate::bits::pop64;
use crate::bits::popcount;
use crate::model::cell_mask;

verus! {

pub type Bitboard = u64;

pub const ROWS: usize = 6;

pub const COLS: usize = 7;

/// Mask of the top playable cell (row 5) of `col`: set there iff the column
/// holds six stones on a well-stacked board.
pub open spec fn spec_top_mask(col: int) -> u64 {
    1u64 << ((col * 7 + 5) as u64)
}

/// Mask of the bottom cell (row 0) of `col`.
pub open spec fn spec_bottom_mask(col: int) -> u64 {
    1u64 << ((col * 7) as u64)
}

/// Mask of the six playable cells of `col`.
pub open spec fn spec_col_mask(col: int) -> u64 {
    0x3fu64 << ((col * 7) as u64)
}

/// A stone may be dropped into `col`: the index is on the board and the top
/// playable cell of the column is free.
pub open spec fn spec_can_place(b: u64, col: int) -> bool {
    &&& 0 <= col < 7
    &&& b & spec_top_mask(col) == 0
}

/// The gravity formula: adding the bottom bit of `col` carries up to the
/// lowest free bit of the column, and the column mask cuts the sum down to
/// that single bit.
pub open spec fn spec_next_row(b: u64, col: int) -> u64 {
    (((b + spec_bottom_mask(col)) as u64) & spec_col_mask(col)) as u64
}

/// The board holds 42 stones.
pub open spec fn spec_board_full(b: u64) -> bool {
    pop64(b) >= 42
}

/// Pairs along a line direction: bit `i` is set iff `b` holds bits `i` and
/// `i - s`, where `s` is 1 within a column, 7 across a row, 8 on the rising
/// diagonal and 6 on the falling diagonal.
pub open spec fn pairs_h(b: u64) -> u64 {
    b & (b << 7u64)
}

pub open spec fn pairs_v(b: u64) -> u64 {
    b & (b << 1u64)
}

pub open spec fn pairs_d1(b: u64) -> u64 {
    b & (b << 8u64)
}

pub open spec fn pairs_d2(b: u64) -> u64 {
    b & (b << 6u64)
}

/// A pair of pairs two steps apart is a run of four.
pub open spec fn win_h(b: u64) -> bool {
    pairs_h(b) & (pairs_h(b) << 14u64) != 0
}

pub open spec fn win_v(b: u64) -> bool {
    pairs_v(b) & (pairs_v(b) << 2u64) != 0
}

pub open spec fn win_d1(b: u64) -> bool {
    pairs_d1(b) & (pairs_d1(b) << 16u64) != 0
}

pub open spec fn win_d2(b: u64) -> bool {
    pairs_d2(b) & (pairs_d2(b) << 12u64) != 0
}

/// Word-level win detection: some direction holds a run of four. On boards
/// whose stones sit on playable cells only, this coincides with the
/// cell-level reading ([`crate::model::lemma_win_exact`]).
pub open spec fn spec_win(b: u64) -> bool {
    win_h(b) || win_v(b) || win_d1(b) || win_d2(b)
}

/// The game is over: one side has four in a row, or the board is full.
pub open spec fn spec_game_over(game_board: u64, player1_board: u64, player2_board: u64) -> bool {
    spec_win(player1_board) || spec_win(player2_board) || spec_board_full(game_board)
}

/// Single-bit mask of the top playable cell (row 5) of `col`.
pub fn get_top_mask(col: usize) -> (r: Bitboard)
    requires
        col < 7,
    ensures
        r == spec_top_mask(col as int),
{
    let shift: usize = col * COLS + ROWS - 1;
    1u64 << (shift as u64)
}

/// Single-bit mask of the bottom cell (row 0) of `col`.
pub fn get_bottom_mask(col: usize) -> (r: Bitboard)
    requires
        col < 7,
    ensures
        r == spec_bottom_mask(col as int),
{
    let shift: usize = col * COLS;
    1u64 << (shift as u64)
}

/// Mask of the six playable cells of `col`.
pub fn get_col_mask(col: usize) -> (r: Bitboard)
    requires
        col < 7,
    ensures
        r == spec_col_mask(col as int),
{
    let offset: usize = col * COLS;
    proof {
        assert(1u64 << 6u64 == 64u64) by (bit_vector);
    }
    let bit: Bitboard = (1u64 << (ROWS as u64)) - 1;
    bit << (offset as u64)
}

/// Single-bit mask of the lowest free cell of `col` in the occupancy `bitboard`.
/// The caller must have checked `can_place` first.
pub fn get_next_row(bitboard: Bitboard, col: usize) -> (r: Bitboard)
    requires
        spec_can_place(bitboard, col as int),
    ensures
        r == spec_next_row(bitboard, col as int),
{
    proof {
        let c = col as u64;
        assert(c < 7 && bitboard & (1u64 << ((7 * c + 5) as u64)) == 0 ==> bitboard + (1u64 << ((7
            * c) as u64)) < 0x1_0000_0000_0000_0000) by (bit_vector);
        assert((col as int) * 7 + 5 == (7 * c + 5) as int);
        assert((col as int) * 7 == (7 * c) as int);
    }
    let next_row: Bitboard = bitboard + get_bottom_mask(col);
    next_row & get_col_mask(col)
}

/// Decode a one-stone mask back to its zero-based `(row, col)` cell.
/// `None` when the mask is not exactly one bit on a playable cell.
pub fn indices_from_bitmask(bitboard: Bitboard) -> (r: Option<(usize, usize)>)
    ensures
        match r {
            Some(rc) => rc.0 < 6 && rc.1 < 7 && bitboard == cell_mask(rc.0 as int, rc.1 as int),
            None => forall|row: int, col: int|
                0 <= row < 6 && 0 <= col < 7 ==> bitboard != #[trigger] cell_mask(row, col),
        },
{
    if bitboard == 0 {
        proof {
            assert forall|row: int, col: int|
                0 <= row < 6 && 0 <= col < 7 implies bitboard != #[trigger] cell_mask(
                row,
                col,
            ) by {
                let j = (col * 7 + row) as u64;
                assert(j < 64 ==> 1u64 << j != 0) by (bit_vector);
            }
        }
        return None;
    }
    proof {
        vstd::std_specs::bits::axiom_u64_trailing_zeros(bitboard);
    }
    let pos = bitboard.trailing_zeros() as usize;
    if (1u64 << (pos as u64)) != bitboard {
        proof {
            assert forall|row: int, col: int|
                0 <= row < 6 && 0 <= col < 7 implies bitboard != #[trigger] cell_mask(
                row,
                col,
            ) by {
                if bitboard == cell_mask(row, col) {
                    lemma_pow2_trailing_zeros((col * 7 + row) as u64);
                }
            }
        }
        return None;
    }
    let row = pos % (ROWS + 1);
    let col = pos / (ROWS + 1);
    if row < ROWS && col < COLS {
        proof {
            lemma_fundamental_div_mod(pos as int, 7);
        }
        Some((row, col))
    } else {
        proof {
            assert forall|r2: int, c2: int|
                0 <= r2 < 6 && 0 <= c2 < 7 implies bitboard != #[trigger] cell_mask(r2, c2) by {
                if bitboard == cell_mask(r2, c2) {
                    let p = pos as u64;
                    let j = (c2 * 7 + r2) as u64;
                    assert(p < 64 && j < 64 && (1u64 << p) == (1u64 << j) ==> p == j)
                        by (bit_vector);
                    lemma_fundamental_div_mod_converse(pos as int, 7, c2, r2);
                }
            }
        }
        None
    }
}

/// A stone may be dropped into `col`: false off the board or when the column
/// already holds six stones.
pub fn can_place(bitboard: Bitboard, col: usize) -> (r: bool)
    ensures
        r == spec_can_place(bitboard, col as int),
{
    if col >= COLS {
        return false;
    }
    if (bitboard & get_top_mask(col)) > 0 {
        return false;
    }
    true
}

/// The occupancy holds 42 stones: the board is exhausted.
pub fn is_board_full(bitboard: Bitboard) -> (r: bool)
    ensures
        r == spec_board_full(bitboard),
{
    popcount(bitboard) as usize >= ROWS * COLS
}

/// One side has four contiguous stones in a row, column or diagonal,
/// detected by two rounds of shift-and per direction.
pub fn has_won(bitboard: Bitboard) -> (r: bool)
    ensures
        r == spec_win(bitboard),
{
    let horizontal = bitboard & (bitboard << (ROWS as u64 + 1));
    if horizontal & (horizontal << ((ROWS as u64 + 1) * 2)) > 0 {
        return true;
    }
    let vertical = bitboard & (bitboard << 1u64);
    if vertical & (vertical << 2u64) > 0 {
        return true;
    }
    let main_diagonal = bitboard & (bitboard << (ROWS as u64 + 2));
    if main_diagonal & (main_diagonal << ((ROWS as u64 + 2) * 2)) > 0 {
        return true;
    }
    let anti_diagonal = bitboard & (bitboard << (ROWS as u64));
    if anti_diagonal & (anti_diagonal << (ROWS as u64 * 2)) > 0 {
        return true;
    }
    false
}

/// The game is over: either side has won, or the board is full.
pub fn is_game_over(game_board: Bitboard, player1_board: Bitboard, player2_board: Bitboard) -> (r:
    bool)
    ensures
        r == spec_game_over(game_board, player1_board, player2_board),
{
    if has_won(player1_board) || has_won(player2_board) {
        return true;
    }
    if is_board_full(game_board) {
        return true;
    }
    false
}

/// Drop a stone for the side owning `player_board` into `col`: the occupancy
/// gains the new stone's bit and so does the mover's board.
pub fn drop_piece(game_board: Bitboard, player_board: Bitboard, col: usize) -> (r: (
    Bitboard,
    Bitboard,
))
    requires
        spec_can_place(game_board, col as int),
    ensures
        r.0 == game_board | spec_next_row(game_board, col as int),
        r.1 == player_board ^ spec_next_row(game_board, col as int),
{
    let next_row = get_next_row(game_board, col);
    (game_board | next_row, player_board ^ next_row)
}

/// True iff the mover's board holds a stone on the cell `(row, col)`.
pub fn has_stone_at(bitboard: Bitboard, row: usize, col: usize) -> (r: bool)
    requires
        row < 6,
        col < 7,
    ensures
        r == nth_bit(bitboard, (col * 7 + row) as u64),
{
    let shift: usize = col * COLS + row;
    (bitboard >> (shift as u64)) & 1u64 == 1u64
}

} // verus!
