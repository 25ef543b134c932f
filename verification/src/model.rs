//! The cell-level reading of a bitboard, and the lemmas tying the word-level
//! formulas of [`crate::bitboard`] to it.
//!
//! A board is read as a 7-by-6 grid of cells: `occupied(b, row, col)` looks at
//! bit `col * 7 + row`. On boards whose stones all sit on playable cells
//! (`valid_board`), the shift-based win detection is exactly the existence of
//! four aligned stones, and on well-stacked columns the gravity formula
//! yields the single bit of the lowest free cell.

use vstd::arithmetic::div_mod::lemma_fundamental_div_mod;
use vstd::arithmetic::div_mod::lemma_fundamental_div_mod_converse;
use vstd::arithmetic::div_mod::lemma_mod_bound;
use vstd::prelude::*;

use crate::bitboard::pairs_d1;
use crate::bitboard::pairs_d2;
use crate::bitboard::pairs_h;
use crate::bitboard::pairs_v;
use crate::bitboard::spec_board_full;
use crate::bitboard::spec_can_place;
use crate::bitboard::spec_next_row;
use crate::bitboard::spec_top_mask;
use crate::bitboard::spec_win;
use crate::bitboard::win_d1;
use crate::bitboard::win_d2;
use crate::bitboard::win_h;
use crate::bitboard::win_v;
use crate::bits::lemma_nonzero_bit;
use crate::bits::lemma_pop_set_bit;
use crate::bits::lemma_pop_upto_mono;
use crate::bits::lemma_pop_upto_run;
use crate::bits::nth_bit;
use crate::bits::pop64;
use crate::bits::pop_upto;

verus! {

/// Mask with exactly the bit of cell `(row, col)` set.
pub open spec fn cell_mask(row: int, col: int) -> u64 {
    1u64 << ((col * 7 + row) as u64)
}

/// The board holds a stone at cell `(row, col)`.
pub open spec fn occupied(b: u64, row: int, col: int) -> bool {
    nth_bit(b, (col * 7 + row) as u64)
}

/// Every stone sits on a playable cell: no bit on a spacer row (row 6 of a
/// column) and no bit beyond the seventh column.
pub open spec fn valid_board(b: u64) -> bool {
    forall|i: u64| i < 64 && #[trigger] nth_bit(b, i) ==> i < 49 && (i as int) % 7 < 6
}

/// Four stones stacked in one column.
pub open spec fn four_vertical(b: u64) -> bool {
    exists|r: int, c: int|
        0 <= r <= 2 && 0 <= c < 7 && #[trigger] occupied(b, r, c) && occupied(b, r + 1, c)
            && occupied(b, r + 2, c) && occupied(b, r + 3, c)
}

/// Four stones side by side in one row.
pub open spec fn four_horizontal(b: u64) -> bool {
    exists|r: int, c: int|
        0 <= r < 6 && 0 <= c <= 3 && #[trigger] occupied(b, r, c) && occupied(b, r, c + 1)
            && occupied(b, r, c + 2) && occupied(b, r, c + 3)
}

/// Four stones on a rising diagonal (row grows with the column).
pub open spec fn four_rising(b: u64) -> bool {
    exists|r: int, c: int|
        0 <= r <= 2 && 0 <= c <= 3 && #[trigger] occupied(b, r, c) && occupied(b, r + 1, c + 1)
            && occupied(b, r + 2, c + 2) && occupied(b, r + 3, c + 3)
}

/// Four stones on a falling diagonal (row shrinks as the column grows).
pub open spec fn four_falling(b: u64) -> bool {
    exists|r: int, c: int|
        3 <= r < 6 && 0 <= c <= 3 && #[trigger] occupied(b, r, c) && occupied(b, r - 1, c + 1)
            && occupied(b, r - 2, c + 2) && occupied(b, r - 3, c + 3)
}

/// Four aligned stones in some direction.
pub open spec fn connect_four(b: u64) -> bool {
    four_vertical(b) || four_horizontal(b) || four_rising(b) || four_falling(b)
}

/// Four set bits one apart make the vertical detector fire.
proof fn lemma_cells_to_win_v(b: u64, i: u64)
    requires
        i <= 60,
        nth_bit(b, i),
        nth_bit(b, (i + 1) as u64),
        nth_bit(b, (i + 2) as u64),
        nth_bit(b, (i + 3) as u64),
    ensures
        win_v(b),
{
    assert(i <= 60 && nth_bit(b, i) && nth_bit(b, (i + 1) as u64) && nth_bit(b, (i + 2) as u64)
        && nth_bit(b, (i + 3) as u64) ==> (b & (b << 1u64)) & ((b & (b << 1u64)) << 2u64) != 0)
        by (bit_vector);
}

/// Four set bits seven apart make the horizontal detector fire.
proof fn lemma_cells_to_win_h(b: u64, i: u64)
    requires
        i <= 42,
        nth_bit(b, i),
        nth_bit(b, (i + 7) as u64),
        nth_bit(b, (i + 14) as u64),
        nth_bit(b, (i + 21) as u64),
    ensures
        win_h(b),
{
    assert(i <= 42 && nth_bit(b, i) && nth_bit(b, (i + 7) as u64) && nth_bit(b, (i + 14) as u64)
        && nth_bit(b, (i + 21) as u64) ==> (b & (b << 7u64)) & ((b & (b << 7u64)) << 14u64) != 0)
        by (bit_vector);
}

/// Four set bits eight apart make the rising-diagonal detector fire.
proof fn lemma_cells_to_win_d1(b: u64, i: u64)
    requires
        i <= 39,
        nth_bit(b, i),
        nth_bit(b, (i + 8) as u64),
        nth_bit(b, (i + 16) as u64),
        nth_bit(b, (i + 24) as u64),
    ensures
        win_d1(b),
{
    assert(i <= 39 && nth_bit(b, i) && nth_bit(b, (i + 8) as u64) && nth_bit(b, (i + 16) as u64)
        && nth_bit(b, (i + 24) as u64) ==> (b & (b << 8u64)) & ((b & (b << 8u64)) << 16u64) != 0)
        by (bit_vector);
}

/// Four set bits six apart make the falling-diagonal detector fire.
proof fn lemma_cells_to_win_d2(b: u64, i: u64)
    requires
        i <= 45,
        nth_bit(b, i),
        nth_bit(b, (i + 6) as u64),
        nth_bit(b, (i + 12) as u64),
        nth_bit(b, (i + 18) as u64),
    ensures
        win_d2(b),
{
    assert(i <= 45 && nth_bit(b, i) && nth_bit(b, (i + 6) as u64) && nth_bit(b, (i + 12) as u64)
        && nth_bit(b, (i + 18) as u64) ==> (b & (b << 6u64)) & ((b & (b << 6u64)) << 12u64) != 0)
        by (bit_vector);
}

/// Four aligned stones make the word-level detector fire.
proof fn lemma_cells_to_win(b: u64)
    requires
        connect_four(b),
    ensures
        spec_win(b),
{
    if four_vertical(b) {
        let (r, c) = choose|r: int, c: int|
            0 <= r <= 2 && 0 <= c < 7 && #[trigger] occupied(b, r, c) && occupied(b, r + 1, c)
                && occupied(b, r + 2, c) && occupied(b, r + 3, c);
        let i = (c * 7 + r) as u64;
        assert(nth_bit(b, (i + 1) as u64) && nth_bit(b, (i + 2) as u64) && nth_bit(
            b,
            (i + 3) as u64,
        ));
        lemma_cells_to_win_v(b, i);
    } else if four_horizontal(b) {
        let (r, c) = choose|r: int, c: int|
            0 <= r < 6 && 0 <= c <= 3 && #[trigger] occupied(b, r, c) && occupied(b, r, c + 1)
                && occupied(b, r, c + 2) && occupied(b, r, c + 3);
        let i = (c * 7 + r) as u64;
        assert(nth_bit(b, (i + 7) as u64) && nth_bit(b, (i + 14) as u64) && nth_bit(
            b,
            (i + 21) as u64,
        ));
        lemma_cells_to_win_h(b, i);
    } else if four_rising(b) {
        let (r, c) = choose|r: int, c: int|
            0 <= r <= 2 && 0 <= c <= 3 && #[trigger] occupied(b, r, c) && occupied(b, r + 1, c + 1)
                && occupied(b, r + 2, c + 2) && occupied(b, r + 3, c + 3);
        let i = (c * 7 + r) as u64;
        assert(nth_bit(b, (i + 8) as u64) && nth_bit(b, (i + 16) as u64) && nth_bit(
            b,
            (i + 24) as u64,
        ));
        lemma_cells_to_win_d1(b, i);
    } else {
        let (r, c) = choose|r: int, c: int|
            3 <= r < 6 && 0 <= c <= 3 && #[trigger] occupied(b, r, c) && occupied(b, r - 1, c + 1)
                && occupied(b, r - 2, c + 2) && occupied(b, r - 3, c + 3);
        let i = (c * 7 + r) as u64;
        assert(nth_bit(b, (i + 6) as u64) && nth_bit(b, (i + 12) as u64) && nth_bit(
            b,
            (i + 18) as u64,
        ));
        lemma_cells_to_win_d2(b, i);
    }
}

/// On a valid board, a set bit decomposes into a playable cell.
proof fn lemma_bit_cell(b: u64, i: u64)
    requires
        valid_board(b),
        i < 64,
        nth_bit(b, i),
    ensures
        i == ((i as int) / 7) * 7 + (i as int) % 7,
        0 <= (i as int) % 7 < 6,
        0 <= (i as int) / 7 < 7,
        occupied(b, (i as int) % 7, (i as int) / 7),
{
    lemma_fundamental_div_mod(i as int, 7);
    lemma_mod_bound(i as int, 7);
    assert(i < 49 && (i as int) % 7 < 6);
    assert((((i as int) / 7) * 7 + (i as int) % 7) as u64 == i);
}

/// On a valid board, no bit sits on a spacer row.
proof fn lemma_guard_bit_clear(b: u64, j: int)
    requires
        valid_board(b),
        0 <= j < 64,
        j % 7 == 6,
    ensures
        !nth_bit(b, j as u64),
{
    if nth_bit(b, j as u64) {
        assert((j as u64) < 64 && nth_bit(b, j as u64));
        assert(((j as u64) as int) % 7 < 6);
    }
}

/// A firing horizontal detector on a valid board names four stones in a row.
proof fn lemma_win_to_cells_h(b: u64)
    requires
        valid_board(b),
        win_h(b),
    ensures
        four_horizontal(b),
{
    let t = pairs_h(b) & (pairs_h(b) << 14u64);
    lemma_nonzero_bit(t);
    let i = choose|i: u64| i < 64 && #[trigger] nth_bit(t, i);
    assert(i < 64 && nth_bit((b & (b << 7u64)) & ((b & (b << 7u64)) << 14u64), i) ==> 21 <= i
        && nth_bit(b, i) && nth_bit(b, (i - 7) as u64) && nth_bit(b, (i - 14) as u64) && nth_bit(
        b,
        (i - 21) as u64,
    )) by (bit_vector);
    lemma_bit_cell(b, i);
    let r = (i as int) % 7;
    let c = (i as int) / 7;
    assert(c >= 3);
    assert(occupied(b, r, c - 1)) by {
        assert(((c - 1) * 7 + r) as u64 == (i - 7) as u64);
    }
    assert(occupied(b, r, c - 2)) by {
        assert(((c - 2) * 7 + r) as u64 == (i - 14) as u64);
    }
    assert(occupied(b, r, c - 3)) by {
        assert(((c - 3) * 7 + r) as u64 == (i - 21) as u64);
    }
    assert(0 <= r < 6 && 0 <= c - 3 <= 3 && occupied(b, r, c - 3) && occupied(b, r, (c - 3) + 1)
        && occupied(b, r, (c - 3) + 2) && occupied(b, r, (c - 3) + 3));
}

/// A firing vertical detector on a valid board names four stacked stones.
proof fn lemma_win_to_cells_v(b: u64)
    requires
        valid_board(b),
        win_v(b),
    ensures
        four_vertical(b),
{
    let t = pairs_v(b) & (pairs_v(b) << 2u64);
    lemma_nonzero_bit(t);
    let i = choose|i: u64| i < 64 && #[trigger] nth_bit(t, i);
    assert(i < 64 && nth_bit((b & (b << 1u64)) & ((b & (b << 1u64)) << 2u64), i) ==> 3 <= i
        && nth_bit(b, i) && nth_bit(b, (i - 1) as u64) && nth_bit(b, (i - 2) as u64) && nth_bit(
        b,
        (i - 3) as u64,
    )) by (bit_vector);
    lemma_bit_cell(b, i);
    let r = (i as int) % 7;
    let c = (i as int) / 7;
    if r < 3 {
        let j = i - r - 1;
        assert(c >= 1);
        assert(j == (c - 1) * 7 + 6);
        lemma_fundamental_div_mod_converse(j, 7, c - 1, 6);
        lemma_guard_bit_clear(b, j);
        if r == 0 {
            assert(j as u64 == (i - 1) as u64);
        } else if r == 1 {
            assert(j as u64 == (i - 2) as u64);
        } else {
            assert(j as u64 == (i - 3) as u64);
        }
        assert(false);
    }
    assert(occupied(b, r - 1, c)) by {
        assert((c * 7 + (r - 1)) as u64 == (i - 1) as u64);
    }
    assert(occupied(b, r - 2, c)) by {
        assert((c * 7 + (r - 2)) as u64 == (i - 2) as u64);
    }
    assert(occupied(b, r - 3, c)) by {
        assert((c * 7 + (r - 3)) as u64 == (i - 3) as u64);
    }
    assert(0 <= r - 3 <= 2 && 0 <= c < 7 && occupied(b, r - 3, c) && occupied(b, (r - 3) + 1, c)
        && occupied(b, (r - 3) + 2, c) && occupied(b, (r - 3) + 3, c));
}

/// A firing rising-diagonal detector on a valid board names four diagonal stones.
proof fn lemma_win_to_cells_d1(b: u64)
    requires
        valid_board(b),
        win_d1(b),
    ensures
        four_rising(b),
{
    let t = pairs_d1(b) & (pairs_d1(b) << 16u64);
    lemma_nonzero_bit(t);
    let i = choose|i: u64| i < 64 && #[trigger] nth_bit(t, i);
    assert(i < 64 && nth_bit((b & (b << 8u64)) & ((b & (b << 8u64)) << 16u64), i) ==> 24 <= i
        && nth_bit(b, i) && nth_bit(b, (i - 8) as u64) && nth_bit(b, (i - 16) as u64) && nth_bit(
        b,
        (i - 24) as u64,
    )) by (bit_vector);
    lemma_bit_cell(b, i);
    let r = (i as int) % 7;
    let c = (i as int) / 7;
    if r < 3 {
        if r == 0 {
            let j = i - 8;
            assert(c >= 4);
            assert(j == (c - 2) * 7 + 6);
            lemma_fundamental_div_mod_converse(j, 7, c - 2, 6);
            lemma_guard_bit_clear(b, j);
        } else if r == 1 {
            let j = i - 16;
            assert(c >= 4);
            assert(j == (c - 3) * 7 + 6);
            lemma_fundamental_div_mod_converse(j, 7, c - 3, 6);
            lemma_guard_bit_clear(b, j);
        } else {
            let j = i - 24;
            assert(c >= 4);
            assert(j == (c - 4) * 7 + 6);
            lemma_fundamental_div_mod_converse(j, 7, c - 4, 6);
            lemma_guard_bit_clear(b, j);
        }
        assert(false);
    }
    assert(c >= 3);
    assert(occupied(b, r - 1, c - 1)) by {
        assert(((c - 1) * 7 + (r - 1)) as u64 == (i - 8) as u64);
    }
    assert(occupied(b, r - 2, c - 2)) by {
        assert(((c - 2) * 7 + (r - 2)) as u64 == (i - 16) as u64);
    }
    assert(occupied(b, r - 3, c - 3)) by {
        assert(((c - 3) * 7 + (r - 3)) as u64 == (i - 24) as u64);
    }
    assert(0 <= r - 3 <= 2 && 0 <= c - 3 <= 3 && occupied(b, r - 3, c - 3) && occupied(
        b,
        (r - 3) + 1,
        (c - 3) + 1,
    ) && occupied(b, (r - 3) + 2, (c - 3) + 2) && occupied(b, (r - 3) + 3, (c - 3) + 3));
}

/// A firing falling-diagonal detector on a valid board names four diagonal stones.
proof fn lemma_win_to_cells_d2(b: u64)
    requires
        valid_board(b),
        win_d2(b),
    ensures
        four_falling(b),
{
    let t = pairs_d2(b) & (pairs_d2(b) << 12u64);
    lemma_nonzero_bit(t);
    let i = choose|i: u64| i < 64 && #[trigger] nth_bit(t, i);
    assert(i < 64 && nth_bit((b & (b << 6u64)) & ((b & (b << 6u64)) << 12u64), i) ==> 18 <= i
        && nth_bit(b, i) && nth_bit(b, (i - 6) as u64) && nth_bit(b, (i - 12) as u64) && nth_bit(
        b,
        (i - 18) as u64,
    )) by (bit_vector);
    lemma_bit_cell(b, i);
    let r = (i as int) % 7;
    let c = (i as int) / 7;
    if r >= 3 {
        if r == 5 {
            let j = i - 6;
            assert(c >= 2);
            assert(j == (c - 1) * 7 + 6);
            lemma_fundamental_div_mod_converse(j, 7, c - 1, 6);
            lemma_guard_bit_clear(b, j);
        } else if r == 4 {
            let j = i - 12;
            assert(c >= 2);
            assert(j == (c - 2) * 7 + 6);
            lemma_fundamental_div_mod_converse(j, 7, c - 2, 6);
            lemma_guard_bit_clear(b, j);
        } else {
            let j = i - 18;
            assert(c >= 3);
            assert(j == (c - 3) * 7 + 6);
            lemma_fundamental_div_mod_converse(j, 7, c - 3, 6);
            lemma_guard_bit_clear(b, j);
        }
        assert(false);
    }
    assert(c >= 3);
    assert(occupied(b, r + 1, c - 1)) by {
        assert(((c - 1) * 7 + (r + 1)) as u64 == (i - 6) as u64);
    }
    assert(occupied(b, r + 2, c - 2)) by {
        assert(((c - 2) * 7 + (r + 2)) as u64 == (i - 12) as u64);
    }
    assert(occupied(b, r + 3, c - 3)) by {
        assert(((c - 3) * 7 + (r + 3)) as u64 == (i - 18) as u64);
    }
    assert(3 <= r + 3 < 6 && 0 <= c - 3 <= 3 && occupied(b, r + 3, c - 3) && occupied(
        b,
        (r + 3) - 1,
        (c - 3) + 1,
    ) && occupied(b, (r + 3) - 2, (c - 3) + 2) && occupied(b, (r + 3) - 3, (c - 3) + 3));
}

/// Column `c` is gravity-stacked: every stone above the floor rests on
/// another stone.
pub open spec fn col_stacked(b: u64, c: int) -> bool {
    forall|r: int| 1 <= r < 6 && #[trigger] occupied(b, r, c) ==> occupied(b, r - 1, c)
}

/// First free row of column `c` at or above row `r` (6 when the column is full).
pub open spec fn col_height_from(b: u64, c: int, r: int) -> int
    decreases 6 - r,
{
    if r < 0 || r >= 6 {
        6
    } else if !occupied(b, r, c) {
        r
    } else {
        col_height_from(b, c, r + 1)
    }
}

/// Number of stones stacked in column `c`: the first free row from the bottom.
pub open spec fn col_height(b: u64, c: int) -> int {
    col_height_from(b, c, 0)
}

/// On a stacked column, a stone implies stones all the way down.
proof fn lemma_stacked_down(b: u64, c: int, r: int, s: int)
    requires
        col_stacked(b, c),
        0 <= s <= r < 6,
        occupied(b, r, c),
    ensures
        occupied(b, s, c),
    decreases r - s,
{
    if s < r {
        lemma_stacked_down(b, c, r - 1, s);
    }
}

/// The first free row bounds the column scan: cells below it are occupied
/// and the cell at it (if any) is free.
proof fn lemma_height_from_props(b: u64, c: int, r: int)
    requires
        0 <= r <= 6,
    ensures
        r <= col_height_from(b, c, r) <= 6,
        forall|s: int| r <= s < col_height_from(b, c, r) ==> occupied(b, s, c),
        col_height_from(b, c, r) < 6 ==> !occupied(b, col_height_from(b, c, r), c),
    decreases 6 - r,
{
    if r < 6 && occupied(b, r, c) {
        lemma_height_from_props(b, c, r + 1);
    }
}

/// On a stacked column the occupancy profile is exactly "row below height".
proof fn lemma_col_profile(b: u64, c: int)
    requires
        col_stacked(b, c),
    ensures
        0 <= col_height(b, c) <= 6,
        forall|r: int| 0 <= r < 6 ==> (occupied(b, r, c) <==> r < col_height(b, c)),
{
    lemma_height_from_props(b, c, 0);
    let h = col_height(b, c);
    assert forall|r: int| 0 <= r < 6 implies (occupied(b, r, c) <==> r < h) by {
        if r < h {
            assert(occupied(b, r, c));
        } else if occupied(b, r, c) {
            if h < 6 {
                lemma_stacked_down(b, c, r, h);
            }
        }
    }
}

/// Two playable cells with the same mask are the same cell.
pub proof fn lemma_cell_mask_injective(r1: int, c1: int, r2: int, c2: int)
    requires
        0 <= r1 < 7,
        0 <= c1 < 7,
        0 <= r2 < 7,
        0 <= c2 < 7,
        cell_mask(r1, c1) == cell_mask(r2, c2),
    ensures
        r1 == r2,
        c1 == c2,
{
    let i = (c1 * 7 + r1) as u64;
    let j = (c2 * 7 + r2) as u64;
    assert(i < 64 && j < 64 && (1u64 << i) == (1u64 << j) ==> i == j) by (bit_vector);
}

/// Dropping into a playable column of a valid board with stacked columns
/// produces the single bit of the column's lowest free cell, and that cell
/// is the only playable reading of the mask.
pub proof fn lemma_drop_round_trip(b: u64, c: int)
    requires
        valid_board(b),
        col_stacked(b, c),
        spec_can_place(b, c),
    ensures
        ({
            let h = col_height(b, c);
            &&& 0 <= h < 6
            &&& spec_next_row(b, c) == cell_mask(h, c)
            &&& forall|r2: int, c2: int|
                0 <= r2 < 6 && 0 <= c2 < 7 && spec_next_row(b, c) == #[trigger] cell_mask(r2, c2)
                    ==> r2 == h && c2 == c
        }),
{
    lemma_col_profile(b, c);
    let h = col_height(b, c);
    if h == 6 {
        assert(occupied(b, 5, c));
        let top = (c * 7 + 5) as u64;
        assert(nth_bit(b, top) ==> b & (1u64 << top) != 0) by (bit_vector);
        assert(false);
    }
    lemma_guard_bit_clear(b, 7 * c + 6);
    let cc = c as u64;
    let hh = h as u64;
    assert((occupied(b, 0, c) <==> 0 < h) && (occupied(b, 1, c) <==> 1 < h) && (occupied(b, 2, c)
        <==> 2 < h) && (occupied(b, 3, c) <==> 3 < h) && (occupied(b, 4, c) <==> 4 < h) && (
    occupied(b, 5, c) <==> 5 < h));
    assert(occupied(b, 0, c) == nth_bit(b, (7 * cc) as u64) && occupied(b, 1, c) == nth_bit(
        b,
        (7 * cc + 1) as u64,
    ) && occupied(b, 2, c) == nth_bit(b, (7 * cc + 2) as u64) && occupied(b, 3, c) == nth_bit(
        b,
        (7 * cc + 3) as u64,
    ) && occupied(b, 4, c) == nth_bit(b, (7 * cc + 4) as u64) && occupied(b, 5, c) == nth_bit(
        b,
        (7 * cc + 5) as u64,
    ));
    assert(cc < 7 && hh < 6 && (nth_bit(b, (7 * cc) as u64) <==> 0 < hh) && (nth_bit(
        b,
        (7 * cc + 1) as u64,
    ) <==> 1 < hh) && (nth_bit(b, (7 * cc + 2) as u64) <==> 2 < hh) && (nth_bit(
        b,
        (7 * cc + 3) as u64,
    ) <==> 3 < hh) && (nth_bit(b, (7 * cc + 4) as u64) <==> 4 < hh) && (nth_bit(
        b,
        (7 * cc + 5) as u64,
    ) <==> 5 < hh) && !nth_bit(b, (7 * cc + 6) as u64) ==> ((b + (1u64 << ((7 * cc) as u64)))
        as u64) & (0x3fu64 << ((7 * cc) as u64)) == 1u64 << ((7 * cc + hh) as u64))
        by (bit_vector);
    assert(spec_next_row(b, c) == cell_mask(h, c));
    assert forall|r2: int, c2: int|
        0 <= r2 < 6 && 0 <= c2 < 7 && spec_next_row(b, c) == #[trigger] cell_mask(
            r2,
            c2,
        ) implies r2 == h && c2 == c by {
        lemma_cell_mask_injective(r2, c2, h, c);
    }
}

/// On an empty board, exactly the seven real columns accept a stone.
pub proof fn lemma_empty_board_placeable(c: int)
    ensures
        spec_can_place(0, c) <==> 0 <= c < 7,
{
    if 0 <= c < 7 {
        let m = spec_top_mask(c);
        assert(0u64 & m == 0) by (bit_vector);
    }
}

/// A column already holding six stones refuses a seventh.
pub proof fn lemma_full_column_blocked(b: u64, c: int)
    requires
        0 <= c < 7,
        forall|r: int| 0 <= r < 6 ==> occupied(b, r, c),
    ensures
        !spec_can_place(b, c),
{
    assert(occupied(b, 5, c));
    let top = (c * 7 + 5) as u64;
    assert(nth_bit(b, top) ==> b & (1u64 << top) != 0) by (bit_vector);
}

/// The board is full below 42 stones never, at or above 42 always,
/// whatever the stones' arrangement.
pub proof fn lemma_full_threshold(b: u64)
    ensures
        pop64(b) < 42 ==> !spec_board_full(b),
        pop64(b) >= 42 ==> spec_board_full(b),
{
}

/// One legal drop adds exactly the lowest free cell of its column and
/// nothing else: the board stays valid, every column stays stacked, and the
/// stone count grows by one.
pub proof fn lemma_drop_keeps_model(b: u64, c: int)
    requires
        valid_board(b),
        forall|c2: int| 0 <= c2 < 7 ==> col_stacked(b, c2),
        spec_can_place(b, c),
    ensures
        ({
            let nb = b | spec_next_row(b, c);
            let h = col_height(b, c);
            &&& valid_board(nb)
            &&& forall|c2: int| 0 <= c2 < 7 ==> col_stacked(nb, c2)
            &&& pop64(nb) == pop64(b) + 1
            &&& forall|r2: int, c2: int|
                0 <= r2 < 6 && 0 <= c2 < 7 ==> (#[trigger] occupied(nb, r2, c2) <==> (occupied(
                    b,
                    r2,
                    c2,
                ) || (r2 == h && c2 == c)))
        }),
{
    lemma_drop_round_trip(b, c);
    lemma_col_profile(b, c);
    let h = col_height(b, c);
    let i0 = (c * 7 + h) as u64;
    let nb = b | spec_next_row(b, c);
    assert(nb == b | (1u64 << i0));
    assert forall|k: u64| k < 64 implies #[trigger] nth_bit(nb, k) == (nth_bit(b, k) || k
        == i0) by {
        assert(k < 64 && i0 < 64 ==> nth_bit(b | (1u64 << i0), k) == (nth_bit(b, k) || k == i0))
            by (bit_vector);
    }
    assert forall|r2: int, c2: int|
        0 <= r2 < 6 && 0 <= c2 < 7 implies (#[trigger] occupied(nb, r2, c2) <==> (occupied(b, r2, c2)
        || (r2 == h && c2 == c))) by {
        let k = (c2 * 7 + r2) as u64;
        assert(nth_bit(nb, k) == (nth_bit(b, k) || k == i0));
        assert(k == i0 <==> (r2 == h && c2 == c));
    }
    assert forall|k: u64| k < 64 && #[trigger] nth_bit(nb, k) implies k < 49 && (k as int) % 7
        < 6 by {
        if k == i0 {
            lemma_fundamental_div_mod_converse(i0 as int, 7, c, h);
        }
    }
    assert forall|c2: int| 0 <= c2 < 7 implies col_stacked(nb, c2) by {
        assert forall|r: int| 1 <= r < 6 && #[trigger] occupied(nb, r, c2) implies occupied(
            nb,
            r - 1,
            c2,
        ) by {
            assert(col_stacked(b, c2));
            if occupied(b, r, c2) {
                assert(occupied(b, r - 1, c2));
            } else {
                assert(r == h && c2 == c);
                assert(occupied(b, h - 1, c));
            }
        }
    }
    assert(!occupied(b, h, c));
    lemma_pop_set_bit(b, i0);
}

/// A column accepts a stone exactly when its top playable cell is free.
pub proof fn lemma_can_place_is_top_free(b: u64, col: int)
    requires
        0 <= col < 7,
    ensures
        spec_can_place(b, col) <==> !occupied(b, 5, col),
{
    let t = (col * 7 + 5) as u64;
    assert(b & (1u64 << t) == 0 <==> !((b >> t) & 1u64 == 1u64)) by (bit_vector);
}

/// Six stones in a column contribute six to the prefix count.
proof fn lemma_col_run(b: u64, c: int)
    requires
        0 <= c < 7,
        forall|r: int, c2: int| 0 <= r < 6 && 0 <= c2 < 7 ==> #[trigger] occupied(b, r, c2),
    ensures
        pop_upto(b, 7 * c + 6) >= pop_upto(b, 7 * c) + 6,
{
    assert forall|k: int| 7 * c <= k < 7 * c + 6 implies #[trigger] nth_bit(b, k as u64) by {
        assert(occupied(b, k - 7 * c, c));
    }
    lemma_pop_upto_run(b, 7 * c, 7 * c + 6);
}

/// A board with stacked columns and fewer than 42 stones has a playable
/// column: the search reports "no move" only on a full board.
pub proof fn lemma_not_full_placeable(b: u64)
    requires
        forall|c: int| 0 <= c < 7 ==> col_stacked(b, c),
        pop64(b) < 42,
    ensures
        exists|c: int| 0 <= c < 7 && spec_can_place(b, c),
{
    if forall|c: int| 0 <= c < 7 ==> !(#[trigger] spec_can_place(b, c)) {
        assert forall|r: int, c: int| 0 <= r < 6 && 0 <= c < 7 implies #[trigger] occupied(
            b,
            r,
            c,
        ) by {
            assert(!spec_can_place(b, c));
            let top = (c * 7 + 5) as u64;
            assert(b & (1u64 << top) != 0 ==> nth_bit(b, top)) by (bit_vector);
            assert(occupied(b, 5, c));
            assert(col_stacked(b, c));
            lemma_stacked_down(b, c, 5, r);
        }
        lemma_col_run(b, 0);
        lemma_col_run(b, 1);
        lemma_col_run(b, 2);
        lemma_col_run(b, 3);
        lemma_col_run(b, 4);
        lemma_col_run(b, 5);
        lemma_col_run(b, 6);
        assert(pop_upto(b, 0) == 0);
        lemma_pop_upto_mono(b, 6, 7);
        lemma_pop_upto_mono(b, 13, 14);
        lemma_pop_upto_mono(b, 20, 21);
        lemma_pop_upto_mono(b, 27, 28);
        lemma_pop_upto_mono(b, 34, 35);
        lemma_pop_upto_mono(b, 41, 42);
        lemma_pop_upto_mono(b, 48, 64);
        assert(pop64(b) >= 42);
        assert(false);
    }
}

/// On a valid board, the shift-based detector fires exactly when four
/// aligned stones exist.
pub proof fn lemma_win_exact(b: u64)
    requires
        valid_board(b),
    ensures
        spec_win(b) <==> connect_four(b),
{
    if spec_win(b) {
        if win_h(b) {
            lemma_win_to_cells_h(b);
        } else if win_v(b) {
            lemma_win_to_cells_v(b);
        } else if win_d1(b) {
            lemma_win_to_cells_d1(b);
        } else {
            lemma_win_to_cells_d2(b);
        }
    }
    if connect_four(b) {
        lemma_cells_to_win(b);
    }
}

} // verus!
