use connect_four_engine::bitboard::can_place;
use connect_four_engine::bitboard::get_bottom_mask;
use connect_four_engine::bitboard::get_col_mask;
use connect_four_engine::bitboard::get_next_row;
use connect_four_engine::bitboard::get_top_mask;
use connect_four_engine::bitboard::has_won;
use connect_four_engine::bitboard::indices_from_bitmask;
use connect_four_engine::bitboard::is_board_full;
use connect_four_engine::bitboard::Bitboard;

#[test]
fn test_get_top_mask() {
    let result_a = get_top_mask(0);
    assert_eq!(result_a, 0b100000);

    let result_b = get_top_mask(1);
    assert_eq!(result_b, 0b100000_0_000000);
}

#[test]
fn test_get_bottom_mask() {
    let result_a = get_bottom_mask(0);
    assert_eq!(result_a, 0b1);

    let result_b = get_bottom_mask(1);
    assert_eq!(result_b, 0b000001_0_000000);
}

#[test]
fn test_get_col_mask() {
    let result_a = get_col_mask(0);
    assert_eq!(result_a, 0b111111);

    let result_b = get_col_mask(1);
    assert_eq!(result_b, 0b111111_0_000000);
}

#[test]
fn test_get_next_row() {
    let bitboard_a: Bitboard = 0;
    let result_a = get_next_row(bitboard_a, 0);
    assert_eq!(result_a, 0b000001);

    let bitboard_b: Bitboard = 0b000001_0_000000;
    let result_b = get_next_row(bitboard_b, 1);
    assert_eq!(result_b, 0b000010_0_000000);
}

#[test]
fn test_indices_from_bitmask() {
    let bitmask_a: Bitboard = 1;
    let result_a = indices_from_bitmask(bitmask_a);
    assert_eq!(Some((0, 0)), result_a);

    let bitmask_b: Bitboard = 0b100000_0_000000;
    let result_b = indices_from_bitmask(bitmask_b);
    assert_eq!(Some((5, 1)), result_b);

    let bitmask_c: Bitboard = 0b000000_1_000000;
    let result_c = indices_from_bitmask(bitmask_c);
    assert_eq!(None, result_c);
}

#[test]
fn test_can_place() {
    let bitboard_a: Bitboard = 0;
    let result_a = can_place(bitboard_a, 0);
    assert_eq!(result_a, true);

    let bitboard_b: Bitboard = 0b111111_0_000000;
    let result_b = can_place(bitboard_b, 1);
    assert_eq!(result_b, false);
}

#[test]
fn test_is_board_full() {
    let bitboard_a: Bitboard = 0;
    let result_a = is_board_full(bitboard_a);
    assert_eq!(result_a, false);

    let bitboard_b: Bitboard = 0b111111_0_111111_0_111111_0_111111_0_111111_0_111111_0_111111;
    let result_b = is_board_full(bitboard_b);
    assert_eq!(result_b, true);
}

#[test]
fn test_has_won() {
    let no_win: Bitboard = 0;
    assert_eq!(has_won(no_win), false);

    let horizontal_win: Bitboard = 0b000001_0_000001_0_000001_0_000001_0_000001_0_000001_0_000001;
    assert_eq!(has_won(horizontal_win), true);

    let vertical_win: Bitboard = 0b111111;
    assert_eq!(has_won(vertical_win), true);

    let main_diagonal_win: Bitboard = 0b001000_0_000100_0_000010_0_000001;
    assert_eq!(has_won(main_diagonal_win), true);

    let anti_diagonal_win: Bitboard = 0b000100_0_001000_0_010000_0_100000;
    assert_eq!(has_won(anti_diagonal_win), true);
}
