use connect_four_engine::bitboard::can_place;
use connect_four_engine::bitboard::drop_piece;
use connect_four_engine::bitboard::get_next_row;
use connect_four_engine::bitboard::has_stone_at;
use connect_four_engine::bitboard::has_won;
use connect_four_engine::bitboard::indices_from_bitmask;
use connect_four_engine::bitboard::is_board_full;
use connect_four_engine::bitboard::is_game_over;
use connect_four_engine::bitboard::Bitboard;
use connect_four_engine::game_result::game_outcome;
use connect_four_engine::game_result::GameResult;

#[test]
fn empty_board_accepts_every_real_column() {
    for col in 0..7 {
        assert!(can_place(0, col));
    }
    assert!(!can_place(0, 7));
    assert!(!can_place(0, 8));
    assert!(!can_place(0, usize::MAX));
}

#[test]
fn full_column_is_rejected() {
    for col in 0..7 {
        let mut game: Bitboard = 0;
        let mut board: Bitboard = 0;
        for _ in 0..6 {
            assert!(can_place(game, col));
            let (g, b) = drop_piece(game, board, col);
            game = g;
            board = b;
        }
        assert!(!can_place(game, col));
        // other stones elsewhere change nothing
        let (game, _) = drop_piece(game, board, (col + 1) % 7);
        assert!(!can_place(game, col));
    }
}

#[test]
fn board_full_exactly_at_42_stones() {
    // fill column by column, counting stones
    let mut game: Bitboard = 0;
    let mut board: Bitboard = 0;
    let mut stones = 0;
    for col in 0..7 {
        for _ in 0..6 {
            assert!(!is_board_full(game), "not full at {} stones", stones);
            let (g, b) = drop_piece(game, board, col);
            game = g;
            board = b;
            stones += 1;
        }
    }
    assert_eq!(stones, 42);
    assert!(is_board_full(game));
}

#[test]
fn drop_mask_decodes_back_to_row_and_column() {
    // a lone stacked column
    for col in 0..7 {
        let mut game: Bitboard = 0;
        let mut board: Bitboard = 0;
        for row in 0..6 {
            let mask = get_next_row(game, col);
            assert_eq!(indices_from_bitmask(mask), Some((row, col)));
            let (g, b) = drop_piece(game, board, col);
            game = g;
            board = b;
            assert!(has_stone_at(board, row, col));
        }
    }
    // and with neighbours already holding stones
    let mut game: Bitboard = 0;
    let mut board: Bitboard = 0;
    for col in 0..7 {
        let (g, b) = drop_piece(game, board, col);
        game = g;
        board = b;
    }
    for col in 0..7 {
        let mask = get_next_row(game, col);
        assert_eq!(indices_from_bitmask(mask), Some((1, col)));
    }
}

#[test]
fn malformed_masks_decode_to_none() {
    // two bits
    assert_eq!(indices_from_bitmask(0b11), None);
    // empty mask
    assert_eq!(indices_from_bitmask(0), None);
    // a bit beyond the last column
    assert_eq!(indices_from_bitmask(1u64 << 49), None);
}

#[test]
fn four_drops_in_one_column_win() {
    let mut game: Bitboard = 0;
    let mut bot: Bitboard = 0;
    for turn in 0..4 {
        assert!(!has_won(bot));
        assert!(!is_game_over(game, 0, bot));
        assert_eq!(indices_from_bitmask(get_next_row(game, 3)), Some((turn, 3)));
        let (g, b) = drop_piece(game, bot, 3);
        game = g;
        bot = b;
    }
    assert!(has_won(bot));
    assert!(is_game_over(game, 0, bot));
    assert_eq!(game_outcome(game, 0, bot), GameResult::BotWon);
}

#[test]
fn filled_board_without_runs_is_a_draw() {
    // owner of (row, col) alternates in two-row blocks shifted per column:
    // no four in a row in any direction
    let mut game: Bitboard = 0;
    let mut player: Bitboard = 0;
    let mut bot: Bitboard = 0;
    for col in 0..7 {
        for row in 0..6 {
            if (row / 2 + col) % 2 == 0 {
                let (g, p) = drop_piece(game, player, col);
                game = g;
                player = p;
            } else {
                let (g, b) = drop_piece(game, bot, col);
                game = g;
                bot = b;
            }
        }
    }
    assert!(is_board_full(game));
    assert!(!has_won(player));
    assert!(!has_won(bot));
    assert!(is_game_over(game, player, bot));
    assert_eq!(game_outcome(game, player, bot), GameResult::Draw);
}
