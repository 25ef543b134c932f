use connect_four_engine::bitboard::can_place;
use connect_four_engine::bitboard::drop_piece;
use connect_four_engine::bitboard::get_next_row;
use connect_four_engine::bitboard::is_game_over;
use connect_four_engine::bitboard::Bitboard;
use connect_four_engine::bot::evaluate;
use connect_four_engine::bot::find_best_move;
use connect_four_engine::bot::minmax;
use connect_four_engine::bot::NEG_INF;
use connect_four_engine::bot::POS_INF;
use connect_four_engine::bot::WIN_SCORE;

/// Full-width minimax with no pruning, as a reference for the pruned search.
fn full_width_minmax(
    game: Bitboard,
    player: Bitboard,
    bot: Bitboard,
    depth: usize,
    maximizing: bool,
) -> i64 {
    if depth == 0 || is_game_over(game, player, bot) {
        return evaluate(bot) - evaluate(player);
    }
    if maximizing {
        let mut best = NEG_INF;
        for col in 0..7 {
            if can_place(game, col) {
                let m = get_next_row(game, col);
                let v = full_width_minmax(game | m, player, bot ^ m, depth - 1, false);
                if v > best {
                    best = v;
                }
            }
        }
        best
    } else {
        let mut best = POS_INF;
        for col in 0..7 {
            if can_place(game, col) {
                let m = get_next_row(game, col);
                let v = full_width_minmax(game | m, player ^ m, bot, depth - 1, true);
                if v < best {
                    best = v;
                }
            }
        }
        best
    }
}

/// A small midgame position: stones in the center and on the wings.
fn seed_position() -> (Bitboard, Bitboard, Bitboard) {
    let mut game: Bitboard = 0;
    let mut player: Bitboard = 0;
    let mut bot: Bitboard = 0;
    for &col in &[3usize, 2, 3, 4, 0] {
        let (g, p) = drop_piece(game, player, col);
        game = g;
        player = p;
        let (g2, b) = drop_piece(game, bot, 6 - col);
        game = g2;
        bot = b;
    }
    (game, player, bot)
}

#[test]
fn pruning_does_not_change_the_score() {
    assert_eq!(
        minmax(0, 0, 0, 4, NEG_INF, POS_INF, true),
        full_width_minmax(0, 0, 0, 4, true)
    );
    let (game, player, bot) = seed_position();
    for depth in 1..5 {
        assert_eq!(
            minmax(game, player, bot, depth, NEG_INF, POS_INF, true),
            full_width_minmax(game, player, bot, depth, true)
        );
        assert_eq!(
            minmax(game, player, bot, depth, NEG_INF, POS_INF, false),
            full_width_minmax(game, player, bot, depth, false)
        );
    }
}

#[test]
fn evaluate_counts_quarter_points() {
    // empty board
    assert_eq!(evaluate(0), 0);
    // one stone on the center column
    assert_eq!(evaluate(1u64 << 21), 1);
    // two stones side by side on the bottom row: one two-run bit
    assert_eq!(evaluate(1 | (1u64 << 7)), 4);
    // three stones stacked in the first column: two two-run bits, one three-run bit
    assert_eq!(evaluate(0b111), 2 * 4 + 32);
    // a won board scores the win constant
    assert_eq!(evaluate(0b1111), WIN_SCORE);
}

#[test]
fn bot_takes_an_open_four() {
    // bot holds the bottom of columns 0..3, the player rests on top
    let mut game: Bitboard = 0;
    let mut player: Bitboard = 0;
    let mut bot: Bitboard = 0;
    for col in 0..3 {
        let (g, b) = drop_piece(game, bot, col);
        game = g;
        bot = b;
        let (g2, p) = drop_piece(game, player, col);
        game = g2;
        player = p;
    }
    for depth in 1..5 {
        assert_eq!(find_best_move(game, player, bot, depth), Some(3));
    }
}

#[test]
fn bot_blocks_an_open_four() {
    // the player threatens columns 0..3 on the bottom row
    let mut game: Bitboard = 0;
    let mut player: Bitboard = 0;
    let mut bot: Bitboard = 0;
    for col in 0..3 {
        let (g, p) = drop_piece(game, player, col);
        game = g;
        player = p;
    }
    let (g, b) = drop_piece(game, bot, 6);
    game = g;
    bot = b;
    for depth in 2..5 {
        assert_eq!(find_best_move(game, player, bot, depth), Some(3));
    }
}

#[test]
fn no_move_on_a_full_board() {
    let mut game: Bitboard = 0;
    let mut player: Bitboard = 0;
    let mut bot: Bitboard = 0;
    for col in 0..7 {
        for row in 0..6 {
            if (row / 2 + col) % 2 == 0 {
                let (g, p) = drop_piece(game, player, col);
                game = g;
                player = p;
            } else {
                let (g, b) = drop_piece(game, bot, col);
                game = g;
                bot = b;
            }
        }
    }
    assert_eq!(find_best_move(game, player, bot, 4), None);
}
