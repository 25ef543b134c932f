//! The heuristic evaluator and the depth-limited alpha-beta search.
//!
//! Scores are integers in quarter points, so that every weight of the
//! evaluator is exact: a won board scores `WIN_SCORE`, a stone on the center
//! column `MIDDLE_SCORE`, and each bit heading a two-run or three-run
//! `CONNECT_TWO_SCORE` or `CONNECT_THREE_SCORE`. The pruned search is proved
//! against `spec_minmax`, the full-width minimax value that prunes nothing:
//! run with an unbounded window it returns exactly that value.

use rayon::iter::IntoParallelIterator;
use rayon::iter::ParallelIterator;
use vstd::prelude::*;

use crate::bitboard::Bitboard;
use crate::bitboard::COLS;
use crate::bitboard::ROWS;
use crate::bitboard::can_place;
use crate::bitboard::get_next_row;
use crate::bitboard::has_won;
use crate::bitboard::is_game_over;
use crate::bitboard::pairs_d1;
use crate::bitboard::pairs_d2;
use crate::bitboard::pairs_h;
use crate::bitboard::pairs_v;
use crate::bitboard::spec_board_full;
use crate::bitboard::spec_can_place;
use crate::bitboard::spec_game_over;
use crate::bitboard::spec_next_row;
use crate::bitboard::spec_win;
use crate::bits::lemma_pop64_bound;
use crate::bits::pop64;
use crate::bits::popcount;
use crate::model::col_stacked;
use crate::model::lemma_can_place_is_top_free;
use crate::model::lemma_drop_keeps_model;
use crate::model::occupied;
use crate::model::valid_board;

verus! {

/// The six playable cells of the center column (column 3).
pub const MIDDLE_MASK: u64 = 0b111111000000000000000000000;

/// Score of a board that holds four in a row, in quarter points.
pub const WIN_SCORE: i64 = 40000;

/// Score per stone on the center column, in quarter points.
pub const MIDDLE_SCORE: i64 = 1;

/// Score per bit heading a run of two, in quarter points.
pub const CONNECT_TWO_SCORE: i64 = 4;

/// Score per bit heading a run of three, in quarter points.
pub const CONNECT_THREE_SCORE: i64 = 32;

/// Sentinel below every reachable score.
pub const NEG_INF: i64 = -1000000;

/// Sentinel above every reachable score.
pub const POS_INF: i64 = 1000000;

/// Bits that head a run of two or more, over all four directions.
pub open spec fn runs_of_two(b: u64) -> u64 {
    pairs_h(b) | pairs_v(b) | pairs_d1(b) | pairs_d2(b)
}

/// Bits that head a run of three or more, over all four directions.
pub open spec fn runs_of_three(b: u64) -> u64 {
    (pairs_h(b) & (pairs_h(b) << 7u64)) | (pairs_v(b) & (pairs_v(b) << 1u64)) | (pairs_d1(b) & (
    pairs_d1(b) << 8u64)) | (pairs_d2(b) & (pairs_d2(b) << 6u64))
}

/// Heuristic worth of one side's stones, in quarter points: the win score on
/// a won board, else center-column presence plus connectivity.
pub open spec fn spec_evaluate(b: u64) -> int {
    if spec_win(b) {
        WIN_SCORE as int
    } else {
        pop64(b & MIDDLE_MASK) * MIDDLE_SCORE + pop64(runs_of_two(b)) * CONNECT_TWO_SCORE + pop64(
            runs_of_three(b),
        ) * CONNECT_THREE_SCORE
    }
}

/// An evaluation is never negative and never exceeds the win score.
pub proof fn lemma_evaluate_bounds(b: u64)
    ensures
        0 <= spec_evaluate(b) <= WIN_SCORE,
{
    if !spec_win(b) {
        lemma_pop64_bound(b & MIDDLE_MASK);
        lemma_pop64_bound(runs_of_two(b));
        lemma_pop64_bound(runs_of_three(b));
    }
}

/// Leaf worth of a position: the bot's evaluation minus the player's.
pub open spec fn spec_leaf_score(player_board: u64, bot_board: u64) -> int {
    spec_evaluate(bot_board) - spec_evaluate(player_board)
}

/// Full-width minimax value of a position: the leaf score once the depth is
/// spent or the game is over, else the best value over the legal moves,
/// for the bot when maximizing and against it otherwise. Nothing is pruned;
/// the search is proved to return exactly this on an unbounded window.
pub open spec fn spec_minmax(
    game_board: u64,
    player_board: u64,
    bot_board: u64,
    depth: nat,
    maximizing: bool,
) -> int
    decreases depth, 8int,
{
    if depth == 0 || spec_game_over(game_board, player_board, bot_board) {
        spec_leaf_score(player_board, bot_board)
    } else if maximizing {
        spec_max_scan(game_board, player_board, bot_board, depth, 7)
    } else {
        spec_min_scan(game_board, player_board, bot_board, depth, 7)
    }
}

/// Largest child value over the bot's legal moves among columns `0 .. n`,
/// `NEG_INF` when none is legal.
pub open spec fn spec_max_scan(
    game_board: u64,
    player_board: u64,
    bot_board: u64,
    depth: nat,
    n: int,
) -> int
    decreases depth, n,
{
    if n <= 0 || depth == 0 {
        NEG_INF as int
    } else {
        let rest = spec_max_scan(game_board, player_board, bot_board, depth, n - 1);
        if spec_can_place(game_board, n - 1) {
            let m = spec_next_row(game_board, n - 1);
            let child = spec_minmax(
                game_board | m,
                player_board,
                bot_board ^ m,
                (depth - 1) as nat,
                false,
            );
            if child > rest {
                child
            } else {
                rest
            }
        } else {
            rest
        }
    }
}

/// Smallest child value over the player's legal moves among columns `0 .. n`,
/// `POS_INF` when none is legal.
pub open spec fn spec_min_scan(
    game_board: u64,
    player_board: u64,
    bot_board: u64,
    depth: nat,
    n: int,
) -> int
    decreases depth, n,
{
    if n <= 0 || depth == 0 {
        POS_INF as int
    } else {
        let rest = spec_min_scan(game_board, player_board, bot_board, depth, n - 1);
        if spec_can_place(game_board, n - 1) {
            let m = spec_next_row(game_board, n - 1);
            let child = spec_minmax(
                game_board | m,
                player_board ^ m,
                bot_board,
                (depth - 1) as nat,
                true,
            );
            if child < rest {
                child
            } else {
                rest
            }
        } else {
            rest
        }
    }
}

/// Scanning more columns can only raise the bot's best value.
proof fn lemma_max_scan_mono(
    game_board: u64,
    player_board: u64,
    bot_board: u64,
    depth: nat,
    n1: int,
    n2: int,
)
    requires
        n1 <= n2,
    ensures
        spec_max_scan(game_board, player_board, bot_board, depth, n1) <= spec_max_scan(
            game_board,
            player_board,
            bot_board,
            depth,
            n2,
        ),
    decreases n2 - n1,
{
    if n1 < n2 {
        lemma_max_scan_mono(game_board, player_board, bot_board, depth, n1, n2 - 1);
    }
}

/// Scanning more columns can only lower the player's best value.
proof fn lemma_min_scan_mono(
    game_board: u64,
    player_board: u64,
    bot_board: u64,
    depth: nat,
    n1: int,
    n2: int,
)
    requires
        n1 <= n2,
    ensures
        spec_min_scan(game_board, player_board, bot_board, depth, n1) >= spec_min_scan(
            game_board,
            player_board,
            bot_board,
            depth,
            n2,
        ),
    decreases n2 - n1,
{
    if n1 < n2 {
        lemma_min_scan_mono(game_board, player_board, bot_board, depth, n1, n2 - 1);
    }
}

/// Every minimax value lies between the two sentinels.
pub proof fn lemma_minmax_bounds(
    game_board: u64,
    player_board: u64,
    bot_board: u64,
    depth: nat,
    maximizing: bool,
)
    ensures
        NEG_INF <= spec_minmax(game_board, player_board, bot_board, depth, maximizing) <= POS_INF,
    decreases depth, 8int,
{
    if depth == 0 || spec_game_over(game_board, player_board, bot_board) {
        lemma_evaluate_bounds(player_board);
        lemma_evaluate_bounds(bot_board);
    } else if maximizing {
        lemma_max_scan_bounds(game_board, player_board, bot_board, depth, 7);
    } else {
        lemma_min_scan_bounds(game_board, player_board, bot_board, depth, 7);
    }
}

proof fn lemma_max_scan_bounds(
    game_board: u64,
    player_board: u64,
    bot_board: u64,
    depth: nat,
    n: int,
)
    requires
        n <= 7,
    ensures
        NEG_INF <= spec_max_scan(game_board, player_board, bot_board, depth, n) <= POS_INF,
    decreases depth, n,
{
    if n > 0 && depth > 0 {
        lemma_max_scan_bounds(game_board, player_board, bot_board, depth, n - 1);
        if spec_can_place(game_board, n - 1) {
            let m = spec_next_row(game_board, n - 1);
            lemma_minmax_bounds(
                game_board | m,
                player_board,
                bot_board ^ m,
                (depth - 1) as nat,
                false,
            );
        }
    }
}

proof fn lemma_min_scan_bounds(
    game_board: u64,
    player_board: u64,
    bot_board: u64,
    depth: nat,
    n: int,
)
    requires
        n <= 7,
    ensures
        NEG_INF <= spec_min_scan(game_board, player_board, bot_board, depth, n) <= POS_INF,
    decreases depth, n,
{
    if n > 0 && depth > 0 {
        lemma_min_scan_bounds(game_board, player_board, bot_board, depth, n - 1);
        if spec_can_place(game_board, n - 1) {
            let m = spec_next_row(game_board, n - 1);
            lemma_minmax_bounds(
                game_board | m,
                player_board ^ m,
                bot_board,
                (depth - 1) as nat,
                true,
            );
        }
    }
}

/// Heuristic worth of one side's stones against an empty reference.
pub fn evaluate(bitboard: Bitboard) -> (score: i64)
    ensures
        score == spec_evaluate(bitboard),
        0 <= score <= WIN_SCORE,
{
    proof {
        lemma_evaluate_bounds(bitboard);
    }
    if has_won(bitboard) {
        return WIN_SCORE;
    }
    let middle = bitboard & MIDDLE_MASK;
    let mut total_score: i64 = popcount(middle) as i64 * MIDDLE_SCORE;

    let horizontal = bitboard & (bitboard << (ROWS as u64 + 1));
    let vertical = bitboard & (bitboard << 1u64);
    let main_diagonal = bitboard & (bitboard << (ROWS as u64 + 2));
    let anti_diagonal = bitboard & (bitboard << (ROWS as u64));

    let two_runs = horizontal | vertical | main_diagonal | anti_diagonal;
    total_score = total_score + popcount(two_runs) as i64 * CONNECT_TWO_SCORE;

    let horizontal_three = horizontal & (horizontal << (ROWS as u64 + 1));
    let vertical_three = vertical & (vertical << 1u64);
    let main_diagonal_three = main_diagonal & (main_diagonal << (ROWS as u64 + 2));
    let anti_diagonal_three = anti_diagonal & (anti_diagonal << (ROWS as u64));

    let three_runs = horizontal_three | vertical_three | main_diagonal_three | anti_diagonal_three;
    total_score = total_score + popcount(three_runs) as i64 * CONNECT_THREE_SCORE;
    total_score
}

/// Depth-limited minimax with alpha-beta pruning. Pruning never changes the
/// value seen through the window: a result strictly inside `(alpha, beta)`
/// is exactly the full-width minimax value, a result at or below `alpha` is
/// an upper bound on it, and one at or above `beta` a lower bound.
pub fn minmax(
    game_board: Bitboard,
    player_board: Bitboard,
    bot_board: Bitboard,
    depth: usize,
    alpha: i64,
    beta: i64,
    maximizing: bool,
) -> (score: i64)
    requires
        NEG_INF <= alpha < beta <= POS_INF,
    ensures
        NEG_INF <= score <= POS_INF,
        ({
            let value = spec_minmax(game_board, player_board, bot_board, depth as nat, maximizing);
            &&& (score <= alpha ==> value <= score)
            &&& (score >= beta ==> value >= score)
            &&& (alpha < score < beta ==> score == value)
        }),
    decreases depth,
{
    if depth == 0 || is_game_over(game_board, player_board, bot_board) {
        return evaluate(bot_board) - evaluate(player_board);
    }
    if maximizing {
        let mut max_eval: i64 = NEG_INF;
        let mut a = alpha;
        let mut pruned = false;
        let mut col: usize = 0;
        while col < COLS && !pruned
            invariant
                NEG_INF <= alpha < beta <= POS_INF,
                1 <= depth,
                col <= 7,
                NEG_INF <= max_eval <= POS_INF,
                a == (if max_eval > alpha {
                    max_eval
                } else {
                    alpha
                }),
                !pruned ==> a < beta,
                !pruned ==> spec_max_scan(
                    game_board,
                    player_board,
                    bot_board,
                    depth as nat,
                    col as int,
                ) <= max_eval,
                !pruned ==> (max_eval > alpha ==> max_eval <= spec_max_scan(
                    game_board,
                    player_board,
                    bot_board,
                    depth as nat,
                    col as int,
                )),
                pruned ==> max_eval >= beta && max_eval <= spec_max_scan(
                    game_board,
                    player_board,
                    bot_board,
                    depth as nat,
                    7,
                ),
            decreases 7 - col,
        {
            if can_place(game_board, col) {
                let next_row = get_next_row(game_board, col);
                let new_game_board = game_board | next_row;
                let new_bot_board = bot_board ^ next_row;
                let eval_score = minmax(
                    new_game_board,
                    player_board,
                    new_bot_board,
                    depth - 1,
                    a,
                    beta,
                    false,
                );
                proof {
                    lemma_max_scan_mono(
                        game_board,
                        player_board,
                        bot_board,
                        depth as nat,
                        col + 1,
                        7,
                    );
                }
                if eval_score > max_eval {
                    max_eval = eval_score;
                }
                if eval_score > a {
                    a = eval_score;
                }
                if beta <= a {
                    pruned = true;
                }
            }
            col = col + 1;
        }
        max_eval
    } else {
        let mut min_eval: i64 = POS_INF;
        let mut b = beta;
        let mut pruned = false;
        let mut col: usize = 0;
        while col < COLS && !pruned
            invariant
                NEG_INF <= alpha < beta <= POS_INF,
                1 <= depth,
                col <= 7,
                NEG_INF <= min_eval <= POS_INF,
                b == (if min_eval < beta {
                    min_eval
                } else {
                    beta
                }),
                !pruned ==> alpha < b,
                !pruned ==> spec_min_scan(
                    game_board,
                    player_board,
                    bot_board,
                    depth as nat,
                    col as int,
                ) >= min_eval,
                !pruned ==> (min_eval < beta ==> min_eval >= spec_min_scan(
                    game_board,
                    player_board,
                    bot_board,
                    depth as nat,
                    col as int,
                )),
                pruned ==> min_eval <= alpha && min_eval >= spec_min_scan(
                    game_board,
                    player_board,
                    bot_board,
                    depth as nat,
                    7,
                ),
            decreases 7 - col,
        {
            if can_place(game_board, col) {
                let next_row = get_next_row(game_board, col);
                let new_game_board = game_board | next_row;
                let new_player_board = player_board ^ next_row;
                let eval_score = minmax(
                    new_game_board,
                    new_player_board,
                    bot_board,
                    depth - 1,
                    alpha,
                    b,
                    true,
                );
                proof {
                    lemma_min_scan_mono(
                        game_board,
                        player_board,
                        bot_board,
                        depth as nat,
                        col + 1,
                        7,
                    );
                }
                if eval_score < min_eval {
                    min_eval = eval_score;
                }
                if eval_score < b {
                    b = eval_score;
                }
                if b <= alpha {
                    pruned = true;
                }
            }
            col = col + 1;
        }
        min_eval
    }
}

/// Full-width value of the root move in `col`, for a playable `col`.
pub open spec fn spec_root_value(
    game_board: u64,
    player_board: u64,
    bot_board: u64,
    depth: nat,
    col: int,
) -> int {
    let m = spec_next_row(game_board, col);
    spec_minmax(game_board | m, player_board, bot_board ^ m, (depth - 1) as nat, false)
}

/// What scoring one root column yields: the move's full-width minimax value,
/// or `None` when the column is blocked.
pub open spec fn spec_root_result(
    game_board: u64,
    player_board: u64,
    bot_board: u64,
    depth: nat,
    col: int,
) -> Option<i64> {
    if spec_can_place(game_board, col) {
        Some(spec_root_value(game_board, player_board, bot_board, depth, col) as i64)
    } else {
        None
    }
}

/// Score one root column on an unbounded window: exactly its full-width
/// minimax value, `None` when the column is blocked.
fn root_score(
    game_board: Bitboard,
    player_board: Bitboard,
    bot_board: Bitboard,
    depth: usize,
    col: usize,
) -> (r: Option<i64>)
    requires
        1 <= depth,
    ensures
        r == spec_root_result(game_board, player_board, bot_board, depth as nat, col as int),
{
    if can_place(game_board, col) {
        let next_row = get_next_row(game_board, col);
        let new_game_board = game_board | next_row;
        let new_bot_board = bot_board ^ next_row;
        let eval_score = minmax(
            new_game_board,
            player_board,
            new_bot_board,
            depth - 1,
            NEG_INF,
            POS_INF,
            false,
        );
        proof {
            lemma_minmax_bounds(
                new_game_board,
                player_board,
                new_bot_board,
                (depth - 1) as nat,
                false,
            );
        }
        Some(eval_score)
    } else {
        None
    }
}

/// Scores all seven root columns, one parallel task per column.
///
/// Relies on rayon's `into_par_iter`/`map`/`collect`: a mapped range is an
/// indexed parallel iterator, and collecting one into a `Vec` keeps index
/// order, so slot `c` holds exactly what `root_score` returns for column `c`.
#[verifier::external_body]
fn par_root_scores(
    game_board: Bitboard,
    player_board: Bitboard,
    bot_board: Bitboard,
    depth: usize,
) -> (r: Vec<Option<i64>>)
    requires
        1 <= depth,
    ensures
        r@.len() == 7,
        forall|c: int|
            0 <= c < 7 ==> r@[c] == spec_root_result(
                game_board,
                player_board,
                bot_board,
                depth as nat,
                c,
            ),
{
    (0..7usize).into_par_iter().map(
        |col| root_score(game_board, player_board, bot_board, depth, col),
    ).collect()
}

/// The player's scan is bounded by each of its legal members.
proof fn lemma_min_scan_member(
    game_board: u64,
    player_board: u64,
    bot_board: u64,
    depth: nat,
    j: int,
    n: int,
)
    requires
        1 <= depth,
        0 <= j < n <= 7,
        spec_can_place(game_board, j),
    ensures
        ({
            let m = spec_next_row(game_board, j);
            spec_min_scan(game_board, player_board, bot_board, depth, n) <= spec_minmax(
                game_board | m,
                player_board ^ m,
                bot_board,
                (depth - 1) as nat,
                true,
            )
        }),
    decreases n,
{
    if j < n - 1 {
        lemma_min_scan_member(game_board, player_board, bot_board, depth, j, n - 1);
    }
}

/// A bound below every legal member bounds the player's scan from below.
proof fn lemma_min_scan_lower(
    game_board: u64,
    player_board: u64,
    bot_board: u64,
    depth: nat,
    n: int,
    x: int,
)
    requires
        0 <= n <= 7,
        x <= POS_INF,
        forall|j: int|
            0 <= j < n && #[trigger] spec_can_place(game_board, j) ==> x <= spec_minmax(
                game_board | spec_next_row(game_board, j),
                player_board ^ spec_next_row(game_board, j),
                bot_board,
                (depth - 1) as nat,
                true,
            ),
    ensures
        x <= spec_min_scan(game_board, player_board, bot_board, depth, n),
    decreases n,
{
    if n > 0 {
        lemma_min_scan_lower(game_board, player_board, bot_board, depth, n - 1, x);
    }
}

/// Without four in a row, an evaluation stays under the connectivity ceiling.
proof fn lemma_evaluate_no_win_bound(b: u64)
    requires
        !spec_win(b),
    ensures
        spec_evaluate(b) <= 2368,
{
    lemma_pop64_bound(b & MIDDLE_MASK);
    lemma_pop64_bound(runs_of_two(b));
    lemma_pop64_bound(runs_of_three(b));
}

/// With one ply to search, a column that completes four in a row for the bot
/// outscores every playable column that does not, so a search over one ply
/// must take it. `find_best_move` at depth 1 therefore returns that column
/// whenever it is the only immediately winning one.
pub proof fn lemma_winning_column_preferred(
    game_board: u64,
    player_board: u64,
    bot_board: u64,
    win_col: int,
)
    requires
        !spec_win(player_board),
        spec_can_place(game_board, win_col),
        spec_win(bot_board ^ spec_next_row(game_board, win_col)),
    ensures
        forall|c: int|
            0 <= c < 7 && c != win_col && spec_can_place(game_board, c) && !spec_win(
                bot_board ^ spec_next_row(game_board, c),
            ) ==> #[trigger] spec_root_value(game_board, player_board, bot_board, 1, c)
                < spec_root_value(game_board, player_board, bot_board, 1, win_col),
{
    lemma_evaluate_bounds(player_board);
    let win_value = spec_root_value(game_board, player_board, bot_board, 1, win_col);
    assert(win_value == WIN_SCORE - spec_evaluate(player_board));
    assert forall|c: int|
        0 <= c < 7 && c != win_col && spec_can_place(game_board, c) && !spec_win(
            bot_board ^ spec_next_row(game_board, c),
        ) implies #[trigger] spec_root_value(game_board, player_board, bot_board, 1, c)
        < win_value by {
        lemma_evaluate_no_win_bound(bot_board ^ spec_next_row(game_board, c));
        lemma_evaluate_no_win_bound(player_board);
    }
}

/// With two plies to search, the one column that parries the player's open
/// three outscores every other playable column, so a search over two plies
/// must block. The premises say exactly that: the bot cannot win at once,
/// the player's drop into `block_col` completes four after any other bot
/// move, and once blocked the player has no immediate win left.
pub proof fn lemma_blocking_column_preferred(
    game_board: u64,
    player_board: u64,
    bot_board: u64,
    block_col: int,
)
    requires
        valid_board(game_board),
        forall|c2: int| 0 <= c2 < 7 ==> col_stacked(game_board, c2),
        pop64(game_board) <= 40,
        !spec_win(player_board),
        !spec_win(bot_board),
        0 <= block_col < 7,
        spec_can_place(game_board, block_col),
        forall|c: int|
            0 <= c < 7 && spec_can_place(game_board, c) ==> !spec_win(
                bot_board ^ #[trigger] spec_next_row(game_board, c),
            ),
        forall|c: int|
            0 <= c < 7 && c != block_col && spec_can_place(game_board, c) ==> spec_win(
                player_board ^ spec_next_row(
                    game_board | #[trigger] spec_next_row(game_board, c),
                    block_col,
                ),
            ),
        forall|j: int|
            0 <= j < 7 && spec_can_place(game_board | spec_next_row(game_board, block_col), j)
                ==> !spec_win(
                player_board ^ #[trigger] spec_next_row(
                    game_board | spec_next_row(game_board, block_col),
                    j,
                ),
            ),
    ensures
        forall|c: int|
            0 <= c < 7 && c != block_col && spec_can_place(game_board, c)
                ==> #[trigger] spec_root_value(game_board, player_board, bot_board, 2, c)
                < spec_root_value(game_board, player_board, bot_board, 2, block_col),
{
    let mb = spec_next_row(game_board, block_col);
    let blocked_game = game_board | mb;
    let blocked_bot = bot_board ^ mb;
    lemma_drop_keeps_model(game_board, block_col);
    assert(!spec_board_full(blocked_game));
    assert(!spec_win(blocked_bot));
    assert forall|j: int|
        0 <= j < 7 && #[trigger] spec_can_place(blocked_game, j) implies (-2368) <= spec_minmax(
        blocked_game | spec_next_row(blocked_game, j),
        player_board ^ spec_next_row(blocked_game, j),
        blocked_bot,
        0,
        true,
    ) by {
        lemma_evaluate_bounds(blocked_bot);
        lemma_evaluate_no_win_bound(player_board ^ spec_next_row(blocked_game, j));
    }
    lemma_min_scan_lower(blocked_game, player_board, blocked_bot, 1, 7, -2368);
    let block_value = spec_root_value(game_board, player_board, bot_board, 2, block_col);
    assert(block_value >= -2368);
    assert forall|c: int|
        0 <= c < 7 && c != block_col && spec_can_place(game_board, c) implies #[trigger]
    spec_root_value(game_board, player_board, bot_board, 2, c) < block_value by {
        let mc = spec_next_row(game_board, c);
        let moved_game = game_board | mc;
        let moved_bot = bot_board ^ mc;
        lemma_drop_keeps_model(game_board, c);
        assert(!spec_board_full(moved_game));
        assert(!spec_win(moved_bot));
        assert(occupied(moved_game, 5, block_col) == occupied(game_board, 5, block_col));
        lemma_can_place_is_top_free(game_board, block_col);
        lemma_can_place_is_top_free(moved_game, block_col);
        assert(spec_can_place(moved_game, block_col));
        lemma_min_scan_member(moved_game, player_board, moved_bot, 1, block_col, 7);
        let reply = spec_next_row(moved_game, block_col);
        assert(spec_win(player_board ^ reply));
        lemma_evaluate_no_win_bound(moved_bot);
        assert(spec_minmax(moved_game | reply, player_board ^ reply, moved_bot, 0, true)
            <= 2368 - WIN_SCORE);
    }
}

/// Choose the bot's column: a legal root move whose full-width minimax value
/// at `depth` plies is greatest, the seven root branches searched in
/// parallel; `None` exactly when no column is playable. Among equal-scoring
/// columns this implementation keeps the lowest index, but callers should
/// rely only on the score being maximal.
pub fn find_best_move(
    game_board: Bitboard,
    player_board: Bitboard,
    bot_board: Bitboard,
    depth: usize,
) -> (r: Option<usize>)
    requires
        1 <= depth,
    ensures
        match r {
            Some(col) => col < 7 && spec_can_place(game_board, col as int) && (forall|c: int|
                0 <= c < 7 && spec_can_place(game_board, c) ==> #[trigger] spec_root_value(
                    game_board,
                    player_board,
                    bot_board,
                    depth as nat,
                    c,
                ) <= spec_root_value(game_board, player_board, bot_board, depth as nat, col as int)),
            None => forall|c: int| 0 <= c < 7 ==> !spec_can_place(game_board, c),
        },
{
    let results = par_root_scores(game_board, player_board, bot_board, depth);
    let mut best: Option<(usize, i64)> = None;
    let mut col: usize = 0;
    while col < COLS
        invariant
            1 <= depth,
            col <= 7,
            results@.len() == 7,
            forall|c: int|
                0 <= c < 7 ==> results@[c] == spec_root_result(
                    game_board,
                    player_board,
                    bot_board,
                    depth as nat,
                    c,
                ),
            match best {
                Some(p) => p.0 < col && spec_can_place(game_board, p.0 as int) && p.1
                    == spec_root_value(
                    game_board,
                    player_board,
                    bot_board,
                    depth as nat,
                    p.0 as int,
                ) && (forall|c: int|
                    0 <= c < col && spec_can_place(game_board, c) ==> #[trigger] spec_root_value(
                        game_board,
                        player_board,
                        bot_board,
                        depth as nat,
                        c,
                    ) <= p.1),
                None => forall|c: int| 0 <= c < col ==> !spec_can_place(game_board, c),
            },
        decreases 7 - col,
    {
        let score_opt = results[col];
        proof {
            if spec_can_place(game_board, col as int) {
                let m = spec_next_row(game_board, col as int);
                lemma_minmax_bounds(
                    game_board | m,
                    player_board,
                    bot_board ^ m,
                    (depth - 1) as nat,
                    false,
                );
            }
        }
        match score_opt {
            Some(score) => {
                match best {
                    Some(p) => {
                        if score > p.1 {
                            best = Some((col, score));
                        }
                    },
                    None => {
                        best = Some((col, score));
                    },
                }
            },
            None => {},
        }
        col = col + 1;
    }
    match best {
        Some(p) => Some(p.0),
        None => None,
    }
}

} // verus!
