//! The outcome of a game and the decisions a front end takes from it.

use vstd::prelude::*;

use crate::bitboard::has_won;
use crate::bitboard::is_board_full;
use crate::bitboard::spec_board_full;
use crate::bitboard::spec_game_over;
use crate::bitboard::spec_win;
use crate::bitboard::Bitboard;

verus! {

/// Outcome of a finished game; `Unknow` while it is still running.
#[derive(Clone, Copy, PartialEq, Eq, Structural, Debug)]
pub enum GameResult {
    PlayerWon,
    BotWon,
    Draw,
    Unknow,
}

/// Holder a front end keeps the current outcome in.
pub struct GameResultResource {
    pub game_result: GameResult,
}

/// Classify a position: the player's win is checked first, then the bot's,
/// then a full board; otherwise the game goes on (`Unknow`).
pub fn game_outcome(game_board: Bitboard, player_board: Bitboard, bot_board: Bitboard) -> (result:
    GameResult)
    ensures
        result == (if spec_win(player_board) {
            GameResult::PlayerWon
        } else if spec_win(bot_board) {
            GameResult::BotWon
        } else if spec_board_full(game_board) {
            GameResult::Draw
        } else {
            GameResult::Unknow
        }),
        result is Unknow <==> !spec_game_over(game_board, player_board, bot_board),
{
    if has_won(player_board) {
        return GameResult::PlayerWon;
    }
    if has_won(bot_board) {
        return GameResult::BotWon;
    }
    if is_board_full(game_board) {
        return GameResult::Draw;
    }
    GameResult::Unknow
}

/// Whether the player opens the next game after a replay: the loser starts,
/// a draw keeps the rotation, an undecided game hands the start to the player.
pub fn replay_player_turn(game_result: &GameResult, player_turn: bool) -> (r: bool)
    ensures
        r == (match *game_result {
            GameResult::PlayerWon => false,
            GameResult::BotWon => true,
            GameResult::Draw => player_turn,
            GameResult::Unknow => true,
        }),
{
    match game_result {
        GameResult::PlayerWon => false,
        GameResult::BotWon => true,
        GameResult::Draw => player_turn,
        GameResult::Unknow => true,
    }
}

} // verus!
