//! The bot strengths a front end can offer, and what each means for the
//! search.

use vstd::prelude::*;

verus! {

/// The three bot strengths.
#[derive(Clone, Copy, PartialEq, Eq, Structural, Debug)]
pub enum GameDifficulty {
    Easy,
    Normal,
    Hard,
}

/// Holder a front end keeps the chosen difficulty in.
pub struct GameDifficultyResource {
    pub game_difficulty: GameDifficulty,
}

/// Search depth, in plies, bought by each difficulty.
pub open spec fn spec_search_depth(d: GameDifficulty) -> usize {
    match d {
        GameDifficulty::Easy => 4,
        GameDifficulty::Normal => 8,
        GameDifficulty::Hard => 12,
    }
}

/// Search depth the bot uses at this difficulty: 4, 8 or 12 plies.
pub fn search_depth(game_difficulty: &GameDifficulty) -> (depth: usize)
    ensures
        depth == spec_search_depth(*game_difficulty),
        1 <= depth,
{
    match game_difficulty {
        GameDifficulty::Easy => 4,
        GameDifficulty::Normal => 8,
        GameDifficulty::Hard => 12,
    }
}

/// The difficulty after this one in the cycle Easy, Normal, Hard.
pub fn next_difficulty(game_difficulty: &GameDifficulty) -> (next: GameDifficulty)
    ensures
        next == (match *game_difficulty {
            GameDifficulty::Easy => GameDifficulty::Normal,
            GameDifficulty::Normal => GameDifficulty::Hard,
            GameDifficulty::Hard => GameDifficulty::Easy,
        }),
{
    match game_difficulty {
        GameDifficulty::Easy => GameDifficulty::Normal,
        GameDifficulty::Normal => GameDifficulty::Hard,
        GameDifficulty::Hard => GameDifficulty::Easy,
    }
}

/// The label a front end shows for the difficulty.
pub fn get_difficulty_str(game_difficulty: &GameDifficulty) -> (label: &'static str)
    ensures
        game_difficulty is Easy ==> label@ == "Easy"@,
        game_difficulty is Normal ==> label@ == "Normal"@,
        game_difficulty is Hard ==> label@ == "Hard"@,
{
    match game_difficulty {
        GameDifficulty::Easy => "Easy",
        GameDifficulty::Normal => "Normal",
        GameDifficulty::Hard => "Hard",
    }
}

} // verus!
