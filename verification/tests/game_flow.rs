use connect_four_engine::bitboard::drop_piece;
use connect_four_engine::bitboard::Bitboard;
use connect_four_engine::game_difficulty::get_difficulty_str;
use connect_four_engine::game_difficulty::next_difficulty;
use connect_four_engine::game_difficulty::search_depth;
use connect_four_engine::game_difficulty::GameDifficulty;
use connect_four_engine::game_difficulty::GameDifficultyResource;
use connect_four_engine::game_result::game_outcome;
use connect_four_engine::game_result::replay_player_turn;
use connect_four_engine::game_result::GameResult;
use connect_four_engine::game_result::GameResultResource;
use connect_four_engine::states::next_turn;
use connect_four_engine::states::whose_turn;
use connect_four_engine::states::AppState;
use connect_four_engine::states::GameState;

#[test]
fn difficulty_buys_plies() {
    assert_eq!(search_depth(&GameDifficulty::Easy), 4);
    assert_eq!(search_depth(&GameDifficulty::Normal), 8);
    assert_eq!(search_depth(&GameDifficulty::Hard), 12);
}

#[test]
fn difficulties_cycle() {
    assert_eq!(next_difficulty(&GameDifficulty::Easy), GameDifficulty::Normal);
    assert_eq!(next_difficulty(&GameDifficulty::Normal), GameDifficulty::Hard);
    assert_eq!(next_difficulty(&GameDifficulty::Hard), GameDifficulty::Easy);
}

#[test]
fn difficulty_labels() {
    assert_eq!(get_difficulty_str(&GameDifficulty::Easy), "Easy");
    assert_eq!(get_difficulty_str(&GameDifficulty::Normal), "Normal");
    assert_eq!(get_difficulty_str(&GameDifficulty::Hard), "Hard");
    let holder = GameDifficultyResource { game_difficulty: GameDifficulty::Easy };
    assert_eq!(get_difficulty_str(&holder.game_difficulty), "Easy");
}

#[test]
fn outcome_classification() {
    // the player's vertical four
    let mut game: Bitboard = 0;
    let mut player: Bitboard = 0;
    for _ in 0..4 {
        let (g, p) = drop_piece(game, player, 0);
        game = g;
        player = p;
    }
    assert_eq!(game_outcome(game, player, 0), GameResult::PlayerWon);
    assert_eq!(game_outcome(game, 0, player), GameResult::BotWon);
    assert_eq!(game_outcome(game, 0, 0), GameResult::Unknow);
    let holder = GameResultResource { game_result: game_outcome(game, player, 0) };
    assert_eq!(holder.game_result, GameResult::PlayerWon);
}

#[test]
fn replay_start_goes_to_the_loser() {
    assert_eq!(replay_player_turn(&GameResult::PlayerWon, true), false);
    assert_eq!(replay_player_turn(&GameResult::BotWon, false), true);
    assert_eq!(replay_player_turn(&GameResult::Draw, true), true);
    assert_eq!(replay_player_turn(&GameResult::Draw, false), false);
    assert_eq!(replay_player_turn(&GameResult::Unknow, false), true);
}

#[test]
fn turn_dispatch() {
    assert_eq!(whose_turn(true), GameState::PlayerInput);
    assert_eq!(whose_turn(false), GameState::BotInput);
    assert_eq!(next_turn(true), false);
    assert_eq!(next_turn(false), true);
}

#[test]
fn fresh_states() {
    assert_eq!(AppState::default(), AppState::Loading);
    assert_eq!(GameState::default(), GameState::Setup);
}
