//! The screens and turn states a front end drives the engine through.

use vstd::prelude::*;

verus! {

/// Top-level screens.
#[derive(Clone, Copy, PartialEq, Eq, Structural, Hash, Debug)]
pub enum AppState {
    Loading,
    MainMenu,
    InGame,
}

impl Default for AppState {
    /// A fresh front end starts on the loading screen.
    fn default() -> (r: Self)
        ensures
            r is Loading,
    {
        AppState::Loading
    }
}

/// Stations of one game round.
#[derive(Clone, Copy, PartialEq, Eq, Structural, Hash, Debug)]
pub enum GameState {
    Setup,
    WhoTurn,
    PlayerInput,
    BotInput,
    SimulateGravity,
    IsGameOver,
    GameOver,
    Replay,
}

impl Default for GameState {
    /// A fresh round starts in setup.
    fn default() -> (r: Self)
        ensures
            r is Setup,
    {
        GameState::Setup
    }
}

/// The station the turn dispatcher hands control to.
pub fn whose_turn(player_turn: bool) -> (s: GameState)
    ensures
        s == (if player_turn {
            GameState::PlayerInput
        } else {
            GameState::BotInput
        }),
{
    if player_turn {
        GameState::PlayerInput
    } else {
        GameState::BotInput
    }
}

/// The mover of the following turn.
pub fn next_turn(player_turn: bool) -> (r: bool)
    ensures
        r == !player_turn,
{
    !player_turn
}

} // verus!
