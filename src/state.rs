use vstd::prelude::*;

verus! {

/// The screens of the game.
#[derive(Debug, Clone, Copy, PartialEq, Eq, Hash, Structural)]
pub enum AppState {
    MainMenu,
    InGame,
    GameOver,
    GameWon,
}

impl Default for AppState {
    fn default() -> (r: Self)
        ensures
            r == AppState::MainMenu,
    {
        AppState::MainMenu
    }
}

} // verus!
