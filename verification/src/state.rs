//! The menu and in-game state machines, and the keyboard-driven jumps
//! between their states.

use vstd::prelude::*;

verus! {

/// Top-level application state.
#[derive(Clone, Copy, PartialEq, Eq, Structural, Debug)]
pub enum AppState {
    StartMenu,
    Game,
    Temporary,
}

/// In-game state; `Invalid` while no level runs.
#[derive(Clone, Copy, PartialEq, Eq, Structural, Debug)]
pub enum GameState {
    Invalid,
    Game,
    Pause,
    GameOver,
    Victory,
}

/// States in which a game-over or victory event is ignored.
pub open spec fn spec_terminal(gs: GameState) -> bool {
    gs is GameOver || gs is Victory || gs is Invalid
}

/// The keys the state machine reacts to, sampled as just-pressed flags.
#[derive(Clone, Copy, PartialEq, Eq, Structural, Debug)]
pub struct StateKeys {
    pub back: bool,
    pub escape: bool,
    pub enter: bool,
}

/// The transition the state machine requests for one tick.
#[derive(Clone, Copy, PartialEq, Eq, Structural, Debug)]
pub struct StateJump {
    pub app: AppState,
    pub game: GameState,
    pub exit: bool,
}

/// Where one tick of key handling sends the two state machines. All tests
/// read the states as they were when the tick began; a later matching rule
/// overrides an earlier one, and `exit` asks to quit the program.
pub open spec fn spec_jump_state(app: AppState, game: GameState, keys: StateKeys) -> StateJump {
    let base = StateJump { app, game, exit: false };
    let after_back = if app != AppState::StartMenu && keys.back {
        StateJump { app: AppState::StartMenu, game: GameState::Invalid, exit: false }
    } else {
        base
    };
    if app == AppState::Game {
        if game == GameState::Game && keys.escape {
            StateJump { game: GameState::Pause, ..after_back }
        } else if game == GameState::Pause && keys.escape {
            StateJump { game: GameState::Game, ..after_back }
        } else if game == GameState::GameOver {
            let j = if keys.enter {
                StateJump { app: AppState::StartMenu, game: GameState::Invalid, ..after_back }
            } else {
                after_back
            };
            if keys.escape {
                StateJump { exit: true, ..j }
            } else {
                j
            }
        } else if game == GameState::Victory {
            let j = if keys.enter {
                StateJump { app: AppState::Temporary, game: GameState::Game, ..after_back }
            } else {
                after_back
            };
            if keys.escape {
                StateJump { exit: true, ..j }
            } else {
                j
            }
        } else {
            after_back
        }
    } else if app == AppState::StartMenu {
        let j = if keys.enter {
            StateJump { app: AppState::Game, game: GameState::Game, ..after_back }
        } else {
            after_back
        };
        if keys.escape {
            StateJump { exit: true, ..j }
        } else {
            j
        }
    } else {
        after_back
    }
}

/// One tick of the keyboard-driven state machine: Backspace leaves a level
/// for the start menu; Escape pauses or resumes a running game, and quits
/// from a menu or an end screen; Return starts a game, leaves the game-over
/// screen for the menu, or advances past the victory screen (the brief
/// `Temporary` hop gives the driver its cue to load the next level).
pub fn jump_state(app: AppState, game: GameState, keys: StateKeys) -> (r: StateJump)
    ensures
        r == spec_jump_state(app, game, keys),
{
    let mut r = StateJump { app, game, exit: false };
    if app != AppState::StartMenu && keys.back {
        r.app = AppState::StartMenu;
        r.game = GameState::Invalid;
    }
    if app == AppState::Game {
        if game == GameState::Game && keys.escape {
            r.game = GameState::Pause;
        } else if game == GameState::Pause && keys.escape {
            r.game = GameState::Game;
        } else if game == GameState::GameOver {
            if keys.enter {
                r.app = AppState::StartMenu;
                r.game = GameState::Invalid;
            }
            if keys.escape {
                r.exit = true;
            }
        } else if game == GameState::Victory {
            if keys.enter {
                r.app = AppState::Temporary;
                r.game = GameState::Game;
            }
            if keys.escape {
                r.exit = true;
            }
        }
    } else if app == AppState::StartMenu {
        if keys.enter {
            r.app = AppState::Game;
            r.game = GameState::Game;
        }
        if keys.escape {
            r.exit = true;
        }
    }
    r
}

} // verus!
