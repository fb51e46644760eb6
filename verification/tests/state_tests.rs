use bomberman::state::{AppState, GameState, StateKeys, jump_state};

fn keys(back: bool, escape: bool, enter: bool) -> StateKeys {
    StateKeys { back, escape, enter }
}

#[test]
fn enter_starts_a_game_from_the_menu() {
    let r = jump_state(AppState::StartMenu, GameState::Invalid, keys(false, false, true));
    assert_eq!(r.app, AppState::Game);
    assert_eq!(r.game, GameState::Game);
    assert!(!r.exit);
}

#[test]
fn escape_quits_from_the_menu() {
    let r = jump_state(AppState::StartMenu, GameState::Invalid, keys(false, true, false));
    assert!(r.exit);
    assert_eq!(r.app, AppState::StartMenu);
}

#[test]
fn escape_toggles_pause_in_a_running_game() {
    let r = jump_state(AppState::Game, GameState::Game, keys(false, true, false));
    assert_eq!(r.game, GameState::Pause);
    let r2 = jump_state(AppState::Game, GameState::Pause, keys(false, true, false));
    assert_eq!(r2.game, GameState::Game);
}

#[test]
fn backspace_leaves_a_level_for_the_menu() {
    let r = jump_state(AppState::Game, GameState::Game, keys(true, false, false));
    assert_eq!(r.app, AppState::StartMenu);
    assert_eq!(r.game, GameState::Invalid);
    assert!(!r.exit);
}

#[test]
fn the_game_over_screen_returns_or_quits() {
    let r = jump_state(AppState::Game, GameState::GameOver, keys(false, false, true));
    assert_eq!(r.app, AppState::StartMenu);
    assert_eq!(r.game, GameState::Invalid);
    let r2 = jump_state(AppState::Game, GameState::GameOver, keys(false, true, false));
    assert!(r2.exit);
}

#[test]
fn the_victory_screen_advances_or_quits() {
    // Return leaves the victory screen for the next level, through the
    // brief hop state that cues the level load.
    let r = jump_state(AppState::Game, GameState::Victory, keys(false, false, true));
    assert_eq!(r.app, AppState::Temporary);
    assert_eq!(r.game, GameState::Game);
    assert!(!r.exit);
    let r2 = jump_state(AppState::Game, GameState::Victory, keys(false, true, false));
    assert!(r2.exit);
    let r3 = jump_state(AppState::Game, GameState::Victory, keys(false, false, false));
    assert_eq!(r3.app, AppState::Game);
    assert_eq!(r3.game, GameState::Victory);
}

#[test]
fn idle_keys_change_nothing() {
    let r = jump_state(AppState::Game, GameState::Game, keys(false, false, false));
    assert_eq!(r.app, AppState::Game);
    assert_eq!(r.game, GameState::Game);
    assert!(!r.exit);
}
