use limspce::state::{frame_plan, handle_keys, Command, GameState, Keys};

fn keys(escape: bool, restart: bool, start: bool) -> Keys {
    Keys { escape, restart, start }
}

#[test]
fn each_screen_has_its_plan() {
    let p = frame_plan(GameState::Play);
    assert!(p.update && p.draw_world && p.advance_clock);
    assert!(!p.death_fall && !p.game_over_text && !p.menu_text);
    let p = frame_plan(GameState::Pause);
    assert!(p.draw_world);
    assert!(!p.update && !p.advance_clock && !p.death_fall && !p.game_over_text && !p.menu_text);
    let p = frame_plan(GameState::GameOver);
    assert!(p.update && p.death_fall && p.draw_world && p.game_over_text);
    assert!(!p.advance_clock && !p.menu_text);
    let p = frame_plan(GameState::MainMenu);
    assert!(p.menu_text);
    assert!(!p.update && !p.draw_world && !p.advance_clock && !p.death_fall && !p.game_over_text);
}

#[test]
fn escape_pauses_and_resumes() {
    let (s, c) = handle_keys(GameState::Play, GameState::Play, keys(true, false, false));
    assert_eq!((s, c), (GameState::Pause, Command::Continue));
    let (s, c) = handle_keys(GameState::Pause, s, keys(true, false, false));
    assert_eq!((s, c), (GameState::Play, Command::Continue));
    let (s, _) = handle_keys(GameState::Pause, GameState::Pause, keys(false, true, true));
    assert_eq!(s, GameState::Pause);
}

#[test]
fn escape_in_the_frame_the_game_is_lost_pauses() {
    let (s, _) = handle_keys(GameState::Play, GameState::GameOver, keys(true, false, false));
    assert_eq!(s, GameState::Pause);
    let (s, _) = handle_keys(GameState::Play, GameState::GameOver, keys(false, false, false));
    assert_eq!(s, GameState::GameOver);
}

#[test]
fn game_over_waits_for_r() {
    let (s, c) = handle_keys(GameState::GameOver, GameState::GameOver, keys(true, false, true));
    assert_eq!((s, c), (GameState::GameOver, Command::Continue));
    let (s, c) = handle_keys(GameState::GameOver, GameState::GameOver, keys(false, true, false));
    assert_eq!((s, c), (GameState::GameOver, Command::Restart));
}

#[test]
fn the_menu_starts_or_quits() {
    let (s, c) = handle_keys(GameState::MainMenu, GameState::MainMenu, keys(false, false, true));
    assert_eq!((s, c), (GameState::Play, Command::Continue));
    let (s, c) = handle_keys(GameState::MainMenu, GameState::MainMenu, keys(true, false, false));
    assert_eq!((s, c), (GameState::MainMenu, Command::Quit));
    let (s, c) = handle_keys(GameState::MainMenu, GameState::MainMenu, keys(true, false, true));
    assert_eq!((s, c), (GameState::Play, Command::Quit));
    let (s, c) = handle_keys(GameState::MainMenu, GameState::MainMenu, keys(false, true, false));
    assert_eq!((s, c), (GameState::MainMenu, Command::Continue));
}
