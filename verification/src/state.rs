//! The screens of the game and how the keys move between them.
use vstd::prelude::*;

verus! {

/// The screen the game is on.
#[derive(Clone, Copy, PartialEq, Eq, Debug, Structural)]
pub enum GameState {
    MainMenu,
    Play,
    Pause,
    GameOver,
}

/// The keys pressed in this frame that the screens react to.
#[derive(Clone, Copy, PartialEq, Eq, Debug, Structural)]
pub struct Keys {
    /// Escape: pause, resume, or leave from the menu.
    pub escape: bool,
    /// R: start over after a game over.
    pub restart: bool,
    /// Space: start from the menu.
    pub start: bool,
}

/// What the frame loop does after the keys have been read.
#[derive(Clone, Copy, PartialEq, Eq, Debug, Structural)]
pub enum Command {
    Continue,
    Restart,
    Quit,
}

/// The work of one frame on a given screen.
#[derive(Clone, Copy, PartialEq, Eq, Debug, Structural)]
pub struct FramePlan {
    /// Run the game update.
    pub update: bool,
    /// Let the player sink and fade after the game is lost.
    pub death_fall: bool,
    /// Draw the arena, the player, the enemies and the blanks.
    pub draw_world: bool,
    /// Draw the game-over texts and the time survived.
    pub game_over_text: bool,
    /// Draw the prompt of the main menu.
    pub menu_text: bool,
    /// Add the frame's duration to the time survived.
    pub advance_clock: bool,
}

/// The work of one frame on the screen `arm`.
pub open spec fn plan_of(arm: GameState) -> FramePlan {
    match arm {
        GameState::Play => FramePlan {
            update: true,
            death_fall: false,
            draw_world: true,
            game_over_text: false,
            menu_text: false,
            advance_clock: true,
        },
        GameState::Pause => FramePlan {
            update: false,
            death_fall: false,
            draw_world: true,
            game_over_text: false,
            menu_text: false,
            advance_clock: false,
        },
        GameState::GameOver => FramePlan {
            update: true,
            death_fall: true,
            draw_world: true,
            game_over_text: true,
            menu_text: false,
            advance_clock: false,
        },
        GameState::MainMenu => FramePlan {
            update: false,
            death_fall: false,
            draw_world: false,
            game_over_text: false,
            menu_text: true,
            advance_clock: false,
        },
    }
}

/// The work of one frame on the screen `arm`, which is the screen the frame
/// started on.
pub fn frame_plan(arm: GameState) -> (p: FramePlan)
    ensures
        p == plan_of(arm),
{
    match arm {
        GameState::Play => FramePlan {
            update: true,
            death_fall: false,
            draw_world: true,
            game_over_text: false,
            menu_text: false,
            advance_clock: true,
        },
        GameState::Pause => FramePlan {
            update: false,
            death_fall: false,
            draw_world: true,
            game_over_text: false,
            menu_text: false,
            advance_clock: false,
        },
        GameState::GameOver => FramePlan {
            update: true,
            death_fall: true,
            draw_world: true,
            game_over_text: true,
            menu_text: false,
            advance_clock: false,
        },
        GameState::MainMenu => FramePlan {
            update: false,
            death_fall: false,
            draw_world: false,
            game_over_text: false,
            menu_text: true,
            advance_clock: false,
        },
    }
}

/// The screen after the keys of a frame that started on `arm` and whose
/// update left the game on `current`.
pub open spec fn state_after_keys(arm: GameState, current: GameState, keys: Keys) -> GameState {
    match arm {
        GameState::Play => if keys.escape {
            GameState::Pause
        } else {
            current
        },
        GameState::Pause => if keys.escape {
            GameState::Play
        } else {
            current
        },
        GameState::GameOver => current,
        GameState::MainMenu => if keys.start {
            GameState::Play
        } else {
            current
        },
    }
}

/// What the loop does after the keys of a frame that started on `arm`.
pub open spec fn command_after_keys(arm: GameState, keys: Keys) -> Command {
    match arm {
        GameState::GameOver => if keys.restart {
            Command::Restart
        } else {
            Command::Continue
        },
        GameState::MainMenu => if keys.escape {
            Command::Quit
        } else {
            Command::Continue
        },
        _ => Command::Continue,
    }
}

/// Reacts to the keys of a frame that started on the screen `arm`, after its
/// update left the game on `current`: the new screen and what the loop does
/// next.
pub fn handle_keys(arm: GameState, current: GameState, keys: Keys) -> (r: (GameState, Command))
    ensures
        r.0 == state_after_keys(arm, current, keys),
        r.1 == command_after_keys(arm, keys),
        arm == GameState::Play ==> r.0 == if keys.escape {
            GameState::Pause
        } else {
            current
        },
        arm == GameState::Pause ==> r.0 == if keys.escape {
            GameState::Play
        } else {
            current
        },
        arm == GameState::GameOver ==> r.0 == current,
        arm == GameState::MainMenu ==> r.0 == if keys.start {
            GameState::Play
        } else {
            current
        },
        r.1 == Command::Quit <==> (arm == GameState::MainMenu && keys.escape),
        r.1 == Command::Restart <==> (arm == GameState::GameOver && keys.restart),
{
    match arm {
        GameState::Play => {
            let next = if keys.escape {
                GameState::Pause
            } else {
                current
            };
            (next, Command::Continue)
        },
        GameState::Pause => {
            let next = if keys.escape {
                GameState::Play
            } else {
                current
            };
            (next, Command::Continue)
        },
        GameState::GameOver => {
            let cmd = if keys.restart {
                Command::Restart
            } else {
                Command::Continue
            };
            (current, cmd)
        },
        GameState::MainMenu => {
            let next = if keys.start {
                GameState::Play
            } else {
                current
            };
            let cmd = if keys.escape {
                Command::Quit
            } else {
                Command::Continue
            };
            (next, cmd)
        },
    }
}

/// Escape pauses a running game, and Escape on the pause screen resumes it.
pub proof fn law_escape_pauses_and_resumes(current: GameState, keys: Keys)
    requires
        keys.escape,
    ensures
        state_after_keys(GameState::Play, current, keys) == GameState::Pause,
        state_after_keys(GameState::Pause, GameState::Pause, keys) == GameState::Play,
        command_after_keys(GameState::Play, keys) == Command::Continue,
        command_after_keys(GameState::Pause, keys) == Command::Continue,
{
}

/// A paused game is frozen: no update runs and the clock stands still,
/// until Escape is pressed.
pub proof fn law_pause_freezes(keys: Keys)
    ensures
        !plan_of(GameState::Pause).update,
        !plan_of(GameState::Pause).advance_clock,
        !keys.escape ==> state_after_keys(GameState::Pause, GameState::Pause, keys)
            == GameState::Pause,
{
}

/// On the game-over screen the keys never change the screen; R alone asks
/// for a new game.
pub proof fn law_game_over_waits_for_restart(current: GameState, keys: Keys)
    ensures
        state_after_keys(GameState::GameOver, current, keys) == current,
        command_after_keys(GameState::GameOver, keys) == Command::Restart <==> keys.restart,
        command_after_keys(GameState::GameOver, keys) != Command::Quit,
{
}

/// Only the main menu can end the program, and only by Escape.
pub proof fn law_only_menu_escape_quits(arm: GameState, keys: Keys)
    ensures
        command_after_keys(arm, keys) == Command::Quit <==> (arm == GameState::MainMenu
            && keys.escape),
{
}

/// On a frame started in play, only Escape pauses: without it the screen is
/// the one the update left, whatever Space and R do (Space uses a blank, R
/// does nothing here); and from a screen other than the pause screen, the
/// result is the pause screen exactly when Escape is pressed.
pub proof fn law_only_escape_pauses_play(current: GameState, keys: Keys)
    ensures
        !keys.escape ==> state_after_keys(GameState::Play, current, keys) == current,
        current != GameState::Pause ==> (state_after_keys(GameState::Play, current, keys)
            == GameState::Pause <==> keys.escape),
        command_after_keys(GameState::Play, keys) == Command::Continue,
{
}

/// Space and R alone never move a running, paused or lost game to another
/// screen; Space alone starts the game from the menu.
pub proof fn law_space_and_r_alone(arm: GameState, current: GameState, keys: Keys)
    requires
        !keys.escape,
    ensures
        arm != GameState::MainMenu ==> state_after_keys(arm, current, keys) == current,
        arm == GameState::MainMenu ==> (state_after_keys(arm, current, keys) == GameState::Play
            <==> keys.start || current == GameState::Play),
{
}

/// The game updates only while it is played or lost; the clock runs only
/// while it is played; the world is drawn on every screen but the menu; the
/// sinking and the game-over texts belong to the lost game alone, and the
/// prompt to the menu alone.
pub proof fn law_what_each_screen_does(arm: GameState)
    ensures
        plan_of(arm).update <==> (arm == GameState::Play || arm == GameState::GameOver),
        plan_of(arm).advance_clock <==> arm == GameState::Play,
        plan_of(arm).draw_world <==> arm != GameState::MainMenu,
        plan_of(arm).death_fall <==> arm == GameState::GameOver,
        plan_of(arm).game_over_text <==> arm == GameState::GameOver,
        plan_of(arm).menu_text <==> arm == GameState::MainMenu,
{
}

} // verus!
