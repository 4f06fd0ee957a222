use raycaster::game::{advance, spawn, Effects, GameState, Keys, Session, STEP_INTERVAL};
use raycaster::player::Player;
use raycaster::vector::Vector2;

const NONE: Keys = Keys { enter: false, escape: false, up: false, down: false, toggle_view: false };
const QUIET: Effects = Effects {
    load_level: None,
    free_cursor: None,
    step_sound: false,
    win_sound: false,
    present: true,
};

fn session(state: GameState) -> Session {
    Session { state, selected_level: 1, mode_2d: false, step_cooldown: 0 }
}

#[test]
fn new_session_shows_the_title() {
    assert_eq!(
        Session::new(),
        Session { state: GameState::Title, selected_level: 0, mode_2d: false, step_cooldown: 0 }
    );
    assert_eq!(STEP_INTERVAL, 1_500);
}

#[test]
fn spawn_is_the_start_of_a_level() {
    let p = spawn();
    assert_eq!(p, Player { pos: Vector2::new(1_900_000, 1_900_000), a: 10_472, fov: 10_472 });
    assert!(p.is_valid());
}

#[test]
fn title_waits_for_enter() {
    let mut s = session(GameState::Title);
    let all_but_enter = Keys { enter: false, escape: true, up: true, down: true, toggle_view: true };
    assert_eq!(advance(&mut s, all_but_enter, true, true, 160, 3), QUIET);
    assert_eq!(s, session(GameState::Title));
}

#[test]
fn title_leads_to_the_levels_or_straight_into_the_game() {
    let mut s = session(GameState::Title);
    let e = advance(&mut s, Keys { enter: true, ..NONE }, false, false, 160, 3);
    assert_eq!(e, Effects { free_cursor: Some(true), ..QUIET });
    assert_eq!(s, session(GameState::LevelSelect));
    let mut single = Session::new();
    let e = advance(&mut single, Keys { enter: true, ..NONE }, false, false, 160, 1);
    assert_eq!(e, Effects { free_cursor: Some(false), ..QUIET });
    assert_eq!(single.state, GameState::Playing);
}

#[test]
fn level_mark_moves_around_the_list() {
    let mut s = session(GameState::LevelSelect);
    assert_eq!(advance(&mut s, Keys { down: true, ..NONE }, false, false, 0, 3), QUIET);
    assert_eq!(s.selected_level, 2);
    advance(&mut s, Keys { down: true, ..NONE }, false, false, 0, 3);
    assert_eq!(s.selected_level, 0);
    advance(&mut s, Keys { up: true, ..NONE }, false, false, 0, 3);
    assert_eq!(s.selected_level, 2);
    advance(&mut s, Keys { up: true, ..NONE }, false, false, 0, 3);
    assert_eq!(s.selected_level, 1);
    advance(&mut s, Keys { up: true, down: true, ..NONE }, false, false, 0, 3);
    assert_eq!(s.selected_level, 1);
    assert_eq!(s.state, GameState::LevelSelect);
}

#[test]
fn enter_starts_the_marked_level() {
    let mut s = Session { mode_2d: true, ..session(GameState::LevelSelect) };
    let e = advance(&mut s, Keys { enter: true, down: true, ..NONE }, false, false, 0, 3);
    assert_eq!(e, Effects { load_level: Some(2), free_cursor: Some(false), ..QUIET });
    assert_eq!(
        s,
        Session { state: GameState::Playing, selected_level: 2, mode_2d: false, step_cooldown: 0 }
    );
}

#[test]
fn escape_returns_to_the_title() {
    let mut s = session(GameState::LevelSelect);
    assert_eq!(advance(&mut s, Keys { escape: true, ..NONE }, false, false, 0, 3), QUIET);
    assert_eq!(s, session(GameState::Title));
    // Enter and escape in one frame: the level is loaded, the title shown.
    let mut both = session(GameState::LevelSelect);
    let e = advance(&mut both, Keys { enter: true, escape: true, ..NONE }, false, false, 0, 3);
    assert_eq!(e, Effects { load_level: Some(1), free_cursor: Some(false), ..QUIET });
    assert_eq!(both.state, GameState::Title);
}

#[test]
fn steps_sound_once_per_interval() {
    let mut s = session(GameState::Playing);
    let e = advance(&mut s, NONE, true, false, 160, 3);
    assert_eq!(e, Effects { step_sound: true, ..QUIET });
    assert_eq!(s.step_cooldown, 1_500);
    // 0.15 s later by frames of 0.016 s: nine silent frames.
    for k in 1..=9 {
        let e = advance(&mut s, NONE, true, false, 160, 3);
        assert_eq!(e, QUIET, "frame {}", k);
        assert_eq!(s.step_cooldown, 1_500 - 160 * k);
    }
    let e = advance(&mut s, NONE, true, false, 160, 3);
    assert_eq!(e, Effects { step_sound: true, ..QUIET });
    assert_eq!(s.step_cooldown, 1_500);
    let e = advance(&mut s, NONE, false, false, 5_000, 3);
    assert_eq!(e, QUIET);
    assert_eq!(s.step_cooldown, -3_500);
    advance(&mut s, NONE, false, false, 5_000, 3);
    assert_eq!(s.step_cooldown, -3_500);
}

#[test]
fn cooldown_stays_within_range() {
    let mut s = Session { step_cooldown: i64::MAX, ..session(GameState::Win) };
    advance(&mut s, NONE, false, false, i64::MIN, 3);
    assert_eq!(s.step_cooldown, i64::MAX);
    advance(&mut s, NONE, false, false, i64::MAX, 3);
    assert_eq!(s.step_cooldown, 0);
}

#[test]
fn toggle_switches_the_view() {
    let mut s = session(GameState::Playing);
    let e = advance(&mut s, Keys { toggle_view: true, ..NONE }, false, false, 0, 3);
    assert_eq!(e, Effects { free_cursor: Some(true), ..QUIET });
    assert!(s.mode_2d);
    let e = advance(&mut s, Keys { toggle_view: true, ..NONE }, false, false, 0, 3);
    assert_eq!(e, Effects { free_cursor: Some(false), ..QUIET });
    assert!(!s.mode_2d);
    assert_eq!(s.state, GameState::Playing);
}

#[test]
fn reaching_the_goal_wins_and_skips_the_frame() {
    let mut s = Session { mode_2d: true, ..session(GameState::Playing) };
    let e = advance(&mut s, Keys { toggle_view: true, ..NONE }, true, true, 0, 3);
    assert_eq!(
        e,
        Effects {
            load_level: None,
            free_cursor: Some(true),
            step_sound: true,
            win_sound: true,
            present: false,
        }
    );
    assert_eq!(
        s,
        Session { state: GameState::Win, selected_level: 1, mode_2d: false, step_cooldown: 1_500 }
    );
}

#[test]
fn win_returns_to_the_title_on_enter() {
    let mut s = session(GameState::Win);
    assert_eq!(advance(&mut s, Keys { escape: true, ..NONE }, true, true, 0, 3), QUIET);
    assert_eq!(s.state, GameState::Win);
    let e = advance(&mut s, Keys { enter: true, ..NONE }, false, false, 0, 3);
    assert_eq!(e, Effects { free_cursor: Some(true), ..QUIET });
    assert_eq!(s.state, GameState::Title);
}
