//! The course of a session: title, choice of a level, play and victory, as
//! one step from the state of the session and the input of a frame to the
//! next state and what the frame has to do.

use vstd::prelude::*;
use crate::player::Player;
use crate::vector::Vector2;

verus! {

/// The time between two step sounds (0.15 seconds).
pub const STEP_INTERVAL: i64 = 1_500;

/// The screen that a session shows.
#[derive(Clone, Copy, Debug, PartialEq, Eq, Structural)]
pub enum GameState {
    /// The title screen.
    Title,
    /// The list of levels.
    LevelSelect,
    /// The game itself.
    Playing,
    /// The screen shown after the goal was reached.
    Win,
}

/// The state of a session between two frames.
#[derive(Clone, Copy, Debug, PartialEq, Eq, Structural)]
pub struct Session {
    /// The screen that is shown.
    pub state: GameState,
    /// The level that is marked in the list of levels.
    pub selected_level: usize,
    /// Whether the game shows the top-down view in place of the first-person
    /// view.
    pub mode_2d: bool,
    /// The time that has to pass before the next step sound.
    pub step_cooldown: i64,
}

/// The keys that went down in a frame.
#[derive(Clone, Copy, Debug, PartialEq, Eq, Structural)]
pub struct Keys {
    pub enter: bool,
    pub escape: bool,
    pub up: bool,
    pub down: bool,
    pub toggle_view: bool,
}

/// What a frame has to do besides drawing its screen.
#[derive(Clone, Copy, Debug, PartialEq, Eq, Structural)]
pub struct Effects {
    /// The level to load, and with it the observer to put at its start.
    pub load_level: Option<usize>,
    /// Whether to free the cursor (`true`) or to capture it (`false`);
    /// `None` leaves it as it is.
    pub free_cursor: Option<bool>,
    /// Whether to play the sound of a step.
    pub step_sound: bool,
    /// Whether to play the sound of victory.
    pub win_sound: bool,
    /// Whether the frame is drawn and shown. The frame in which the goal is
    /// reached is not.
    pub present: bool,
}

/// The effects of a frame that only shows its screen.
pub open spec fn quiet() -> Effects {
    Effects {
        load_level: None,
        free_cursor: None,
        step_sound: false,
        win_sound: false,
        present: true,
    }
}

/// The cooldown `cooldown` after `dt` seconds: a running cooldown loses the
/// time that has passed, within the range of `i64`; one that has run out
/// stays.
pub open spec fn cooled_spec(cooldown: i64, dt: i64) -> i64 {
    if cooldown <= 0 {
        cooldown
    } else if cooldown - dt > i64::MAX {
        i64::MAX
    } else {
        (cooldown - dt) as i64
    }
}

/// The level marked after the keys of a frame, in a list of `count` levels:
/// down moves the mark to the next level, up to the one before, each around
/// the ends of the list.
pub open spec fn marked_spec(selected: usize, keys: Keys, count: usize) -> usize {
    let after_down = if !keys.down {
        selected
    } else if selected + 1 == count {
        0
    } else {
        (selected + 1) as usize
    };
    if !keys.up {
        after_down
    } else if after_down == 0 {
        (count - 1) as usize
    } else {
        (after_down - 1) as usize
    }
}

/// The session after a frame and the effects of that frame.
///
/// `walking` says whether a key for walking is held, `on_goal` whether the
/// observer stands on the goal after its move of this frame, `dt` is the
/// time since the last frame, `level_count` the number of levels.
pub open spec fn advance_spec(
    session: Session,
    keys: Keys,
    walking: bool,
    on_goal: bool,
    dt: i64,
    level_count: usize,
) -> (Session, Effects) {
    let cooldown = cooled_spec(session.step_cooldown, dt);
    let timed = Session { step_cooldown: cooldown, ..session };
    match session.state {
        GameState::Title => {
            if !keys.enter {
                (timed, quiet())
            } else if level_count > 1 {
                (
                    Session { state: GameState::LevelSelect, ..timed },
                    Effects { free_cursor: Some(true), ..quiet() },
                )
            } else {
                (
                    Session { state: GameState::Playing, ..timed },
                    Effects { free_cursor: Some(false), ..quiet() },
                )
            }
        },
        GameState::LevelSelect => {
            let marked = marked_spec(session.selected_level, keys, level_count);
            (
                Session {
                    state: if keys.escape {
                        GameState::Title
                    } else if keys.enter {
                        GameState::Playing
                    } else {
                        GameState::LevelSelect
                    },
                    selected_level: marked,
                    mode_2d: if keys.enter {
                        false
                    } else {
                        session.mode_2d
                    },
                    step_cooldown: cooldown,
                },
                Effects {
                    load_level: if keys.enter {
                        Some(marked)
                    } else {
                        None
                    },
                    free_cursor: if keys.enter {
                        Some(false)
                    } else {
                        None
                    },
                    ..quiet()
                },
            )
        },
        GameState::Playing => {
            let step = walking && cooldown <= 0;
            let rested = if step {
                STEP_INTERVAL
            } else {
                cooldown
            };
            if on_goal {
                (
                    Session {
                        state: GameState::Win,
                        mode_2d: false,
                        step_cooldown: rested,
                        ..session
                    },
                    Effects {
                        free_cursor: Some(true),
                        step_sound: step,
                        win_sound: true,
                        present: false,
                        ..quiet()
                    },
                )
            } else {
                (
                    Session {
                        mode_2d: session.mode_2d != keys.toggle_view,
                        step_cooldown: rested,
                        ..session
                    },
                    Effects {
                        free_cursor: if keys.toggle_view {
                            Some(!session.mode_2d)
                        } else {
                            None
                        },
                        step_sound: step,
                        ..quiet()
                    },
                )
            }
        },
        GameState::Win => {
            if keys.enter {
                (
                    Session { state: GameState::Title, ..timed },
                    Effects { free_cursor: Some(true), ..quiet() },
                )
            } else {
                (timed, quiet())
            }
        },
    }
}

impl Session {
    /// A session on its title screen, with the first level marked.
    pub fn new() -> (session: Session)
        ensures
            session == (Session {
                state: GameState::Title,
                selected_level: 0,
                mode_2d: false,
                step_cooldown: 0,
            }),
    {
        Session { state: GameState::Title, selected_level: 0, mode_2d: false, step_cooldown: 0 }
    }
}

/// The observer at the start of a level: at `(190, 190)`, looking sixty
/// degrees from the x axis, with a field of view of sixty degrees.
pub fn spawn() -> (player: Player)
    ensures
        player == (Player { pos: Vector2 { x: 1_900_000, y: 1_900_000 }, a: 10_472, fov: 10_472 }),
        player.wf(),
{
    Player { pos: Vector2 { x: 1_900_000, y: 1_900_000 }, a: 10_472, fov: 10_472 }
}

/// Takes the session through one frame and says what the frame has to do.
pub fn advance(
    session: &mut Session,
    keys: Keys,
    walking: bool,
    on_goal: bool,
    dt: i64,
    level_count: usize,
) -> (effects: Effects)
    requires
        old(session).selected_level < level_count,
    ensures
        (*final(session), effects) == advance_spec(
            *old(session),
            keys,
            walking,
            on_goal,
            dt,
            level_count,
        ),
        final(session).selected_level < level_count,
{
    let mut effects = Effects {
        load_level: None,
        free_cursor: None,
        step_sound: false,
        win_sound: false,
        present: true,
    };
    if session.step_cooldown > 0 {
        let left: i128 = session.step_cooldown as i128 - dt as i128;
        session.step_cooldown = if left > i64::MAX as i128 {
            i64::MAX
        } else {
            left as i64
        };
    }
    match session.state {
        GameState::Title => {
            if keys.enter {
                if level_count > 1 {
                    session.state = GameState::LevelSelect;
                    effects.free_cursor = Some(true);
                } else {
                    session.state = GameState::Playing;
                    effects.free_cursor = Some(false);
                }
            }
        },
        GameState::LevelSelect => {
            if keys.down {
                session.selected_level = if session.selected_level + 1 == level_count {
                    0
                } else {
                    session.selected_level + 1
                };
            }
            if keys.up {
                session.selected_level = if session.selected_level == 0 {
                    level_count - 1
                } else {
                    session.selected_level - 1
                };
            }
            if keys.enter {
                effects.load_level = Some(session.selected_level);
                effects.free_cursor = Some(false);
                session.mode_2d = false;
                session.state = GameState::Playing;
            }
            if keys.escape {
                session.state = GameState::Title;
            }
        },
        GameState::Playing => {
            if walking && session.step_cooldown <= 0 {
                effects.step_sound = true;
                session.step_cooldown = STEP_INTERVAL;
            }
            if on_goal {
                effects.win_sound = true;
                effects.free_cursor = Some(true);
                effects.present = false;
                session.state = GameState::Win;
                session.mode_2d = false;
            } else if keys.toggle_view {
                session.mode_2d = !session.mode_2d;
                effects.free_cursor = Some(session.mode_2d);
            }
        },
        GameState::Win => {
            if keys.enter {
                session.state = GameState::Title;
                effects.free_cursor = Some(true);
            }
        },
    }
    effects
}

} // verus!
