//! The application state machine: menu, single-player (manual or
//! autoplay), competitive match and game-over screen, with pure
//! transitions for input events and a fixed-timestep clock that hands
//! out simulation ticks.

use vstd::prelude::*;
use crate::grid::{Coord, Dir, GRID_WIDTH, GRID_HEIGHT};
use crate::single::{SingleGame, single_tick_rel};
use crate::competitive::{CompetGame, compet_tick_rel};
use crate::rules::FOOD_REWARD;

verus! {

/// Time between simulation steps, in milliseconds.
pub const MOVE_INTERVAL_MS: u32 = 100;

/// Which screen the application is on.
#[derive(Clone, Copy, PartialEq, Eq, Structural, Debug)]
pub enum AppState {
    Menu,
    Playing,
    Competitive,
    GameOver,
}

/// A discrete input event handed in by the presentation layer.
#[derive(Clone, Copy, PartialEq, Eq, Structural, Debug)]
pub enum InputKey {
    Up,
    Down,
    Left,
    Right,
    SelectManual,
    SelectAutoplay,
    SelectCompetitive,
    Restart,
    Quit,
}

/// The direction a key stands for, if any.
pub open spec fn dir_of_spec(key: InputKey) -> Option<Dir> {
    match key {
        InputKey::Up => Some(Dir::Up),
        InputKey::Down => Some(Dir::Down),
        InputKey::Left => Some(Dir::Left),
        InputKey::Right => Some(Dir::Right),
        _ => None,
    }
}

fn dir_of(key: InputKey) -> (r: Option<Dir>)
    ensures
        r == dir_of_spec(key),
{
    match key {
        InputKey::Up => Some(Dir::Up),
        InputKey::Down => Some(Dir::Down),
        InputKey::Left => Some(Dir::Left),
        InputKey::Right => Some(Dir::Right),
        _ => None,
    }
}

/// The whole application: the active screen, the two simulations and
/// the tick clock.
pub struct Game {
    pub mode: AppState,
    pub single: SingleGame,
    pub compet: CompetGame,
    pub timer_ms: u32,
}

impl Game {
    /// The single game is always sound; a live screen never shows an
    /// ended simulation.
    pub open spec fn wf(self) -> bool {
        &&& self.single.wf()
        &&& self.mode == AppState::Playing ==> !self.single.game_over
        &&& self.mode == AppState::Competitive ==> self.compet.wf() && !self.compet.game_over
    }

    /// A fresh application on the menu screen, with a single-player
    /// game ready behind it.
    pub fn new() -> (g: Game)
        ensures
            g.wf(),
            g.mode == AppState::Menu,
            g.timer_ms == 0,
            !g.single.auto_play,
            g.single.score == 0,
            !g.single.game_over,
            g.single.dir == Dir::Right,
            g.single.snake@ =~= seq![
                Coord { x: (GRID_WIDTH / 2) as i32, y: (GRID_HEIGHT / 2) as i32 },
            ],
    {
        Game {
            mode: AppState::Menu,
            single: SingleGame::reset(false),
            compet: CompetGame {
                player_snake: Vec::new(),
                player_dir: Dir::Right,
                bot_snake: Vec::new(),
                player_score: 0,
                bot_score: 0,
                food: Coord { x: 0, y: 0 },
                block: Coord { x: 0, y: 0 },
                player_alive: true,
                bot_alive: true,
                game_over: false,
            },
            timer_ms: 0,
        }
    }

    /// Feed one input event to the state machine; returns whether the
    /// host should quit. Menu keys start a mode with a fresh
    /// simulation; direction keys steer the manually driven snake under
    /// the reversal rule; on the game-over screen, restart returns to
    /// the menu with a reset single game and quit is handed back to the
    /// host. Everything else is a no-op.
    pub fn handle_key(&mut self, key: InputKey) -> (quit: bool)
        requires
            old(self).wf(),
        ensures
            final(self).wf(),
            quit == (old(self).mode == AppState::GameOver && key == InputKey::Quit),
            match old(self).mode {
                AppState::Menu => match key {
                    InputKey::SelectManual | InputKey::SelectAutoplay => {
                        &&& final(self).mode == AppState::Playing
                        &&& final(self).single.auto_play == (key == InputKey::SelectAutoplay)
                        &&& final(self).single.score == 0
                        &&& !final(self).single.game_over
                        &&& final(self).single.dir == Dir::Right
                        &&& final(self).single.snake@ =~= seq![
                            Coord { x: (GRID_WIDTH / 2) as i32, y: (GRID_HEIGHT / 2) as i32 },
                        ]
                        &&& final(self).timer_ms == 0
                        &&& final(self).compet == old(self).compet
                    },
                    InputKey::SelectCompetitive => {
                        &&& final(self).mode == AppState::Competitive
                        &&& final(self).compet.player_score == 0
                        &&& final(self).compet.bot_score == 0
                        &&& !final(self).compet.game_over
                        &&& final(self).compet.player_dir == Dir::Right
                        &&& final(self).compet.player_snake@ =~= seq![
                            Coord { x: (GRID_WIDTH / 4) as i32, y: (GRID_HEIGHT / 2) as i32 },
                        ]
                        &&& final(self).compet.bot_snake@ =~= seq![
                            Coord { x: (3 * GRID_WIDTH / 4) as i32, y: (GRID_HEIGHT / 2) as i32 },
                        ]
                        &&& final(self).timer_ms == 0
                        &&& final(self).single == old(self).single
                    },
                    _ => *final(self) == *old(self),
                },
                AppState::Playing => {
                    if !old(self).single.auto_play && dir_of_spec(key) is Some {
                        &&& final(self).single.dir == old(self).single.dir.turn_spec(
                            dir_of_spec(key)->0,
                        )
                        &&& final(self).single.snake@ == old(self).single.snake@
                        &&& final(self).single.score == old(self).single.score
                        &&& final(self).single.food == old(self).single.food
                        &&& final(self).single.block == old(self).single.block
                        &&& final(self).single.game_over == old(self).single.game_over
                        &&& final(self).single.auto_play == old(self).single.auto_play
                        &&& final(self).mode == old(self).mode
                        &&& final(self).compet == old(self).compet
                        &&& final(self).timer_ms == old(self).timer_ms
                    } else {
                        *final(self) == *old(self)
                    }
                },
                AppState::Competitive => {
                    if dir_of_spec(key) is Some {
                        &&& final(self).compet.player_dir == old(self).compet.player_dir.turn_spec(
                            dir_of_spec(key)->0,
                        )
                        &&& final(self).compet.player_snake@ == old(self).compet.player_snake@
                        &&& final(self).compet.bot_snake@ == old(self).compet.bot_snake@
                        &&& final(self).compet.player_score == old(self).compet.player_score
                        &&& final(self).compet.bot_score == old(self).compet.bot_score
                        &&& final(self).compet.food == old(self).compet.food
                        &&& final(self).compet.block == old(self).compet.block
                        &&& final(self).compet.player_alive == old(self).compet.player_alive
                        &&& final(self).compet.bot_alive == old(self).compet.bot_alive
                        &&& final(self).compet.game_over == old(self).compet.game_over
                        &&& final(self).mode == old(self).mode
                        &&& final(self).single == old(self).single
                        &&& final(self).timer_ms == old(self).timer_ms
                    } else {
                        *final(self) == *old(self)
                    }
                },
                AppState::GameOver => match key {
                    InputKey::Restart => {
                        &&& final(self).mode == AppState::Menu
                        &&& final(self).single.score == 0
                        &&& !final(self).single.game_over
                        &&& final(self).single.auto_play == old(self).single.auto_play
                        &&& final(self).single.dir == Dir::Right
                        &&& final(self).single.snake@ =~= seq![
                            Coord { x: (GRID_WIDTH / 2) as i32, y: (GRID_HEIGHT / 2) as i32 },
                        ]
                        &&& final(self).timer_ms == 0
                        &&& final(self).compet == old(self).compet
                    },
                    _ => *final(self) == *old(self),
                },
            },
    {
        match self.mode {
            AppState::Menu => {
                match key {
                    InputKey::SelectManual => {
                        self.single = SingleGame::reset(false);
                        self.mode = AppState::Playing;
                        self.timer_ms = 0;
                    },
                    InputKey::SelectAutoplay => {
                        self.single = SingleGame::reset(true);
                        self.mode = AppState::Playing;
                        self.timer_ms = 0;
                    },
                    InputKey::SelectCompetitive => {
                        self.compet = CompetGame::reset();
                        self.mode = AppState::Competitive;
                        self.timer_ms = 0;
                    },
                    _ => {},
                }
                false
            },
            AppState::Playing => {
                if !self.single.auto_play {
                    match dir_of(key) {
                        Some(d) => {
                            self.single.dir = self.single.dir.turn(d);
                        },
                        None => {},
                    }
                }
                false
            },
            AppState::Competitive => {
                match dir_of(key) {
                    Some(d) => {
                        self.compet.player_dir = self.compet.player_dir.turn(d);
                    },
                    None => {},
                }
                false
            },
            AppState::GameOver => {
                match key {
                    InputKey::Restart => {
                        let auto = self.single.auto_play;
                        self.single = SingleGame::reset(auto);
                        self.mode = AppState::Menu;
                        self.timer_ms = 0;
                        false
                    },
                    InputKey::Quit => true,
                    _ => false,
                }
            },
        }
    }

    /// Advance the clock by the elapsed real time. Whenever the
    /// accumulator reaches the move interval, it is reduced by exactly
    /// one interval (keeping the fractional carry) and the active
    /// simulation runs exactly one tick; an ended simulation switches
    /// to the game-over screen.
    pub fn update(&mut self, dt_ms: u32)
        requires
            old(self).wf(),
            old(self).timer_ms + dt_ms <= u32::MAX,
            old(self).mode == AppState::Playing ==> old(self).single.score + FOOD_REWARD
                <= u32::MAX,
            old(self).mode == AppState::Competitive ==> old(self).compet.player_score + FOOD_REWARD
                <= u32::MAX && old(self).compet.bot_score + FOOD_REWARD <= u32::MAX,
        ensures
            final(self).wf(),
            match old(self).mode {
                AppState::Playing => {
                    if old(self).timer_ms + dt_ms >= MOVE_INTERVAL_MS {
                        &&& final(self).timer_ms == old(self).timer_ms + dt_ms - MOVE_INTERVAL_MS
                        &&& single_tick_rel(old(self).single, final(self).single)
                        &&& final(self).mode == (if final(self).single.game_over {
                            AppState::GameOver
                        } else {
                            AppState::Playing
                        })
                        &&& final(self).compet == old(self).compet
                    } else {
                        &&& final(self).timer_ms == old(self).timer_ms + dt_ms
                        &&& final(self).single == old(self).single
                        &&& final(self).compet == old(self).compet
                        &&& final(self).mode == old(self).mode
                    }
                },
                AppState::Competitive => {
                    if old(self).timer_ms + dt_ms >= MOVE_INTERVAL_MS {
                        &&& final(self).timer_ms == old(self).timer_ms + dt_ms - MOVE_INTERVAL_MS
                        &&& compet_tick_rel(old(self).compet@, final(self).compet@)
                        &&& final(self).mode == (if final(self).compet.game_over {
                            AppState::GameOver
                        } else {
                            AppState::Competitive
                        })
                        &&& final(self).single == old(self).single
                    } else {
                        &&& final(self).timer_ms == old(self).timer_ms + dt_ms
                        &&& final(self).single == old(self).single
                        &&& final(self).compet == old(self).compet
                        &&& final(self).mode == old(self).mode
                    }
                },
                _ => *final(self) == *old(self),
            },
    {
        match self.mode {
            AppState::Playing => {
                self.timer_ms = self.timer_ms + dt_ms;
                if self.timer_ms >= MOVE_INTERVAL_MS {
                    self.timer_ms = self.timer_ms - MOVE_INTERVAL_MS;
                    self.single.tick();
                    if self.single.game_over {
                        self.mode = AppState::GameOver;
                    }
                }
            },
            AppState::Competitive => {
                self.timer_ms = self.timer_ms + dt_ms;
                if self.timer_ms >= MOVE_INTERVAL_MS {
                    self.timer_ms = self.timer_ms - MOVE_INTERVAL_MS;
                    self.compet.tick();
                    if self.compet.game_over {
                        self.mode = AppState::GameOver;
                    }
                }
            },
            _ => {},
        }
    }
}

} // verus!
