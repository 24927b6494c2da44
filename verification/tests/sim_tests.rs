//! Tests for the single-snake simulator, the competitive simulator and
//! the application state machine.

use rusty_snake::grid::{Coord, Dir, in_bounds};
use rusty_snake::single::SingleGame;
use rusty_snake::competitive::{CompetGame, Outcome};
use rusty_snake::game::{Game, AppState, InputKey, MOVE_INTERVAL_MS};

fn c(x: i32, y: i32) -> Coord {
    Coord { x, y }
}

fn no_overlap(body: &Vec<Coord>) -> bool {
    for i in 0..body.len() {
        for j in 0..body.len() {
            if i != j && body[i] == body[j] {
                return false;
            }
        }
    }
    true
}

fn single(snake: Vec<Coord>, dir: Dir, auto_play: bool, food: Coord, block: Coord) -> SingleGame {
    SingleGame { snake, dir, score: 0, auto_play, food, block, game_over: false }
}

fn compet(player: Vec<Coord>, dir: Dir, bot: Vec<Coord>, food: Coord, block: Coord) -> CompetGame {
    CompetGame {
        player_snake: player,
        player_dir: dir,
        bot_snake: bot,
        player_score: 0,
        bot_score: 0,
        food,
        block,
        player_alive: true,
        bot_alive: true,
        game_over: false,
    }
}

#[test]
fn five_quiet_ticks_move_the_head_five_cells() {
    let mut g = single(vec![c(25, 20)], Dir::Right, false, c(0, 0), c(0, 1));
    for _ in 0..5 {
        g.tick();
        assert!(!g.game_over);
    }
    assert_eq!(g.snake, vec![c(30, 20)]);
    assert_eq!(g.score, 0);
    assert_eq!(g.food, c(0, 0));
    assert_eq!(g.block, c(0, 1));
}

#[test]
fn eating_food_grows_scores_and_respawns() {
    let mut g = single(vec![c(10, 10)], Dir::Right, false, c(11, 10), c(0, 0));
    g.tick();
    assert!(!g.game_over);
    assert_eq!(g.snake, vec![c(11, 10), c(10, 10)]);
    assert_eq!(g.score, 10);
    assert!(in_bounds(g.food));
    assert!(!g.snake.contains(&g.food));
    assert_ne!(g.food, g.block);
    assert_eq!(g.block, c(0, 0));
    assert!(no_overlap(&g.snake));
}

#[test]
fn hazard_halves_the_body_and_clamps_a_small_score() {
    let mut g = single(
        vec![c(10, 10), c(9, 10), c(8, 10), c(7, 10), c(6, 10)],
        Dir::Right,
        false,
        c(0, 0),
        c(11, 10),
    );
    g.score = 3;
    g.tick();
    assert!(!g.game_over);
    // Length five moves, stays five, then truncates to max(1, 5 / 2).
    assert_eq!(g.snake, vec![c(11, 10), c(10, 10)]);
    assert_eq!(g.score, 0);
    assert!(in_bounds(g.block));
    assert!(!g.snake.contains(&g.block));
    assert_ne!(g.block, g.food);
    assert_eq!(g.food, c(0, 0));
}

#[test]
fn hazard_penalty_subtracts_five_from_a_larger_score() {
    let mut g = single(vec![c(10, 10), c(9, 10)], Dir::Right, false, c(0, 0), c(11, 10));
    g.score = 7;
    g.tick();
    assert!(!g.game_over);
    assert_eq!(g.snake, vec![c(11, 10)]);
    assert_eq!(g.score, 2);
}

#[test]
fn wall_collision_ends_the_game() {
    let mut g = single(vec![c(49, 20)], Dir::Right, false, c(0, 0), c(0, 1));
    g.tick();
    assert!(g.game_over);
    assert_eq!(g.snake, vec![c(49, 20)]);
    assert_eq!(g.score, 0);
}

#[test]
fn self_collision_ends_the_game() {
    let body = vec![c(5, 5), c(4, 5), c(4, 6), c(5, 6), c(6, 6)];
    let mut g = single(body.clone(), Dir::Down, false, c(0, 0), c(0, 1));
    g.tick();
    assert!(g.game_over);
    assert_eq!(g.snake, body);
}

#[test]
fn autoplay_follows_the_greedy_move() {
    let mut g = single(vec![c(5, 5)], Dir::Right, true, c(7, 5), c(0, 0));
    g.tick();
    assert!(!g.game_over);
    assert_eq!(g.snake, vec![c(6, 5)]);
}

#[test]
fn autoplay_dies_when_no_safe_move_exists() {
    let mut g = single(vec![c(0, 0), c(1, 0), c(0, 1)], Dir::Right, true, c(9, 9), c(20, 20));
    g.tick();
    assert!(g.game_over);
    assert_eq!(g.snake, vec![c(0, 0), c(1, 0), c(0, 1)]);
}

#[test]
fn reset_produces_a_disjoint_board() {
    for _ in 0..20 {
        let g = SingleGame::reset(false);
        assert_eq!(g.snake, vec![c(25, 20)]);
        assert_eq!(g.dir, Dir::Right);
        assert_eq!(g.score, 0);
        assert!(!g.game_over);
        assert!(in_bounds(g.food));
        assert!(in_bounds(g.block));
        assert!(!g.snake.contains(&g.food));
        assert!(!g.snake.contains(&g.block));
        assert_ne!(g.food, g.block);
    }
}

#[test]
fn competitive_reset_produces_a_disjoint_board() {
    for _ in 0..20 {
        let g = CompetGame::reset();
        assert_eq!(g.player_snake, vec![c(12, 20)]);
        assert_eq!(g.bot_snake, vec![c(37, 20)]);
        assert!(g.player_alive && g.bot_alive && !g.game_over);
        assert!(in_bounds(g.food) && in_bounds(g.block));
        assert!(!g.player_snake.contains(&g.food) && !g.player_snake.contains(&g.block));
        assert!(!g.bot_snake.contains(&g.food) && !g.bot_snake.contains(&g.block));
        assert_ne!(g.food, g.block);
    }
}

#[test]
fn competitive_plain_tick_moves_both_snakes() {
    let mut g = compet(vec![c(10, 10)], Dir::Right, vec![c(30, 10)], c(32, 10), c(0, 0));
    g.tick();
    assert!(!g.game_over);
    assert!(g.player_alive && g.bot_alive);
    assert_eq!(g.player_snake, vec![c(11, 10)]);
    assert_eq!(g.bot_snake, vec![c(31, 10)]);
    assert_eq!(g.food, c(32, 10));
    assert_eq!(g.block, c(0, 0));
    assert_eq!(g.player_score, 0);
    assert_eq!(g.bot_score, 0);
}

#[test]
fn bot_blocked_by_players_new_head_dies_player_unaffected() {
    // Both snakes want the open cell (2, 0). The player moves first and
    // eats the food there; the bot, whose other neighbors are walls or
    // its own body, is left without a safe move and dies. The player is
    // untouched because its own check used the bot's pre-tick body.
    let mut g = compet(
        vec![c(1, 0), c(0, 1)],
        Dir::Right,
        vec![c(3, 0), c(3, 1), c(4, 0)],
        c(2, 0),
        c(10, 10),
    );
    g.tick();
    assert!(g.game_over);
    assert!(g.player_alive);
    assert!(!g.bot_alive);
    assert_eq!(g.player_snake, vec![c(2, 0), c(1, 0), c(0, 1)]);
    assert_eq!(g.bot_snake, vec![c(3, 0), c(3, 1), c(4, 0)]);
    assert_eq!(g.player_score, 10);
    assert_eq!(g.bot_score, 0);
    assert_eq!(g.outcome(), Some(Outcome::PlayerWins));
}

#[test]
fn competitive_player_wall_death_still_lets_the_bot_move() {
    let mut g = compet(vec![c(49, 20)], Dir::Right, vec![c(10, 10)], c(12, 10), c(0, 0));
    g.tick();
    assert!(g.game_over);
    assert!(!g.player_alive);
    assert!(g.bot_alive);
    assert_eq!(g.player_snake, vec![c(49, 20)]);
    assert_eq!(g.bot_snake, vec![c(11, 10)]);
    assert_eq!(g.outcome(), Some(Outcome::BotWins));
}

#[test]
fn outcome_covers_every_liveness_combination() {
    let mut g = compet(vec![c(1, 1)], Dir::Right, vec![c(5, 5)], c(9, 9), c(8, 8));
    assert_eq!(g.outcome(), None);
    g.player_alive = false;
    assert_eq!(g.outcome(), Some(Outcome::BotWins));
    g.player_alive = true;
    g.bot_alive = false;
    assert_eq!(g.outcome(), Some(Outcome::PlayerWins));
    g.player_alive = false;
    assert_eq!(g.outcome(), Some(Outcome::Tie));
}

#[test]
fn menu_keys_start_the_right_modes() {
    let mut g = Game::new();
    assert_eq!(g.mode, AppState::Menu);
    assert!(!g.handle_key(InputKey::SelectManual));
    assert_eq!(g.mode, AppState::Playing);
    assert!(!g.single.auto_play);

    let mut g = Game::new();
    g.handle_key(InputKey::SelectAutoplay);
    assert_eq!(g.mode, AppState::Playing);
    assert!(g.single.auto_play);

    let mut g = Game::new();
    g.handle_key(InputKey::SelectCompetitive);
    assert_eq!(g.mode, AppState::Competitive);
    assert_eq!(g.compet.player_snake, vec![c(12, 20)]);
}

#[test]
fn reversal_input_is_ignored_next_tick_keeps_direction() {
    let mut g = Game::new();
    g.handle_key(InputKey::SelectManual);
    assert_eq!(g.single.dir, Dir::Right);
    g.handle_key(InputKey::Left);
    assert_eq!(g.single.dir, Dir::Right);
    g.handle_key(InputKey::Up);
    assert_eq!(g.single.dir, Dir::Up);
}

#[test]
fn clock_accumulates_and_carries_the_remainder() {
    let mut g = Game {
        mode: AppState::Playing,
        single: single(vec![c(25, 20)], Dir::Right, false, c(0, 0), c(0, 1)),
        compet: compet(vec![c(1, 1)], Dir::Right, vec![c(5, 5)], c(9, 9), c(8, 8)),
        timer_ms: 0,
    };
    g.update(MOVE_INTERVAL_MS + 50);
    assert_eq!(g.single.snake, vec![c(26, 20)]);
    assert_eq!(g.timer_ms, 50);
    g.update(49);
    assert_eq!(g.single.snake, vec![c(26, 20)]);
    assert_eq!(g.timer_ms, 99);
    g.update(1);
    assert_eq!(g.single.snake, vec![c(27, 20)]);
    assert_eq!(g.timer_ms, 0);
}

#[test]
fn game_over_screen_restart_and_quit() {
    let mut g = Game {
        mode: AppState::Playing,
        single: single(vec![c(49, 20)], Dir::Right, false, c(0, 0), c(0, 1)),
        compet: compet(vec![c(1, 1)], Dir::Right, vec![c(5, 5)], c(9, 9), c(8, 8)),
        timer_ms: 0,
    };
    g.update(MOVE_INTERVAL_MS);
    assert_eq!(g.mode, AppState::GameOver);
    assert!(!g.handle_key(InputKey::Up));
    assert_eq!(g.mode, AppState::GameOver);
    assert!(!g.handle_key(InputKey::Restart));
    assert_eq!(g.mode, AppState::Menu);
    assert_eq!(g.single.score, 0);
    assert!(!g.single.game_over);

    let mut g = Game {
        mode: AppState::Playing,
        single: single(vec![c(49, 20)], Dir::Right, false, c(0, 0), c(0, 1)),
        compet: compet(vec![c(1, 1)], Dir::Right, vec![c(5, 5)], c(9, 9), c(8, 8)),
        timer_ms: 0,
    };
    g.update(MOVE_INTERVAL_MS);
    assert_eq!(g.mode, AppState::GameOver);
    assert!(g.handle_key(InputKey::Quit));
}

#[test]
fn menu_and_game_over_ignore_the_clock() {
    let mut g = Game::new();
    let food = g.single.food;
    g.update(10 * MOVE_INTERVAL_MS);
    assert_eq!(g.mode, AppState::Menu);
    assert_eq!(g.single.snake, vec![c(25, 20)]);
    assert_eq!(g.single.food, food);
}
