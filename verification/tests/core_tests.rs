//! Tests for the grid primitives, the greedy mover and the spawner.

use rusty_snake::grid::{Coord, Dir, in_bounds, manhattan_distance, contains_coord, GRID_WIDTH,
    GRID_HEIGHT};
use rusty_snake::mover::choose_move_for_snake;
use rusty_snake::spawn::{spawn_free_cell, spawn_food, spawn_block, SpawnError};

fn c(x: i32, y: i32) -> Coord {
    Coord { x, y }
}

#[test]
fn in_bounds_corners_and_edges() {
    assert!(in_bounds(c(0, 0)));
    assert!(in_bounds(c(GRID_WIDTH - 1, GRID_HEIGHT - 1)));
    assert!(!in_bounds(c(-1, 0)));
    assert!(!in_bounds(c(0, -1)));
    assert!(!in_bounds(c(GRID_WIDTH, 0)));
    assert!(!in_bounds(c(0, GRID_HEIGHT)));
}

#[test]
fn in_bounds_is_pure() {
    let p = c(17, 23);
    assert_eq!(in_bounds(p), in_bounds(p));
    let q = c(-3, 99);
    assert_eq!(in_bounds(q), in_bounds(q));
}

#[test]
fn manhattan_distance_exact() {
    assert_eq!(manhattan_distance(c(0, 0), c(3, 4)), 7);
    assert_eq!(manhattan_distance(c(3, 4), c(0, 0)), 7);
    assert_eq!(manhattan_distance(c(10, 10), c(10, 10)), 0);
    assert_eq!(manhattan_distance(c(49, 0), c(0, 39)), 88);
}

#[test]
fn reversal_rule_blocks_opposites() {
    assert_eq!(Dir::Right.turn(Dir::Left), Dir::Right);
    assert_eq!(Dir::Left.turn(Dir::Right), Dir::Left);
    assert_eq!(Dir::Up.turn(Dir::Down), Dir::Up);
    assert_eq!(Dir::Down.turn(Dir::Up), Dir::Down);
    assert_eq!(Dir::Right.turn(Dir::Up), Dir::Up);
    assert_eq!(Dir::Right.turn(Dir::Down), Dir::Down);
    assert_eq!(Dir::Right.turn(Dir::Right), Dir::Right);
}

#[test]
fn contains_coord_finds_cells() {
    let v = vec![c(1, 2), c(3, 4)];
    assert!(contains_coord(&v, c(3, 4)));
    assert!(!contains_coord(&v, c(4, 3)));
}

#[test]
fn greedy_mover_walks_toward_food() {
    let snake = vec![c(5, 5)];
    let obstacles: Vec<Coord> = vec![];
    assert_eq!(choose_move_for_snake(&snake, &obstacles, c(7, 5)), Some(c(6, 5)));
    assert_eq!(choose_move_for_snake(&snake, &obstacles, c(5, 1)), Some(c(5, 4)));
}

#[test]
fn greedy_mover_tie_break_order() {
    // Right is blocked by the snake's own body; Up, Down and Left are
    // all at distance three from the food, so the first candidate in
    // the fixed order Up, Down, Left, Right wins.
    let snake = vec![c(5, 5), c(6, 5)];
    let obstacles: Vec<Coord> = vec![];
    assert_eq!(choose_move_for_snake(&snake, &obstacles, c(7, 5)), Some(c(5, 4)));
}

#[test]
fn greedy_mover_deterministic() {
    let snake = vec![c(5, 5), c(5, 6)];
    let obstacles = vec![c(4, 5)];
    let food = c(9, 9);
    let first = choose_move_for_snake(&snake, &obstacles, food);
    let second = choose_move_for_snake(&snake, &obstacles, food);
    assert_eq!(first, second);
}

#[test]
fn greedy_mover_reports_no_safe_move() {
    let snake = vec![c(0, 0)];
    let obstacles = vec![c(1, 0), c(0, 1)];
    assert_eq!(choose_move_for_snake(&snake, &obstacles, c(9, 9)), None);
}

#[test]
fn spawned_cells_avoid_exclusions() {
    let excluded = vec![c(0, 0), c(1, 0), c(2, 0)];
    for _ in 0..50 {
        let p = spawn_free_cell(&excluded).unwrap();
        assert!(in_bounds(p));
        assert!(!excluded.contains(&p));
    }
    let obstacles = vec![c(5, 5)];
    for _ in 0..50 {
        let f = spawn_food(&obstacles).unwrap();
        assert!(in_bounds(f));
        assert_ne!(f, c(5, 5));
        let b = spawn_block(&obstacles, f).unwrap();
        assert!(in_bounds(b));
        assert_ne!(b, c(5, 5));
        assert_ne!(b, f);
    }
}

#[test]
fn spawn_finds_the_single_free_cell() {
    // Exclude every cell except one; the spawner must return exactly
    // that cell, whatever the random draw was.
    let hole = c(31, 17);
    let mut excluded = Vec::new();
    for y in 0..GRID_HEIGHT {
        for x in 0..GRID_WIDTH {
            if !(x == hole.x && y == hole.y) {
                excluded.push(c(x, y));
            }
        }
    }
    assert_eq!(spawn_free_cell(&excluded), Ok(hole));
}

#[test]
fn spawn_fails_on_saturated_grid() {
    let mut excluded = Vec::new();
    for y in 0..GRID_HEIGHT {
        for x in 0..GRID_WIDTH {
            excluded.push(c(x, y));
        }
    }
    assert_eq!(spawn_free_cell(&excluded), Err(SpawnError::ExhaustedGrid));
}
