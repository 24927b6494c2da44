//! The greedy single-step mover used by the autoplay snake and the
//! competitive bot: among the safe neighbors of the head, pick the one
//! closest to the food by Manhattan distance, ties broken by the fixed
//! candidate order Up, Down, Left, Right.

use vstd::prelude::*;
use crate::grid::{Coord, Dir, in_bounds_spec, in_bounds, manhattan_spec, manhattan_distance,
    contains_coord};

verus! {

/// A candidate cell is safe iff it is on the grid and avoids both the
/// snake's own body and the extra obstacle set.
pub open spec fn cell_safe(p: Coord, snake: Seq<Coord>, obstacles: Seq<Coord>) -> bool {
    in_bounds_spec(p) && !snake.contains(p) && !obstacles.contains(p)
}

/// Fold step of the greedy choice: a safe candidate displaces the best
/// later candidate unless that one is strictly closer to the food, so
/// among equally close safe cells the earliest in candidate order wins.
pub open spec fn consider_spec(
    p: Coord,
    later: Option<Coord>,
    snake: Seq<Coord>,
    obstacles: Seq<Coord>,
    food: Coord,
) -> Option<Coord> {
    if !cell_safe(p, snake, obstacles) {
        later
    } else {
        match later {
            None => Some(p),
            Some(q) => if manhattan_spec(p, food) <= manhattan_spec(q, food) {
                Some(p)
            } else {
                Some(q)
            },
        }
    }
}

/// The greedy move from `head`: the safe neighbor closest to `food`,
/// with the fixed tie-break order Up, Down, Left, Right; `None` iff no
/// neighbor is safe.
pub open spec fn choose_move_spec(
    head: Coord,
    snake: Seq<Coord>,
    obstacles: Seq<Coord>,
    food: Coord,
) -> Option<Coord> {
    let after_right = consider_spec(Dir::Right.step_spec(head), None, snake, obstacles, food);
    let after_left = consider_spec(Dir::Left.step_spec(head), after_right, snake, obstacles, food);
    let after_down = consider_spec(Dir::Down.step_spec(head), after_left, snake, obstacles, food);
    consider_spec(Dir::Up.step_spec(head), after_down, snake, obstacles, food)
}

/// The mover is deterministic: identical head, body, obstacles and food
/// always give the same move.
pub proof fn lemma_choose_move_deterministic(
    head1: Coord,
    snake1: Seq<Coord>,
    obstacles1: Seq<Coord>,
    food1: Coord,
    head2: Coord,
    snake2: Seq<Coord>,
    obstacles2: Seq<Coord>,
    food2: Coord,
)
    requires
        head1 == head2,
        snake1 == snake2,
        obstacles1 == obstacles2,
        food1 == food2,
    ensures
        choose_move_spec(head1, snake1, obstacles1, food1) == choose_move_spec(
            head2,
            snake2,
            obstacles2,
            food2,
        ),
{
}

/// Exec counterpart of one fold step of the greedy choice.
fn consider(
    p: Coord,
    later: Option<Coord>,
    snake: &Vec<Coord>,
    obstacles: &Vec<Coord>,
    food: Coord,
) -> (r: Option<Coord>)
    requires
        in_bounds_spec(food),
        later matches Some(q) ==> in_bounds_spec(q),
    ensures
        r == consider_spec(p, later, snake@, obstacles@, food),
        r matches Some(q) ==> in_bounds_spec(q),
{
    if !in_bounds(p) || contains_coord(snake, p) || contains_coord(obstacles, p) {
        later
    } else {
        match later {
            None => Some(p),
            Some(q) => {
                if manhattan_distance(p, food) <= manhattan_distance(q, food) {
                    Some(p)
                } else {
                    Some(q)
                }
            },
        }
    }
}

/// Greedy move for the given snake: the safe neighbor of its head
/// closest to `food`; `None` signals that no safe move exists.
pub fn choose_move_for_snake(snake: &Vec<Coord>, obstacles: &Vec<Coord>, food: Coord) -> (r: Option<
    Coord,
>)
    requires
        snake@.len() >= 1,
        in_bounds_spec(snake@[0]),
        in_bounds_spec(food),
    ensures
        r == choose_move_spec(snake@[0], snake@, obstacles@, food),
        r matches Some(q) ==> cell_safe(q, snake@, obstacles@),
{
    let head = snake[0];
    let after_right = consider(Dir::Right.step(head), None, snake, obstacles, food);
    let after_left = consider(Dir::Left.step(head), after_right, snake, obstacles, food);
    let after_down = consider(Dir::Down.step(head), after_left, snake, obstacles, food);
    let r = consider(Dir::Up.step(head), after_down, snake, obstacles, food);
    r
}

} // verus!
