//! The single-snake simulator: one snake, manual or autopilot, advanced
//! one tick at a time with collision detection, growth on food and
//! shrink plus score penalty on the hazard.

use vstd::prelude::*;
use crate::grid::{Coord, Dir, GRID_WIDTH, GRID_HEIGHT, in_bounds_spec, in_bounds, no_duplicates,
    all_in_bounds, contains_coord};
use crate::mover::{choose_move_spec, choose_move_for_snake};
use crate::spawn::{spawn_food, spawn_block, spawn_cell_avoiding, covers_grid};
use crate::rules::{FOOD_REWARD, HAZARD_PENALTY, grown, moved, shrunk, shrunk_len, penalized,
    lemma_grown_contains, lemma_grown_wf, lemma_prefix_wf, lemma_hazard_shrink, lemma_score_floor};

verus! {

/// One snake's world: its body (head first), travel direction, score,
/// whether it steers itself, and the food and hazard cells.
pub struct SingleGame {
    pub snake: Vec<Coord>,
    pub dir: Dir,
    pub score: u32,
    pub auto_play: bool,
    pub food: Coord,
    pub block: Coord,
    pub game_over: bool,
}

impl SingleGame {
    /// Well-formedness: the body is non-empty, on the grid and free of
    /// self-overlap; while the game is live, food and hazard lie on the
    /// grid, disjoint from the body and from each other.
    pub open spec fn wf(self) -> bool {
        &&& self.snake@.len() >= 1
        &&& all_in_bounds(self.snake@)
        &&& no_duplicates(self.snake@)
        &&& in_bounds_spec(self.food)
        &&& in_bounds_spec(self.block)
        &&& !self.game_over ==> {
            &&& !self.snake@.contains(self.food)
            &&& !self.snake@.contains(self.block)
            &&& self.food != self.block
        }
    }

    /// Where this tick wants to move the head: one step along the
    /// current direction in manual play, the greedy move in autoplay.
    pub open spec fn intended_head_spec(self) -> Option<Coord> {
        if self.auto_play {
            choose_move_spec(self.snake@[0], self.snake@, Seq::<Coord>::empty(), self.food)
        } else {
            Some(self.dir.step_spec(self.snake@[0]))
        }
    }

    /// The greedy move for this snake, with no obstacles beyond its own
    /// body.
    pub fn choose_move(&self) -> (r: Option<Coord>)
        requires
            self.wf(),
        ensures
            r == choose_move_spec(self.snake@[0], self.snake@, Seq::<Coord>::empty(), self.food),
    {
        proof {
            assert(in_bounds_spec(self.snake@[0]));
        }
        let empty_obstacles: Vec<Coord> = Vec::new();
        let r = choose_move_for_snake(&self.snake, &empty_obstacles, self.food);
        proof {
            assert(empty_obstacles@ =~= Seq::<Coord>::empty());
        }
        r
    }
}

/// A fatal tick: the game ends and nothing else changes.
pub open spec fn dead_step(pre: SingleGame, post: SingleGame) -> bool {
    &&& post.snake@ == pre.snake@
    &&& post.score == pre.score
    &&& post.food == pre.food
    &&& post.block == pre.block
    &&& post.game_over
}

/// What one tick of the single-snake simulator does, for every outcome
/// of the random spawns: death on no move, wall or self-collision;
/// otherwise growth and reward on food with a fresh food cell, or shrink
/// and clamped penalty on the hazard with a fresh hazard cell, or a
/// plain move. A spawn that finds the grid saturated ends the game.
pub open spec fn single_tick_rel(pre: SingleGame, post: SingleGame) -> bool {
    &&& post.dir == pre.dir
    &&& post.auto_play == pre.auto_play
    &&& match pre.intended_head_spec() {
        None => dead_step(pre, post),
        Some(h) => {
            if !in_bounds_spec(h) || pre.snake@.contains(h) {
                dead_step(pre, post)
            } else if h == pre.food {
                let b = grown(pre.snake@, h);
                &&& post.snake@ == b
                &&& post.score == pre.score + FOOD_REWARD
                &&& post.block == pre.block
                &&& if covers_grid(b.push(pre.block)) {
                    post.food == pre.food && post.game_over
                } else {
                    &&& in_bounds_spec(post.food)
                    &&& !b.contains(post.food)
                    &&& post.food != pre.block
                    &&& !post.game_over
                }
            } else if h == pre.block {
                let b = shrunk(moved(pre.snake@, h));
                &&& post.snake@ == b
                &&& post.score == penalized(pre.score as int)
                &&& post.food == pre.food
                &&& if covers_grid(b.push(pre.food)) {
                    post.block == pre.block && post.game_over
                } else {
                    &&& in_bounds_spec(post.block)
                    &&& !b.contains(post.block)
                    &&& post.block != pre.food
                    &&& !post.game_over
                }
            } else {
                &&& post.snake@ == moved(pre.snake@, h)
                &&& post.score == pre.score
                &&& post.food == pre.food
                &&& post.block == pre.block
                &&& !post.game_over
            }
        },
    }
}

/// Growth law at the tick level: a live move onto food grows the body by
/// exactly one segment; one onto the hazard truncates it to
/// `max(1, len / 2)`, never longer than before; any other live move
/// keeps the length.
pub proof fn lemma_tick_growth(pre: SingleGame, post: SingleGame, h: Coord)
    requires
        pre.wf(),
        !pre.game_over,
        single_tick_rel(pre, post),
        pre.intended_head_spec() == Some(h),
        in_bounds_spec(h),
        !pre.snake@.contains(h),
    ensures
        h == pre.food ==> post.snake@.len() == pre.snake@.len() + 1,
        h == pre.block ==> post.snake@.len() == shrunk_len(pre.snake@.len() as int) && 1
            <= post.snake@.len() <= pre.snake@.len(),
        (h != pre.food && h != pre.block) ==> post.snake@.len() == pre.snake@.len(),
{
    if h == pre.block {
        lemma_hazard_shrink(moved(pre.snake@, h));
    }
}

/// Score law at the tick level: the score never goes negative; food
/// adds exactly the reward, and the hazard penalty clamps at zero and
/// never raises the score.
pub proof fn lemma_tick_score_floor(pre: SingleGame, post: SingleGame, h: Coord)
    requires
        pre.wf(),
        !pre.game_over,
        single_tick_rel(pre, post),
        pre.intended_head_spec() == Some(h),
        in_bounds_spec(h),
        !pre.snake@.contains(h),
    ensures
        post.score >= 0,
        h == pre.food ==> post.score == pre.score + FOOD_REWARD,
        h == pre.block ==> post.score == penalized(pre.score as int) && post.score <= pre.score,
        (h != pre.food && h != pre.block) ==> post.score == pre.score,
{
    if h == pre.block {
        lemma_score_floor(pre.score as int);
    }
}

impl SingleGame {
    /// Advance the game by one tick.
    pub fn tick(&mut self)
        requires
            old(self).wf(),
            !old(self).game_over,
            old(self).score + FOOD_REWARD <= u32::MAX,
        ensures
            final(self).wf(),
            single_tick_rel(*old(self), *final(self)),
    {
        proof {
            assert(in_bounds_spec(self.snake@[0]));
        }
        let new_head_opt = if self.auto_play {
            self.choose_move()
        } else {
            let head = self.snake[0];
            Some(self.dir.step(head))
        };
        let h = match new_head_opt {
            None => {
                self.game_over = true;
                return ;
            },
            Some(h) => h,
        };
        if !in_bounds(h) || contains_coord(&self.snake, h) {
            self.game_over = true;
            return ;
        }
        let ghost pre = *old(self);
        let ghost body0 = self.snake@;
        self.snake.insert(0, h);
        proof {
            assert(self.snake@ =~= grown(body0, h));
            lemma_grown_wf(body0, h);
        }
        if h == self.food {
            self.score = self.score + FOOD_REWARD;
            match spawn_cell_avoiding(&self.snake, self.block) {
                Ok(f) => {
                    self.food = f;
                    proof {
                        lemma_grown_contains(body0, h, self.block);
                    }
                },
                Err(_) => {
                    self.game_over = true;
                    return ;
                },
            }
        } else {
            let ghost before_pop = self.snake@;
            self.snake.pop();
            proof {
                assert(self.snake@ =~= moved(body0, h));
                lemma_prefix_wf(before_pop, before_pop.len() - 1);
                assert(moved(body0, h) =~= grown(body0, h).take(grown(body0, h).len() - 1));
            }
            if h == self.block {
                let ghost mid = self.snake@;
                let half = self.snake.len() / 2;
                let new_len = if half >= 1 {
                    half
                } else {
                    1
                };
                self.snake.truncate(new_len);
                proof {
                    assert(self.snake@ =~= shrunk(mid));
                    lemma_prefix_wf(mid, new_len as int);
                }
                self.score = if self.score >= HAZARD_PENALTY {
                    self.score - HAZARD_PENALTY
                } else {
                    0
                };
                match spawn_cell_avoiding(&self.snake, self.food) {
                    Ok(b) => {
                        self.block = b;
                        proof {
                            lemma_grown_contains(body0, h, self.food);
                            assert(!mid.contains(pre.food)) by {
                                if mid.contains(pre.food) {
                                    let i = choose|i: int|
                                        0 <= i < mid.len() && mid[i] == pre.food;
                                    assert(grown(body0, h)[i] == pre.food);
                                    assert(grown(body0, h).contains(pre.food));
                                }
                            }
                        }
                    },
                    Err(_) => {
                        self.game_over = true;
                        return ;
                    },
                }
            } else {
                proof {
                    lemma_grown_contains(body0, h, pre.food);
                    lemma_grown_contains(body0, h, pre.block);
                    assert(!moved(body0, h).contains(pre.food)) by {
                        if moved(body0, h).contains(pre.food) {
                            let i = choose|i: int|
                                0 <= i < moved(body0, h).len() && moved(body0, h)[i] == pre.food;
                            assert(grown(body0, h)[i] == pre.food);
                            assert(grown(body0, h).contains(pre.food));
                        }
                    }
                    assert(!moved(body0, h).contains(pre.block)) by {
                        if moved(body0, h).contains(pre.block) {
                            let i = choose|i: int|
                                0 <= i < moved(body0, h).len() && moved(body0, h)[i] == pre.block;
                            assert(grown(body0, h)[i] == pre.block);
                            assert(grown(body0, h).contains(pre.block));
                        }
                    }
                }
            }
        }
    }

    /// Self-collision invariant: while the game state is sound, no two
    /// segments of the snake occupy the same coordinate.
    pub proof fn lemma_no_self_collision(self)
        requires
            self.wf(),
        ensures
            no_duplicates(self.snake@),
    {
    }

    /// Disjointness invariant: while the game is live, food and hazard
    /// avoid the snake and each other.
    pub proof fn lemma_food_hazard_disjoint(self)
        requires
            self.wf(),
            !self.game_over,
        ensures
            !self.snake@.contains(self.food),
            !self.snake@.contains(self.block),
            self.food != self.block,
    {
    }

    /// A fresh single-snake game: length-one snake at the grid center
    /// heading right, score zero, food and hazard freshly spawned
    /// disjoint from the snake and from each other.
    pub fn reset(auto_play: bool) -> (g: SingleGame)
        ensures
            g.wf(),
            !g.game_over,
            g.snake@ =~= seq![
                Coord { x: (GRID_WIDTH / 2) as i32, y: (GRID_HEIGHT / 2) as i32 },
            ],
            g.dir == Dir::Right,
            g.score == 0,
            g.auto_play == auto_play,
    {
        let start = Coord { x: GRID_WIDTH / 2, y: GRID_HEIGHT / 2 };
        let mut snake: Vec<Coord> = Vec::new();
        snake.push(start);
        proof {
            let w = Coord { x: 0, y: 0 };
            assert(in_bounds_spec(w) && !snake@.contains(w)) by {
                if snake@.contains(w) {
                    let i = choose|i: int| 0 <= i < snake@.len() && snake@[i] == w;
                    assert(snake@[i] == start);
                }
            }
            assert(!covers_grid(snake@));
        }
        let food = match spawn_food(&snake) {
            Ok(f) => f,
            Err(_) => {
                proof {
                    assert(false);
                }
                Coord { x: 0, y: 0 }
            },
        };
        proof {
            let w0 = Coord { x: 0, y: 0 };
            let w1 = Coord { x: 0, y: 1 };
            let ghost ex = snake@.push(food);
            assert(!covers_grid(ex)) by {
                if covers_grid(ex) {
                    assert(in_bounds_spec(w0) && in_bounds_spec(w1));
                    assert(ex.contains(w0) && ex.contains(w1));
                    let i = choose|i: int| 0 <= i < ex.len() && ex[i] == w0;
                    let j = choose|j: int| 0 <= j < ex.len() && ex[j] == w1;
                    assert(i == 1 && j == 1);
                }
            }
        }
        let block = match spawn_block(&snake, food) {
            Ok(b) => b,
            Err(_) => {
                proof {
                    assert(false);
                }
                Coord { x: 0, y: 0 }
            },
        };
        SingleGame {
            snake,
            dir: Dir::Right,
            score: 0,
            auto_play,
            food,
            block,
            game_over: false,
        }
    }
}

} // verus!
